//! The button the browser draws for one file or folder, and its in-place rename.
use vstd::prelude::*;

use crate::path::{
    file_name, join, parent, spec_extension, spec_file_name, spec_file_stem, spec_join,
    spec_parent, split_file_name,
};
use crate::text::{chars_of, extend_chars, string_from_chars, trim_spec, trim_text};

verus! {

/// A button for one entry of the browsed directory.
pub struct FileButton {
    file_path: String,
    name: String,
    is_renaming: bool,
    shoud_refresh: bool,
}

/// What a [`FileButton`] holds.
pub struct FileButtonView {
    pub path: Seq<char>,
    pub name: Seq<char>,
    pub is_renaming: bool,
    pub should_refresh: bool,
}

impl View for FileButton {
    type V = FileButtonView;

    closed spec fn view(&self) -> FileButtonView {
        FileButtonView {
            path: self.file_path@,
            name: self.name@,
            is_renaming: self.is_renaming,
            should_refresh: self.shoud_refresh,
        }
    }
}

/// Why a rename cannot go ahead.
#[derive(PartialEq, Eq, Structural, Debug, Clone, Copy)]
pub enum RenameError {
    /// The new name, trimmed, names no file.
    EmptyName,
}

/// Where a rename moves an entry, and, for a file with an extension, where
/// its sidecar goes.
pub struct RenamePlan {
    pub new_path: String,
    pub new_sidecar_path: Option<String>,
}

/// The extension of the file a path names.
pub open spec fn path_extension(path: Seq<char>) -> Option<Seq<char>> {
    match spec_file_name(path) {
        Some(n) => spec_extension(n),
        None => None,
    }
}

/// The stem a typed name gives a renamed entry: the stem of the file name of
/// the trimmed text, if it has one and the stem is not empty.
pub open spec fn rename_stem(typed: Seq<char>) -> Option<Seq<char>> {
    match spec_file_name(trim_spec(typed)) {
        Some(n) => if spec_file_stem(n).len() > 0 {
            Some(spec_file_stem(n))
        } else {
            None
        },
        None => None,
    }
}

/// The path an entry at `path` moves to when renamed to `typed`: the new stem
/// with the old extension, in the same parent.
pub open spec fn renamed_path(path: Seq<char>, stem: Seq<char>) -> Seq<char> {
    let dir = spec_parent(path).unwrap();
    match path_extension(path) {
        Some(e) => spec_join(dir, stem + seq!['.'] + e),
        None => spec_join(dir, stem),
    }
}

/// The sidecar path of the renamed entry: `stem.ext.passet` in the same
/// parent, for a file with an extension.
pub open spec fn renamed_sidecar(path: Seq<char>, stem: Seq<char>) -> Option<Seq<char>> {
    let dir = spec_parent(path).unwrap();
    match path_extension(path) {
        Some(e) => Some(spec_join(dir, stem + seq!['.'] + e + "."@ + "passet"@)),
        None => None,
    }
}

impl FileButton {
    /// A button holds a path that names a file or folder.
    pub open spec fn wf(&self) -> bool {
        spec_file_name(self@.path) is Some
    }

    /// A button for the entry at `file_path`, labelled with its file name.
    pub fn new(file_path: String) -> (r: Self)
        requires
            spec_file_name(file_path@) is Some,
        ensures
            r@.path == file_path@,
            r@.name == spec_file_name(file_path@).unwrap(),
            !r@.is_renaming,
            !r@.should_refresh,
            r.wf(),
    {
        let name = FileButton::parse_file_name(&file_path);
        Self { file_path, name: name, is_renaming: false, shoud_refresh: false }
    }

    /// Starts editing the label.
    pub fn start_rename(&mut self)
        ensures
            final(self)@ == (FileButtonView { is_renaming: true, ..old(self)@ }),
    {
        self.is_renaming = true;
    }

    /// Whether a rename finished since the button was made.
    pub fn is_renamed(&self) -> (r: bool)
        ensures
            r == self@.should_refresh,
    {
        self.shoud_refresh
    }

    /// The entry's path.
    pub fn get_path(&self) -> (r: String)
        ensures
            r@ == self@.path,
    {
        self.file_path.clone()
    }

    /// Whether the label is being edited.
    pub fn is_renaming(&self) -> (r: bool)
        ensures
            r == self@.is_renaming,
    {
        self.is_renaming
    }

    /// The label text.
    pub fn name(&self) -> (r: String)
        ensures
            r@ == self@.name,
    {
        self.name.clone()
    }

    /// Replaces the label text with what the user typed.
    pub fn set_name(&mut self, name: String)
        ensures
            final(self)@ == (FileButtonView { name: name@, ..old(self)@ }),
    {
        self.name = name;
    }

    /// Ends editing the label, whether or not the rename went through; the
    /// browser then rebuilds its entries.
    pub fn finish_rename(&mut self)
        ensures
            final(self)@ == (FileButtonView {
                is_renaming: false,
                should_refresh: true,
                ..old(self)@
            }),
    {
        self.is_renaming = false;
        self.shoud_refresh = true;
    }

    /// Records that the entry now lives at `new_path`, a path that names a
    /// file or folder.
    pub fn moved_to(&mut self, new_path: String)
        requires
            spec_file_name(new_path@) is Some,
        ensures
            final(self)@ == (FileButtonView { path: new_path@, ..old(self)@ }),
            final(self).wf(),
    {
        self.file_path = new_path;
    }

    /// Where renaming the entry to the label text moves it and its sidecar;
    /// an error when the trimmed label names no file.
    pub fn rename_plan(&self) -> (r: Result<RenamePlan, RenameError>)
        requires
            self.wf(),
        ensures
            rename_stem(self@.name) is None <==> r is Err,
            r matches Err(e) ==> e == RenameError::EmptyName,
            r matches Ok(p) ==> ({
                let stem = rename_stem(self@.name).unwrap();
                &&& p.new_path@ == renamed_path(self@.path, stem)
                &&& p.new_sidecar_path matches Some(s) ==> renamed_sidecar(self@.path, stem)
                    == Some(s@)
                &&& p.new_sidecar_path is None ==> renamed_sidecar(self@.path, stem) is None
            }),
    {
        let trimmed = trim_text(self.name.as_str());
        let stem = match file_name(trimmed.as_str()) {
            Some(n) => {
                let (s, _) = split_file_name(n.as_str());
                s
            },
            None => {
                return Err(RenameError::EmptyName);
            },
        };
        if stem.as_str().is_empty() {
            return Err(RenameError::EmptyName);
        }
        let own = file_name(self.file_path.as_str()).unwrap();
        let (_, ext) = split_file_name(own.as_str());
        let dir = parent(self.file_path.as_str()).unwrap();
        match ext {
            Some(e) => {
                let mut n = chars_of(stem.as_str());
                n.push('.');
                extend_chars(&mut n, e.as_str());
                let new_name = string_from_chars(&n);
                extend_chars(&mut n, ".");
                extend_chars(&mut n, "passet");
                let side_name = string_from_chars(&n);
                let new_path = join(dir.as_str(), new_name.as_str());
                let side = join(dir.as_str(), side_name.as_str());
                Ok(RenamePlan { new_path, new_sidecar_path: Some(side) })
            },
            None => {
                let new_path = join(dir.as_str(), stem.as_str());
                Ok(RenamePlan { new_path, new_sidecar_path: None })
            },
        }
    }

    /// The label for the entry at `entry`: its file name.
    pub fn parse_file_name(entry: &String) -> (r: String)
        requires
            spec_file_name(entry@) is Some,
        ensures
            r@ == spec_file_name(entry@).unwrap(),
    {
        file_name(entry.as_str()).unwrap()
    }
}

} // verus!
