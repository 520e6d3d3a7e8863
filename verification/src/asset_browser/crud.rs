//! The create / copy / paste / rename requests of the browser's context menus.
use vstd::prelude::*;

use super::naming::{component_source_spec, script_source_spec, component_source, script_source, source_file_path};
use crate::path::{file_name, join, spec_file_name, spec_join};

verus! {

/// Pending file operations of the asset browser: the copied path, the names
/// waiting in the "new script" / "new component" dialogs, and a folder to
/// rename once the listing is rebuilt.
pub struct AssetBrowserCRUD {
    pub contents: Option<String>,
    pub should_refresh: bool,
    pub pending_new_script: Option<String>,
    pub pending_new_component: Option<String>,
    pub pending_rename: Option<String>,
}

/// A source file to write: its path and text.
pub struct NewSourceFile {
    pub path: String,
    pub content: String,
}

impl Default for AssetBrowserCRUD {
    fn default() -> (r: Self)
        ensures
            r.clipboard_spec() is None,
            !r.should_refresh,
            r.pending_new_script is None,
            r.pending_new_component is None,
            r.pending_rename is None,
    {
        AssetBrowserCRUD {
            contents: None,
            should_refresh: false,
            pending_new_script: None,
            pending_new_component: None,
            pending_rename: None,
        }
    }
}

impl AssetBrowserCRUD {
    /// The path copied with "Copy", if any.
    pub open spec fn clipboard_spec(&self) -> Option<Seq<char>> {
        match self.contents {
            Some(p) => Some(p@),
            None => None,
        }
    }

    /// Opens the "new script" dialog with the suggested name `new_script`.
    pub fn create_script(&mut self)
        ensures
            final(self).pending_new_script matches Some(n) && n@ == "new_script"@,
            final(self).pending_new_component == old(self).pending_new_component,
            final(self).pending_rename == old(self).pending_rename,
            final(self).should_refresh == old(self).should_refresh,
            final(self).clipboard_spec() == old(self).clipboard_spec(),
    {
        self.pending_new_script = Some(String::from_str("new_script"));
    }

    /// Opens the "new component" dialog with the suggested name `new_component`.
    pub fn create_component(&mut self)
        ensures
            final(self).pending_new_component matches Some(n) && n@ == "new_component"@,
            final(self).pending_new_script == old(self).pending_new_script,
            final(self).pending_rename == old(self).pending_rename,
            final(self).should_refresh == old(self).should_refresh,
            final(self).clipboard_spec() == old(self).clipboard_spec(),
    {
        self.pending_new_component = Some(String::from_str("new_component"));
    }

    /// Records a folder made with "New Folder": it is renamed once the listing
    /// is rebuilt, which is asked for.
    pub fn folder_created(&mut self, path: String)
        ensures
            final(self).pending_rename matches Some(p) && p@ == path@,
            final(self).should_refresh,
            final(self).pending_new_script == old(self).pending_new_script,
            final(self).pending_new_component == old(self).pending_new_component,
            final(self).clipboard_spec() == old(self).clipboard_spec(),
    {
        self.pending_rename = Some(path);
        self.should_refresh = true;
    }

    /// "Copy": remembers the path.
    pub fn copy(&mut self, path: String)
        ensures
            final(self).clipboard_spec() == Some(path@),
            final(self).should_refresh == old(self).should_refresh,
            final(self).pending_new_script == old(self).pending_new_script,
            final(self).pending_new_component == old(self).pending_new_component,
            final(self).pending_rename == old(self).pending_rename,
    {
        self.contents = Some(path);
    }

    /// The copied path; "Paste" is offered only when there is one.
    pub fn clipboard(&self) -> (r: Option<String>)
        ensures
            r matches Some(p) ==> self.clipboard_spec() == Some(p@),
            r is None ==> self.clipboard_spec() is None,
    {
        match &self.contents {
            Some(p) => Some(p.clone()),
            None => None,
        }
    }

    /// The source file a confirmed "new component" dialog writes in `dir`:
    /// `name.rs`, holding the component template rendered for `name`.
    pub fn component_file(dir: &str, name: &str, template: &str) -> (r: NewSourceFile)
        ensures
            r.path@ == spec_join(dir@, name@ + ".rs"@),
            r.content@ == component_source_spec(template@, name@),
    {
        NewSourceFile { path: source_file_path(dir, name), content: component_source(template, name) }
    }

    /// The source file a confirmed "new script" dialog writes in `dir`:
    /// `name.rs`, holding the script template rendered for `name`.
    pub fn script_file(dir: &str, name: &str, template: &str) -> (r: NewSourceFile)
        ensures
            r.path@ == spec_join(dir@, name@ + ".rs"@),
            r.content@ == script_source_spec(template@, name@),
    {
        NewSourceFile { path: source_file_path(dir, name), content: script_source(template, name) }
    }

    /// Where moving the entry at `src` into the folder `dest` puts it: `dest`
    /// joined with `src`'s file name.
    pub fn move_target(src: &str, dest: &str) -> (r: String)
        requires
            spec_file_name(src@) is Some,
        ensures
            r@ == spec_join(dest@, spec_file_name(src@).unwrap()),
    {
        let n = file_name(src).unwrap();
        join(dest, n.as_str())
    }
}

} // verus!
