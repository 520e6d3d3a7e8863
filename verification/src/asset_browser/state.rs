//! The asset browser's state between frames: the folder trail, the entries
//! and buttons of the current folder, and when to rebuild them.
use vstd::prelude::*;

use super::crud::AssetBrowserCRUD;
use super::entries::{is_shown, visible_entries, DirItem};
use super::file_button::FileButton;
use crate::path::{is_plain_name, join, lemma_join_plain_name, spec_join};
use crate::sorting::{keeps_order_of_equals, sorted_by_key};

verus! {

broadcast use vstd::seq_lib::group_to_multiset_ensures;

/// What the browser keeps between frames. The icon size and grid spacing,
/// which are floating-point, are kept by the drawing code.
pub struct AssetBrowserState {
    pub grid_length: usize,
    /// The folders from the project root down to the current one.
    pub directory_nav_paths: Vec<String>,
    /// One button per entry of the current folder, in display order.
    pub directory_file_buttons: Vec<FileButton>,
    /// The entries of the current folder, in display order.
    pub entries: Vec<DirItem>,
    pub crud: AssetBrowserCRUD,
    /// The entries must be read again before the next frame.
    pub should_create_entries: bool,
}

/// What a click on an entry's button asks for.
#[derive(PartialEq, Eq, Structural, Debug, Clone, Copy)]
pub enum EntryClick {
    /// The folder was entered.
    EnteredDirectory,
    /// The file is to be opened with the system's default program.
    OpenFile,
    /// Neither a folder nor a file: nothing to do.
    Ignored,
}

/// The kind of a directory entry.
#[derive(PartialEq, Eq, Structural, Debug, Clone, Copy)]
pub enum EntryKind {
    Directory,
    File,
    Other,
}

/// How a "new script" / "new component" dialog ends this frame.
#[derive(Debug)]
pub enum DialogOutcome {
    /// Create the file with this name.
    Create(String),
    /// The dialog stays open with this text.
    KeepOpen(String),
    /// The dialog is cancelled.
    Close,
}

/// The folder trail after entering `dir`.
pub open spec fn entered(trail: Seq<String>, dir: String) -> Seq<String> {
    trail.push(dir)
}

/// The folder trail after a click on its `index`-th folder: the trail up to
/// and including it.
pub open spec fn crumb_trail(trail: Seq<String>, index: int) -> Seq<String> {
    if index == trail.len() - 1 {
        trail
    } else {
        trail.take(index + 1)
    }
}

/// The buttons for `entries` in the folder `dir`, the first one whose path
/// is `rename` (if any) in rename mode.
pub open spec fn buttons_match(
    buttons: Seq<FileButton>,
    entries: Seq<DirItem>,
    dir: Seq<char>,
    rename: Option<String>,
) -> bool {
    &&& buttons.len() == entries.len()
    &&& forall|i: int|
        0 <= i < buttons.len() ==> {
            &&& (#[trigger] buttons[i])@.path == spec_join(dir, entries[i].name@)
            &&& buttons[i]@.name == entries[i].name@
            &&& !buttons[i]@.should_refresh
            &&& buttons[i].wf()
            &&& buttons[i]@.is_renaming == (rename matches Some(p) && p@ == buttons[i]@.path
                && forall|k: int| 0 <= k < i ==> buttons[k]@.path != p@)
        }
}

impl AssetBrowserState {
    /// A browser that has not opened any folder yet.
    pub fn new() -> (r: Self)
        ensures
            r.grid_length == 5,
            r.directory_nav_paths@.len() == 0,
            r.directory_file_buttons@.len() == 0,
            r.entries@.len() == 0,
            r.should_create_entries,
            r.crud.clipboard_spec() is None,
            !r.crud.should_refresh,
            r.crud.pending_new_script is None,
            r.crud.pending_new_component is None,
            r.crud.pending_rename is None,
    {
        Self {
            grid_length: 5,
            directory_nav_paths: Vec::new(),
            directory_file_buttons: Vec::new(),
            entries: Vec::new(),
            crud: AssetBrowserCRUD::default(),
            should_create_entries: true,
        }
    }

    /// The folder being shown: the last one of the trail.
    pub fn current_dir(&self) -> (r: String)
        requires
            self.directory_nav_paths@.len() > 0,
        ensures
            r == self.directory_nav_paths@.last(),
    {
        self.directory_nav_paths[self.directory_nav_paths.len() - 1].clone()
    }

    /// Starts the trail at the project root when it is empty.
    pub fn ensure_root(&mut self, project_path: String)
        ensures
            final(self).directory_nav_paths@ == if old(self).directory_nav_paths@.len() == 0 {
                seq![project_path]
            } else {
                old(self).directory_nav_paths@
            },
            final(self).directory_file_buttons@ == old(self).directory_file_buttons@,
            final(self).entries@ == old(self).entries@,
            final(self).should_create_entries == old(self).should_create_entries,
            final(self).crud == old(self).crud,
            final(self).grid_length == old(self).grid_length,
    {
        if self.directory_nav_paths.len() == 0 {
            self.directory_nav_paths.push(project_path);
        }
    }

    /// Rebuilds the entries and buttons of the current folder from its
    /// listing, and puts the button of a just-made folder in rename mode.
    pub fn refresh_entries(&mut self, listing: Vec<DirItem>)
        requires
            old(self).directory_nav_paths@.len() > 0,
            forall|i: int| 0 <= i < listing@.len() ==> is_plain_name(#[trigger] listing@[i].name@),
        ensures
            final(self).entries@.to_multiset() == listing@.filter(|e: DirItem| is_shown(e)).to_multiset(),
            sorted_by_key(final(self).entries@),
            keeps_order_of_equals(final(self).entries@, listing@.filter(|e: DirItem| is_shown(e))),
            buttons_match(
                final(self).directory_file_buttons@,
                final(self).entries@,
                old(self).directory_nav_paths@.last()@,
                old(self).crud.pending_rename,
            ),
            !final(self).should_create_entries,
            final(self).crud.pending_rename is None,
            final(self).crud.should_refresh == old(self).crud.should_refresh,
            final(self).crud.pending_new_script == old(self).crud.pending_new_script,
            final(self).crud.pending_new_component == old(self).crud.pending_new_component,
            final(self).crud.clipboard_spec() == old(self).crud.clipboard_spec(),
            final(self).directory_nav_paths@ == old(self).directory_nav_paths@,
            final(self).grid_length == old(self).grid_length,
    {
        let ghost shown = listing@.filter(|e: DirItem| is_shown(e));
        proof {
            assert forall|x: DirItem| shown.contains(x) implies is_plain_name(x.name@) by {
                listing@.lemma_filter_contains_rev(|e: DirItem| is_shown(e), x);
            }
        }
        let entries = visible_entries(listing);
        proof {
            assert forall|i: int| 0 <= i < entries@.len() implies is_plain_name(
                #[trigger] entries@[i].name@,
            ) by {
                assert(entries@.to_multiset().count(entries@[i]) > 0);
                assert(shown.to_multiset().count(entries@[i]) > 0);
                assert(shown.contains(entries@[i]));
            }
        }
        let dir = self.current_dir();
        let rename = self.crud.pending_rename.take();
        let mut buttons: Vec<FileButton> = Vec::new();
        let mut found = false;
        let mut i: usize = 0;
        while i < entries.len()
            invariant
                i <= entries.len(),
                forall|k: int| 0 <= k < entries@.len() ==> is_plain_name(#[trigger] entries@[k].name@),
                buttons_match(buttons@, entries@.take(i as int), dir@, rename),
                found == (rename matches Some(p) && exists|k: int|
                    0 <= k < i && #[trigger] buttons@[k]@.path == p@),
            decreases entries.len() - i,
        {
            let path = join(dir.as_str(), entries[i].name.as_str());
            proof {
                lemma_join_plain_name(dir@, entries@[i as int].name@);
            }
            let mut b = FileButton::new(path);
            let ghost before = buttons@;
            let ghost was_found = found;
            match &rename {
                Some(p) => {
                    if !found && b.get_path() == *p {
                        b.start_rename();
                        found = true;
                    }
                },
                None => {},
            }
            buttons.push(b);
            proof {
                let bi = buttons@[i as int];
                assert(bi == b);
                assert(entries@.take(i + 1)[i as int] == entries@[i as int]);
                if rename is Some {
                    let p = rename->0;
                    {
                        if was_found {
                            let m = choose|m: int| 0 <= m < i && #[trigger] before[m]@.path == p@;
                            assert(buttons@[m] == before[m]);
                            assert(!bi@.is_renaming);
                            assert(found);
                        } else {
                            assert forall|m: int| 0 <= m < i implies buttons@[m]@.path != p@ by {
                                assert(buttons@[m] == before[m]);
                                if before[m]@.path == p@ {
                                    assert(exists|k: int| 0 <= k < i && #[trigger] before[k]@.path == p@);
                                }
                            }
                            if bi@.path == p@ {
                                assert(found && buttons@[i as int]@.path == p@);
                            } else {
                                assert(!found);
                                assert forall|k: int| 0 <= k < i + 1 implies #[trigger] buttons@[k]@.path != p@ by {
                                    if k < i {
                                        assert(buttons@[k] == before[k]);
                                    }
                                }
                            }
                        }
                    }
                }
                assert forall|k: int| 0 <= k < i + 1 implies {
                    &&& (#[trigger] buttons@[k])@.path == spec_join(dir@, entries@.take(i + 1)[k].name@)
                    &&& buttons@[k]@.name == entries@.take(i + 1)[k].name@
                    &&& !buttons@[k]@.should_refresh
                    &&& buttons@[k].wf()
                    &&& buttons@[k]@.is_renaming == (rename matches Some(p) && p@ == buttons@[k]@.path
                        && forall|m: int| 0 <= m < k ==> buttons@[m]@.path != p@)
                } by {
                    if k < i {
                        assert(buttons@[k] == before[k]);
                        assert(entries@.take(i + 1)[k] == entries@.take(i as int)[k]);
                        assert forall|m: int| 0 <= m < k implies buttons@[m] == before[m] by {}
                    }
                }
                if found {
                    if rename is Some {
                        let p = rename->0;
                        {
                            if was_found {
                                let m = choose|m: int| 0 <= m < i && #[trigger] before[m]@.path == p@;
                                assert(buttons@[m] == before[m]);
                                assert(exists|k: int| 0 <= k < i + 1 && #[trigger] buttons@[k]@.path == p@);
                            } else {
                                assert(buttons@[i as int]@.path == p@);
                            }
                        }
                    }
                }
            }
            i = i + 1;
        }
        assert(entries@.take(i as int) =~= entries@);
        self.entries = entries;
        self.directory_file_buttons = buttons;
        self.should_create_entries = false;
    }

    /// After a frame: the entries are read again when a button finished a
    /// rename or an operation asked for it; that request is then consumed.
    pub fn sync_refresh_flags(&mut self)
        ensures
            final(self).should_create_entries == (old(self).should_create_entries || old(
                self,
            ).crud.should_refresh || exists|i: int|
                0 <= i < old(self).directory_file_buttons@.len()
                    && (#[trigger] old(self).directory_file_buttons@[i])@.should_refresh),
            !final(self).crud.should_refresh,
            final(self).crud.pending_rename == old(self).crud.pending_rename,
            final(self).crud.pending_new_script == old(self).crud.pending_new_script,
            final(self).crud.pending_new_component == old(self).crud.pending_new_component,
            final(self).crud.clipboard_spec() == old(self).crud.clipboard_spec(),
            final(self).directory_nav_paths@ == old(self).directory_nav_paths@,
            final(self).directory_file_buttons@ == old(self).directory_file_buttons@,
            final(self).entries@ == old(self).entries@,
            final(self).grid_length == old(self).grid_length,
    {
        let mut i: usize = 0;
        while i < self.directory_file_buttons.len()
            invariant
                i <= self.directory_file_buttons@.len(),
                self.directory_file_buttons@ == old(self).directory_file_buttons@,
                self.directory_nav_paths@ == old(self).directory_nav_paths@,
                self.entries@ == old(self).entries@,
                self.crud == old(self).crud,
                self.grid_length == old(self).grid_length,
                self.should_create_entries == (old(self).should_create_entries || exists|k: int|
                    0 <= k < i && (#[trigger] old(self).directory_file_buttons@[k])@.should_refresh),
            decreases self.directory_file_buttons@.len() - i,
        {
            if self.directory_file_buttons[i].is_renamed() {
                self.should_create_entries = true;
            }
            i = i + 1;
        }
        if self.crud.should_refresh {
            self.should_create_entries = true;
            self.crud.should_refresh = false;
        }
    }

    /// A click on an entry's button: a folder is entered, a file is to be
    /// opened, anything else is ignored.
    pub fn open_entry(&mut self, path: String, kind: EntryKind) -> (r: EntryClick)
        ensures
            kind == EntryKind::Directory ==> r == EntryClick::EnteredDirectory
                && final(self).directory_nav_paths@ == entered(old(self).directory_nav_paths@, path)
                && final(self).should_create_entries,
            kind == EntryKind::File ==> r == EntryClick::OpenFile,
            kind == EntryKind::Other ==> r == EntryClick::Ignored,
            kind != EntryKind::Directory ==> final(self).directory_nav_paths@ == old(
                self,
            ).directory_nav_paths@ && final(self).should_create_entries == old(
                self,
            ).should_create_entries,
            final(self).directory_file_buttons@ == old(self).directory_file_buttons@,
            final(self).entries@ == old(self).entries@,
            final(self).crud == old(self).crud,
            final(self).grid_length == old(self).grid_length,
    {
        match kind {
            EntryKind::Directory => {
                self.directory_nav_paths.push(path);
                self.should_create_entries = true;
                EntryClick::EnteredDirectory
            },
            EntryKind::File => EntryClick::OpenFile,
            EntryKind::Other => EntryClick::Ignored,
        }
    }

    /// A click on the `index`-th folder of the trail: the trail is cut back
    /// to it and the entries are read again.
    pub fn crumb_clicked(&mut self, index: usize)
        requires
            index < old(self).directory_nav_paths@.len(),
        ensures
            final(self).directory_nav_paths@ == crumb_trail(old(self).directory_nav_paths@, index as int),
            final(self).should_create_entries,
            final(self).directory_file_buttons@ == old(self).directory_file_buttons@,
            final(self).entries@ == old(self).entries@,
            final(self).crud == old(self).crud,
            final(self).grid_length == old(self).grid_length,
    {
        let last_index = self.directory_nav_paths.len() - 1;
        if index != last_index {
            self.directory_nav_paths.truncate(index + 1);
        }
        self.should_create_entries = true;
    }

    /// How a name dialog ends: a confirmed non-empty name is created; an
    /// empty or unconfirmed one stays in the dialog unless it was cancelled.
    pub fn resolve_name_dialog(name: String, confirm: bool, cancel: bool) -> (r: DialogOutcome)
        ensures
            confirm && name@.len() > 0 ==> r == DialogOutcome::Create(name),
            !(confirm && name@.len() > 0) && !cancel ==> r == DialogOutcome::KeepOpen(name),
            !(confirm && name@.len() > 0) && cancel ==> r == DialogOutcome::Close,
    {
        if confirm && !name.as_str().is_empty() {
            DialogOutcome::Create(name)
        } else if !cancel {
            DialogOutcome::KeepOpen(name)
        } else {
            DialogOutcome::Close
        }
    }
}

/// Entering a folder and then clicking the trail's previous last folder
/// brings the trail back to what it was.
pub proof fn lemma_enter_then_back(trail: Seq<String>, dir: String)
    requires
        trail.len() > 0,
    ensures
        crumb_trail(entered(trail, dir), trail.len() - 1) == trail,
        entered(trail, dir).last() == dir,
{
    assert(trail.push(dir).take(trail.len() as int) =~= trail);
}

/// Entering a folder adds exactly that folder to the trail: the trail grows
/// by one, keeps every folder it had, and ends with the entered one.
pub proof fn lemma_enter_appends_one(trail: Seq<String>, dir: String)
    ensures
        entered(trail, dir).len() == trail.len() + 1,
        forall|k: int| 0 <= k < trail.len() ==> #[trigger] entered(trail, dir)[k] == trail[k],
        entered(trail, dir)[trail.len() as int] == dir,
{
}

/// A click on a folder of the trail makes it the current folder and keeps
/// the folders above it.
pub proof fn lemma_crumb_current(trail: Seq<String>, index: int)
    requires
        0 <= index < trail.len(),
    ensures
        crumb_trail(trail, index).last() == trail[index],
        crumb_trail(trail, index).len() == index + 1,
        forall|k: int| 0 <= k <= index ==> #[trigger] crumb_trail(trail, index)[k] == trail[k],
{
}

} // verus!
