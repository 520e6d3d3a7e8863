//! Workspaces: named sets of panels the editor opens as tabs, the built-in
//! presets, and the catalogue of workspaces that can be opened.
use vstd::prelude::*;

use crate::panels::Panels;
use crate::path::{join, spec_join};
use crate::text::{chars_of, extend_chars, string_from_chars, text_eq};

verus! {

/// A workspace layout that ships with the editor.
#[derive(Debug, Clone, Copy, PartialEq, Eq, Structural)]
pub enum BuiltInWorkspace {
    LevelEditor,
}

/// Where a workspace's layout comes from.
#[derive(Clone, Copy, PartialEq, Eq, Structural)]
pub enum WorkspaceKind {
    BuiltIn(BuiltInWorkspace),
    Custom,
}

/// A workspace the user configured.
pub struct WorkspaceConfig {
    pub name: String,
    pub kind: WorkspaceKind,
    pub panels: Vec<Panels>,
}

/// A workspace the editor can open: its name, its kind and its panels.
pub struct WorkspaceDescriptor {
    pub name: &'static str,
    pub kind: BuiltInWorkspace,
    pub panels: Vec<Panels>,
}

/// Factory for the editor's built-in workspaces.
pub struct WorkspacePresets;

/// The panels of the level editor, in tab order.
pub open spec fn level_editor_panels() -> Seq<Panels> {
    seq![
        Panels::Viewport,
        Panels::Hierarchy,
        Panels::Inspector,
        Panels::Console,
        Panels::AssetBrowser,
    ]
}

/// The level editor preset.
pub open spec fn is_level_editor(d: WorkspaceDescriptor) -> bool {
    &&& d.name@ == "Level Editor"@
    &&& d.kind == BuiltInWorkspace::LevelEditor
    &&& d.panels@ == level_editor_panels()
}

impl WorkspacePresets {
    /// The "Level Editor" workspace: viewport, hierarchy, inspector, console
    /// and asset browser.
    pub fn level_editor() -> (r: WorkspaceDescriptor)
        ensures
            is_level_editor(r),
    {
        let mut panels: Vec<Panels> = Vec::new();
        panels.push(Panels::Viewport);
        panels.push(Panels::Hierarchy);
        panels.push(Panels::Inspector);
        panels.push(Panels::Console);
        panels.push(Panels::AssetBrowser);
        assert(panels@ =~= level_editor_panels());
        WorkspaceDescriptor { name: "Level Editor", kind: BuiltInWorkspace::LevelEditor, panels }
    }

    /// Every built-in preset: the level editor.
    pub fn all() -> (r: Vec<WorkspaceDescriptor>)
        ensures
            r@.len() == 1,
            is_level_editor(r@[0]),
    {
        let mut v: Vec<WorkspaceDescriptor> = Vec::new();
        v.push(Self::level_editor());
        v
    }
}

/// Path of the saved layout of the workspace `name`: `layouts/<name>.json`
/// in the editor's configuration directory.
pub fn layout_file(config_dir: &str, name: &str) -> (r: String)
    ensures
        r@ == spec_join(spec_join(config_dir@, "layouts"@), name@ + ".json"@),
{
    let dir = join(config_dir, "layouts");
    let mut v = chars_of(name);
    extend_chars(&mut v, ".json");
    let file = string_from_chars(&v);
    join(dir.as_str(), file.as_str())
}

/// The workspaces that can be opened, by name; a later registration under a
/// name replaces the earlier one.
pub struct WorkspaceCatalog {
    entries: Vec<WorkspaceDescriptor>,
}

/// Position of the descriptor named `name` in `s`, or -1.
pub open spec fn position_of(s: Seq<WorkspaceDescriptor>, name: Seq<char>) -> int
    decreases s.len(),
{
    if s.len() == 0 {
        -1
    } else if s.last().name@ == name {
        s.len() - 1
    } else {
        position_of(s.drop_last(), name)
    }
}

impl View for WorkspaceCatalog {
    type V = Seq<WorkspaceDescriptor>;

    closed spec fn view(&self) -> Seq<WorkspaceDescriptor> {
        self.entries@
    }
}

/// No two descriptors share a name.
pub open spec fn names_unique(s: Seq<WorkspaceDescriptor>) -> bool {
    forall|i: int, j: int| 0 <= i < j < s.len() ==> (#[trigger] s[i]).name@ != (#[trigger] s[j]).name@
}

/// The descriptor registered under `name`.
pub open spec fn catalog_get(s: Seq<WorkspaceDescriptor>, name: Seq<char>) -> Option<WorkspaceDescriptor> {
    if position_of(s, name) >= 0 {
        Some(s[position_of(s, name)])
    } else {
        None
    }
}

proof fn lemma_position_of(s: Seq<WorkspaceDescriptor>, name: Seq<char>)
    ensures
        -1 <= position_of(s, name) < s.len(),
        position_of(s, name) >= 0 ==> s[position_of(s, name)].name@ == name,
        position_of(s, name) == -1 ==> forall|i: int| 0 <= i < s.len() ==> (#[trigger] s[i]).name@ != name,
    decreases s.len(),
{
    if s.len() > 0 && s.last().name@ != name {
        lemma_position_of(s.drop_last(), name);
        assert forall|i: int| 0 <= i < s.len() - 1 implies s.drop_last()[i] == s[i] by {}
    }
}

proof fn lemma_position_unique(s: Seq<WorkspaceDescriptor>, name: Seq<char>, i: int)
    requires
        names_unique(s),
        0 <= i < s.len(),
        s[i].name@ == name,
    ensures
        position_of(s, name) == i,
    decreases s.len(),
{
    if i < s.len() - 1 {
        assert(s.last() == s[s.len() - 1]);
        assert(s.drop_last()[i] == s[i]);
        assert forall|a: int, b: int| 0 <= a < b < s.drop_last().len() implies (#[trigger] s.drop_last()[a]).name@
            != (#[trigger] s.drop_last()[b]).name@ by {
            assert(s.drop_last()[a] == s[a]);
            assert(s.drop_last()[b] == s[b]);
        }
        lemma_position_unique(s.drop_last(), name, i);
    }
}

impl WorkspaceCatalog {
    /// Descriptors of the catalogue have distinct names.
    pub open spec fn wf(&self) -> bool {
        names_unique(self@)
    }

    /// A catalogue holding every built-in preset.
    pub fn with_presets() -> (r: Self)
        ensures
            r.wf(),
            r@.len() == 1,
            is_level_editor(r@[0]),
    {
        WorkspaceCatalog { entries: WorkspacePresets::all() }
    }

    /// Index of the descriptor named `name`.
    fn find(&self, name: &str) -> (r: Option<usize>)
        requires
            self.wf(),
        ensures
            r matches Some(i) ==> i < self@.len() && i as int == position_of(self@, name@),
            r is None ==> position_of(self@, name@) == -1,
    {
        let mut i: usize = 0;
        while i < self.entries.len()
            invariant
                i <= self.entries@.len(),
                names_unique(self.entries@),
                forall|k: int| 0 <= k < i ==> (#[trigger] self.entries@[k]).name@ != name@,
            decreases self.entries.len() - i,
        {
            if text_eq(self.entries[i].name, name) {
                proof {
                    lemma_position_unique(self@, name@, i as int);
                }
                return Some(i);
            }
            i = i + 1;
        }
        proof {
            lemma_position_of(self@, name@);
        }
        None
    }

    /// Registers a workspace, replacing any registered under the same name.
    pub fn register(&mut self, desc: WorkspaceDescriptor)
        requires
            old(self).wf(),
        ensures
            final(self).wf(),
            catalog_get(final(self)@, desc.name@) == Some(desc),
            forall|n: Seq<char>| n != desc.name@ ==> catalog_get(final(self)@, n) == catalog_get(old(self)@, n),
    {
        let ghost d = desc;
        match self.find(desc.name) {
            Some(i) => {
                let ghost before = self@;
                self.entries.set(i, desc);
                proof {
                    lemma_position_of(before, d.name@);
                    assert(before[i as int].name@ == d.name@);
                    assert forall|a: int, b: int| 0 <= a < b < self@.len() implies (#[trigger] self@[a]).name@
                        != (#[trigger] self@[b]).name@ by {
                        assert(before[i as int].name@ == d.name@) by {
                            lemma_position_of(before, d.name@);
                        }
                    }
                    lemma_position_unique(self@, d.name@, i as int);
                    assert forall|n: Seq<char>| n != d.name@ implies catalog_get(self@, n) == catalog_get(before, n) by {
                        lemma_position_of(before, n);
                        lemma_position_of(self@, n);
                        if position_of(before, n) >= 0 {
                            let pos = position_of(before, n);
                            assert(pos != i);
                            assert(self@[pos] == before[pos]);
                            lemma_position_unique(self@, n, pos);
                        } else if position_of(self@, n) >= 0 {
                            assert(before[position_of(self@, n)].name@ == n);
                        }
                    }
                }
            },
            None => {
                let ghost before = self@;
                self.entries.push(desc);
                proof {
                    lemma_position_of(before, d.name@);
                    assert forall|a: int, b: int| 0 <= a < b < self@.len() implies (#[trigger] self@[a]).name@
                        != (#[trigger] self@[b]).name@ by {
                        if b == before.len() {
                            assert(self@[a] == before[a]);
                        } else {
                            assert(self@[a] == before[a]);
                            assert(self@[b] == before[b]);
                        }
                    }
                    assert(self@.drop_last() =~= before);
                    assert forall|n: Seq<char>| n != d.name@ implies catalog_get(self@, n) == catalog_get(before, n) by {
                        lemma_position_of(before, n);
                        if position_of(before, n) >= 0 {
                            assert(self@[position_of(before, n)] == before[position_of(before, n)]);
                        }
                    }
                }
            },
        }
    }

    /// The workspace registered under `name`.
    pub fn get(&self, name: &str) -> (r: Option<&WorkspaceDescriptor>)
        requires
            self.wf(),
        ensures
            r matches Some(d) ==> catalog_get(self@, name@) == Some(*d),
            r is None ==> catalog_get(self@, name@) is None,
    {
        match self.find(name) {
            Some(i) => Some(&self.entries[i]),
            None => None,
        }
    }

    /// The names of all registered workspaces, for the menu.
    pub fn available_names(&self) -> (r: Vec<&'static str>)
        ensures
            r@.len() == self@.len(),
            forall|i: int| 0 <= i < r@.len() ==> (#[trigger] r@[i])@ == self@[i].name@,
    {
        let mut r: Vec<&'static str> = Vec::new();
        let mut i: usize = 0;
        while i < self.entries.len()
            invariant
                i <= self.entries@.len(),
                r@.len() == i,
                forall|k: int| 0 <= k < i ==> (#[trigger] r@[k])@ == self.entries@[k].name@,
            decreases self.entries.len() - i,
        {
            r.push(self.entries[i].name);
            i = i + 1;
        }
        r
    }

    /// The preset of the workspace registered under `name`, for loading its
    /// default layout.
    pub fn kind_of(&self, name: &str) -> (r: Option<BuiltInWorkspace>)
        requires
            self.wf(),
        ensures
            r == match catalog_get(self@, name@) {
                Some(d) => Some(d.kind),
                None => None,
            },
    {
        match self.get(name) {
            Some(d) => Some(d.kind),
            None => None,
        }
    }
}

} // verus!
