//! The editor's panels and the tabs that show them.
use vstd::prelude::*;

verus! {

/// A panel the editor can show in a dock tab.
#[derive(Debug, Clone, Copy, PartialEq, Eq, Structural)]
pub enum Panels {
    Console,
    Viewport,
    Hierarchy,
    Inspector,
    AssetBrowser,
}

/// The tab title of a panel.
pub open spec fn panel_title(p: Panels) -> Seq<char> {
    match p {
        Panels::Console => "Console"@,
        Panels::Viewport => "Viewport"@,
        Panels::Hierarchy => "Hierarchy"@,
        Panels::Inspector => "Inspector"@,
        Panels::AssetBrowser => "Assets"@,
    }
}

impl Panels {
    /// The tab title of the panel.
    pub fn title(&self) -> (r: &'static str)
        ensures
            r@ == panel_title(*self),
    {
        match self {
            Panels::Console => "Console",
            Panels::Viewport => "Viewport",
            Panels::Hierarchy => "Hierarchy",
            Panels::Inspector => "Inspector",
            Panels::AssetBrowser => "Assets",
        }
    }
}

/// The log console panel.
pub struct ConsolePanel {}

/// The scene viewport panel.
pub struct ViewportPanel {}

/// The entity hierarchy panel.
pub struct HierarchyPanel {}

/// The component inspector panel.
pub struct InspectorPanel {}

/// The asset browser panel.
pub struct AssetBrowserPanel {}

/// The viewer of the editor's single-level dock: one value per panel.
pub struct EditorTabViewer {
    pub console: ConsolePanel,
    pub viewport: ViewportPanel,
    pub hierarchy: HierarchyPanel,
    pub inspector: InspectorPanel,
    pub asset_browser: AssetBrowserPanel,
}

impl EditorTabViewer {
    /// A viewer holding every panel.
    pub fn new() -> (r: Self)
        ensures
            r == (EditorTabViewer {
                console: ConsolePanel {},
                viewport: ViewportPanel {},
                hierarchy: HierarchyPanel {},
                inspector: InspectorPanel {},
                asset_browser: AssetBrowserPanel {},
            }),
    {
        Self {
            console: ConsolePanel {},
            viewport: ViewportPanel {},
            hierarchy: HierarchyPanel {},
            inspector: InspectorPanel {},
            asset_browser: AssetBrowserPanel {},
        }
    }

    /// The title of a tab: the title of its panel.
    pub fn title(&self, tab: &Panels) -> (r: &'static str)
        ensures
            r@ == panel_title(*tab),
    {
        tab.title()
    }
}

} // verus!
