use phantom_editor::asset_browser::crud::AssetBrowserCRUD;
use phantom_editor::asset_browser::entries::{grid_rows, is_sidecar, visible_entries, DirItem};
use phantom_editor::asset_browser::file_button::{FileButton, RenameError};
use phantom_editor::asset_browser::naming::{component_source, script_source, source_file_path};
use phantom_editor::asset_browser::state::{AssetBrowserState, DialogOutcome, EntryClick, EntryKind};

fn item(name: &str, is_dir: bool) -> DirItem {
    DirItem { name: name.to_string(), is_dir }
}

fn names(v: &[DirItem]) -> Vec<String> {
    v.iter().map(|e| e.name.clone()).collect()
}

#[test]
fn pascal_case_joins_capitalised_words() {
    assert_eq!(AssetBrowserCRUD::to_pascal_case("new_script"), "NewScript");
    assert_eq!(AssetBrowserCRUD::to_pascal_case("player__controller"), "PlayerController");
    assert_eq!(AssetBrowserCRUD::to_pascal_case("_leading_"), "Leading");
    assert_eq!(AssetBrowserCRUD::to_pascal_case(""), "");
    assert_eq!(AssetBrowserCRUD::to_pascal_case("already_Upper9"), "AlreadyUpper9");
}

#[test]
fn pascal_case_upper_cases_non_ascii_letters() {
    assert_eq!(AssetBrowserCRUD::to_pascal_case("éclair_ß"), "ÉclairSS");
}

#[test]
fn templates_are_filled_with_the_type_name() {
    assert_eq!(component_source("pub struct {NAME} {}\n// {Name}", "my_comp"), "pub struct MyComp {}\n// {Name}");
    assert_eq!(script_source("struct {NAME}; impl {Name} {}", "a_b"), "struct AB; impl AB {}");
    assert_eq!(script_source("{NAME}{NAME}", "x"), "XX");
    assert_eq!(source_file_path("/proj/src", "my_comp"), "/proj/src/my_comp.rs");
}

#[test]
fn new_folder_names_skip_taken_ones() {
    let none: Vec<String> = vec![];
    assert_eq!(AssetBrowserCRUD::unique_folder_path("/proj", &none), "/proj/New Folder");
    let one = vec!["New Folder".to_string(), "other".to_string()];
    assert_eq!(AssetBrowserCRUD::unique_folder_path("/proj", &one), "/proj/New Folder 2");
    let more = vec!["New Folder 2".to_string(), "New Folder".to_string(), "New Folder 3".to_string()];
    assert_eq!(AssetBrowserCRUD::unique_folder_path("/proj/", &more), "/proj/New Folder 4");
    let gap = vec!["New Folder 2".to_string()];
    assert_eq!(AssetBrowserCRUD::unique_folder_path("/proj", &gap), "/proj/New Folder");
}

#[test]
fn paste_names_skip_taken_ones() {
    let none: Vec<String> = vec![];
    assert_eq!(AssetBrowserCRUD::unique_paste_path("/a/b/img.png", "/dest", &none), "/dest/img.png");
    let taken = vec!["img.png".to_string(), "img_1.png".to_string()];
    assert_eq!(AssetBrowserCRUD::unique_paste_path("/a/b/img.png", "/dest", &taken), "/dest/img_2.png");
    let readme = vec!["README".to_string()];
    assert_eq!(AssetBrowserCRUD::unique_paste_path("/a/README", "/dest", &readme), "/dest/README_1");
    let archive = vec!["a.tar.gz".to_string()];
    assert_eq!(AssetBrowserCRUD::unique_paste_path("/x/a.tar.gz", "/d", &archive), "/d/a.tar_1.gz");
    assert_eq!(AssetBrowserCRUD::unique_paste_path("/x/.hidden", "/d", &none), "/d/.hidden");
}

#[test]
fn entries_hide_sidecars_and_put_folders_first() {
    let listing = vec![
        item("b.txt", false),
        item("Zeta", true),
        item("A.png", false),
        item("A.png.passet", false),
        item("alpha", true),
        item("c.PASSET", false),
    ];
    let shown = visible_entries(listing);
    assert_eq!(names(&shown), vec!["alpha", "Zeta", "A.png", "b.txt", "c.PASSET"]);
    assert!(shown[0].is_dir && shown[1].is_dir && !shown[2].is_dir);
    assert!(is_sidecar("x.passet"));
    assert!(!is_sidecar("passet"));
    assert!(visible_entries(vec![]).is_empty());
}

#[test]
fn grid_rows_round_up() {
    assert_eq!(grid_rows(0, 5), 0);
    assert_eq!(grid_rows(5, 5), 1);
    assert_eq!(grid_rows(6, 5), 2);
    assert_eq!(grid_rows(7, 1), 7);
    assert_eq!(grid_rows(usize::MAX, 2), usize::MAX / 2 + 1);
}

#[test]
fn file_button_labels_and_rename_modes() {
    let mut b = FileButton::new("/p/x.png".to_string());
    assert_eq!(b.name(), "x.png");
    assert_eq!(b.get_path(), "/p/x.png");
    assert!(!b.is_renaming());
    assert!(!b.is_renamed());
    b.start_rename();
    assert!(b.is_renaming());
    b.finish_rename();
    assert!(!b.is_renaming());
    assert!(b.is_renamed());
    assert_eq!(FileButton::parse_file_name(&"/a/b/".to_string()), "b");
}

#[test]
fn rename_keeps_the_extension_and_moves_the_sidecar() {
    let mut b = FileButton::new("/p/x.png".to_string());
    b.set_name("  y.txt \t".to_string());
    let plan = b.rename_plan().unwrap();
    assert_eq!(plan.new_path, "/p/y.png");
    assert_eq!(plan.new_sidecar_path, Some("/p/y.png.passet".to_string()));
    b.moved_to(plan.new_path.clone());
    assert_eq!(b.get_path(), "/p/y.png");

    let mut d = FileButton::new("/p/dir".to_string());
    d.set_name("docs".to_string());
    let plan = d.rename_plan().unwrap();
    assert_eq!(plan.new_path, "/p/docs");
    assert_eq!(plan.new_sidecar_path, None);

    let mut e = FileButton::new("/p/x.png".to_string());
    e.set_name("   ".to_string());
    assert!(matches!(e.rename_plan(), Err(RenameError::EmptyName)));
    e.set_name("..".to_string());
    assert!(matches!(e.rename_plan(), Err(RenameError::EmptyName)));
}

#[test]
fn crud_requests() {
    let mut c = AssetBrowserCRUD::default();
    assert!(c.clipboard().is_none());
    c.create_script();
    assert_eq!(c.pending_new_script.as_deref(), Some("new_script"));
    c.create_component();
    assert_eq!(c.pending_new_component.as_deref(), Some("new_component"));
    c.copy("/p/a.png".to_string());
    assert_eq!(c.clipboard(), Some("/p/a.png".to_string()));
    c.folder_created("/p/New Folder".to_string());
    assert!(c.should_refresh);
    assert_eq!(c.pending_rename.as_deref(), Some("/p/New Folder"));
    assert_eq!(AssetBrowserCRUD::move_target("/p/a.png", "/p/sprites"), "/p/sprites/a.png");
    let f = AssetBrowserCRUD::component_file("/p", "hp_bar", "struct {NAME};");
    assert_eq!(f.path, "/p/hp_bar.rs");
    assert_eq!(f.content, "struct HpBar;");
    let s = AssetBrowserCRUD::script_file("/p/", "mover", "{Name}/{NAME}");
    assert_eq!(s.path, "/p/mover.rs");
    assert_eq!(s.content, "Mover/Mover");
}

#[test]
fn browser_refresh_builds_buttons_and_starts_pending_rename() {
    let mut st = AssetBrowserState::new();
    assert_eq!(st.grid_length, 5);
    assert!(st.should_create_entries);
    st.ensure_root("/proj".to_string());
    st.ensure_root("/other".to_string());
    assert_eq!(st.directory_nav_paths, vec!["/proj".to_string()]);
    st.crud.folder_created("/proj/New Folder".to_string());
    st.refresh_entries(vec![item("b.txt", false), item("New Folder", true), item("b.txt.passet", false)]);
    assert!(!st.should_create_entries);
    assert!(st.crud.pending_rename.is_none());
    let paths: Vec<String> = st.directory_file_buttons.iter().map(|b| b.get_path()).collect();
    assert_eq!(paths, vec!["/proj/New Folder", "/proj/b.txt"]);
    assert!(st.directory_file_buttons[0].is_renaming());
    assert!(!st.directory_file_buttons[1].is_renaming());
    st.sync_refresh_flags();
    assert!(st.should_create_entries);
    assert!(!st.crud.should_refresh);
}

#[test]
fn renamed_button_asks_for_a_new_listing() {
    let mut st = AssetBrowserState::new();
    st.ensure_root("/proj".to_string());
    st.refresh_entries(vec![item("a", true)]);
    st.sync_refresh_flags();
    assert!(!st.should_create_entries);
    st.directory_file_buttons[0].finish_rename();
    st.sync_refresh_flags();
    assert!(st.should_create_entries);
}

#[test]
fn navigation_enters_and_goes_back() {
    let mut st = AssetBrowserState::new();
    st.ensure_root("/proj".to_string());
    st.should_create_entries = false;
    assert_eq!(st.open_entry("/proj/assets".to_string(), EntryKind::Directory), EntryClick::EnteredDirectory);
    assert_eq!(st.current_dir(), "/proj/assets");
    assert!(st.should_create_entries);
    assert_eq!(st.open_entry("/proj/assets/a.png".to_string(), EntryKind::File), EntryClick::OpenFile);
    assert_eq!(st.open_entry("/proj/assets/sock".to_string(), EntryKind::Other), EntryClick::Ignored);
    st.open_entry("/proj/assets/sprites".to_string(), EntryKind::Directory);
    st.crumb_clicked(2);
    assert_eq!(st.directory_nav_paths.len(), 3);
    st.crumb_clicked(0);
    assert_eq!(st.directory_nav_paths, vec!["/proj".to_string()]);
    assert_eq!(st.current_dir(), "/proj");
}

#[test]
fn name_dialog_outcomes() {
    assert!(matches!(AssetBrowserState::resolve_name_dialog("hp".to_string(), true, false), DialogOutcome::Create(n) if n == "hp"));
    assert!(matches!(AssetBrowserState::resolve_name_dialog(String::new(), true, false), DialogOutcome::KeepOpen(n) if n.is_empty()));
    assert!(matches!(AssetBrowserState::resolve_name_dialog("hp".to_string(), false, false), DialogOutcome::KeepOpen(n) if n == "hp"));
    assert!(matches!(AssetBrowserState::resolve_name_dialog("hp".to_string(), false, true), DialogOutcome::Close));
    assert!(matches!(AssetBrowserState::resolve_name_dialog(String::new(), true, true), DialogOutcome::Close));
}

#[test]
fn entries_with_equal_keys_keep_listing_order() {
    let shown = visible_entries(vec![item("a.png", false), item("A.png", false), item("Docs", true), item("docs", true)]);
    assert_eq!(names(&shown), vec!["Docs", "docs", "a.png", "A.png"]);
    let shown = visible_entries(vec![item("A.png", false), item("a.png", false), item("docs", true), item("Docs", true)]);
    assert_eq!(names(&shown), vec!["docs", "Docs", "A.png", "a.png"]);
}

#[test]
fn rename_skips_a_trailing_dot_component() {
    let mut b = FileButton::new("/p/x.png".to_string());
    b.set_name("foo/.".to_string());
    let plan = b.rename_plan().unwrap();
    assert_eq!(plan.new_path, "/p/foo.png");
    assert_eq!(plan.new_sidecar_path, Some("/p/foo.png.passet".to_string()));
    let d = FileButton::new("/p/dir/.".to_string());
    assert_eq!(d.name(), "dir");
}
