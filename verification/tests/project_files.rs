use phantom_editor::game_loader::GameLoader;
use phantom_editor::inspector::{AnimatorClips, clip_sprite_label, sprite_label, addable_components, component_editor, is_removable, order_components, remove_clip_column, select_clip, ComponentEditor, ComponentEntry};
use phantom_editor::panels::{EditorTabViewer, Panels};
use phantom_editor::project::{PhantomProject, ProjectManager, DEFAULT_LIB_RS};
use phantom_editor::reflection::{generated_fn_name, inspectable_field_kind, register_call, variant_name, FieldKind, GeneratedFn};
use phantom_editor::workspaces::{BuiltInWorkspace, WorkspaceCatalog, WorkspaceDescriptor, WorkspacePresets};

fn strings(v: &[&str]) -> Vec<String> {
    v.iter().map(|s| s.to_string()).collect()
}

#[test]
fn project_files() {
    let names = strings(&["Cargo.toml", "src", "game.pproject", "other.pproject"]);
    assert_eq!(ProjectManager::find_project_file(&names), Some(2));
    assert_eq!(ProjectManager::find_project_file(&strings(&["pproject", "a.txt"])), None);
    assert_eq!(ProjectManager::project_file_name("game"), "game.pproject");
    assert_eq!(ProjectManager::initial_world_path("/g"), "/g/worlds/initial_world.pworld");
    let p = PhantomProject { name: "g".to_string(), version: "0.1.0".to_string(), entry_world: "worlds/w.pworld".to_string() };
    assert_eq!(ProjectManager::entry_world_path("/g", &p), "/g/worlds/w.pworld");
    assert_eq!(
        ProjectManager::cargo_manifest("game", "/engine"),
        "[package]\nname = \"game\"\nversion = \"0.1.0\"\nedition = \"2024\"\n\n[dependencies]\nphantom_core = { path = \"/engine/phantom_core\" }\n\n[lib]\ncrate-type = [\"cdylib\"]\n"
    );
    assert!(DEFAULT_LIB_RS.contains("phantom_register!();"));
}

#[test]
fn game_files() {
    let data = strings(&["a.passet", "level.pworld", "b.pworld", "libgame.so"]);
    assert_eq!(GameLoader::find_world_file(&data), Some(1));
    assert_eq!(GameLoader::find_game_library(&data), Some(3));
    assert_eq!(GameLoader::find_game_library(&strings(&["game.dylib"])), None);
    let build = strings(&["_hot_1.so", "libgame.dylib", "libgame.so"]);
    assert_eq!(GameLoader::find_editor_library(&build), Some(1));
    assert_eq!(GameLoader::shadow_copy_name(1700000000000), "_hot_1700000000000.so");
    assert!(GameLoader::is_stale_shadow_copy("_hot_1.so", "_hot_2.so"));
    assert!(!GameLoader::is_stale_shadow_copy("_hot_2.so", "_hot_2.so"));
    assert!(!GameLoader::is_stale_shadow_copy("libgame.so", "_hot_2.so"));
    assert!(!GameLoader::is_stale_shadow_copy("_hot_1.dll", "_hot_2.so"));
}

#[test]
fn components_are_listed_transform_then_name_then_by_name() {
    let comps: Vec<ComponentEntry<u8>> = ["Sprite", "Name", "Animator", "Transform", "Collider"]
        .iter()
        .enumerate()
        .map(|(i, n)| ComponentEntry { name: n.to_string(), fields: i as u8 })
        .collect();
    let ordered = order_components(comps);
    let names: Vec<&str> = ordered.iter().map(|c| c.name.as_str()).collect();
    assert_eq!(names, vec!["Transform", "Name", "Animator", "Collider", "Sprite"]);
    assert_eq!(ordered[0].fields, 3);
    assert!(!is_removable("Transform"));
    assert!(!is_removable("Name"));
    assert!(is_removable("Sprite"));
    assert_eq!(addable_components(strings(&["Transform", "Sprite", "Name", "Camera"])), strings(&["Sprite", "Camera"]));
    assert_eq!(component_editor("Animator", 0), ComponentEditor::Animator);
    assert_eq!(component_editor("Sprite", 0), ComponentEditor::NoFields);
    assert_eq!(component_editor("Sprite", 2), ComponentEditor::Fields);
}

#[test]
fn animator_clip_edits() {
    assert_eq!(select_clip(5, 0, 3), (2, true));
    assert_eq!(select_clip(1, 1, 3), (1, false));
    assert_eq!(select_clip(4, 0, 0), (0, false));
    let mut widths = vec![10u32, 20, 30];
    remove_clip_column(&mut widths, 1);
    assert_eq!(widths, vec![10, 30]);
    remove_clip_column(&mut widths, 7);
    assert_eq!(widths, vec![10, 30]);
}

#[test]
fn macro_field_kinds_and_names() {
    assert_eq!(inspectable_field_kind("f32"), Some(FieldKind::F32));
    assert_eq!(inspectable_field_kind("glam :: Vec2"), Some(FieldKind::Vec2));
    assert_eq!(inspectable_field_kind("Quat"), Some(FieldKind::TransQuat));
    assert_eq!(inspectable_field_kind("Option < f32 >"), None);
    assert_eq!(variant_name(FieldKind::TransQuat), "TransQuat");
    assert_eq!(generated_fn_name(GeneratedFn::Register, "PlayerController"), "__phantom_register_playercontroller");
    assert_eq!(generated_fn_name(GeneratedFn::StartAll, "ÄBC"), "__phantom_start_all_äbc");
    assert_eq!(register_call(&strings(&["game", "scripts", "Player"])), "game::scripts::__phantom_register_player");
    assert_eq!(register_call(&strings(&["Player"])), "__phantom_register_player");
}

#[test]
fn panels_and_workspaces() {
    assert_eq!(Panels::AssetBrowser.title(), "Assets");
    assert_eq!(Panels::Console.title(), "Console");
    let viewer = EditorTabViewer::new();
    assert_eq!(viewer.title(&Panels::Inspector), "Inspector");
    let d = WorkspacePresets::level_editor();
    assert_eq!(d.name, "Level Editor");
    assert_eq!(d.panels, vec![Panels::Viewport, Panels::Hierarchy, Panels::Inspector, Panels::Console, Panels::AssetBrowser]);
    assert_eq!(WorkspacePresets::all().len(), 1);
    let mut cat = WorkspaceCatalog::with_presets();
    assert_eq!(cat.available_names(), vec!["Level Editor"]);
    assert_eq!(cat.kind_of("Level Editor"), Some(BuiltInWorkspace::LevelEditor));
    assert!(cat.get("Animation").is_none());
    cat.register(WorkspaceDescriptor { name: "Animation", kind: BuiltInWorkspace::LevelEditor, panels: vec![Panels::Viewport] });
    assert_eq!(cat.get("Animation").unwrap().panels, vec![Panels::Viewport]);
    cat.register(WorkspaceDescriptor { name: "Level Editor", kind: BuiltInWorkspace::LevelEditor, panels: vec![] });
    assert_eq!(cat.available_names(), vec!["Level Editor", "Animation"]);
    assert!(cat.get("Level Editor").unwrap().panels.is_empty());
}

#[test]
fn sprite_labels() {
    let id: u128 = 0x67e55044_10b1_426f_9247_bb680e5fe0c8;
    assert_eq!(sprite_label(0, Some("hero".to_string())), "None (Sprite)");
    assert_eq!(sprite_label(id, Some("hero".to_string())), "hero");
    assert_eq!(sprite_label(id, None), "Sprite 67e55044");
    assert_eq!(sprite_label(0xab, None), "Sprite 00000000");
    assert_eq!(clip_sprite_label(0, None), "None (Sprite)");
    assert_eq!(clip_sprite_label(id, None), "Unknown");
    assert_eq!(clip_sprite_label(id, Some("run".to_string())), "run");
}

#[test]
fn clip_columns_stay_aligned() {
    let mut clips = AnimatorClips {
        sprite_ids: vec![7u128, 8],
        frame_widths: vec![16, 32],
        frame_heights: vec![16, 32],
        frame_counts: vec![4, 2],
        fps: vec![8.0f32, 10.0],
        looping: vec![false, true],
    };
    clips.add_clip(0, 12.0);
    assert_eq!(clips.sprite_ids, vec![7, 8, 0]);
    assert_eq!(clips.frame_widths, vec![16, 32, 0]);
    assert_eq!(clips.frame_heights, vec![16, 32, 0]);
    assert_eq!(clips.frame_counts, vec![4, 2, 1]);
    assert_eq!(clips.fps, vec![8.0, 10.0, 12.0]);
    assert_eq!(clips.looping, vec![false, true, true]);
    clips.remove_clip(0);
    assert_eq!(clips.sprite_ids, vec![8, 0]);
    assert_eq!(clips.frame_widths, vec![32, 0]);
    assert_eq!(clips.frame_counts, vec![2, 1]);
    assert_eq!(clips.fps, vec![10.0, 12.0]);
    assert_eq!(clips.looping, vec![true, true]);
    clips.remove_clip(5);
    assert_eq!(clips.sprite_ids.len(), 2);
    assert_eq!(clips.looping.len(), 2);
}

#[test]
fn components_with_equal_names_keep_their_order() {
    let comps = vec![
        ComponentEntry { name: "Sprite".to_string(), fields: 1u8 },
        ComponentEntry { name: "Transform".to_string(), fields: 2u8 },
        ComponentEntry { name: "Sprite".to_string(), fields: 3u8 },
    ];
    let ordered = order_components(comps);
    let fields: Vec<u8> = ordered.iter().map(|c| c.fields).collect();
    assert_eq!(fields, vec![2, 1, 3]);
}
