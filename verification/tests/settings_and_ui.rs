use bevy_map_editor::assets::{
    plan_copy, plan_copy_with, relative_from_stripped, to_forward_slashes, AssetsBasePath, AssetsPathProbe, CopyPlan,
    EditorPlugin, PathError,
};
use bevy_map_editor::clipboard::TileClipboard;
use bevy_map_editor::color::{hex_pair_value, DEFAULT_ALPHA, parse_color, parse_hex_color, parse_swatch_color, HexColor, Rgb};
use bevy_map_editor::commands::{BatchTileCommand, Command, RenderState};
use bevy_map_editor::dialogs::{dialog_status, DialogKind, DialogOptions, DialogStatus, DialogType};
use bevy_map_editor::external_editor::VsCodeProbe;
use bevy_map_editor::game_settings::{
    is_valid_crate_name, GameProjectConfig, GameSettingsDialogResult, GameSettingsDialogState, PathStatus,
    ProjectDirProbe, VsCodeStatus,
};
use bevy_map_editor::history::CommandHistory;
use bevy_map_editor::integration::{ContributionDef, EditorMeta, IntegrationRegistry, PluginInfo, PluginMeta};
use bevy_map_editor::menu::{
    integration_menu_paths, integration_panel_names, menu_click, menu_enabled, EditorWindow, MenuEffect, MenuEntry,
};
use bevy_map_editor::preferences::{
    window_mode_from_name, window_mode_name, AutoOpen, EditorPreferences, WindowModeKind, MAX_RECENT_PROJECTS,
};
use bevy_map_editor::project::{Project, Schema, SchemaProject};
use bevy_map_editor::text::{decimal_string, str_eq};
use bevy_map_editor::toolbar::{toolbar_view, EditorTool, EditorViewMode, ToolMode};
use bevy_map_editor::ui_state::{
    assert_pending_action, AnimationEditorResult, CollisionDrawMode, CopyFileCallback, EntityPaintState, PaletteTab,
    PendingAction, SchemaTab, SpriteSheetEditorResult, TerrainPaintState, TerrainPreviewState, TilesetEditorTab,
};

// ---- preferences -----------------------------------------------------------

#[test]
fn recent_projects_most_recent_first_without_repeats() {
    let mut prefs = EditorPreferences::default();
    prefs.add_recent_project_at("/a.map.json".to_string(), "a".to_string(), 10);
    prefs.add_recent_project_at("/b.map.json".to_string(), "b".to_string(), 20);
    prefs.add_recent_project_at("/a.map.json".to_string(), "a".to_string(), 30);
    let paths: Vec<&str> = prefs.recent_projects.iter().map(|p| p.path.as_str()).collect();
    assert_eq!(paths, vec!["/a.map.json", "/b.map.json"]);
    assert_eq!(prefs.last_project().unwrap().last_opened, 30);
    prefs.remove_recent_project("/a.map.json");
    assert_eq!(prefs.last_project().unwrap().path, "/b.map.json");
    prefs.clear_recent_projects();
    assert!(prefs.last_project().is_none());
}

#[test]
fn recent_projects_are_capped() {
    let mut prefs = EditorPreferences::default();
    for i in 0..15u64 {
        prefs.add_recent_project(format!("/p{}.map.json", i), format!("p{}", i));
    }
    assert_eq!(prefs.recent_projects.len(), MAX_RECENT_PROJECTS);
    assert_eq!(prefs.recent_projects[0].path, "/p14.map.json");
    assert_eq!(prefs.recent_projects[9].path, "/p5.map.json");
}

#[test]
fn preference_defaults() {
    let prefs = EditorPreferences::default();
    assert_eq!(prefs.version, 1);
    assert!(prefs.show_tree_view && prefs.show_inspector && prefs.show_grid && prefs.snap_to_grid);
    assert!(!prefs.show_collisions && !prefs.auto_open_last_project);
    assert_eq!(prefs.default_tool, EditorTool::Select);
    assert_eq!(prefs.default_tool_mode, ToolMode::Point);
    assert!(prefs.recent_projects.is_empty());
    assert!(!prefs.theme.use_dark_theme);
}

#[test]
fn auto_open_and_window_modes() {
    let mut prefs = EditorPreferences::default();
    prefs.add_recent_project_at("/last.map.json".to_string(), "last".to_string(), 1);
    assert_eq!(prefs.auto_open_decision(true), AutoOpen::Nothing);
    prefs.auto_open_last_project = true;
    assert_eq!(prefs.auto_open_decision(true), AutoOpen::Open("/last.map.json".to_string()));
    assert_eq!(prefs.auto_open_decision(false), AutoOpen::Missing("/last.map.json".to_string()));
    assert_eq!(window_mode_from_name(Some("fullscreen")), WindowModeKind::Fullscreen);
    assert_eq!(window_mode_from_name(Some("borderless_fullscreen")), WindowModeKind::BorderlessFullscreen);
    assert_eq!(window_mode_from_name(Some("tiny")), WindowModeKind::Windowed);
    assert_eq!(window_mode_from_name(None), WindowModeKind::Windowed);
    assert_eq!(window_mode_name(WindowModeKind::Windowed), "windowed");
    assert_eq!(window_mode_name(WindowModeKind::Fullscreen), "fullscreen");
}

// ---- colors and text ---------------------------------------------------------

#[test]
fn hex_colors() {
    assert_eq!(parse_hex_color("#ff8000"), Some(HexColor { rgb: Rgb { r: 255, g: 128, b: 0 }, alpha: 204 }));
    assert_eq!(DEFAULT_ALPHA as f32 / 255.0, 0.8f32);
    assert_eq!(parse_hex_color("ff000080"), Some(HexColor { rgb: Rgb { r: 255, g: 0, b: 0 }, alpha: 128 }));
    assert_eq!(parse_hex_color("##0A0b0C"), Some(HexColor { rgb: Rgb { r: 10, g: 11, b: 12 }, alpha: DEFAULT_ALPHA }));
    assert_eq!(parse_hex_color("#fff"), None);
    assert_eq!(parse_hex_color("#gg0000"), None);
    assert_eq!(parse_swatch_color("#112233ff"), Rgb { r: 17, g: 34, b: 51 });
    assert_eq!(parse_swatch_color("nope"), Rgb { r: 0, g: 200, b: 100 });
    assert_eq!(parse_color("#112233"), Rgb { r: 17, g: 34, b: 51 });
    assert_eq!(parse_color("#112233ff"), Rgb { r: 160, g: 160, b: 160 });
    assert_eq!(hex_pair_value(b'7', b'f'), Some(127));
    assert_eq!(hex_pair_value(b'x', b'0'), None);
}

#[test]
fn text_helpers() {
    assert_eq!(decimal_string(0), "0");
    assert_eq!(decimal_string(1234567890), "1234567890");
    assert!(str_eq("abc", "abc"));
    assert!(!str_eq("abc", "abd"));
    assert!(!str_eq("ab", "abc"));
}

#[test]
fn tools() {
    assert!(EditorTool::Paint.supports_modes());
    assert!(EditorTool::Terrain.supports_modes());
    assert!(!EditorTool::Select.supports_modes());
    assert!(!EditorTool::Fill.supports_modes());
    assert_eq!(ToolMode::Point.label(), "Point");
    assert_eq!(ToolMode::Rectangle.label(), "Rect");
    assert_eq!(ToolMode::Line.label(), "Line");
}

#[test]
fn toolbar_decisions() {
    let v = toolbar_view(EditorViewMode::Level, EditorTool::Paint, Some(2));
    assert!(v.tools_enabled && v.show_modes && v.show_paint_toggles);
    assert_eq!(v.layer_label, "2");
    let v = toolbar_view(EditorViewMode::World, EditorTool::Erase, None);
    assert!(!v.tools_enabled && v.show_modes && !v.show_paint_toggles);
    assert_eq!(v.layer_label, "(none)");
    let v = toolbar_view(EditorViewMode::Level, EditorTool::Entity, Some(10));
    assert!(!v.show_modes);
    assert_eq!(v.layer_label, "10");
}

// ---- game settings dialog ----------------------------------------------------

#[test]
fn crate_names() {
    assert!(is_valid_crate_name("my_game"));
    assert!(is_valid_crate_name("_private-2"));
    assert!(!is_valid_crate_name(""));
    assert!(!is_valid_crate_name("2fast"));
    assert!(!is_valid_crate_name("-dash"));
    assert!(!is_valid_crate_name("MyGame"));
    assert!(!is_valid_crate_name("my game"));
    assert!(!is_valid_crate_name("jeu_é"));
}

#[test]
fn dialog_paths_and_caches() {
    let mut s = GameSettingsDialogState::default();
    assert_eq!(s.get_full_project_path(), None);
    assert_eq!(s.get_project_name(), None);
    s.project_name = "my_game".to_string();
    assert_eq!(s.get_full_project_path(), None);
    assert_eq!(s.get_project_name(), Some("my_game".to_string()));
    s.parent_directory = "/dev/games".to_string();
    assert_eq!(s.get_parent_dir(), Some("/dev/games".to_string()));
    let full = s.get_full_project_path().unwrap();
    assert!(full == "/dev/games/my_game" || full == "/dev/games\\my_game");

    s.check_cli_status(true);
    s.check_cli_status(false);
    assert_eq!(s.cli_installed, Some(true));

    let probe = VsCodeProbe { code_on_path: true, default_path: None };
    s.check_vscode_status(&probe, false);
    assert_eq!(s.vscode_available, Some(true));
    s.vscode_path = "/my/code".to_string();
    s.invalidate_vscode_cache();
    assert_eq!(s.vscode_available, None);
    s.check_vscode_status(&probe, false);
    assert_eq!(s.vscode_available, Some(false));
}

#[test]
fn dialog_view_decisions() {
    let mut s = GameSettingsDialogState::default();
    let none = ProjectDirProbe { dir_exists: false, cargo_toml_exists: false };
    let v = s.view(none);
    assert_eq!(v.path_status, PathStatus::Nothing);
    assert!(!v.can_save && !v.can_create_project);

    s.project_name = "Bad Name".to_string();
    let v = s.view(none);
    assert!(v.name_invalid);
    assert_eq!(v.path_status, PathStatus::EnterBoth);

    s.project_name = "my_game".to_string();
    s.parent_directory = "/dev".to_string();
    s.cli_installed = Some(false);
    let v = s.view(none);
    assert_eq!(v.path_status, PathStatus::WillCreate);
    assert!(!v.can_create_project && v.install_cli_hint);
    s.cli_installed = Some(true);
    let v = s.view(none);
    assert!(v.can_create_project && !v.install_cli_hint);
    assert!(!v.can_save);
    s.selected_starting_level = Some(3);
    assert!(s.view(none).can_save);

    let dir_only = ProjectDirProbe { dir_exists: true, cargo_toml_exists: false };
    let v = s.view(dir_only);
    assert_eq!(v.path_status, PathStatus::DirectoryExists);
    assert!(!v.can_create_project);

    let project = ProjectDirProbe { dir_exists: true, cargo_toml_exists: true };
    let v = s.view(project);
    assert_eq!(v.path_status, PathStatus::ReadyToRun);
    assert!(v.show_codegen && v.can_open_folder && !v.can_open_in_vscode);
    assert_eq!(v.vscode_status, VsCodeStatus::NotDetected);
    s.vscode_available = Some(true);
    assert!(s.view(project).can_open_in_vscode);
    s.vscode_available = Some(false);
    s.vscode_path = "/x/code".to_string();
    assert_eq!(s.view(project).vscode_status, VsCodeStatus::PathNotFound);
}

#[test]
fn dialog_saves_into_config() {
    let mut s = GameSettingsDialogState::default();
    s.open = true;
    s.selected_starting_level = Some(4);
    s.use_release_build = true;
    s.codegen_output_path = "src/generated".to_string();
    let mut config = GameProjectConfig {
        project_path: None,
        starting_level: None,
        use_release_build: false,
        enable_codegen: true,
        codegen_output_path: String::new(),
        generate_entities: true,
        generate_stubs: true,
        generate_behaviors: true,
        generate_enums: true,
        vscode_path: Some("old".to_string()),
    };
    s.save_into(&mut config, Some("/dev/my_game".to_string()));
    assert!(!s.open);
    assert_eq!(config.project_path, Some("/dev/my_game".to_string()));
    assert_eq!(config.starting_level, Some(4));
    assert!(config.use_release_build && !config.enable_codegen && !config.generate_enums);
    assert_eq!(config.codegen_output_path, "src/generated");
    assert_eq!(config.vscode_path, None);
    assert_eq!(GameSettingsDialogResult::default(), GameSettingsDialogResult {
        save_requested: false,
        create_project_requested: false,
        create_level_requested: false,
        install_cli_requested: false,
        generate_code_requested: false,
        preview_code_requested: false,
        open_in_vscode_requested: false,
        open_folder_requested: false,
    });
}

// ---- menu bar -----------------------------------------------------------------

#[test]
fn menu_entries_follow_state() {
    let mut project = Project::new(Schema { project: SchemaProject { name: "P".to_string() } });
    let mut history = CommandHistory::new();
    let clipboard = TileClipboard::new();
    let e = menu_enabled(Some(&history), Some(&clipboard), false, true);
    assert!(!e.undo && !e.redo && !e.paste && !e.run_game && !e.game_project);
    assert_eq!(menu_click(MenuEntry::Undo, e), None);
    assert_eq!(menu_click(MenuEntry::Save, e), Some(MenuEffect::Pending(PendingAction::Save)));
    assert_eq!(menu_click(MenuEntry::About, e), Some(MenuEffect::Show(EditorWindow::About)));
    assert_eq!(menu_click(MenuEntry::OpenRecent(2), e), Some(MenuEffect::OpenRecent(2)));
    assert_eq!(menu_click(MenuEntry::RunGame, e), None);

    let mut render = RenderState { needs_rebuild: false };
    history.execute(Command::BatchTile(BatchTileCommand::new(1, 0, Vec::new(), "x".to_string())), &mut project, &mut render);
    let e = menu_enabled(Some(&history), None, true, true);
    assert!(e.undo && !e.redo && e.run_game && e.game_project);
    assert_eq!(menu_click(MenuEntry::Undo, e), Some(MenuEffect::Pending(PendingAction::Undo)));
    assert_eq!(menu_click(MenuEntry::GenerateNow, e), Some(MenuEffect::Pending(PendingAction::GenerateCode)));
    assert_eq!(menu_click(MenuEntry::GameSettings, e), Some(MenuEffect::Pending(PendingAction::OpenGameSettings)));
    let e = menu_enabled(None, None, true, false);
    assert!(!e.undo && !e.run_game && e.game_project);
}

#[test]
fn menu_bar_automap_rule_editor_sets_show_flag() {
    // An empty project: nothing to undo, no clipboard, no game project.
    let e = menu_enabled(None, None, false, false);
    assert_eq!(
        menu_click(MenuEntry::AutomapRuleEditor, e),
        Some(MenuEffect::Show(EditorWindow::AutomapRuleEditor)),
        "show_automap_editor must be true after clicking 'Automap Rule Editor...'"
    );
}

#[test]
fn integration_menus_list_contributions() {
    let mut registry = IntegrationRegistry::new();
    registry.register_plugin(PluginMeta {
        plugin: PluginInfo { name: "p".to_string(), version: String::new(), description: String::new(), applies_to: Vec::new() },
        properties: Vec::new(),
        editor: EditorMeta {
            inspector_section: None,
            file_extensions: Vec::new(),
            contributions: vec![
                ContributionDef::MenuItem { path: "Tools/Export".to_string() },
                ContributionDef::Panel { name: "Stats".to_string() },
                ContributionDef::MenuItem { path: "Help".to_string() },
                ContributionDef::Panel { name: "Log".to_string() },
            ],
        },
    });
    assert_eq!(integration_panel_names(&registry), vec!["Stats".to_string(), "Log".to_string()]);
    assert_eq!(integration_menu_paths(&registry), vec!["Tools/Export".to_string(), "Help".to_string()]);
}

// ---- dialogs ----------------------------------------------------------------------

#[test]
fn dialog_filters_and_kinds() {
    let f = DialogType::Open.filter();
    assert_eq!(f, vec![("Map Project".to_string(), vec!["map.json".to_string(), "json".to_string()])]);
    assert_eq!(DialogType::ParentDirectory.filter().len(), 0);
    let icon = DialogType::Icon.filter();
    assert_eq!(icon.len(), 2);
    assert_eq!(icon[1], ("All Files".to_string(), vec!["*".to_string()]));
    assert_eq!(DialogType::VsCode.filter()[0].1, vec!["exe".to_string()]);
    assert_eq!(DialogType::OpenSpritesheet.filter()[0].1.len(), 6);
    assert_eq!(DialogType::SaveAs.kind(), DialogKind::SaveFile);
    assert_eq!(DialogType::NewProject.kind(), DialogKind::SaveFile);
    assert_eq!(DialogType::ParentDirectory.kind(), DialogKind::PickFolder);
    assert_eq!(DialogType::Icon.kind(), DialogKind::PickFile);
    assert_eq!(dialog_status(None), DialogStatus::Pending);
    assert_eq!(dialog_status(Some(None)), DialogStatus::Cancel);
    assert_eq!(dialog_status(Some(Some("/a".to_string()))), DialogStatus::Success("/a".to_string()));
}

#[test]
fn dialog_options_are_used_once() {
    let mut o = DialogOptions::new();
    o.set_directory("/start".to_string());
    o.set_title("Pick");
    let taken = o.take();
    assert_eq!(taken.directory, Some("/start".to_string()));
    assert_eq!(taken.title, Some("Pick".to_string()));
    assert_eq!(taken.file_name, None);
    let again = o.take();
    assert!(again.directory.is_none() && again.title.is_none());
}

// ---- assets -----------------------------------------------------------------------

#[test]
fn assets_relative_paths() {
    assert_eq!(to_forward_slashes("tiles\\grass\\a.png"), "tiles/grass/a.png");
    let assets = AssetsBasePath::new("/game/assets".to_string());
    assert_eq!(assets.path(), "/game/assets");
    let r = assets.to_relative_checked(
        "/game/assets/tiles/a.png",
        Some("/game/assets/tiles/a.png".to_string()),
        Some("/game/assets".to_string()),
    );
    assert_eq!(r, Ok("tiles/a.png".to_string()));
    let r = assets.to_relative_checked("/else/b.png", Some("/else/b.png".to_string()), None);
    assert_eq!(r, Err(PathError::OutsideAssetsDirectory("/else/b.png".to_string())));
    let r = assets.to_relative_checked("/gone.png", None, None);
    assert_eq!(r, Err(PathError::FileNotFound("/gone.png".to_string())));
    assert_eq!(assets.to_relative("/gone.png", None, None), "/gone.png");
    assert_eq!(
        assets.to_relative("/game/assets/tiles/a.png", Some("/game/assets/tiles/a.png".to_string()), None),
        "tiles/a.png"
    );
    assert_eq!(assets.to_relative("/x/b.png", Some("/x/b.png".to_string()), None), "/x/b.png");
    assert_eq!(assets.to_relative("/game/assets", Some("/game/assets".to_string()), None), "");
    assert!(!assets.is_inside_assets("/gone.png", None, None));
    assert!(assets.is_inside_assets("/game/assets", Some("/game/assets".to_string()), None));
    assert!(assets.is_inside_assets("/game/assets/tiles/a.png", Some("/game/assets/tiles/a.png".to_string()), None));
    assert!(!assets.is_inside_assets("/else/b.png", Some("/else/b.png".to_string()), None));
    assert_eq!(
        assets.to_relative_checked("/game/assets", Some("/real/assets".to_string()), Some("/real/assets".to_string())),
        Ok(String::new())
    );
    assert_eq!(relative_from_stripped("/x", Some("a\\b".to_string())), Ok("a/b".to_string()));
    assert_eq!(PathError::FileNotFound("/gone.png".to_string()).message(), "File not found: /gone.png");
    assert_eq!(
        PathError::OutsideAssetsDirectory("/e".to_string()).message(),
        "File is outside assets directory: /e"
    );
    assert_eq!(PathError::CopyFailed("x".to_string()).message(), "Failed to copy file: x");
}

#[test]
fn assets_directory_choice() {
    let probe = AssetsPathProbe {
        asset_root: Some(("/root_assets".to_string(), false)),
        manifest_assets: Some(("/crate/assets".to_string(), true)),
        cwd_assets: Some("/cwd/assets".to_string()),
    };
    assert_eq!(EditorPlugin::new().detect_assets_path(&probe), "/crate/assets");
    let custom = EditorPlugin::default().with_assets_path("/mine".to_string());
    assert_eq!(custom.detect_assets_path(&probe), "/mine");
    let bare = AssetsPathProbe { asset_root: None, manifest_assets: None, cwd_assets: None };
    assert_eq!(EditorPlugin::new().detect_assets_path(&bare), "assets");
}

#[test]
fn copy_plans() {
    assert_eq!(plan_copy_with(None, false, false, "", "", ""), Err(PathError::CopyFailed("Invalid filename".to_string())));
    assert_eq!(
        plan_copy_with(Some("a.png"), true, true, "a", "png", "u"),
        Ok(CopyPlan::UseExisting("tiles/a.png".to_string()))
    );
    assert_eq!(
        plan_copy_with(Some("a.png"), false, false, "a", "png", "u"),
        Ok(CopyPlan::CopyTo { file_name: "a.png".to_string(), relative: "tiles/a.png".to_string() })
    );
    assert_eq!(
        plan_copy_with(Some("a.png"), true, false, "a", "png", "123"),
        Ok(CopyPlan::CopyTo { file_name: "a_123.png".to_string(), relative: "tiles/a_123.png".to_string() })
    );
    match plan_copy(Some("a.png"), true, false, "a", "png") {
        Ok(CopyPlan::CopyTo { file_name, relative }) => {
            assert_eq!(file_name.len(), "a_.png".len() + 32);
            assert!(file_name.starts_with("a_") && file_name.ends_with(".png"));
            let hex = &file_name[2..34];
            assert!(hex.chars().all(|c| c.is_ascii_hexdigit() && !c.is_ascii_uppercase()));
            assert_eq!(&hex[12..13], "4");
            assert_eq!(relative, format!("tiles/{}", file_name));
        }
        other => panic!("unexpected {:?}", other),
    }
}

// ---- panel state ----------------------------------------------------------------------

#[test]
fn panel_state_defaults() {
    let e = EntityPaintState::new();
    assert!(e.selected_entity_type.is_none() && !e.is_entity_mode);
    let t = TerrainPaintState::new();
    assert_eq!(t, TerrainPaintState::default());
    assert!(t.selected_terrain_set.is_none() && !t.is_terrain_mode);
    assert_eq!(PaletteTab::default(), PaletteTab::Tiles);
    assert_eq!(SchemaTab::default(), SchemaTab::Enums);
    assert_eq!(TilesetEditorTab::default(), TilesetEditorTab::Images);
    assert_eq!(CollisionDrawMode::default(), CollisionDrawMode::Select);
    assert_eq!(CopyFileCallback::default(), CopyFileCallback::Idle);
    let r = AnimationEditorResult::default();
    assert!(!r.changed && !r.close && !r.open_spritesheet_editor);
    let r = SpriteSheetEditorResult::default();
    assert!(!r.changed && !r.close && !r.browse_spritesheet && !r.reload_spritesheet);
    let p = TerrainPreviewState::default();
    assert!(p.preview_tiles.is_empty() && !p.active && p.tileset_id.is_none());
}

#[test]
fn pending_action_check() {
    let pending = Some(PendingAction::Save);
    assert_pending_action(pending.as_ref(), &PendingAction::Save);
}
