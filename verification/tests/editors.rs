use bevy_map_editor::animation::{
    drag_window, frame_counter, frame_duration_from_entry, new_animation_name, rename_animation, trim_text,
    AnimationEditorState, TimelineHit,
};
use bevy_map_editor::timeline::{AnimationTrigger, AnimationWindow, Timeline};
use bevy_map_editor::color::Rgb;
use bevy_map_editor::preferences::opened_at;
use bevy_map_editor::project::{Project, Schema, SchemaProject};
use bevy_map_editor::runtime::EntityRegistry;
use bevy_map_editor::schema_types::{color_hex_text, PropertyDef, TypeDef, TypeEditorState};
use bevy_map_editor::tileset::{CollisionShape, OneWayDirection, TileEdit, TileProperties, Tileset};
use bevy_map_editor::ui_state::DragHandle;
use bevy_map_editor::toolbar::{EditorTool, EditorViewMode, ToolMode, ToolbarClick, ToolbarState};

fn names(list: &[&str]) -> Vec<String> {
    list.iter().map(|s| s.to_string()).collect()
}

#[test]
fn drag_start_edge_stops_before_end() {
    assert_eq!(drag_window(100, 500, DragHandle::Start, 200), (200, 500));
    assert_eq!(drag_window(100, 500, DragHandle::Start, 495), (490, 500));
    assert_eq!(drag_window(0, 5, DragHandle::Start, 3), (0, 5));
}

#[test]
fn drag_end_edge_stops_after_start() {
    assert_eq!(drag_window(100, 500, DragHandle::End, 800), (100, 800));
    assert_eq!(drag_window(100, 500, DragHandle::End, 50), (100, 110));
}

#[test]
fn drag_body_keeps_duration() {
    assert_eq!(drag_window(100, 500, DragHandle::Body, 1000), (1000, 1400));
    let (s, e) = drag_window(1000, 1400, DragHandle::Body, 0);
    assert_eq!((s, e), (0, 400));
    // A window that ends before it starts moves with no duration.
    assert_eq!(drag_window(500, 100, DragHandle::Body, 7), (7, 7));
}

#[test]
fn trim_removes_surrounding_white_space() {
    assert_eq!(trim_text("  walk \t\n"), "walk");
    assert_eq!(trim_text("run fast"), "run fast");
    assert_eq!(trim_text("   "), "");
    assert_eq!(trim_text("\u{3000}jump\u{a0}"), "jump");
    assert_eq!(trim_text("  a b  "), "a b".trim());
}

#[test]
fn new_animation_names_count_up_to_first_free() {
    assert_eq!(new_animation_name(&names(&[])), "new_anim");
    assert_eq!(new_animation_name(&names(&["idle"])), "new_anim");
    assert_eq!(new_animation_name(&names(&["new_anim"])), "new_anim_1");
    assert_eq!(new_animation_name(&names(&["new_anim", "new_anim_1", "walk"])), "new_anim_2");
    assert_eq!(new_animation_name(&names(&["new_anim", "new_anim_2"])), "new_anim_1");
    let mut many = vec!["new_anim".to_string()];
    for k in 1..12 {
        many.push(format!("new_anim_{}", k));
    }
    assert_eq!(new_animation_name(&many), "new_anim_12");
}

#[test]
fn rename_trims_and_rekeys() {
    let mut list = names(&["idle", "walk"]);
    let r = rename_animation(&mut list, "walk", "  run  ");
    assert_eq!(r, Some("run".to_string()));
    assert_eq!(list, names(&["idle", "run"]));
}

#[test]
fn rename_refuses_empty_unchanged_taken_or_missing() {
    let mut list = names(&["idle", "walk"]);
    assert_eq!(rename_animation(&mut list, "walk", "   "), None);
    assert_eq!(rename_animation(&mut list, "walk", " walk "), None);
    assert_eq!(rename_animation(&mut list, "walk", "idle"), None);
    assert_eq!(rename_animation(&mut list, "jump", "hop"), None);
    assert_eq!(list, names(&["idle", "walk"]));
}

#[test]
fn frame_counter_is_one_based_and_wraps() {
    assert_eq!(frame_counter(0, 4), 1);
    assert_eq!(frame_counter(5, 4), 2);
    assert_eq!(frame_counter(3, 0), 0);
}

#[test]
fn frame_duration_has_a_floor() {
    assert_eq!(frame_duration_from_entry(5), 16);
    assert_eq!(frame_duration_from_entry(-3), 16);
    assert_eq!(frame_duration_from_entry(100), 100);
}

#[test]
fn animation_editor_toolbar_flow() {
    let mut state = AnimationEditorState::from_sprite_data("sheets/hero.png".to_string(), names(&["idle"]), 7);
    assert_eq!(state.asset_id, Some(7));
    assert!(state.show_preview);
    assert!(!state.can_delete_animation());
    let added = state.add_animation();
    assert_eq!(added, "new_anim");
    assert_eq!(state.animation_names, names(&["idle", "new_anim"]));
    assert_eq!(state.selected_animation, Some("new_anim".to_string()));
    assert!(state.can_delete_animation());
    state.start_rename();
    assert_eq!(state.renaming_animation, Some("new_anim".to_string()));
    assert_eq!(state.rename_buffer, "new_anim");
    assert!(!state.can_delete_animation());
    state.rename_buffer = " attack ".to_string();
    assert!(state.confirm_rename());
    assert_eq!(state.animation_names, names(&["idle", "attack"]));
    assert_eq!(state.selected_animation, Some("attack".to_string()));
    assert_eq!(state.renaming_animation, None);
    assert_eq!(state.rename_buffer, "");
    assert!(state.delete_selected_animation());
    assert_eq!(state.animation_names, names(&["idle"]));
    assert_eq!(state.selected_animation, None);
    assert!(!state.delete_selected_animation());
}

#[test]
fn animation_editor_rename_cancel_and_refusal() {
    let mut state = AnimationEditorState::new();
    state.animation_names = names(&["idle", "walk"]);
    state.selected_animation = Some("walk".to_string());
    state.start_rename();
    state.rename_buffer = "idle".to_string();
    assert!(!state.confirm_rename());
    assert_eq!(state.animation_names, names(&["idle", "walk"]));
    assert_eq!(state.selected_animation, Some("walk".to_string()));
    state.start_rename();
    state.cancel_rename();
    assert_eq!(state.renaming_animation, None);
    assert_eq!(state.animation_names, names(&["idle", "walk"]));
}

#[test]
fn animation_editor_texture_and_open() {
    let mut state = AnimationEditorState::new();
    assert!(!state.needs_texture_load());
    state.open(3, "sprite".to_string(), "a.png".to_string(), names(&["idle"]));
    assert_eq!(state.instance_id, Some(3));
    assert_eq!(state.asset_id, None);
    assert!(state.needs_texture_load());
    state.set_texture();
    assert!(!state.needs_texture_load());
    state.refresh_grid_config("a.png".to_string());
    assert!(state.texture_loaded);
    state.refresh_grid_config("b.png".to_string());
    assert!(!state.texture_loaded);
    assert_eq!(state.loaded_sheet_path, None);
    assert!(state.needs_texture_load());
    state.set_texture();
    state.clear_texture();
    assert!(state.needs_texture_load());
}

#[test]
fn animation_editor_drag_state() {
    let mut state = AnimationEditorState::new();
    state.begin_trigger_drag(9, 250);
    assert_eq!(state.selected_trigger, Some(9));
    state.begin_window_drag(4, DragHandle::Body, 100, 300);
    assert_eq!(state.dragging_window, Some((4, DragHandle::Body)));
    assert_eq!((state.drag_start_time, state.drag_original_end), (100, 300));
    assert_eq!(state.selected_window, Some(4));
    assert_eq!(state.selected_trigger, None);
    state.end_drag();
    assert_eq!(state.dragging_window, None);
    assert_eq!(state.dragging_trigger, None);
    assert_eq!(state.selected_window, Some(4));
}

#[test]
fn tile_properties_default_and_collision() {
    let mut ts = Tileset::new(1, "ground".to_string(), 16);
    let p = ts.tile_properties_of(5);
    assert_eq!(p, TileProperties::new());
    assert!(!p.has_collision());
    ts.set_tile_collision(5, true);
    let p = ts.tile_properties_of(5);
    assert_eq!(p.collision.shape, CollisionShape::Full);
    assert!(p.has_collision());
    assert_eq!(ts.tile_properties_of(6), TileProperties::new());
    ts.set_tile_collision(5, false);
    assert!(!ts.tile_properties_of(5).has_collision());
    assert_eq!(ts.tile_properties.len(), 1);
}

#[test]
fn tile_edits_clamp_to_the_tab_ranges() {
    let mut ts = Tileset::new(1, "trees".to_string(), 16);
    ts.edit_tile(2, TileEdit::Layer(40));
    assert_eq!(ts.tile_properties_of(2).collision.layer, 31);
    ts.edit_tile(2, TileEdit::OneWay(OneWayDirection::Top));
    ts.edit_tile(2, TileEdit::Shape(CollisionShape::Circle));
    ts.edit_tile(2, TileEdit::GridSize(0, 12));
    let p = ts.tile_properties_of(2);
    assert_eq!((p.grid_width, p.grid_height), (1, 8));
    assert_eq!(p.collision.one_way, OneWayDirection::Top);
    assert_eq!(p.collision.shape, CollisionShape::Circle);
    assert_eq!(p.collision.layer, 31);
    ts.edit_tile(2, TileEdit::Origin(500, 20));
    let p = ts.tile_properties_of(2);
    assert_eq!((p.origin_x, p.origin_y), (Some(15), Some(20)));
    ts.edit_tile(2, TileEdit::ResetOrigin);
    let p = ts.tile_properties_of(2);
    assert_eq!((p.origin_x, p.origin_y), (None, None));
}

#[test]
fn project_edits_tiles_of_the_named_tileset() {
    let mut project = Project::new(Schema { project: SchemaProject { name: "P".to_string() } });
    assert!(!project.edit_tile(1, 0, TileEdit::Collision(true)));
    assert!(!project.dirty);
    project.add_tileset(Tileset::new(1, "ground".to_string(), 32));
    project.dirty = false;
    assert!(project.edit_tile(1, 3, TileEdit::Collision(true)));
    assert!(project.dirty);
    assert!(project.tilesets[0].tile_properties_of(3).has_collision());
}

fn prop(name: &str) -> PropertyDef {
    PropertyDef { name: name.to_string(), prop_type: "String".to_string(), required: false }
}

fn prop_names(t: &TypeDef) -> Vec<String> {
    t.properties.iter().map(|p| p.name.clone()).collect()
}

fn type_def() -> TypeDef {
    TypeDef {
        placeable: false,
        color: "#ffffff".to_string(),
        icon: None,
        marker_size: None,
        properties: vec![prop("a"), prop("b"), prop("c")],
    }
}

#[test]
fn type_settings_are_applied() {
    let mut t = type_def();
    t.apply_type_settings(true, 24, Rgb { r: 255, g: 128, b: 10 }, "icons/npc.png".to_string());
    assert!(t.placeable);
    assert_eq!(t.marker_size, Some(24));
    assert_eq!(t.color, "#ff800a");
    assert_eq!(t.icon, Some("icons/npc.png".to_string()));
    assert_eq!(prop_names(&t), vec!["a", "b", "c"]);
    t.apply_type_settings(false, 24, Rgb { r: 0, g: 0, b: 0 }, String::new());
    assert_eq!(t.marker_size, None);
    assert_eq!(t.icon, None);
    assert_eq!(t.color, "#000000");
}

#[test]
fn color_hex_text_is_lower_case() {
    assert_eq!(color_hex_text(Rgb { r: 171, g: 205, b: 239 }), "#abcdef");
}

#[test]
fn properties_move_and_delete() {
    let mut t = type_def();
    assert_eq!(t.move_property(1, true), Some(0));
    assert_eq!(prop_names(&t), vec!["b", "a", "c"]);
    assert_eq!(t.move_property(1, false), Some(2));
    assert_eq!(prop_names(&t), vec!["b", "c", "a"]);
    assert_eq!(t.move_property(0, true), None);
    assert_eq!(t.move_property(2, false), None);
    assert_eq!(prop_names(&t), vec!["b", "c", "a"]);
    t.delete_property(1);
    assert_eq!(prop_names(&t), vec!["b", "a"]);
}

#[test]
fn unregistered_count_counts_each_instance() {
    let mut registry = EntityRegistry::new();
    registry.register("Npc");
    let types = names(&["Npc", "Chest", "Chest", "Door", "Npc"]);
    assert_eq!(registry.count_unregistered(&types), 3);
}

#[test]
fn recent_project_time_stamp_from_clock() {
    assert_eq!(opened_at(Some(1_700_000_000)), 1_700_000_000);
    assert_eq!(opened_at(None), 0);
}

#[test]
fn rename_and_back_restores_names() {
    let mut list = names(&["idle", "walk", "jump"]);
    assert_eq!(rename_animation(&mut list, "walk", "run"), Some("run".to_string()));
    assert_eq!(rename_animation(&mut list, "run", "walk"), Some("walk".to_string()));
    assert_eq!(list, names(&["idle", "walk", "jump"]));
}

#[test]
fn move_up_then_down_restores_order() {
    let mut t = type_def();
    assert_eq!(t.move_property(2, true), Some(1));
    assert_eq!(t.move_property(1, false), Some(2));
    assert_eq!(prop_names(&t), vec!["a", "b", "c"]);
}

#[test]
fn dopesheet_clicks_select() {
    let mut state = AnimationEditorState::new();
    state.click_timeline(TimelineHit::WindowTrack(Some(4)));
    assert_eq!((state.selected_window, state.selected_trigger), (Some(4), None));
    state.click_timeline(TimelineHit::TriggerTrack(Some(8)));
    assert_eq!((state.selected_window, state.selected_trigger), (None, Some(8)));
    state.click_timeline(TimelineHit::WindowTrack(None));
    assert_eq!((state.selected_window, state.selected_trigger), (None, Some(8)));
    state.click_timeline(TimelineHit::WindowTrack(Some(4)));
    state.click_timeline(TimelineHit::TriggerTrack(None));
    assert_eq!((state.selected_window, state.selected_trigger), (Some(4), None));
    state.click_timeline(TimelineHit::Elsewhere);
    assert_eq!((state.selected_window, state.selected_trigger), (None, None));
}

fn timeline() -> Timeline {
    let mut t = Timeline::new();
    t.windows.push(AnimationWindow { id: 1, name: "hitbox".to_string(), start_ms: 100, end_ms: 300 });
    t.triggers.push(AnimationTrigger { id: 2, name: "step".to_string(), time_ms: 250 });
    t
}

#[test]
fn timeline_drags_windows_and_triggers() {
    let mut t = timeline();
    assert!(t.drag_window_to(1, DragHandle::Start, 295));
    assert_eq!((t.windows[0].start_ms, t.windows[0].end_ms), (290, 300));
    assert!(t.drag_window_to(1, DragHandle::Body, 1000));
    assert_eq!((t.windows[0].start_ms, t.windows[0].end_ms), (1000, 1010));
    assert!(t.drag_window_to(1, DragHandle::End, 0));
    assert_eq!((t.windows[0].start_ms, t.windows[0].end_ms), (1000, 1010));
    assert!(!t.drag_window_to(9, DragHandle::End, 0));
    assert!(t.drag_trigger_to(2, 40));
    assert_eq!(t.triggers[0].time_ms, 40);
    assert!(!t.drag_trigger_to(1, 40));
}

#[test]
fn timeline_context_menu_adds_duplicates_and_deletes() {
    let mut t = timeline();
    let w = t.add_window_at(u32::MAX - 30);
    assert_eq!(t.windows.len(), 2);
    assert_eq!(t.windows[1].id, w);
    assert_eq!(t.windows[1].name, "new_window");
    assert_eq!((t.windows[1].start_ms, t.windows[1].end_ms), (u32::MAX - 30, u32::MAX));
    let tr = t.add_trigger_at(500);
    assert_eq!(t.triggers[1].id, tr);
    assert_eq!(t.triggers[1].name, "new_trigger");
    assert_eq!(t.triggers[1].time_ms, 500);
    let copy = t.duplicate_window(1).unwrap();
    assert_eq!(t.windows[2].id, copy);
    assert_eq!(t.windows[2].name, "hitbox_copy");
    assert_eq!((t.windows[2].start_ms, t.windows[2].end_ms), (150, 350));
    let tcopy = t.duplicate_trigger(2).unwrap();
    assert_eq!(t.triggers[2].id, tcopy);
    assert_eq!(t.triggers[2].name, "step_copy");
    assert_eq!(t.triggers[2].time_ms, 300);
    assert_eq!(t.duplicate_window(77), None);
    assert_eq!(t.duplicate_trigger(77), None);
    t.delete_window(1);
    assert_eq!(t.windows.len(), 2);
    assert!(t.windows.iter().all(|w| w.id != 1));
    t.delete_trigger(2);
    assert_eq!(t.triggers.len(), 2);
    assert!(t.triggers.iter().all(|x| x.id != 2));
}

#[test]
fn type_editor_selection_follows_edits() {
    let mut t = type_def();
    let mut state = TypeEditorState::new();
    state.request_add_property();
    assert!(state.show_add_property_dialog);
    state.request_edit_property(1);
    assert_eq!(state.selected_property_idx, Some(1));
    assert!(state.show_edit_property_dialog);
    state.move_property(&mut t, 1, false);
    assert_eq!(state.selected_property_idx, Some(2));
    assert_eq!(prop_names(&t), vec!["a", "c", "b"]);
    state.move_property(&mut t, 2, false);
    assert_eq!(state.selected_property_idx, Some(2));
    state.delete_property(&mut t, 0);
    assert_eq!(state.selected_property_idx, None);
    assert_eq!(prop_names(&t), vec!["c", "b"]);
}

fn toolbar_level_view() -> ToolbarState {
    ToolbarState::new(EditorViewMode::Level)
}

fn toolbar_paint_tool() -> ToolbarState {
    let mut s = ToolbarState::new(EditorViewMode::Level);
    s.current_tool = EditorTool::Paint;
    s
}

#[test]
fn toolbar_grid_checkbox_toggle() {
    let mut state = toolbar_level_view();
    assert!(state.show_grid, "the level view starts with the grid shown");
    state.click(ToolbarClick::ToggleGrid);
    assert!(!state.show_grid, "show_grid should be false after toggling the Grid checkbox");
}

#[test]
fn toolbar_paint_tool_select() {
    let mut state = toolbar_level_view();
    assert_eq!(state.current_tool, EditorTool::Select);
    state.click(ToolbarClick::Tool(EditorTool::Paint));
    assert_eq!(state.current_tool, EditorTool::Paint);
}

#[test]
fn factory_paint_tool_state() {
    let state = toolbar_paint_tool();
    assert_eq!(state.current_tool, EditorTool::Paint);
}

#[test]
fn assert_checkbox_state_grid_checked() {
    let mut state = toolbar_level_view();
    assert!(state.show_grid);
    state.click(ToolbarClick::ToggleGrid);
    assert!(!state.show_grid);
}

#[test]
fn toolbar_world_view_disables_all_but_the_view_toggle() {
    let mut state = ToolbarState::new(EditorViewMode::World);
    let before = state;
    state.click(ToolbarClick::Tool(EditorTool::Paint));
    state.click(ToolbarClick::ToggleGrid);
    state.click(ToolbarClick::RunGame);
    assert_eq!(state, before);
    state.click(ToolbarClick::View(EditorViewMode::Level));
    assert_eq!(state.view_mode, EditorViewMode::Level);
    state.click(ToolbarClick::RunGame);
    assert!(state.run_game_requested);
    state.click(ToolbarClick::TilesetEditor);
    assert!(state.show_tileset_editor);
}

#[test]
fn toolbar_mode_and_paint_toggles_follow_the_tool() {
    let mut state = toolbar_level_view();
    state.click(ToolbarClick::Mode(ToolMode::Line));
    assert_eq!(state.tool_mode, ToolMode::Point);
    state.click(ToolbarClick::ToggleRandom);
    assert!(!state.random_paint);
    state.click(ToolbarClick::Tool(EditorTool::Erase));
    state.click(ToolbarClick::Mode(ToolMode::Rectangle));
    assert_eq!(state.tool_mode, ToolMode::Rectangle);
    state.click(ToolbarClick::ToggleFlipX);
    assert!(!state.paint_flip_x);
    state.click(ToolbarClick::Tool(EditorTool::Paint));
    state.click(ToolbarClick::ToggleRandom);
    state.click(ToolbarClick::ToggleFlipX);
    state.click(ToolbarClick::ToggleFlipY);
    assert!(state.random_paint && state.paint_flip_x && state.paint_flip_y);
}

#[test]
fn delete_after_add_restores_animation_names() {
    let mut state = AnimationEditorState::from_sprite_data("s.png".to_string(), names(&["idle", "new_anim"]), 1);
    let added = state.add_animation();
    assert_eq!(added, "new_anim_1");
    assert!(state.delete_selected_animation());
    assert_eq!(state.animation_names, names(&["idle", "new_anim"]));
}

#[test]
fn animation_toolbar_playback_and_toggles() {
    let mut state = AnimationEditorState::new();
    assert!(!state.offers_sheet_editor());
    state.select_animation("walk".to_string(), vec![3, 4, 5]);
    assert_eq!(state.selected_animation, Some("walk".to_string()));
    assert_eq!(state.selected_frames, vec![3, 4, 5]);
    state.toggle_playback(0);
    assert!(!state.preview_playing);
    state.toggle_playback(3);
    assert!(state.preview_playing);
    state.preview_frame = 7;
    assert_eq!(frame_counter(state.preview_frame, 3), 2);
    state.first_frame();
    assert_eq!(state.preview_frame, 0);
    state.toggle_playback(3);
    assert!(!state.preview_playing);
    state.toggle_frame_picker();
    assert!(state.show_frame_picker);
    state.toggle_preview();
    assert!(!state.show_preview);
    let asset = AnimationEditorState::from_sprite_data(String::new(), Vec::new(), 5);
    assert!(asset.offers_sheet_editor());
}
