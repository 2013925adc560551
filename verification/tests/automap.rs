use bevy_map_editor::automap::{
    apply_mode_label, brush_to_matcher, edge_handling_label, ensure_input_group, get_input_half_dims,
    input_brush_label, input_cell_label, make_default_output_alt, make_default_rule, output_brush_label,
    output_brush_to_cell_output, output_cell_label, resize_input_group_cols, resize_input_group_rows,
    sync_output_grid_dims, ApplyMode, AutomapEditorState, AutomapEditorTab, CellMatcher, CellOutput,
    EdgeHandling, InputBrushType, InputConditionGroup, OutputBrushType,
};

fn numbered_group(hw: u32, hh: u32) -> InputConditionGroup {
    let n = ((2 * hw + 1) * (2 * hh + 1)) as u32;
    InputConditionGroup {
        layer_id: 7,
        half_width: hw,
        half_height: hh,
        matchers: (0..n).map(CellMatcher::Tile).collect(),
    }
}

#[test]
fn default_rule_is_three_by_three() {
    let rule = make_default_rule(11, 22);
    assert_eq!(rule.name, "New Rule");
    assert_eq!(rule.input_groups.len(), 1);
    let g = &rule.input_groups[0];
    assert_eq!((g.layer_id, g.half_width, g.half_height), (11, 1, 1));
    assert_eq!(g.matchers, vec![CellMatcher::Ignore; 9]);
    assert_eq!(rule.output_alternatives.len(), 1);
    let a = &rule.output_alternatives[0];
    assert_eq!((a.layer_id, a.half_width, a.half_height, a.weight), (22, 1, 1, 1));
    assert_eq!(a.outputs, vec![CellOutput::Ignore; 9]);
    assert!(!rule.no_overlapping_output);
    // Fresh random ids carry the version 4 bits.
    assert_eq!((rule.id >> 76) & 0xf, 4);
    assert_eq!((a.id >> 76) & 0xf, 4);
    assert_ne!(rule.id, a.id);
}

#[test]
fn default_output_alternative() {
    let a = make_default_output_alt(2, 0, 5, 3);
    assert_eq!(a.outputs.len(), 5);
    assert_eq!((a.half_width, a.half_height, a.layer_id, a.weight), (2, 0, 3, 1));
}

#[test]
fn ensure_input_group_adds_only_when_missing() {
    let mut rule = make_default_rule(1, 2);
    rule.input_groups.clear();
    assert_eq!(get_input_half_dims(&rule), (1, 1));
    ensure_input_group(&mut rule, 9);
    assert_eq!(rule.input_groups.len(), 1);
    assert_eq!(rule.input_groups[0].layer_id, 9);
    rule.input_groups[0].half_width = 3;
    ensure_input_group(&mut rule, 5);
    assert_eq!(rule.input_groups.len(), 1);
    assert_eq!(get_input_half_dims(&rule), (3, 1));
}

#[test]
fn widening_keeps_columns_and_fills_ignore() {
    let mut g = numbered_group(0, 1); // 1 column, 3 rows: 0,1,2
    resize_input_group_cols(&mut g, 1); // 3 columns
    assert_eq!(g.half_width, 1);
    assert_eq!(
        g.matchers,
        vec![
            CellMatcher::Tile(0), CellMatcher::Ignore, CellMatcher::Ignore,
            CellMatcher::Tile(1), CellMatcher::Ignore, CellMatcher::Ignore,
            CellMatcher::Tile(2), CellMatcher::Ignore, CellMatcher::Ignore,
        ]
    );
    // Narrowing back gives the grid back.
    resize_input_group_cols(&mut g, 0);
    assert_eq!(g.matchers, vec![CellMatcher::Tile(0), CellMatcher::Tile(1), CellMatcher::Tile(2)]);
}

#[test]
fn rows_resize_round_trip() {
    let mut g = numbered_group(1, 0); // 3 columns, 1 row
    resize_input_group_rows(&mut g, 1);
    assert_eq!(g.matchers.len(), 9);
    assert_eq!(&g.matchers[0..3], &[CellMatcher::Tile(0), CellMatcher::Tile(1), CellMatcher::Tile(2)]);
    assert!(g.matchers[3..].iter().all(|m| *m == CellMatcher::Ignore));
    resize_input_group_rows(&mut g, 0);
    assert_eq!(g.matchers, vec![CellMatcher::Tile(0), CellMatcher::Tile(1), CellMatcher::Tile(2)]);
}

#[test]
fn short_grids_read_as_ignore() {
    let mut g = InputConditionGroup { layer_id: 0, half_width: 1, half_height: 0, matchers: vec![CellMatcher::Empty] };
    resize_input_group_rows(&mut g, 0);
    assert_eq!(g.matchers, vec![CellMatcher::Empty, CellMatcher::Ignore, CellMatcher::Ignore]);
}

#[test]
fn outputs_follow_the_input_grid() {
    let mut rule = make_default_rule(1, 2);
    rule.output_alternatives[0].outputs[4] = CellOutput::Tile(5);
    rule.output_alternatives[0].outputs[0] = CellOutput::Empty;
    resize_input_group_cols(&mut rule.input_groups[0], 0);
    sync_output_grid_dims(&mut rule);
    let a = &rule.output_alternatives[0];
    assert_eq!((a.half_width, a.half_height), (0, 1));
    // Column 0 of the 3x3 grid: cells 0, 3, 6.
    assert_eq!(a.outputs, vec![CellOutput::Empty, CellOutput::Ignore, CellOutput::Ignore]);
    resize_input_group_cols(&mut rule.input_groups[0], 2);
    sync_output_grid_dims(&mut rule);
    let a = &rule.output_alternatives[0];
    assert_eq!(a.outputs.len(), 15);
    assert_eq!(a.outputs[0], CellOutput::Empty);
    assert!(a.outputs[1..].iter().all(|o| *o == CellOutput::Ignore));
}

#[test]
fn brushes_paint_matchers() {
    assert_eq!(brush_to_matcher(InputBrushType::Tile, Some(4)), CellMatcher::Tile(4));
    assert_eq!(brush_to_matcher(InputBrushType::NotTile, None), CellMatcher::NotTile(0));
    assert_eq!(brush_to_matcher(InputBrushType::Empty, Some(4)), CellMatcher::Empty);
    assert_eq!(brush_to_matcher(InputBrushType::NonEmpty, None), CellMatcher::NonEmpty);
    assert_eq!(brush_to_matcher(InputBrushType::Ignore, Some(1)), CellMatcher::Ignore);
    assert_eq!(output_brush_to_cell_output(OutputBrushType::Tile, Some(9)), CellOutput::Tile(9));
    assert_eq!(output_brush_to_cell_output(OutputBrushType::Tile, None), CellOutput::Tile(0));
    assert_eq!(output_brush_to_cell_output(OutputBrushType::LeaveUnchanged, Some(9)), CellOutput::Ignore);
}

#[test]
fn cell_labels() {
    assert_eq!(input_cell_label(&CellMatcher::Ignore), "?");
    assert_eq!(input_cell_label(&CellMatcher::Empty), "_");
    assert_eq!(input_cell_label(&CellMatcher::NonEmpty), "*");
    assert_eq!(input_cell_label(&CellMatcher::Tile(42)), "42");
    assert_eq!(input_cell_label(&CellMatcher::NotTile(7)), "!7");
    assert_eq!(input_cell_label(&CellMatcher::TileFlipped { id: 105, flip_x: true, flip_y: false }), "105f");
    assert_eq!(input_cell_label(&CellMatcher::Other), "~");
    assert_eq!(output_cell_label(&CellOutput::Ignore), "-");
    assert_eq!(output_cell_label(&CellOutput::Empty), "_");
    assert_eq!(output_cell_label(&CellOutput::Tile(0)), "0");
    assert_eq!(output_cell_label(&CellOutput::Tile(4294967295)), "4294967295");
}

#[test]
fn choice_labels() {
    assert_eq!(edge_handling_label(EdgeHandling::Skip), "Ignore");
    assert_eq!(edge_handling_label(EdgeHandling::TreatAsEmpty), "Fixed");
    assert_eq!(apply_mode_label(ApplyMode::Once), "Once");
    assert_eq!(apply_mode_label(ApplyMode::UntilStable), "Until Stable");
    assert_eq!(input_brush_label(InputBrushType::Ignore), "Ignore");
    assert_eq!(input_brush_label(InputBrushType::Empty), "Empty");
    assert_eq!(input_brush_label(InputBrushType::NonEmpty), "NonEmpty");
    assert_eq!(input_brush_label(InputBrushType::Tile), "Tile");
    assert_eq!(input_brush_label(InputBrushType::NotTile), "NOT Tile");
    assert_eq!(output_brush_label(OutputBrushType::LeaveUnchanged), "Leave Unchanged");
    assert_eq!(output_brush_label(OutputBrushType::Tile), "Tile");
}

#[test]
fn editor_state_defaults() {
    let s = AutomapEditorState::default();
    assert_eq!(s.active_tab, AutomapEditorTab::InputPattern);
    assert_eq!(s.input_brush, InputBrushType::Ignore);
    assert_eq!(s.output_brush, OutputBrushType::LeaveUnchanged);
    assert!(s.rule_set_settings_open);
    assert!(!s.auto_on_draw);
    assert!(s.selected_rule_set.is_none());
    assert_eq!(InputBrushType::default(), InputBrushType::Ignore);
}

#[test]
fn automap_editor_add_rule_set_button_adds_rule_set() {
    let mut project = bevy_map_editor::project::Project::new(bevy_map_editor::project::Schema {
        project: bevy_map_editor::project::SchemaProject { name: "Demo".to_string() },
    });
    let mut state = bevy_map_editor::automap::AutomapEditorState::default();
    assert_eq!(project.automap_config.rule_sets.len(), 0);
    state.add_rule_set(&mut project.automap_config);
    assert_eq!(project.automap_config.rule_sets.len(), 1, "Clicking '+ Add' must add one rule set");
    assert_eq!(project.automap_config.rule_sets[0].name, "New Rule Set");
    assert!(!project.automap_config.rule_sets[0].disabled);
    assert!(project.automap_config.rule_sets[0].rules.is_empty());
    assert_eq!(state.selected_rule_set, Some(0));
    assert_eq!(state.selected_rule, None);
}

#[test]
fn rule_set_column_reorders_and_deletes_with_confirmation() {
    let mut config = bevy_map_editor::automap::AutomapConfig::new();
    let mut state = bevy_map_editor::automap::AutomapEditorState::default();
    let a = state.add_rule_set(&mut config);
    let b = state.add_rule_set(&mut config);
    let c = state.add_rule_set(&mut config);
    assert_eq!(state.selected_rule_set, Some(2));
    state.selected_rule = Some(4);
    state.select_rule_set(2);
    assert_eq!(state.selected_rule, Some(4));
    state.select_rule_set(0);
    assert_eq!((state.selected_rule_set, state.selected_rule), (Some(0), None));
    state.move_rule_set(&mut config, 0, false);
    let ids: Vec<u128> = config.rule_sets.iter().map(|r| r.id).collect();
    assert_eq!(ids, vec![b, a, c]);
    assert_eq!(state.selected_rule_set, Some(1));
    state.move_rule_set(&mut config, 2, true);
    let ids: Vec<u128> = config.rule_sets.iter().map(|r| r.id).collect();
    assert_eq!(ids, vec![b, c, a]);
    // Only a moved selected rule set is followed; the displaced neighbour
    // keeps the selected index.
    assert_eq!(state.selected_rule_set, Some(1));
    state.request_delete_rule_set(0);
    assert_eq!(state.pending_delete_rule_set, Some(0));
    state.cancel_delete_rule_set();
    assert_eq!(state.pending_delete_rule_set, None);
    assert_eq!(config.rule_sets.len(), 3);
    state.request_delete_rule_set(0);
    state.confirm_delete_rule_set(&mut config, 0);
    assert_eq!(config.rule_sets.len(), 2);
    assert_eq!(state.selected_rule_set, Some(0));
    assert_eq!(state.pending_delete_rule_set, None);
    state.confirm_delete_rule_set(&mut config, 1);
    assert_eq!(state.selected_rule_set, Some(0));
    state.confirm_delete_rule_set(&mut config, 0);
    assert_eq!(state.selected_rule_set, None);
    assert!(config.rule_sets.is_empty());
}
