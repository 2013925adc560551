use bevy_map_editor::clipboard::{TileClipboard, TileSelection};
use bevy_map_editor::commands::{
    collect_tiles_in_region, AutomapCommand, BatchTileCommand, Command, MoveEntityCommand, RenderState, TileChange,
};
use bevy_map_editor::history::CommandHistory;
use bevy_map_editor::map::{EntityInstance, Layer, LayerData, Level, Position};
use bevy_map_editor::project::{Project, Schema, SchemaProject};

const LEVEL: u128 = 100;
const NPC: u128 = 200;

fn project_with_level() -> Project {
    let mut project = Project::new(Schema { project: SchemaProject { name: "Demo".to_string() } });
    let level = Level {
        id: LEVEL,
        name: "Start".to_string(),
        width: 3,
        height: 2,
        layers: vec![
            Layer { name: "Ground".to_string(), data: LayerData::Tiles { tiles: vec![None; 6] } },
            Layer { name: "Objects".to_string(), data: LayerData::Objects { entities: vec![NPC] } },
        ],
        entities: vec![EntityInstance {
            id: NPC,
            entity_type: "NPC".to_string(),
            position: Position { x_bits: 1.0f32.to_bits(), y_bits: 2.0f32.to_bits() },
        }],
    };
    project.add_level(level);
    project
}

fn tile(project: &Project, x: u32, y: u32) -> Option<u32> {
    project.get_level(LEVEL).unwrap().get_tile(0, x, y)
}

fn paint(x: u32, y: u32, old_tile: Option<u32>, new_tile: Option<u32>) -> TileChange {
    TileChange { x, y, old_tile, new_tile }
}

#[test]
fn batch_command_executes_and_undoes() {
    let mut project = project_with_level();
    let mut render = RenderState { needs_rebuild: false };
    let mut history = CommandHistory::new();
    let cmd = BatchTileCommand::new(LEVEL, 0, vec![paint(1, 1, None, Some(5)), paint(2, 0, None, Some(6))], "Paint".to_string());
    history.execute(Command::BatchTile(cmd), &mut project, &mut render);
    assert!(render.needs_rebuild);
    assert!(project.is_dirty());
    assert_eq!(tile(&project, 1, 1), Some(5));
    assert_eq!(tile(&project, 2, 0), Some(6));
    assert!(history.can_undo());
    assert!(!history.can_redo());
    assert_eq!(history.undo_description(), Some("Paint"));

    history.undo(&mut project, &mut render);
    assert_eq!(tile(&project, 1, 1), None);
    assert_eq!(tile(&project, 2, 0), None);
    assert!(history.can_redo());
    assert_eq!(history.redo_description(), Some("Paint"));

    history.redo(&mut project, &mut render);
    assert_eq!(tile(&project, 1, 1), Some(5));
    assert!(!history.can_redo());
}

#[test]
fn new_command_clears_redo() {
    let mut project = project_with_level();
    let mut render = RenderState { needs_rebuild: false };
    let mut history = CommandHistory::new();
    let first = BatchTileCommand::new(LEVEL, 0, vec![paint(0, 0, None, Some(1))], "One".to_string());
    history.execute(Command::BatchTile(first), &mut project, &mut render);
    history.undo(&mut project, &mut render);
    assert!(history.can_redo());
    let second = BatchTileCommand::new(LEVEL, 0, vec![paint(0, 1, None, Some(2))], "Two".to_string());
    history.execute(Command::BatchTile(second), &mut project, &mut render);
    assert!(!history.can_redo());
    history.clear();
    assert!(!history.can_undo());
}

#[test]
fn out_of_grid_changes_are_skipped() {
    let mut project = project_with_level();
    let mut render = RenderState { needs_rebuild: false };
    let cmd = Command::BatchTile(BatchTileCommand::new(LEVEL, 0, vec![paint(0, 5, None, Some(9))], "Far".to_string()));
    cmd.execute(&mut project, &mut render);
    for y in 0..2 {
        for x in 0..3 {
            assert_eq!(tile(&project, x, y), None);
        }
    }
}

#[test]
fn move_entity_and_back() {
    let mut project = project_with_level();
    let mut render = RenderState { needs_rebuild: false };
    let old_pos = Position { x_bits: 1.0f32.to_bits(), y_bits: 2.0f32.to_bits() };
    let new_pos = Position { x_bits: 8.0f32.to_bits(), y_bits: 9.0f32.to_bits() };
    let cmd = Command::MoveEntity(MoveEntityCommand::new(LEVEL, NPC, old_pos, new_pos));
    assert_eq!(cmd.description(), "Move Entity");
    cmd.execute(&mut project, &mut render);
    assert!(!render.needs_rebuild);
    assert_eq!(project.get_level(LEVEL).unwrap().entities[0].position, new_pos);
    cmd.undo(&mut project, &mut render);
    assert_eq!(project.get_level(LEVEL).unwrap().entities[0].position, old_pos);
}

#[test]
fn automap_command_changes_several_layers() {
    let mut project = project_with_level();
    let mut render = RenderState { needs_rebuild: false };
    let empty = AutomapCommand::new(LEVEL, Vec::new(), "Automap".to_string());
    assert!(empty.is_empty());
    let cmd = AutomapCommand::new(LEVEL, vec![(0, vec![paint(0, 0, None, Some(3)), paint(1, 0, None, Some(4))])], "Automap".to_string());
    assert!(!cmd.is_empty());
    let cmd = Command::Automap(cmd);
    cmd.execute(&mut project, &mut render);
    assert_eq!(tile(&project, 0, 0), Some(3));
    assert_eq!(tile(&project, 1, 0), Some(4));
    cmd.undo(&mut project, &mut render);
    assert_eq!(tile(&project, 0, 0), None);
}

#[test]
fn automap_skips_cells_outside_the_level() {
    let mut project = project_with_level();
    let mut render = RenderState { needs_rebuild: false };
    // (3, 0) lies past the right edge of the 3-wide level, though its index
    // falls inside the tile grid; (0, 5) lies below it.
    let cmd = Command::Automap(AutomapCommand::new(
        LEVEL,
        vec![(0, vec![paint(3, 0, None, Some(7)), paint(0, 5, None, Some(8)), paint(2, 1, None, Some(9))])],
        "Automap".to_string(),
    ));
    cmd.execute(&mut project, &mut render);
    assert!(render.needs_rebuild);
    assert_eq!(tile(&project, 0, 1), None);
    assert_eq!(tile(&project, 2, 1), Some(9));
    for y in 0..2 {
        for x in 0..3 {
            if (x, y) != (2, 1) {
                assert_eq!(tile(&project, x, y), None);
            }
        }
    }
    cmd.undo(&mut project, &mut render);
    assert_eq!(tile(&project, 2, 1), None);
}

#[test]
fn diff_records_changed_cells_only() {
    let before = vec![((0, 0), None), ((1, 0), Some(2)), ((2, 0), Some(3))];
    let after = vec![((0, 0), Some(1)), ((1, 0), Some(2)), ((2, 0), None)];
    let cmd = BatchTileCommand::from_diff(LEVEL, 0, before, after, "Fill".to_string());
    assert_eq!(cmd.changes, vec![paint(0, 0, None, Some(1)), paint(2, 0, Some(3), None)]);
    assert_eq!(cmd.description(), "Fill");
}

#[test]
fn region_snapshot_clips_to_level() {
    let mut project = project_with_level();
    let mut render = RenderState { needs_rebuild: false };
    Command::BatchTile(BatchTileCommand::new(LEVEL, 0, vec![paint(2, 1, None, Some(7))], "P".to_string()))
        .execute(&mut project, &mut render);
    let region = collect_tiles_in_region(&project, LEVEL, 0, -1, 5, 1, 1);
    assert_eq!(region, vec![((0, 1), None), ((1, 1), None), ((2, 1), Some(7))]);
    assert!(collect_tiles_in_region(&project, 999, 0, 0, 1, 0, 1).is_empty());
}

#[test]
fn selection_and_clipboard() {
    let mut project = project_with_level();
    let mut render = RenderState { needs_rebuild: false };
    Command::BatchTile(BatchTileCommand::new(LEVEL, 0, vec![paint(1, 0, None, Some(8)), paint(2, 1, None, Some(9))], "P".to_string()))
        .execute(&mut project, &mut render);

    let mut sel = TileSelection::new();
    assert!(sel.is_empty());
    sel.select_rectangle(LEVEL, 0, 2, 1, 1, 0, false);
    assert!(sel.contains(LEVEL, 0, 1, 0));
    assert!(sel.contains(LEVEL, 0, 2, 1));
    assert!(!sel.contains(LEVEL, 0, 0, 0));
    assert_eq!(sel.tiles.len(), 4);

    let mut clip = TileClipboard::new();
    assert!(!clip.has_content());
    clip.copy_selection(&sel, &project);
    assert!(clip.has_content());
    let c = clip.content.as_ref().unwrap();
    assert_eq!((c.width, c.height), (2, 2));
    let mut tiles = c.tiles.clone();
    tiles.sort();
    assert_eq!(tiles, vec![(0, 0, Some(8)), (0, 1, None), (1, 0, None), (1, 1, Some(9))]);

    sel.select_tile(LEVEL, 0, 0, 0, true);
    assert_eq!(sel.tiles.len(), 5);
    sel.select_tile(LEVEL, 0, 0, 0, false);
    assert_eq!(sel.tiles.len(), 1);
    sel.clear();
    assert!(sel.is_empty());
    clip.clear();
    assert!(!clip.has_content());
}
