//! Small pieces of editor state kept by the panels and dialogs, and the
//! actions the menus hand to the editor.
use vstd::prelude::*;

verus! {

/// An action requested from a menu or a shortcut, carried out by the editor
/// on its next update.
#[derive(Debug, Clone, Copy, PartialEq, Eq, Structural)]
pub enum PendingAction {
    New,
    Open,
    Save,
    SaveAs,
    Exit,
    Undo,
    Redo,
    Cut,
    Copy,
    Paste,
    SelectAll,
    OpenGameSettings,
    RunGame,
    GenerateCode,
    PreviewCode,
    OpenInVSCode,
    RunAutomapRules,
}

/// Checks that the pending action is the expected one; callers must hold
/// that it is.
pub fn assert_pending_action(actual: Option<&PendingAction>, expected: &PendingAction)
    requires
        actual == Some(expected),
{
    let matches = match actual {
        Some(a) => *a == *expected,
        None => false,
    };
    assert(matches);
}

/// State for entity placement.
#[derive(Debug)]
pub struct EntityPaintState {
    /// The selected entity type name.
    pub selected_entity_type: Option<String>,
    /// Whether entity placement mode is active.
    pub is_entity_mode: bool,
}

impl EntityPaintState {
    /// No entity type selected, placement mode off.
    pub fn new() -> (r: Self)
        ensures
            r.selected_entity_type is None,
            !r.is_entity_mode,
    {
        EntityPaintState { selected_entity_type: None, is_entity_mode: false }
    }
}

impl Default for EntityPaintState {
    fn default() -> (r: Self)
        ensures
            r.selected_entity_type is None,
            !r.is_entity_mode,
    {
        EntityPaintState::new()
    }
}

/// State for terrain painting.
#[derive(Debug, Clone, Copy, PartialEq, Eq, Structural)]
pub struct TerrainPaintState {
    /// The selected terrain set.
    pub selected_terrain_set: Option<u128>,
    /// The selected terrain within the set.
    pub selected_terrain_idx: Option<usize>,
    /// Whether painting with the terrain brush.
    pub is_terrain_mode: bool,
}

impl TerrainPaintState {
    /// Nothing selected, terrain mode off.
    pub fn new() -> (r: Self)
        ensures
            r == (TerrainPaintState {
                selected_terrain_set: None,
                selected_terrain_idx: None,
                is_terrain_mode: false,
            }),
    {
        TerrainPaintState { selected_terrain_set: None, selected_terrain_idx: None, is_terrain_mode: false }
    }
}

impl Default for TerrainPaintState {
    fn default() -> (r: Self)
        ensures
            r == (TerrainPaintState {
                selected_terrain_set: None,
                selected_terrain_idx: None,
                is_terrain_mode: false,
            }),
    {
        TerrainPaintState::new()
    }
}

/// Tab of the tile palette.
#[derive(Debug, Clone, Copy, PartialEq, Eq, Structural)]
pub enum PaletteTab {
    Tiles,
    Terrains,
}

impl Default for PaletteTab {
    fn default() -> (r: Self)
        ensures
            r == PaletteTab::Tiles,
    {
        PaletteTab::Tiles
    }
}

/// Active tab of the schema editor.
#[derive(Debug, Clone, Copy, PartialEq, Eq, Structural)]
pub enum SchemaTab {
    Enums,
    DataTypes,
}

impl Default for SchemaTab {
    fn default() -> (r: Self)
        ensures
            r == SchemaTab::Enums,
    {
        SchemaTab::Enums
    }
}

/// Which part of an animation window is dragged.
#[derive(Debug, Clone, Copy, PartialEq, Eq, Structural)]
pub enum DragHandle {
    /// The window's start edge.
    Start,
    /// The window's end edge.
    End,
    /// The whole window.
    Body,
}

/// What the animation editor asks of its caller after a frame.
#[derive(Debug, Clone, Copy, PartialEq, Eq, Structural)]
pub struct AnimationEditorResult {
    /// The sprite data changed and should be saved.
    pub changed: bool,
    /// The editor should close.
    pub close: bool,
    /// Open the sprite sheet editor for this asset.
    pub open_spritesheet_editor: bool,
}

impl Default for AnimationEditorResult {
    fn default() -> (r: Self)
        ensures
            r == (AnimationEditorResult { changed: false, close: false, open_spritesheet_editor: false }),
    {
        AnimationEditorResult { changed: false, close: false, open_spritesheet_editor: false }
    }
}

/// What the sprite sheet editor asks of its caller after a frame.
#[derive(Debug, Clone, Copy, PartialEq, Eq, Structural)]
pub struct SpriteSheetEditorResult {
    /// The sprite data changed and should be saved.
    pub changed: bool,
    /// The editor should close.
    pub close: bool,
    /// Open a file browser to pick the sprite sheet.
    pub browse_spritesheet: bool,
    /// The sprite sheet path changed and must be reloaded.
    pub reload_spritesheet: bool,
}

impl Default for SpriteSheetEditorResult {
    fn default() -> (r: Self)
        ensures
            r == (SpriteSheetEditorResult {
                changed: false,
                close: false,
                browse_spritesheet: false,
                reload_spritesheet: false,
            }),
    {
        SpriteSheetEditorResult { changed: false, close: false, browse_spritesheet: false, reload_spritesheet: false }
    }
}

/// Tab of the tileset editor.
#[derive(Debug, Clone, Copy, PartialEq, Eq, Structural)]
pub enum TilesetEditorTab {
    Images,
    TerrainSets,
    TileProperties,
    Collision,
}

impl Default for TilesetEditorTab {
    fn default() -> (r: Self)
        ensures
            r == TilesetEditorTab::Images,
    {
        TilesetEditorTab::Images
    }
}

/// Drawing mode of the collision editor.
#[derive(Debug, Clone, Copy, PartialEq, Eq, Structural)]
pub enum CollisionDrawMode {
    Select,
    Rectangle,
    Circle,
    Polygon,
}

impl Default for CollisionDrawMode {
    fn default() -> (r: Self)
        ensures
            r == CollisionDrawMode::Select,
    {
        CollisionDrawMode::Select
    }
}

/// A corner handle of a rectangle.
#[derive(Debug, Clone, Copy, PartialEq, Eq, Structural)]
pub enum RectCorner {
    TopLeft,
    TopRight,
    BottomLeft,
    BottomRight,
}

/// Which dialog asked to copy a picked file into the assets directory.
#[derive(Debug, Clone, Copy, PartialEq, Eq, Structural)]
pub enum CopyFileCallback {
    /// No copy pending.
    Idle,
    /// Creating a new tileset.
    NewTileset,
    /// Adding an image to a tileset.
    AddTilesetImage,
}

impl Default for CopyFileCallback {
    fn default() -> (r: Self)
        ensures
            r == CopyFileCallback::Idle,
    {
        CopyFileCallback::Idle
    }
}

/// Preview of a terrain stroke: the tiles it would place.
#[derive(Debug)]
pub struct TerrainPreviewState {
    /// Positions and the tiles that would be placed there.
    pub preview_tiles: Vec<((i32, i32), u32)>,
    /// Whether the preview is shown.
    pub active: bool,
    /// Tileset of the preview tiles.
    pub tileset_id: Option<u128>,
}

impl Default for TerrainPreviewState {
    fn default() -> (r: Self)
        ensures
            r.preview_tiles@.len() == 0,
            !r.active,
            r.tileset_id is None,
    {
        TerrainPreviewState { preview_tiles: Vec::new(), active: false, tileset_id: None }
    }
}

/// The item being renamed inline in the project tree.
#[derive(Debug, Clone, PartialEq, Eq)]
pub enum RenamingItem {
    DataInstance(u128),
    /// (level, entity)
    Entity(u128, u128),
    Level(u128),
    /// (level, layer index)
    Layer(u128, usize),
    Tileset(u128),
    SpriteSheet(u128),
    Dialogue(String),
}

} // verus!
