use vstd::prelude::*;

use crate::text::{decimal, decimal_string};

verus! {

/// Available editor tools.
#[derive(Debug, Clone, Copy, PartialEq, Eq, Structural)]
pub enum EditorTool {
    Select,
    Paint,
    Erase,
    Fill,
    Terrain,
    Entity,
}

impl EditorTool {
    /// Returns true if this tool supports the Point/Rectangle/Line modes.
    pub fn supports_modes(&self) -> (r: bool)
        ensures
            r == (*self == EditorTool::Paint || *self == EditorTool::Erase
                || *self == EditorTool::Terrain),
    {
        match self {
            EditorTool::Paint | EditorTool::Erase | EditorTool::Terrain => true,
            _ => false,
        }
    }
}

/// Tool mode for painting operations.
#[derive(Debug, Clone, Copy, PartialEq, Eq, Structural)]
pub enum ToolMode {
    /// Single tile/point painting (click or drag).
    Point,
    /// Rectangle fill (drag to define the area).
    Rectangle,
    /// Line drawing (drag to define the line).
    Line,
}

impl ToolMode {
    /// The short label shown for the mode.
    pub fn label(&self) -> (r: &'static str)
        ensures
            r@ == tool_mode_label(*self),
    {
        proof {
            reveal_strlit("Point");
            reveal_strlit("Rect");
            reveal_strlit("Line");
        }
        match self {
            ToolMode::Point => "Point",
            ToolMode::Rectangle => "Rect",
            ToolMode::Line => "Line",
        }
    }
}

pub open spec fn tool_mode_label(m: ToolMode) -> Seq<char> {
    match m {
        ToolMode::Point => seq!['P', 'o', 'i', 'n', 't'],
        ToolMode::Rectangle => seq!['R', 'e', 'c', 't'],
        ToolMode::Line => seq!['L', 'i', 'n', 'e'],
    }
}

/// What the main view shows: one level, or the world overview.
#[derive(Debug, Clone, Copy, PartialEq, Eq, Structural)]
pub enum EditorViewMode {
    Level,
    World,
}

/// What the toolbar shows and enables.
#[derive(Debug, PartialEq, Eq)]
pub struct ToolbarView {
    /// The tools can be picked (only when editing a level).
    pub tools_enabled: bool,
    /// The point/rectangle/line mode picker is shown.
    pub show_modes: bool,
    /// The random-paint and flip toggles are shown.
    pub show_paint_toggles: bool,
    /// The selected layer, or "(none)".
    pub layer_label: String,
}

/// What the toolbar shows: tools only in the level view, the mode picker
/// for the tools that have modes, the paint toggles for the paint tool, and
/// the selected layer's number.
pub fn toolbar_view(view_mode: EditorViewMode, tool: EditorTool, selected_layer: Option<usize>) -> (r: ToolbarView)
    ensures
        r.tools_enabled == (view_mode == EditorViewMode::Level),
        r.show_modes == (tool == EditorTool::Paint || tool == EditorTool::Erase || tool == EditorTool::Terrain),
        r.show_paint_toggles == (tool == EditorTool::Paint),
        r.layer_label@ == (match selected_layer {
            Some(i) => decimal(i as nat),
            None => "(none)"@,
        }),
{
    let layer_label = match selected_layer {
        Some(i) => decimal_string(i as u64),
        None => "(none)".to_string(),
    };
    ToolbarView {
        tools_enabled: view_mode == EditorViewMode::Level,
        show_modes: tool.supports_modes(),
        show_paint_toggles: tool == EditorTool::Paint,
        layer_label,
    }
}

/// The editor state that the toolbar reads and sets (the zoom, a screen
/// scale, stays with the window).
#[derive(Debug, Clone, Copy, PartialEq, Eq, Structural)]
pub struct ToolbarState {
    pub view_mode: EditorViewMode,
    pub current_tool: EditorTool,
    pub tool_mode: ToolMode,
    pub random_paint: bool,
    pub paint_flip_x: bool,
    pub paint_flip_y: bool,
    pub show_grid: bool,
    pub show_tileset_editor: bool,
    /// "Run Game" was pressed.
    pub run_game_requested: bool,
}

/// A click on the toolbar.
#[derive(Debug, Clone, Copy, PartialEq, Eq, Structural)]
pub enum ToolbarClick {
    View(EditorViewMode),
    Tool(EditorTool),
    Mode(ToolMode),
    ToggleRandom,
    ToggleFlipX,
    ToggleFlipY,
    ToggleGrid,
    TilesetEditor,
    RunGame,
}

/// The toolbar state after `click`. The view toggle always works; in the
/// world view everything after it is disabled, so other clicks change
/// nothing. The mode picker is there only for tools with modes, and the
/// random and flip toggles only for the paint tool.
pub open spec fn after_click(s: ToolbarState, click: ToolbarClick) -> ToolbarState {
    match click {
        ToolbarClick::View(m) => ToolbarState { view_mode: m, ..s },
        _ => if s.view_mode == EditorViewMode::World {
            s
        } else {
            match click {
                ToolbarClick::Tool(t) => ToolbarState { current_tool: t, ..s },
                ToolbarClick::Mode(m) => if s.current_tool == EditorTool::Paint || s.current_tool == EditorTool::Erase
                    || s.current_tool == EditorTool::Terrain {
                    ToolbarState { tool_mode: m, ..s }
                } else {
                    s
                },
                ToolbarClick::ToggleRandom => if s.current_tool == EditorTool::Paint {
                    ToolbarState { random_paint: !s.random_paint, ..s }
                } else {
                    s
                },
                ToolbarClick::ToggleFlipX => if s.current_tool == EditorTool::Paint {
                    ToolbarState { paint_flip_x: !s.paint_flip_x, ..s }
                } else {
                    s
                },
                ToolbarClick::ToggleFlipY => if s.current_tool == EditorTool::Paint {
                    ToolbarState { paint_flip_y: !s.paint_flip_y, ..s }
                } else {
                    s
                },
                ToolbarClick::ToggleGrid => ToolbarState { show_grid: !s.show_grid, ..s },
                ToolbarClick::TilesetEditor => ToolbarState { show_tileset_editor: true, ..s },
                ToolbarClick::RunGame => ToolbarState { run_game_requested: true, ..s },
                ToolbarClick::View(m) => ToolbarState { view_mode: m, ..s },
            }
        },
    }
}

impl ToolbarState {
    /// The toolbar of a fresh editor in `view_mode`: the select tool in
    /// point mode, the grid shown, all toggles off.
    pub fn new(view_mode: EditorViewMode) -> (r: Self)
        ensures
            r == (ToolbarState {
                view_mode,
                current_tool: EditorTool::Select,
                tool_mode: ToolMode::Point,
                random_paint: false,
                paint_flip_x: false,
                paint_flip_y: false,
                show_grid: true,
                show_tileset_editor: false,
                run_game_requested: false,
            }),
    {
        ToolbarState {
            view_mode,
            current_tool: EditorTool::Select,
            tool_mode: ToolMode::Point,
            random_paint: false,
            paint_flip_x: false,
            paint_flip_y: false,
            show_grid: true,
            show_tileset_editor: false,
            run_game_requested: false,
        }
    }

    /// Handles a click on the toolbar.
    pub fn click(&mut self, click: ToolbarClick)
        ensures
            *final(self) == after_click(*old(self), click),
    {
        match click {
            ToolbarClick::View(m) => {
                self.view_mode = m;
                return;
            },
            _ => {},
        }
        if self.view_mode == EditorViewMode::World {
            return;
        }
        match click {
            ToolbarClick::Tool(t) => {
                self.current_tool = t;
            },
            ToolbarClick::Mode(m) => {
                if self.current_tool.supports_modes() {
                    self.tool_mode = m;
                }
            },
            ToolbarClick::ToggleRandom => {
                if self.current_tool == EditorTool::Paint {
                    self.random_paint = !self.random_paint;
                }
            },
            ToolbarClick::ToggleFlipX => {
                if self.current_tool == EditorTool::Paint {
                    self.paint_flip_x = !self.paint_flip_x;
                }
            },
            ToolbarClick::ToggleFlipY => {
                if self.current_tool == EditorTool::Paint {
                    self.paint_flip_y = !self.paint_flip_y;
                }
            },
            ToolbarClick::ToggleGrid => {
                self.show_grid = !self.show_grid;
            },
            ToolbarClick::TilesetEditor => {
                self.show_tileset_editor = true;
            },
            ToolbarClick::RunGame => {
                self.run_game_requested = true;
            },
            ToolbarClick::View(m) => {
                self.view_mode = m;
            },
        }
    }
}

} // verus!
