# bevy_map_editor

The editing core of a tile map editor, verified with Verus.

- `src/` is the library. Each module states its behaviour in `requires` /
  `ensures` contracts over views (`Seq`, `Set`, spec structs) and proves it:
  undoable tile, automap and move commands with an undo/redo history; the
  project model (levels, layers, data instances, sprite sheets, dialogues,
  tilesets with their per-tile properties, automap rule sets); tile
  selection and the clipboard; automap rule grids; editor preferences;
  integration plugins and their registry; the decisions of the menu bar, the
  toolbar, the game settings dialog, the file dialogs, the animation
  editor's toolbar and dopesheet, the tile properties tab and the schema's
  type editor; asset path handling; and launching external editors. Public `law_*` proof functions state the
  properties that span several operations.
- `tests/` runs the library on concrete values.
- `app/` is the command-line program around the library: it reads the
  environment and the file system, parses plugin metadata files, starts
  external programs, and holds the floating-point canvas geometry.
