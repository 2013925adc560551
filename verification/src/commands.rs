//! Undoable editing commands and the undo/redo history.
use vstd::prelude::*;

use crate::ids::{is_v4_uuid, new_uuid};
use crate::map::{
    cell_idx, cell_index, layers_view, level_tile, entities_view, EntityInstanceView, Layer, LayerData,
    LayerDataView, LayerView, Level, LevelView, Position,
};
use crate::project::{dirtied, level_id_is, level_pos, levels_view, Project, ProjectView};
use crate::seqs::{first_where, is_first, lemma_first_where_found, lemma_first_where_none};

verus! {

/// A change of one cell: the tile before and after.
#[derive(Debug, Clone, Copy, PartialEq, Eq, Structural)]
pub struct TileChange {
    pub x: u32,
    pub y: u32,
    pub old_tile: Option<u32>,
    pub new_tile: Option<u32>,
}

/// Rendering state that commands flag for a rebuild.
#[derive(Debug)]
pub struct RenderState {
    pub needs_rebuild: bool,
}

// ---------------------------------------------------------------------------
// What the commands do, over the views
// ---------------------------------------------------------------------------

/// The value a change writes: the new tile going forward, the old one back.
pub open spec fn written(c: TileChange, forward: bool) -> Option<u32> {
    if forward {
        c.new_tile
    } else {
        c.old_tile
    }
}

/// The grid after writing the changes in order; a change whose cell lies past
/// the end of the grid is skipped.
pub open spec fn apply_cells(tiles: Seq<Option<u32>>, width: u32, changes: Seq<TileChange>, forward: bool) -> Seq<
    Option<u32>,
>
    decreases changes.len(),
{
    if changes.len() == 0 {
        tiles
    } else {
        let rest = apply_cells(tiles, width, changes.drop_last(), forward);
        let c = changes.last();
        let idx = cell_index(width, c.x, c.y);
        if idx < rest.len() {
            rest.update(idx, written(c, forward))
        } else {
            rest
        }
    }
}

/// A layer after the changes: tile layers change, object layers do not.
pub open spec fn layer_apply(layer: LayerView, width: u32, changes: Seq<TileChange>, forward: bool) -> LayerView {
    match layer.data {
        LayerDataView::Tiles { tiles } => LayerView {
            name: layer.name,
            data: LayerDataView::Tiles { tiles: apply_cells(tiles, width, changes, forward) },
        },
        LayerDataView::Objects { .. } => layer,
    }
}

/// A level after changes to its layer `layer_idx` (nothing when there is no
/// such layer).
pub open spec fn level_apply_batch(level: LevelView, layer_idx: int, changes: Seq<TileChange>, forward: bool) -> LevelView {
    if 0 <= layer_idx < level.layers.len() {
        LevelView {
            layers: level.layers.update(
                layer_idx,
                layer_apply(level.layers[layer_idx], level.width, changes, forward),
            ),
            ..level
        }
    } else {
        level
    }
}

/// The changes whose cell lies inside a level `w` wide and `h` high, in
/// order.
pub open spec fn in_level(changes: Seq<TileChange>, w: u32, h: u32) -> Seq<TileChange>
    decreases changes.len(),
{
    if changes.len() == 0 {
        seq![]
    } else {
        let rest = in_level(changes.drop_last(), w, h);
        let c = changes.last();
        if c.x < w && c.y < h {
            rest.push(c)
        } else {
            rest
        }
    }
}

/// The groups applied one after another, each keeping only its changes to
/// cells inside a `w` x `h` level.
pub open spec fn automap_steps(
    level: LevelView,
    groups: Seq<(usize, Seq<TileChange>)>,
    w: u32,
    h: u32,
    forward: bool,
) -> LevelView
    decreases groups.len(),
{
    if groups.len() == 0 {
        level
    } else {
        let g = groups.last();
        level_apply_batch(automap_steps(level, groups.drop_last(), w, h, forward), g.0 as int, in_level(g.1, w, h), forward)
    }
}

/// A level after changes to several layers, one group after another; a
/// change to a cell outside the level (x >= width or y >= height) is skipped.
pub open spec fn level_apply_automap(level: LevelView, groups: Seq<(usize, Seq<TileChange>)>, forward: bool) -> LevelView {
    automap_steps(level, groups, level.width, level.height, forward)
}

/// The predicate "this entity has id `id`".
pub open spec fn entity_id_is(id: u128) -> spec_fn(EntityInstanceView) -> bool {
    |e: EntityInstanceView| e.id == id
}

/// A level after moving its first entity with id `id` to `pos`.
pub open spec fn level_move(level: LevelView, id: u128, pos: Position) -> LevelView {
    match first_where(level.entities, entity_id_is(id)) {
        Some(k) => LevelView {
            entities: level.entities.update(k, EntityInstanceView { position: pos, ..level.entities[k] }),
            ..level
        },
        None => level,
    }
}

/// What a command changes, as a value.
pub enum CommandView {
    BatchTile { level_id: u128, layer_idx: usize, changes: Seq<TileChange>, description: Seq<char> },
    Automap { level_id: u128, layer_changes: Seq<(usize, Seq<TileChange>)>, description: Seq<char> },
    MoveEntity { level_id: u128, entity_id: u128, old_position: Position, new_position: Position },
}

pub open spec fn command_level(c: CommandView) -> u128 {
    match c {
        CommandView::BatchTile { level_id, .. } => level_id,
        CommandView::Automap { level_id, .. } => level_id,
        CommandView::MoveEntity { level_id, .. } => level_id,
    }
}

/// A level after the command is done (`forward`) or undone.
pub open spec fn level_effect(level: LevelView, c: CommandView, forward: bool) -> LevelView {
    match c {
        CommandView::BatchTile { layer_idx, changes, .. } => level_apply_batch(level, layer_idx as int, changes, forward),
        CommandView::Automap { layer_changes, .. } => level_apply_automap(level, layer_changes, forward),
        CommandView::MoveEntity { entity_id, old_position, new_position, .. } => level_move(
            level,
            entity_id,
            if forward {
                new_position
            } else {
                old_position
            },
        ),
    }
}

/// A project after the command is done or undone: its first level with the
/// command's level id changes, and the project is marked modified.
pub open spec fn command_effect(p: ProjectView, c: CommandView, forward: bool) -> ProjectView {
    match level_pos(p, command_level(c)) {
        Some(i) => ProjectView { levels: p.levels.update(i, level_effect(p.levels[i], c, forward)), dirty: true, ..p },
        None => dirtied(p),
    }
}

/// Whether running the command asks for the map to be redrawn.
pub open spec fn command_rebuilds(c: CommandView) -> bool {
    !(c is MoveEntity)
}

pub open spec fn command_description(c: CommandView) -> Seq<char> {
    match c {
        CommandView::BatchTile { description, .. } => description,
        CommandView::Automap { description, .. } => description,
        CommandView::MoveEntity { .. } => move_entity_label(),
    }
}

pub open spec fn move_entity_label() -> Seq<char> {
    seq!['M', 'o', 'v', 'e', ' ', 'E', 'n', 't', 'i', 't', 'y']
}

/// No change after the `k`-th names the same cell as it.
pub open spec fn is_last_change_of_cell(changes: Seq<TileChange>, width: u32, k: int) -> bool {
    forall|m: int|
        k < m < changes.len() ==> cell_index(width, (#[trigger] changes[m]).x, changes[m].y) != cell_index(
            width,
            changes[k].x,
            changes[k].y,
        )
}

/// No change names cell position `j`.
pub open spec fn cell_untouched(changes: Seq<TileChange>, width: u32, j: int) -> bool {
    forall|m: int| 0 <= m < changes.len() ==> cell_index(width, (#[trigger] changes[m]).x, changes[m].y) != j
}

/// What writing a batch of changes does to a grid, whatever the tiles
/// written (`None` erases): the grid keeps its length; each cell inside the
/// grid that a change names holds what the last change of that cell writes
/// (its new tile going forward, its old tile going back); every other cell
/// keeps its tile.
pub proof fn law_apply_cells_writes_changes(tiles: Seq<Option<u32>>, width: u32, changes: Seq<TileChange>, forward: bool)
    ensures
        apply_cells(tiles, width, changes, forward).len() == tiles.len(),
        forall|k: int|
            0 <= k < changes.len() && 0 <= cell_index(width, changes[k].x, changes[k].y) < tiles.len()
                && #[trigger] is_last_change_of_cell(changes, width, k) ==> apply_cells(tiles, width, changes, forward)[cell_index(
                width,
                changes[k].x,
                changes[k].y,
            )] == if forward {
                changes[k].new_tile
            } else {
                changes[k].old_tile
            },
        forall|j: int|
            0 <= j < tiles.len() && #[trigger] cell_untouched(changes, width, j) ==> apply_cells(
                tiles,
                width,
                changes,
                forward,
            )[j] == tiles[j],
    decreases changes.len(),
{
    if changes.len() > 0 {
        let d = changes.drop_last();
        law_apply_cells_writes_changes(tiles, width, d, forward);
        let r = apply_cells(tiles, width, d, forward);
        let c = changes.last();
        let n = changes.len() - 1;
        assert(c == changes[n]);
        let idx = cell_index(width, c.x, c.y);
        let out = apply_cells(tiles, width, changes, forward);
        if idx < r.len() {
            assert(out == r.update(idx, written(c, forward)));
        } else {
            assert(out == r);
        }
        assert forall|k: int|
            0 <= k < changes.len() && 0 <= cell_index(width, changes[k].x, changes[k].y) < tiles.len()
                && #[trigger] is_last_change_of_cell(changes, width, k) implies out[cell_index(
                width,
                changes[k].x,
                changes[k].y,
            )] == if forward {
                changes[k].new_tile
            } else {
                changes[k].old_tile
            } by {
            if k < n {
                assert(changes[k] == d[k]);
                assert(cell_index(width, changes[n].x, changes[n].y) != cell_index(width, changes[k].x, changes[k].y));
                assert forall|m: int| k < m < d.len() implies cell_index(width, (#[trigger] d[m]).x, d[m].y)
                    != cell_index(width, d[k].x, d[k].y) by {
                    assert(d[m] == changes[m]);
                }
                assert(is_last_change_of_cell(d, width, k));
            }
        }
        assert forall|j: int| 0 <= j < tiles.len() && #[trigger] cell_untouched(changes, width, j) implies out[j]
            == tiles[j] by {
            assert(cell_index(width, changes[n].x, changes[n].y) != j);
            assert forall|m: int| 0 <= m < d.len() implies cell_index(width, (#[trigger] d[m]).x, d[m].y) != j by {
                assert(d[m] == changes[m]);
            }
            assert(cell_untouched(d, width, j));
        }
    }
}

/// Executing (or undoing) a tile edit on a tile layer of a level puts, at
/// each level cell that a change names, what that cell's last change writes
/// (going forward its new tile, `None` included; going back its old tile),
/// and leaves the cells no change names as they were.
pub proof fn law_batch_edit_sets_level_tiles(level: LevelView, li: int, changes: Seq<TileChange>, forward: bool)
    requires
        0 <= li < level.layers.len(),
        level.layers[li].data is Tiles,
    ensures
        forall|k: int|
            0 <= k < changes.len() && changes[k].x < level.width && changes[k].y < level.height
                && cell_index(level.width, changes[k].x, changes[k].y) < level.layers[li].data->tiles.len()
                && #[trigger] is_last_change_of_cell(changes, level.width, k) ==> level_tile(
                level_apply_batch(level, li, changes, forward),
                li,
                changes[k].x,
                changes[k].y,
            ) == if forward {
                changes[k].new_tile
            } else {
                changes[k].old_tile
            },
        forall|x: u32, y: u32|
            #[trigger] cell_untouched(changes, level.width, cell_index(level.width, x, y)) ==> level_tile(
                level_apply_batch(level, li, changes, forward),
                li,
                x,
                y,
            ) == level_tile(level, li, x, y),
{
    let tiles = level.layers[li].data->tiles;
    law_apply_cells_writes_changes(tiles, level.width, changes, forward);
    let after = level_apply_batch(level, li, changes, forward);
    assert(after.layers[li].data == (LayerDataView::Tiles { tiles: apply_cells(tiles, level.width, changes, forward) }));
    assert forall|x: u32, y: u32| #[trigger] cell_untouched(changes, level.width, cell_index(level.width, x, y)) implies level_tile(
        after,
        li,
        x,
        y,
    ) == level_tile(level, li, x, y) by {
        let j = cell_index(level.width, x, y);
        if x < level.width && y < level.height && j < tiles.len() {
            assert(0 <= j);
        }
    }
}

// ---------------------------------------------------------------------------
// Executing changes
// ---------------------------------------------------------------------------

fn apply_changes(tiles: &mut Vec<Option<u32>>, width: u32, changes: &Vec<TileChange>, forward: bool)
    ensures
        final(tiles)@ == apply_cells(old(tiles)@, width, changes@, forward),
        final(tiles)@.len() == old(tiles)@.len(),
        forall|k: int|
            0 <= k < changes@.len() && 0 <= cell_index(width, changes@[k].x, changes@[k].y) < old(tiles)@.len()
                && #[trigger] is_last_change_of_cell(changes@, width, k) ==> final(tiles)@[cell_index(
                width,
                changes@[k].x,
                changes@[k].y,
            )] == if forward {
                changes@[k].new_tile
            } else {
                changes@[k].old_tile
            },
        forall|j: int|
            0 <= j < old(tiles)@.len() && #[trigger] cell_untouched(changes@, width, j) ==> final(tiles)@[j]
                == old(tiles)@[j],
{
    proof {
        law_apply_cells_writes_changes(tiles@, width, changes@, forward);
    }
    let ghost orig = tiles@;
    let mut i: usize = 0;
    while i < changes.len()
        invariant
            i <= changes.len(),
            tiles@ == apply_cells(orig, width, changes@.take(i as int), forward),
        decreases changes.len() - i,
    {
        let c = changes[i];
        let idx = cell_idx(width, c.x, c.y);
        proof {
            assert(changes@.take(i + 1).drop_last() =~= changes@.take(i as int));
            assert(changes@.take(i + 1).last() == c);
        }
        if idx < tiles.len() as u64 {
            let v = if forward {
                c.new_tile
            } else {
                c.old_tile
            };
            tiles.set(idx as usize, v);
        }
        i = i + 1;
    }
    assert(changes@.take(i as int) =~= changes@);
}

fn apply_to_layer(layer: &mut Layer, width: u32, changes: &Vec<TileChange>, forward: bool)
    ensures
        final(layer)@ == layer_apply(old(layer)@, width, changes@, forward),
{
    match &mut layer.data {
        LayerData::Tiles { tiles } => {
            apply_changes(tiles, width, changes, forward);
        },
        LayerData::Objects { .. } => {},
    }
}

fn apply_batch_to_level(level: &mut Level, layer_idx: usize, changes: &Vec<TileChange>, forward: bool)
    ensures
        final(level)@ == level_apply_batch(old(level)@, layer_idx as int, changes@, forward),
{
    let width = level.width;
    if layer_idx < level.layers.len() {
        let ghost before = level.layers@;
        let layer = &mut level.layers[layer_idx];
        apply_to_layer(layer, width, changes, forward);
        proof {
            assert(layers_view(level.layers@) =~= layers_view(before).update(
                layer_idx as int,
                layer_apply(layers_view(before)[layer_idx as int], width, changes@, forward),
            ));
        }
    }
}

/// Where the groups' views come from.
pub open spec fn groups_changes_view(g: Seq<(usize, Vec<TileChange>)>) -> Seq<(usize, Seq<TileChange>)> {
    Seq::new(g.len(), |i: int| (g[i].0, g[i].1@))
}

/// The changes to cells inside a `w` x `h` level.
fn keep_in_level(changes: &Vec<TileChange>, w: u32, h: u32) -> (r: Vec<TileChange>)
    ensures
        r@ == in_level(changes@, w, h),
{
    let mut r: Vec<TileChange> = Vec::new();
    let mut i: usize = 0;
    while i < changes.len()
        invariant
            i <= changes.len(),
            r@ == in_level(changes@.take(i as int), w, h),
        decreases changes.len() - i,
    {
        let c = changes[i];
        proof {
            assert(changes@.take(i + 1).drop_last() =~= changes@.take(i as int));
            assert(changes@.take(i + 1).last() == c);
        }
        if c.x < w && c.y < h {
            r.push(c);
        }
        i = i + 1;
    }
    assert(changes@.take(i as int) =~= changes@);
    r
}

fn apply_automap_to_level(level: &mut Level, groups: &Vec<(usize, Vec<TileChange>)>, forward: bool)
    ensures
        final(level)@ == level_apply_automap(old(level)@, groups_changes_view(groups@), forward),
{
    let ghost orig = level@;
    let w = level.width;
    let h = level.height;
    let mut i: usize = 0;
    while i < groups.len()
        invariant
            i <= groups.len(),
            w == orig.width,
            h == orig.height,
            level@ == automap_steps(orig, groups_changes_view(groups@).take(i as int), w, h, forward),
        decreases groups.len() - i,
    {
        let g = &groups[i];
        proof {
            let gv = groups_changes_view(groups@);
            assert(gv.take(i + 1).drop_last() =~= gv.take(i as int));
            assert(gv.take(i + 1).last() == (g.0, g.1@));
        }
        let kept = keep_in_level(&g.1, w, h);
        apply_batch_to_level(level, g.0, &kept, forward);
        i = i + 1;
    }
    assert(groups_changes_view(groups@).take(i as int) =~= groups_changes_view(groups@));
}

fn move_entity_in_level(level: &mut Level, entity_id: u128, pos: Position)
    ensures
        final(level)@ == level_move(old(level)@, entity_id, pos),
{
    let ghost ev = level@.entities;
    let mut k: usize = 0;
    while k < level.entities.len()
        invariant
            k <= level.entities.len(),
            ev == entities_view(level.entities@),
            ev == old(level)@.entities,
            level@ == old(level)@,
            forall|j: int| 0 <= j < k ==> !entity_id_is(entity_id)(#[trigger] ev[j]),
        decreases level.entities.len() - k,
    {
        if level.entities[k].id == entity_id {
            proof {
                lemma_first_where_found(ev, entity_id_is(entity_id), k as int);
            }
            let ghost before = level.entities@;
            level.entities[k].position = pos;
            proof {
                assert(entities_view(level.entities@) =~= ev.update(
                    k as int,
                    EntityInstanceView { position: pos, ..ev[k as int] },
                ));
                assert(level@ =~= level_move(old(level)@, entity_id, pos));
            }
            return;
        }
        k = k + 1;
    }
    proof {
        lemma_first_where_none(ev, entity_id_is(entity_id));
    }
}

// ---------------------------------------------------------------------------
// Commands
// ---------------------------------------------------------------------------

/// Tile changes on one layer of one level (a paint stroke, a fill, ...).
#[derive(Debug)]
pub struct BatchTileCommand {
    pub level_id: u128,
    pub layer_idx: usize,
    /// The changed cells with their tiles before and after.
    pub changes: Vec<TileChange>,
    pub description: String,
}

/// The tile recorded for cell (x, y) in a snapshot: the first entry for the
/// cell, flattened; none when the snapshot has no entry for it.
pub open spec fn snapshot_tile(snapshot: Seq<((u32, u32), Option<u32>)>, x: u32, y: u32) -> Option<u32> {
    match first_where(snapshot, cell_is(x, y)) {
        Some(i) => snapshot[i].1,
        None => None,
    }
}

/// The predicate "this snapshot entry is for cell (x, y)".
pub open spec fn cell_is(x: u32, y: u32) -> spec_fn(((u32, u32), Option<u32>)) -> bool {
    |e: ((u32, u32), Option<u32>)| e.0 == (x, y)
}

/// The changes between two snapshots: for every cell of `before`, in order,
/// its old tile and the tile `after` records for it, when the two differ.
pub open spec fn diff_changes(
    before: Seq<((u32, u32), Option<u32>)>,
    after: Seq<((u32, u32), Option<u32>)>,
) -> Seq<TileChange>
    decreases before.len(),
{
    if before.len() == 0 {
        seq![]
    } else {
        let rest = diff_changes(before.drop_last(), after);
        let e = before.last();
        let new_tile = snapshot_tile(after, e.0.0, e.0.1);
        if e.1 != new_tile {
            rest.push(TileChange { x: e.0.0, y: e.0.1, old_tile: e.1, new_tile })
        } else {
            rest
        }
    }
}

fn snapshot_lookup(snapshot: &Vec<((u32, u32), Option<u32>)>, x: u32, y: u32) -> (r: Option<u32>)
    ensures
        r == snapshot_tile(snapshot@, x, y),
{
    let mut i: usize = 0;
    while i < snapshot.len()
        invariant
            i <= snapshot.len(),
            forall|j: int| 0 <= j < i ==> !cell_is(x, y)(#[trigger] snapshot@[j]),
        decreases snapshot.len() - i,
    {
        let e = snapshot[i];
        if e.0.0 == x && e.0.1 == y {
            proof {
                lemma_first_where_found(snapshot@, cell_is(x, y), i as int);
            }
            return e.1;
        }
        i = i + 1;
    }
    proof {
        lemma_first_where_none(snapshot@, cell_is(x, y));
    }
    None
}

impl BatchTileCommand {
    /// A batch command with the given changes and undo label.
    pub fn new(level_id: u128, layer_idx: usize, changes: Vec<TileChange>, description: String) -> (r: Self)
        ensures
            r.level_id == level_id,
            r.layer_idx == layer_idx,
            r.changes@ == changes@,
            r.description@ == description@,
    {
        BatchTileCommand { level_id, layer_idx, changes, description }
    }

    /// A batch command from snapshots of the cells before and after an edit;
    /// only the cells whose tile differs are recorded.
    pub fn from_diff(
        level_id: u128,
        layer_idx: usize,
        before: Vec<((u32, u32), Option<u32>)>,
        after: Vec<((u32, u32), Option<u32>)>,
        description: String,
    ) -> (r: Self)
        ensures
            r.level_id == level_id,
            r.layer_idx == layer_idx,
            r.changes@ == diff_changes(before@, after@),
            r.description@ == description@,
    {
        let mut changes: Vec<TileChange> = Vec::new();
        let mut i: usize = 0;
        while i < before.len()
            invariant
                i <= before.len(),
                changes@ == diff_changes(before@.take(i as int), after@),
            decreases before.len() - i,
        {
            let e = before[i];
            let new_tile = snapshot_lookup(&after, e.0.0, e.0.1);
            proof {
                assert(before@.take(i + 1).drop_last() =~= before@.take(i as int));
                assert(before@.take(i + 1).last() == e);
            }
            if e.1 != new_tile {
                changes.push(TileChange { x: e.0.0, y: e.0.1, old_tile: e.1, new_tile });
            }
            i = i + 1;
        }
        assert(before@.take(i as int) =~= before@);
        Self::new(level_id, layer_idx, changes, description)
    }

    /// The undo label.
    pub fn description(&self) -> (r: &str)
        ensures
            r@ == self.description@,
    {
        self.description.as_str()
    }
}

/// Tile changes on several layers of one level, produced by running automap
/// rules: for each layer index, the changed cells. A layer index the level
/// does not have, and a cell outside the level, are skipped.
#[derive(Debug)]
pub struct AutomapCommand {
    pub level_id: u128,
    pub layer_changes: Vec<(usize, Vec<TileChange>)>,
    pub description: String,
}

/// No group records a change.
pub open spec fn no_changes(groups: Seq<(usize, Seq<TileChange>)>) -> bool {
    forall|i: int| 0 <= i < groups.len() ==> (#[trigger] groups[i]).1.len() == 0
}

impl AutomapCommand {
    pub fn new(level_id: u128, layer_changes: Vec<(usize, Vec<TileChange>)>, description: String) -> (r: Self)
        ensures
            r.level_id == level_id,
            groups_changes_view(r.layer_changes@) == groups_changes_view(layer_changes@),
            r.description@ == description@,
    {
        AutomapCommand { level_id, layer_changes, description }
    }

    /// Whether the command records no cell change at all.
    pub fn is_empty(&self) -> (r: bool)
        ensures
            r == no_changes(groups_changes_view(self.layer_changes@)),
    {
        let ghost gv = groups_changes_view(self.layer_changes@);
        let mut i: usize = 0;
        while i < self.layer_changes.len()
            invariant
                i <= self.layer_changes.len(),
                gv == groups_changes_view(self.layer_changes@),
                forall|j: int| 0 <= j < i ==> (#[trigger] gv[j]).1.len() == 0,
            decreases self.layer_changes.len() - i,
        {
            if self.layer_changes[i].1.len() != 0 {
                assert(gv[i as int].1.len() != 0);
                return false;
            }
            i = i + 1;
        }
        true
    }

    /// The undo label.
    pub fn description(&self) -> (r: &str)
        ensures
            r@ == self.description@,
    {
        self.description.as_str()
    }
}

/// Moving an entity from one position to another.
#[derive(Debug)]
pub struct MoveEntityCommand {
    pub level_id: u128,
    pub entity_id: u128,
    pub old_position: Position,
    pub new_position: Position,
}

impl MoveEntityCommand {
    pub fn new(level_id: u128, entity_id: u128, old_position: Position, new_position: Position) -> (r: Self)
        ensures
            r.level_id == level_id,
            r.entity_id == entity_id,
            r.old_position == old_position,
            r.new_position == new_position,
    {
        MoveEntityCommand { level_id, entity_id, old_position, new_position }
    }

    /// The undo label, "Move Entity".
    pub fn description(&self) -> (r: &str)
        ensures
            r@ == move_entity_label(),
    {
        let s = "Move Entity";
        proof {
            reveal_strlit("Move Entity");
        }
        assert(s@ =~= move_entity_label());
        s
    }
}

/// A command that can be done and undone.
#[derive(Debug)]
pub enum Command {
    BatchTile(BatchTileCommand),
    Automap(AutomapCommand),
    MoveEntity(MoveEntityCommand),
}

impl View for Command {
    type V = CommandView;

    open spec fn view(&self) -> CommandView {
        match self {
            Command::BatchTile(c) => CommandView::BatchTile {
                level_id: c.level_id,
                layer_idx: c.layer_idx,
                changes: c.changes@,
                description: c.description@,
            },
            Command::Automap(c) => CommandView::Automap {
                level_id: c.level_id,
                layer_changes: groups_changes_view(c.layer_changes@),
                description: c.description@,
            },
            Command::MoveEntity(c) => CommandView::MoveEntity {
                level_id: c.level_id,
                entity_id: c.entity_id,
                old_position: c.old_position,
                new_position: c.new_position,
            },
        }
    }
}

impl Command {
    /// The level the command applies to.
    fn level_id(&self) -> (r: u128)
        ensures
            r == command_level(self@),
    {
        match self {
            Command::BatchTile(c) => c.level_id,
            Command::Automap(c) => c.level_id,
            Command::MoveEntity(c) => c.level_id,
        }
    }

    fn run(&self, project: &mut Project, render_state: &mut RenderState, forward: bool)
        ensures
            final(project)@ == command_effect(old(project)@, self@, forward),
            final(render_state).needs_rebuild == (command_rebuilds(self@) || old(render_state).needs_rebuild),
    {
        let ghost p0 = project@;
        let ghost levels0 = project.levels@;
        let id = self.level_id();
        match project.get_level_mut(id) {
            Some(level) => {
                let ghost l0 = level@;
                match self {
                    Command::BatchTile(c) => apply_batch_to_level(level, c.layer_idx, &c.changes, forward),
                    Command::Automap(c) => apply_automap_to_level(level, &c.layer_changes, forward),
                    Command::MoveEntity(c) => {
                        let pos = if forward {
                            c.new_position
                        } else {
                            c.old_position
                        };
                        move_entity_in_level(level, c.entity_id, pos);
                    },
                }
                proof {
                    let i = level_pos(p0, id)->0;
                    assert(levels_view(project.levels@) =~= p0.levels.update(i, level_effect(p0.levels[i], self@, forward)));
                }
            },
            None => {},
        }
        match self {
            Command::MoveEntity(_) => {},
            _ => {
                render_state.needs_rebuild = true;
            },
        }
    }

    /// Does the command.
    pub fn execute(&self, project: &mut Project, render_state: &mut RenderState)
        ensures
            final(project)@ == command_effect(old(project)@, self@, true),
            final(render_state).needs_rebuild == (command_rebuilds(self@) || old(render_state).needs_rebuild),
    {
        self.run(project, render_state, true)
    }

    /// Undoes the command.
    pub fn undo(&self, project: &mut Project, render_state: &mut RenderState)
        ensures
            final(project)@ == command_effect(old(project)@, self@, false),
            final(render_state).needs_rebuild == (command_rebuilds(self@) || old(render_state).needs_rebuild),
    {
        self.run(project, render_state, false)
    }

    /// The undo label.
    pub fn description(&self) -> (r: &str)
        ensures
            r@ == command_description(self@),
    {
        match self {
            Command::BatchTile(c) => c.description(),
            Command::Automap(c) => c.description(),
            Command::MoveEntity(c) => c.description(),
        }
    }
}

// ---------------------------------------------------------------------------
// Facts about doing and undoing changes
// ---------------------------------------------------------------------------

/// The last value written to cell position `j`, if any change writes it.
pub open spec fn last_write(changes: Seq<TileChange>, width: u32, j: int, forward: bool) -> Option<Option<u32>>
    decreases changes.len(),
{
    if changes.len() == 0 {
        None
    } else {
        let c = changes.last();
        if cell_index(width, c.x, c.y) == j {
            Some(written(c, forward))
        } else {
            last_write(changes.drop_last(), width, j, forward)
        }
    }
}

/// Applying changes keeps the grid's length, sets each written cell to the
/// last value written to it and leaves every other cell alone.
pub proof fn lemma_apply_cells_char(tiles: Seq<Option<u32>>, width: u32, changes: Seq<TileChange>, forward: bool)
    ensures
        apply_cells(tiles, width, changes, forward).len() == tiles.len(),
        forall|j: int|
            0 <= j < tiles.len() ==> #[trigger] apply_cells(tiles, width, changes, forward)[j] == match last_write(
                changes,
                width,
                j,
                forward,
            ) {
                Some(v) => v,
                None => tiles[j],
            },
    decreases changes.len(),
{
    if changes.len() > 0 {
        lemma_apply_cells_char(tiles, width, changes.drop_last(), forward);
    }
}

/// Whether a cell is written does not depend on the direction.
pub proof fn lemma_last_write_direction(changes: Seq<TileChange>, width: u32, j: int)
    ensures
        last_write(changes, width, j, true) is None <==> last_write(changes, width, j, false) is None,
    decreases changes.len(),
{
    if changes.len() > 0 {
        lemma_last_write_direction(changes.drop_last(), width, j);
    }
}

/// Each change records the tile that its cell holds (cells past the end of
/// the grid are never written, so they do not count).
pub open spec fn cells_consistent(tiles: Seq<Option<u32>>, width: u32, changes: Seq<TileChange>) -> bool {
    forall|k: int|
        0 <= k < changes.len() && 0 <= cell_index(width, changes[k].x, changes[k].y) < tiles.len() ==> tiles[cell_index(
            width,
            changes[k].x,
            changes[k].y,
        )] == (#[trigger] changes[k]).old_tile
}

proof fn lemma_last_write_back(tiles: Seq<Option<u32>>, width: u32, changes: Seq<TileChange>, j: int)
    requires
        cells_consistent(tiles, width, changes),
        0 <= j < tiles.len(),
    ensures
        last_write(changes, width, j, false) matches Some(v) ==> v == tiles[j],
    decreases changes.len(),
{
    if changes.len() > 0 {
        let c = changes.last();
        assert(c == changes[changes.len() - 1]);
        if cell_index(width, c.x, c.y) != j {
            assert forall|k: int|
                0 <= k < changes.drop_last().len() && 0 <= cell_index(
                    width,
                    changes.drop_last()[k].x,
                    changes.drop_last()[k].y,
                ) < tiles.len() implies tiles[cell_index(
                width,
                changes.drop_last()[k].x,
                changes.drop_last()[k].y,
            )] == (#[trigger] changes.drop_last()[k]).old_tile by {
                assert(changes.drop_last()[k] == changes[k]);
            }
            lemma_last_write_back(tiles, width, changes.drop_last(), j);
        }
    }
}

/// Redoing after undoing gives what doing gave.
pub proof fn lemma_apply_cells_redo(tiles: Seq<Option<u32>>, width: u32, changes: Seq<TileChange>, back: bool)
    ensures
        apply_cells(apply_cells(tiles, width, changes, back), width, changes, true) == apply_cells(
            tiles,
            width,
            changes,
            true,
        ),
{
    let t1 = apply_cells(tiles, width, changes, back);
    lemma_apply_cells_char(tiles, width, changes, back);
    lemma_apply_cells_char(t1, width, changes, true);
    lemma_apply_cells_char(tiles, width, changes, true);
    assert forall|j: int| 0 <= j < tiles.len() implies apply_cells(t1, width, changes, true)[j] == apply_cells(
        tiles,
        width,
        changes,
        true,
    )[j] by {
        lemma_last_write_direction(changes, width, j);
    }
    assert(apply_cells(t1, width, changes, true) =~= apply_cells(tiles, width, changes, true));
}

/// Undoing consistent changes after doing them restores the grid.
pub proof fn lemma_apply_cells_undo(tiles: Seq<Option<u32>>, width: u32, changes: Seq<TileChange>)
    requires
        cells_consistent(tiles, width, changes),
    ensures
        apply_cells(apply_cells(tiles, width, changes, true), width, changes, false) == tiles,
{
    let t1 = apply_cells(tiles, width, changes, true);
    lemma_apply_cells_char(tiles, width, changes, true);
    lemma_apply_cells_char(t1, width, changes, false);
    assert forall|j: int| 0 <= j < tiles.len() implies apply_cells(t1, width, changes, false)[j] == tiles[j] by {
        lemma_last_write_direction(changes, width, j);
        lemma_last_write_back(tiles, width, changes, j);
    }
    assert(apply_cells(t1, width, changes, false) =~= tiles);
}

/// Applying two lists of changes one after the other is applying their
/// concatenation.
pub proof fn lemma_apply_cells_append(
    tiles: Seq<Option<u32>>,
    width: u32,
    a: Seq<TileChange>,
    b: Seq<TileChange>,
    forward: bool,
)
    ensures
        apply_cells(apply_cells(tiles, width, a, forward), width, b, forward) == apply_cells(
            tiles,
            width,
            a + b,
            forward,
        ),
    decreases b.len(),
{
    if b.len() == 0 {
        assert(a + b =~= a);
    } else {
        lemma_apply_cells_append(tiles, width, a, b.drop_last(), forward);
        assert((a + b).drop_last() =~= a + b.drop_last());
        assert((a + b).last() == b.last());
    }
}

/// The changes that the groups make to layer `li`, in order.
pub open spec fn changes_for_layer(groups: Seq<(usize, Seq<TileChange>)>, li: int) -> Seq<TileChange>
    decreases groups.len(),
{
    if groups.len() == 0 {
        seq![]
    } else {
        changes_for_layer(groups.drop_last(), li) + if groups.last().0 as int == li {
            groups.last().1
        } else {
            seq![]
        }
    }
}

pub proof fn lemma_layer_apply_append(layer: LayerView, width: u32, a: Seq<TileChange>, b: Seq<TileChange>, forward: bool)
    ensures
        layer_apply(layer_apply(layer, width, a, forward), width, b, forward) == layer_apply(layer, width, a + b, forward),
{
    match layer.data {
        LayerDataView::Tiles { tiles } => {
            lemma_apply_cells_append(tiles, width, a, b, forward);
        },
        LayerDataView::Objects { .. } => {},
    }
}

/// Keeping the in-level changes of two lists one after the other is keeping
/// those of their concatenation.
pub proof fn lemma_in_level_append(a: Seq<TileChange>, b: Seq<TileChange>, w: u32, h: u32)
    ensures
        in_level(a + b, w, h) == in_level(a, w, h) + in_level(b, w, h),
    decreases b.len(),
{
    if b.len() == 0 {
        assert(a + b =~= a);
        assert(in_level(a, w, h) + in_level(b, w, h) =~= in_level(a, w, h));
    } else {
        lemma_in_level_append(a, b.drop_last(), w, h);
        assert((a + b).drop_last() =~= a + b.drop_last());
        assert((a + b).last() == b.last());
        let x = in_level(a, w, h);
        let y = in_level(b.drop_last(), w, h);
        assert((x + y).push(b.last()) =~= x + y.push(b.last()));
    }
}

/// The automap steps change each layer by the in-level changes made to it,
/// and nothing else of the level.
pub proof fn lemma_automap_steps_char(
    level: LevelView,
    groups: Seq<(usize, Seq<TileChange>)>,
    w: u32,
    h: u32,
    forward: bool,
)
    ensures
        ({
            let r = automap_steps(level, groups, w, h, forward);
            &&& r.id == level.id
            &&& r.name == level.name
            &&& r.width == level.width
            &&& r.height == level.height
            &&& r.entities == level.entities
            &&& r.layers.len() == level.layers.len()
            &&& forall|li: int|
                0 <= li < level.layers.len() ==> #[trigger] r.layers[li] == layer_apply(
                    level.layers[li],
                    level.width,
                    in_level(changes_for_layer(groups, li), w, h),
                    forward,
                )
        }),
    decreases groups.len(),
{
    if groups.len() == 0 {
        assert forall|li: int| 0 <= li < level.layers.len() implies #[trigger] level.layers[li] == layer_apply(
            level.layers[li],
            level.width,
            in_level(changes_for_layer(groups, li), w, h),
            forward,
        ) by {
            assert(in_level(changes_for_layer(groups, li), w, h) =~= seq![]);
            match level.layers[li].data {
                LayerDataView::Tiles { tiles } => {
                    assert(apply_cells(tiles, level.width, seq![], forward) == tiles);
                },
                LayerDataView::Objects { .. } => {},
            }
        }
    } else {
        let rest = groups.drop_last();
        let g = groups.last();
        lemma_automap_steps_char(level, rest, w, h, forward);
        let r1 = automap_steps(level, rest, w, h, forward);
        let r = automap_steps(level, groups, w, h, forward);
        assert forall|li: int| 0 <= li < level.layers.len() implies #[trigger] r.layers[li] == layer_apply(
            level.layers[li],
            level.width,
            in_level(changes_for_layer(groups, li), w, h),
            forward,
        ) by {
            let prev = in_level(changes_for_layer(rest, li), w, h);
            assert(r1.layers[li] == layer_apply(level.layers[li], level.width, prev, forward));
            if g.0 as int == li {
                lemma_in_level_append(changes_for_layer(rest, li), g.1, w, h);
                lemma_layer_apply_append(level.layers[li], level.width, prev, in_level(g.1, w, h), forward);
            } else {
                assert(changes_for_layer(rest, li) + seq![] =~= changes_for_layer(rest, li));
            }
        }
    }
}

/// Applying automap groups changes each layer by the changes made to it
/// that lie inside the level, and nothing else of the level.
pub proof fn lemma_automap_char(level: LevelView, groups: Seq<(usize, Seq<TileChange>)>, forward: bool)
    ensures
        ({
            let r = level_apply_automap(level, groups, forward);
            &&& r.id == level.id
            &&& r.name == level.name
            &&& r.width == level.width
            &&& r.height == level.height
            &&& r.entities == level.entities
            &&& r.layers.len() == level.layers.len()
            &&& forall|li: int|
                0 <= li < level.layers.len() ==> #[trigger] r.layers[li] == layer_apply(
                    level.layers[li],
                    level.width,
                    automap_layer_changes(level, groups, li),
                    forward,
                )
        }),
{
    lemma_automap_steps_char(level, groups, level.width, level.height, forward);
}

/// The changes an automap command makes to layer `li` of a level: those
/// recorded for the layer whose cell lies inside the level.
pub open spec fn automap_layer_changes(level: LevelView, groups: Seq<(usize, Seq<TileChange>)>, li: int) -> Seq<
    TileChange,
> {
    in_level(changes_for_layer(groups, li), level.width, level.height)
}

/// Each change recorded for a layer holds the tile its cell has.
pub open spec fn layer_consistent(layer: LayerView, width: u32, changes: Seq<TileChange>) -> bool {
    match layer.data {
        LayerDataView::Tiles { tiles } => cells_consistent(tiles, width, changes),
        LayerDataView::Objects { .. } => true,
    }
}

/// The command records the state the level is in: the old tiles it holds
/// are the level's tiles, the old position is the entity's position.
pub open spec fn level_consistent(level: LevelView, c: CommandView) -> bool {
    match c {
        CommandView::BatchTile { layer_idx, changes, .. } => (layer_idx < level.layers.len()) ==> layer_consistent(
            level.layers[layer_idx as int],
            level.width,
            changes,
        ),
        CommandView::Automap { layer_changes, .. } => forall|li: int|
            0 <= li < level.layers.len() ==> layer_consistent(
                #[trigger] level.layers[li],
                level.width,
                automap_layer_changes(level, layer_changes, li),
            ),
        CommandView::MoveEntity { entity_id, old_position, .. } => match first_where(
            level.entities,
            entity_id_is(entity_id),
        ) {
            Some(k) => level.entities[k].position == old_position,
            None => true,
        },
    }
}

/// The command records the state of the level it applies to.
pub open spec fn command_consistent(p: ProjectView, c: CommandView) -> bool {
    match level_pos(p, command_level(c)) {
        Some(i) => level_consistent(p.levels[i], c),
        None => true,
    }
}

proof fn lemma_layer_redo(layer: LayerView, width: u32, changes: Seq<TileChange>, back: bool)
    ensures
        layer_apply(layer_apply(layer, width, changes, back), width, changes, true) == layer_apply(
            layer,
            width,
            changes,
            true,
        ),
{
    match layer.data {
        LayerDataView::Tiles { tiles } => {
            lemma_apply_cells_redo(tiles, width, changes, back);
        },
        LayerDataView::Objects { .. } => {},
    }
}

proof fn lemma_layer_undo(layer: LayerView, width: u32, changes: Seq<TileChange>)
    requires
        layer_consistent(layer, width, changes),
    ensures
        layer_apply(layer_apply(layer, width, changes, true), width, changes, false) == layer,
{
    match layer.data {
        LayerDataView::Tiles { tiles } => {
            lemma_apply_cells_undo(tiles, width, changes);
        },
        LayerDataView::Objects { .. } => {},
    }
}

proof fn lemma_first_where_update<A>(s: Seq<A>, p: spec_fn(A) -> bool, k: int, a: A)
    requires
        0 <= k < s.len(),
        p(a) == p(s[k]),
    ensures
        first_where(s.update(k, a), p) == first_where(s, p),
{
    let s2 = s.update(k, a);
    match first_where(s, p) {
        Some(i) => {
            let w = choose|i: int| is_first(s, p, i);
            assert(is_first(s, p, w));
            assert forall|j: int| 0 <= j < w implies !p(#[trigger] s2[j]) by {
                assert(!p(s[j]));
            }
            assert(is_first(s2, p, w));
            lemma_first_where_found(s2, p, w);
        },
        None => {
            assert forall|j: int| 0 <= j < s2.len() implies !p(#[trigger] s2[j]) by {
                if p(s[j]) {
                    assert(exists|i: int| is_first(s, p, i)) by {
                        lemma_has_first(s, p, j);
                    }
                }
            }
            lemma_first_where_none(s2, p);
        },
    }
}

/// When some element satisfies `p`, a first one does.
proof fn lemma_has_first<A>(s: Seq<A>, p: spec_fn(A) -> bool, j: int)
    requires
        0 <= j < s.len(),
        p(s[j]),
    ensures
        exists|i: int| is_first(s, p, i),
    decreases j,
{
    if exists|i: int| 0 <= i < j && p(#[trigger] s[i]) {
        let i = choose|i: int| 0 <= i < j && p(#[trigger] s[i]);
        lemma_has_first(s, p, i);
    } else {
        assert(is_first(s, p, j));
    }
}

/// Doing a command after doing or undoing it gives the level that doing it
/// once gave.
pub proof fn lemma_level_redo(level: LevelView, c: CommandView, back: bool)
    ensures
        level_effect(level_effect(level, c, back), c, true) == level_effect(level, c, true),
{
    match c {
        CommandView::BatchTile { layer_idx, changes, .. } => {
            if (layer_idx as int) < level.layers.len() {
                let l1 = level_effect(level, c, back);
                lemma_layer_redo(level.layers[layer_idx as int], level.width, changes, back);
                assert(level_effect(l1, c, true).layers =~= level_effect(level, c, true).layers);
            }
        },
        CommandView::Automap { layer_changes, .. } => {
            let l1 = level_apply_automap(level, layer_changes, back);
            lemma_automap_char(level, layer_changes, back);
            lemma_automap_char(l1, layer_changes, true);
            lemma_automap_char(level, layer_changes, true);
            let a = level_apply_automap(l1, layer_changes, true);
            let b = level_apply_automap(level, layer_changes, true);
            assert forall|li: int| 0 <= li < level.layers.len() implies a.layers[li] == b.layers[li] by {
                lemma_layer_redo(level.layers[li], level.width, automap_layer_changes(level, layer_changes, li), back);
            }
            assert(a.layers =~= b.layers);
        },
        CommandView::MoveEntity { entity_id, old_position, new_position, .. } => {
            match first_where(level.entities, entity_id_is(entity_id)) {
                Some(k) => {
                    let pos = if back {
                        new_position
                    } else {
                        old_position
                    };
                    let l1 = level_move(level, entity_id, pos);
                    let e1 = EntityInstanceView { position: pos, ..level.entities[k] };
                    lemma_first_where_update(level.entities, entity_id_is(entity_id), k, e1);
                    assert(level_move(l1, entity_id, new_position).entities =~= level_move(
                        level,
                        entity_id,
                        new_position,
                    ).entities);
                },
                None => {},
            }
        },
    }
}

/// Undoing a command that records the level's state after doing it restores
/// the level.
pub proof fn lemma_level_undo(level: LevelView, c: CommandView)
    requires
        level_consistent(level, c),
    ensures
        level_effect(level_effect(level, c, true), c, false) == level,
{
    match c {
        CommandView::BatchTile { layer_idx, changes, .. } => {
            if (layer_idx as int) < level.layers.len() {
                lemma_layer_undo(level.layers[layer_idx as int], level.width, changes);
                assert(level_effect(level_effect(level, c, true), c, false).layers =~= level.layers);
            }
        },
        CommandView::Automap { layer_changes, .. } => {
            let l1 = level_apply_automap(level, layer_changes, true);
            lemma_automap_char(level, layer_changes, true);
            lemma_automap_char(l1, layer_changes, false);
            let a = level_apply_automap(l1, layer_changes, false);
            assert forall|li: int| 0 <= li < level.layers.len() implies a.layers[li] == level.layers[li] by {
                lemma_layer_undo(level.layers[li], level.width, automap_layer_changes(level, layer_changes, li));
            }
            assert(a.layers =~= level.layers);
        },
        CommandView::MoveEntity { entity_id, old_position, new_position, .. } => {
            match first_where(level.entities, entity_id_is(entity_id)) {
                Some(k) => {
                    let l1 = level_move(level, entity_id, new_position);
                    let e1 = EntityInstanceView { position: new_position, ..level.entities[k] };
                    lemma_first_where_update(level.entities, entity_id_is(entity_id), k, e1);
                    assert(level_move(l1, entity_id, old_position).entities =~= level.entities);
                },
                None => {},
            }
        },
    }
}

pub proof fn lemma_level_effect_keeps_id(level: LevelView, c: CommandView, forward: bool)
    ensures
        level_effect(level, c, forward).id == level.id,
{
    match c {
        CommandView::Automap { layer_changes, .. } => {
            lemma_automap_char(level, layer_changes, forward);
        },
        _ => {},
    }
}

proof fn lemma_effect_keeps_position(p: ProjectView, c: CommandView, forward: bool)
    ensures
        level_pos(command_effect(p, c, forward), command_level(c)) == level_pos(p, command_level(c)),
        forall|id: u128| level_pos(#[trigger] command_effect(p, c, forward), id) == level_pos(p, id),
{
    match level_pos(p, command_level(c)) {
        Some(i) => {
            let w = choose|j: int| is_first(p.levels, level_id_is(command_level(c)), j);
            assert(is_first(p.levels, level_id_is(command_level(c)), w));
            lemma_level_effect_keeps_id(p.levels[i], c, forward);
            assert forall|id: u128| level_pos(#[trigger] command_effect(p, c, forward), id) == level_pos(p, id) by {
                lemma_first_where_update(p.levels, level_id_is(id), i, level_effect(p.levels[i], c, forward));
            }
        },
        None => {},
    }
}

/// Redo after undo: doing a command, undoing it and doing it again leaves
/// the project as doing it once did.
pub proof fn law_effect_redo_after_undo(p: ProjectView, c: CommandView)
    ensures
        command_effect(command_effect(command_effect(p, c, true), c, false), c, true) == command_effect(p, c, true),
{
    let p1 = command_effect(p, c, true);
    let p2 = command_effect(p1, c, false);
    lemma_effect_keeps_position(p, c, true);
    lemma_effect_keeps_position(p1, c, false);
    match level_pos(p, command_level(c)) {
        Some(i) => {
            lemma_level_redo(p1.levels[i], c, false);
            lemma_level_redo(p.levels[i], c, true);
            assert(command_effect(p2, c, true).levels =~= p1.levels);
        },
        None => {},
    }
}

/// Undo after do: undoing a command that records the state it changes
/// restores the project, which stays marked as modified.
pub proof fn law_effect_undo_after_execute(p: ProjectView, c: CommandView)
    requires
        command_consistent(p, c),
    ensures
        command_effect(command_effect(p, c, true), c, false) == dirtied(p),
{
    let p1 = command_effect(p, c, true);
    lemma_effect_keeps_position(p, c, true);
    match level_pos(p, command_level(c)) {
        Some(i) => {
            lemma_level_undo(p.levels[i], c);
            assert(command_effect(p1, c, false).levels =~= p.levels);
        },
        None => {},
    }
}

// ---------------------------------------------------------------------------
// Snapshots of a region
// ---------------------------------------------------------------------------

/// The grid a region snapshot reads: width, height and tiles of the layer
/// `layer_idx` of the first level with id `level_id`, when that is a tile
/// layer.
pub open spec fn snapshot_source(p: ProjectView, level_id: u128, layer_idx: usize) -> Option<(u32, u32, Seq<Option<u32>>)> {
    match level_pos(p, level_id) {
        Some(i) => {
            let level = p.levels[i];
            if (layer_idx as int) < level.layers.len() {
                match level.layers[layer_idx as int].data {
                    LayerDataView::Tiles { tiles } => Some((level.width, level.height, tiles)),
                    LayerDataView::Objects { .. } => None,
                }
            } else {
                None
            }
        },
        None => None,
    }
}

/// The cell (x, y) lies in the rectangle and inside the level (whose size is
/// compared as `i32`).
pub open spec fn in_snapshot(x: int, y: int, width: u32, height: u32, min_x: i32, max_x: i32, min_y: i32, max_y: i32) -> bool {
    &&& min_x <= x <= max_x
    &&& min_y <= y <= max_y
    &&& 0 <= x < (width as i32)
    &&& 0 <= y < (height as i32)
}

/// The tile a snapshot records for a cell: the grid's entry at the cell's
/// index, none past the end.
pub open spec fn grid_tile(tiles: Seq<Option<u32>>, width: u32, x: u32, y: u32) -> Option<u32> {
    let idx = cell_index(width, x, y);
    if idx < tiles.len() {
        tiles[idx]
    } else {
        None
    }
}

/// Cell `a` comes before cell `b` in row-major order.
pub open spec fn cell_before(a: (int, int), b: (int, int)) -> bool {
    a.1 < b.1 || (a.1 == b.1 && a.0 < b.0)
}

/// Collects the tiles of a rectangle (bounds included, cells outside the
/// level left out) of one layer, for undo tracking.
pub fn collect_tiles_in_region(
    project: &Project,
    level_id: u128,
    layer_idx: usize,
    min_x: i32,
    max_x: i32,
    min_y: i32,
    max_y: i32,
) -> (r: Vec<((u32, u32), Option<u32>)>)
    ensures
        forall|i: int, j: int| 0 <= i < j < r@.len() ==> (#[trigger] r@[i]).0 != (#[trigger] r@[j]).0,
        match snapshot_source(project@, level_id, layer_idx) {
            Some((w, h, tiles)) => {
                &&& forall|i: int|
                    0 <= i < r@.len() ==> in_snapshot(
                        (#[trigger] r@[i]).0.0 as int,
                        r@[i].0.1 as int,
                        w,
                        h,
                        min_x,
                        max_x,
                        min_y,
                        max_y,
                    ) && r@[i].1 == grid_tile(tiles, w, r@[i].0.0, r@[i].0.1)
                &&& forall|x: u32, y: u32|
                    in_snapshot(x as int, y as int, w, h, min_x, max_x, min_y, max_y) ==> exists|i: int|
                        0 <= i < r@.len() && (#[trigger] r@[i]).0 == (x, y)
            },
            None => r@.len() == 0,
        },
{
    let mut out: Vec<((u32, u32), Option<u32>)> = Vec::new();
    let level = match project.get_level(level_id) {
        Some(l) => l,
        None => return out,
    };
    if layer_idx >= level.layers.len() {
        return out;
    }
    let layer = &level.layers[layer_idx];
    assert(level@.layers[layer_idx as int] == layer@);
    let tiles = match &layer.data {
        LayerData::Tiles { tiles } => tiles,
        LayerData::Objects { .. } => return out,
    };
    let w = level.width;
    let h = level.height;
    let wi: i32 = w as i32;
    let hi: i32 = h as i32;
    let ghost src = (w, h, tiles@);
    assert(snapshot_source(project@, level_id, layer_idx) == Some(src));
    let mut y: i64 = min_y as i64;
    while y <= max_y as i64
        invariant
            min_y <= y,
            y <= max_y as i64 + 1 || y == min_y as i64,
            wi == (w as i32),
            hi == (h as i32),
            forall|i: int, j: int| 0 <= i < j < out@.len() ==> cell_before(
                ((#[trigger] out@[i]).0.0 as int, out@[i].0.1 as int),
                ((#[trigger] out@[j]).0.0 as int, out@[j].0.1 as int),
            ),
            forall|i: int|
                0 <= i < out@.len() ==> in_snapshot(
                    (#[trigger] out@[i]).0.0 as int,
                    out@[i].0.1 as int,
                    w,
                    h,
                    min_x,
                    max_x,
                    min_y,
                    max_y,
                ) && out@[i].1 == grid_tile(tiles@, w, out@[i].0.0, out@[i].0.1) && out@[i].0.1 < y,
            forall|xx: u32, yy: u32|
                in_snapshot(xx as int, yy as int, w, h, min_x, max_x, min_y, max_y) && yy < y ==> exists|i: int|
                    0 <= i < out@.len() && (#[trigger] out@[i]).0 == (xx, yy),
        decreases max_y as i64 + 1 - y,
    {
        let mut x: i64 = min_x as i64;
        while x <= max_x as i64
            invariant
                min_y <= y <= max_y,
                min_x <= x,
                x <= max_x as i64 + 1 || x == min_x as i64,
                wi == (w as i32),
                hi == (h as i32),
                forall|i: int, j: int| 0 <= i < j < out@.len() ==> cell_before(
                    ((#[trigger] out@[i]).0.0 as int, out@[i].0.1 as int),
                    ((#[trigger] out@[j]).0.0 as int, out@[j].0.1 as int),
                ),
                forall|i: int|
                    0 <= i < out@.len() ==> in_snapshot(
                        (#[trigger] out@[i]).0.0 as int,
                        out@[i].0.1 as int,
                        w,
                        h,
                        min_x,
                        max_x,
                        min_y,
                        max_y,
                    ) && out@[i].1 == grid_tile(tiles@, w, out@[i].0.0, out@[i].0.1) && cell_before(
                        (out@[i].0.0 as int, out@[i].0.1 as int),
                        (x as int, y as int),
                    ),
                forall|xx: u32, yy: u32|
                    in_snapshot(xx as int, yy as int, w, h, min_x, max_x, min_y, max_y) && cell_before(
                        (xx as int, yy as int),
                        (x as int, y as int),
                    ) ==> exists|i: int| 0 <= i < out@.len() && (#[trigger] out@[i]).0 == (xx, yy),
            decreases max_x as i64 + 1 - x,
        {
            if x >= 0 && y >= 0 && x < wi as i64 && y < hi as i64 {
                let xu = x as u32;
                let yu = y as u32;
                let idx = cell_idx(w, xu, yu);
                let tile = if idx < tiles.len() as u64 {
                    tiles[idx as usize]
                } else {
                    None
                };
                let ghost before = out@;
                out.push(((xu, yu), tile));
                proof {
                    assert(out@[before.len() as int] == ((xu, yu), tile));
                    assert forall|xx: u32, yy: u32|
                        in_snapshot(xx as int, yy as int, w, h, min_x, max_x, min_y, max_y) && cell_before(
                            (xx as int, yy as int),
                            (x + 1, y as int),
                        ) implies exists|i: int| 0 <= i < out@.len() && (#[trigger] out@[i]).0 == (xx, yy) by {
                        if xx as int == x && yy as int == y {
                            assert(out@[before.len() as int].0 == (xx, yy));
                        } else {
                            let i = choose|i: int| 0 <= i < before.len() && (#[trigger] before[i]).0 == (xx, yy);
                            assert(out@[i] == before[i]);
                        }
                    }
                }
            } else {
                proof {
                    assert forall|xx: u32, yy: u32|
                        in_snapshot(xx as int, yy as int, w, h, min_x, max_x, min_y, max_y) && cell_before(
                            (xx as int, yy as int),
                            (x + 1, y as int),
                        ) implies exists|i: int| 0 <= i < out@.len() && (#[trigger] out@[i]).0 == (xx, yy) by {
                        assert(!(xx as int == x && yy as int == y));
                    }
                }
            }
            x = x + 1;
        }
        y = y + 1;
    }
    proof {
        assert forall|i: int, j: int| 0 <= i < j < out@.len() implies (#[trigger] out@[i]).0 != (#[trigger] out@[j]).0 by {
            assert(cell_before((out@[i].0.0 as int, out@[i].0.1 as int), (out@[j].0.0 as int, out@[j].0.1 as int)));
        }
    }
    out
}

} // verus!
