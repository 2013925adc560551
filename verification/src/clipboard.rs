//! Tile selection and the tile clipboard for copy/paste.
use vstd::prelude::*;

use crate::map::{level_tile, LevelView};
use crate::project::{level_pos, Project};

verus! {

/// A selected cell: (level id, layer index, x, y).
pub type SelectedTile = (u128, usize, u32, u32);

/// Tile selection for copy/paste/delete operations.
#[derive(Debug)]
pub struct TileSelection {
    /// Selected tiles; no tile occurs twice.
    pub tiles: Vec<SelectedTile>,
    /// The level the selection is on.
    pub level_id: Option<u128>,
    /// The layer the selection is on.
    pub layer_idx: Option<usize>,
    /// Whether a marquee selection is being drawn.
    pub is_selecting: bool,
    /// Start tile of the marquee selection.
    pub drag_start: Option<(i32, i32)>,
}

/// The cell lies in the rectangle spanned by its two corners (bounds
/// included, in any order).
pub open spec fn in_rect(x: u32, y: u32, x1: u32, y1: u32, x2: u32, y2: u32) -> bool {
    &&& (x1 <= x <= x2 || x2 <= x <= x1)
    &&& (y1 <= y <= y2 || y2 <= y <= y1)
}

impl TileSelection {
    /// Well-formed: no tile is selected twice.
    pub open spec fn wf(&self) -> bool {
        self.tiles@.no_duplicates()
    }

    /// An empty selection.
    pub fn new() -> (r: TileSelection)
        ensures
            r.wf(),
            r.tiles@.len() == 0,
            r.level_id is None,
            r.layer_idx is None,
            !r.is_selecting,
            r.drag_start is None,
    {
        TileSelection {
            tiles: Vec::new(),
            level_id: None,
            layer_idx: None,
            is_selecting: false,
            drag_start: None,
        }
    }

    /// Deselects everything and forgets the level and layer.
    pub fn clear(&mut self)
        ensures
            final(self).wf(),
            final(self).tiles@.len() == 0,
            final(self).level_id is None,
            final(self).layer_idx is None,
            final(self).is_selecting == old(self).is_selecting,
            final(self).drag_start == old(self).drag_start,
    {
        self.tiles.clear();
        self.level_id = None;
        self.layer_idx = None;
    }

    /// Whether nothing is selected.
    pub fn is_empty(&self) -> (r: bool)
        ensures
            r == (self.tiles@.len() == 0),
    {
        self.tiles.len() == 0
    }

    /// Whether the tile is selected.
    pub fn contains(&self, level_id: u128, layer_idx: usize, x: u32, y: u32) -> (r: bool)
        ensures
            r == self.tiles@.contains((level_id, layer_idx, x, y)),
    {
        let t = (level_id, layer_idx, x, y);
        let mut i: usize = 0;
        while i < self.tiles.len()
            invariant
                i <= self.tiles.len(),
                t == (level_id, layer_idx, x, y),
                forall|j: int| 0 <= j < i ==> self.tiles@[j] != t,
            decreases self.tiles.len() - i,
        {
            let s = self.tiles[i];
            if s.0 == t.0 && s.1 == t.1 && s.2 == t.2 && s.3 == t.3 {
                proof {
                    assert(self.tiles@[i as int] == t);
                    assert(self.tiles@.contains(t));
                    assert(t == (level_id, layer_idx, x, y));
                }
                return true;
            }
            i = i + 1;
        }
        false
    }

    fn insert(&mut self, t: SelectedTile)
        requires
            old(self).wf(),
        ensures
            final(self).wf(),
            forall|u: SelectedTile| #[trigger] final(self).tiles@.contains(u) <==> (old(self).tiles@.contains(u) || u == t),
            final(self).level_id == old(self).level_id,
            final(self).layer_idx == old(self).layer_idx,
            final(self).is_selecting == old(self).is_selecting,
            final(self).drag_start == old(self).drag_start,
    {
        if !self.contains(t.0, t.1, t.2, t.3) {
            let ghost before = self.tiles@;
            self.tiles.push(t);
            proof {
                assert forall|u: SelectedTile| #[trigger] self.tiles@.contains(u) <==> (before.contains(u) || u == t) by {
                    if self.tiles@.contains(u) {
                        let k = choose|k: int| 0 <= k < self.tiles@.len() && self.tiles@[k] == u;
                        if k < before.len() {
                            assert(before[k] == u);
                        }
                    }
                    if before.contains(u) {
                        let k = choose|k: int| 0 <= k < before.len() && before[k] == u;
                        assert(self.tiles@[k] == u);
                    }
                    if u == t {
                        assert(self.tiles@[before.len() as int] == t);
                    }
                }
            }
        }
    }

    /// Selects one tile, adding to the selection or replacing it.
    pub fn select_tile(&mut self, level_id: u128, layer_idx: usize, x: u32, y: u32, add_to_selection: bool)
        requires
            old(self).wf(),
        ensures
            final(self).wf(),
            forall|u: SelectedTile| #[trigger] final(self).tiles@.contains(u) <==> ((add_to_selection
                && old(self).tiles@.contains(u)) || u == (level_id, layer_idx, x, y)),
            final(self).level_id == Some(level_id),
            final(self).layer_idx == Some(layer_idx),
            final(self).is_selecting == old(self).is_selecting,
            final(self).drag_start == old(self).drag_start,
    {
        if !add_to_selection {
            self.clear();
        }
        self.level_id = Some(level_id);
        self.layer_idx = Some(layer_idx);
        self.insert((level_id, layer_idx, x, y));
    }

    /// Selects every tile of the rectangle spanned by (x1, y1) and (x2, y2),
    /// adding to the selection or replacing it.
    pub fn select_rectangle(
        &mut self,
        level_id: u128,
        layer_idx: usize,
        x1: u32,
        y1: u32,
        x2: u32,
        y2: u32,
        add_to_selection: bool,
    )
        requires
            old(self).wf(),
        ensures
            final(self).wf(),
            forall|u: SelectedTile| #[trigger] final(self).tiles@.contains(u) <==> ((add_to_selection
                && old(self).tiles@.contains(u)) || (u.0 == level_id && u.1 == layer_idx && in_rect(
                u.2,
                u.3,
                x1,
                y1,
                x2,
                y2,
            ))),
            final(self).level_id == Some(level_id),
            final(self).layer_idx == Some(layer_idx),
            final(self).is_selecting == old(self).is_selecting,
            final(self).drag_start == old(self).drag_start,
    {
        if !add_to_selection {
            self.clear();
        }
        self.level_id = Some(level_id);
        self.layer_idx = Some(layer_idx);
        let ghost base = self.tiles@;
        let min_x: u32 = if x1 < x2 { x1 } else { x2 };
        let max_x: u32 = if x1 < x2 { x2 } else { x1 };
        let min_y: u32 = if y1 < y2 { y1 } else { y2 };
        let max_y: u32 = if y1 < y2 { y2 } else { y1 };
        let mut y: u64 = min_y as u64;
        while y <= max_y as u64
            invariant
                min_x <= max_x,
                min_y <= max_y,
                min_y <= y <= max_y as u64 + 1,
                self.wf(),
                self.level_id == Some(level_id),
                self.layer_idx == Some(layer_idx),
                self.is_selecting == old(self).is_selecting,
                self.drag_start == old(self).drag_start,
                forall|u: SelectedTile| #[trigger] self.tiles@.contains(u) <==> (base.contains(u) || (u.0
                    == level_id && u.1 == layer_idx && min_x <= u.2 <= max_x && min_y <= u.3 < y)),
            decreases max_y as u64 + 1 - y,
        {
            let mut x: u64 = min_x as u64;
            while x <= max_x as u64
                invariant
                    min_y <= y <= max_y,
                    min_x <= x <= max_x as u64 + 1,
                    self.wf(),
                    self.level_id == Some(level_id),
                    self.layer_idx == Some(layer_idx),
                    self.is_selecting == old(self).is_selecting,
                    self.drag_start == old(self).drag_start,
                    forall|u: SelectedTile| #[trigger] self.tiles@.contains(u) <==> (base.contains(u) || (u.0
                        == level_id && u.1 == layer_idx && min_x <= u.2 <= max_x && min_y <= u.3 < y) || (u.0
                        == level_id && u.1 == layer_idx && min_x <= u.2 < x && u.3 == y)),
                decreases max_x as u64 + 1 - x,
            {
                self.insert((level_id, layer_idx, x as u32, y as u32));
                x = x + 1;
            }
            y = y + 1;
        }
    }
}

/// Clipboard content for tiles.
#[derive(Debug)]
pub struct ClipboardContent {
    /// Width of the clipboard region.
    pub width: u32,
    /// Height of the clipboard region.
    pub height: u32,
    /// Tiles as (relative x, relative y, tile id).
    pub tiles: Vec<(u32, u32, Option<u32>)>,
}

/// Smallest value of a sequence (`u32::MAX` for none).
pub open spec fn seq_min(s: Seq<u32>) -> u32
    decreases s.len(),
{
    if s.len() == 0 {
        u32::MAX
    } else {
        let m = seq_min(s.drop_last());
        if s.last() < m {
            s.last()
        } else {
            m
        }
    }
}

/// Largest value of a sequence (0 for none).
pub open spec fn seq_max(s: Seq<u32>) -> u32
    decreases s.len(),
{
    if s.len() == 0 {
        0
    } else {
        let m = seq_max(s.drop_last());
        if s.last() > m {
            s.last()
        } else {
            m
        }
    }
}

pub open spec fn xs_of(s: Seq<SelectedTile>) -> Seq<u32> {
    Seq::new(s.len(), |i: int| s[i].2)
}

pub open spec fn ys_of(s: Seq<SelectedTile>) -> Seq<u32> {
    Seq::new(s.len(), |i: int| s[i].3)
}

/// The copied tiles: for each selected tile on the layer, in selection
/// order, its position relative to the top-left corner and its tile.
pub open spec fn clip_tiles(s: Seq<SelectedTile>, layer_idx: usize, min_x: u32, min_y: u32, level: LevelView) -> Seq<
    (u32, u32, Option<u32>),
>
    decreases s.len(),
{
    if s.len() == 0 {
        seq![]
    } else {
        let rest = clip_tiles(s.drop_last(), layer_idx, min_x, min_y, level);
        let t = s.last();
        if t.1 == layer_idx {
            rest.push(((t.2 - min_x) as u32, (t.3 - min_y) as u32, level_tile(level, layer_idx as int, t.2, t.3)))
        } else {
            rest
        }
    }
}

/// The copied tile `c` is the selected cell `t` of layer `li`: at `t`'s
/// offset from `(min_x, min_y)`, holding the level's tile at `t`.
pub open spec fn copied_from(
    c: (u32, u32, Option<u32>),
    t: SelectedTile,
    li: usize,
    min_x: u32,
    min_y: u32,
    level: LevelView,
) -> bool {
    &&& t.1 == li
    &&& c.0 == t.2 - min_x
    &&& c.1 == t.3 - min_y
    &&& c.2 == level_tile(level, li as int, t.2, t.3)
}

/// The copied tile `c` is some selected cell of `s` on layer `li`, placed
/// and filled as `copied_from` says.
pub open spec fn from_selected_cell(
    c: (u32, u32, Option<u32>),
    s: Seq<SelectedTile>,
    li: usize,
    min_x: u32,
    min_y: u32,
    level: LevelView,
) -> bool {
    exists|i: int| 0 <= i < s.len() && #[trigger] copied_from(c, s[i], li, min_x, min_y, level)
}

proof fn lemma_clip_tiles_sources(s: Seq<SelectedTile>, li: usize, min_x: u32, min_y: u32, level: LevelView)
    requires
        forall|i: int| 0 <= i < s.len() ==> min_x <= #[trigger] s[i].2 && min_y <= s[i].3,
    ensures
        forall|k: int|
            0 <= k < clip_tiles(s, li, min_x, min_y, level).len() ==> #[trigger] from_selected_cell(
                clip_tiles(s, li, min_x, min_y, level)[k],
                s,
                li,
                min_x,
                min_y,
                level,
            ),
    decreases s.len(),
{
    if s.len() > 0 {
        let d = s.drop_last();
        assert forall|i: int| 0 <= i < d.len() implies min_x <= #[trigger] d[i].2 && min_y <= d[i].3 by {
            assert(d[i] == s[i]);
        }
        lemma_clip_tiles_sources(d, li, min_x, min_y, level);
        let rest = clip_tiles(d, li, min_x, min_y, level);
        let c = clip_tiles(s, li, min_x, min_y, level);
        let t = s.last();
        assert(t == s[s.len() - 1]);
        let item = ((t.2 - min_x) as u32, (t.3 - min_y) as u32, level_tile(level, li as int, t.2, t.3));
        if t.1 == li {
            assert(c == rest.push(item));
            assert(copied_from(item, t, li, min_x, min_y, level));
        } else {
            assert(c == rest);
        }
        assert forall|k: int| 0 <= k < c.len() implies #[trigger] from_selected_cell(c[k], s, li, min_x, min_y, level) by {
            if k < rest.len() {
                assert(c[k] == rest[k]);
                assert(from_selected_cell(rest[k], d, li, min_x, min_y, level));
                let i = choose|i: int| 0 <= i < d.len() && #[trigger] copied_from(rest[k], d[i], li, min_x, min_y, level);
                assert(d[i] == s[i]);
                assert(copied_from(c[k], s[i], li, min_x, min_y, level));
            } else {
                assert(c[k] == item);
                assert(copied_from(c[k], s[s.len() - 1], li, min_x, min_y, level));
            }
        }
    } else {
        assert(clip_tiles(s, li, min_x, min_y, level).len() == 0);
    }
}

proof fn lemma_clip_tiles_covers(s: Seq<SelectedTile>, li: usize, min_x: u32, min_y: u32, level: LevelView)
    requires
        forall|i: int| 0 <= i < s.len() ==> min_x <= #[trigger] s[i].2 && min_y <= s[i].3,
    ensures
        forall|i: int|
            0 <= i < s.len() && #[trigger] s[i].1 == li ==> exists|k: int|
                0 <= k < clip_tiles(s, li, min_x, min_y, level).len() && #[trigger] copied_from(
                    clip_tiles(s, li, min_x, min_y, level)[k],
                    s[i],
                    li,
                    min_x,
                    min_y,
                    level,
                ),
    decreases s.len(),
{
    if s.len() > 0 {
        let d = s.drop_last();
        assert forall|i: int| 0 <= i < d.len() implies min_x <= #[trigger] d[i].2 && min_y <= d[i].3 by {
            assert(d[i] == s[i]);
        }
        lemma_clip_tiles_covers(d, li, min_x, min_y, level);
        let rest = clip_tiles(d, li, min_x, min_y, level);
        let c = clip_tiles(s, li, min_x, min_y, level);
        let t = s.last();
        assert(t == s[s.len() - 1]);
        let item = ((t.2 - min_x) as u32, (t.3 - min_y) as u32, level_tile(level, li as int, t.2, t.3));
        if t.1 == li {
            assert(c == rest.push(item));
            assert(copied_from(item, t, li, min_x, min_y, level));
        } else {
            assert(c == rest);
        }
        assert forall|i: int| 0 <= i < s.len() && #[trigger] s[i].1 == li implies exists|k: int|
            0 <= k < clip_tiles(s, li, min_x, min_y, level).len() && #[trigger] copied_from(clip_tiles(s, li, min_x, min_y, level)[k], s[i], li, min_x, min_y, level) by {
            if i < d.len() {
                assert(d[i] == s[i]);
                assert(d[i].1 == li);
                let k = choose|k: int| 0 <= k < rest.len() && #[trigger] copied_from(rest[k], d[i], li, min_x, min_y, level);
                assert(c[k] == rest[k]);
                assert(copied_from(c[k], s[i], li, min_x, min_y, level));
            } else {
                assert(c[rest.len() as int] == item);
                assert(copied_from(c[rest.len() as int], s[i], li, min_x, min_y, level));
            }
        }
    }
}

/// What a copy holds: the region is the bounding box of the selected
/// cells; every copied tile is a selected cell of the copied layer, placed
/// at its offset from the box's top-left corner (so inside the `width` x
/// `height` region) and holding the level's tile there; and every selected
/// cell of that layer is copied.
pub proof fn law_copied_tiles_from_selection(s: Seq<SelectedTile>, li: usize, level: LevelView)
    requires
        s.len() > 0,
    ensures
        ({
            let min_x = seq_min(xs_of(s));
            let min_y = seq_min(ys_of(s));
            let width = seq_max(xs_of(s)) - min_x + 1;
            let height = seq_max(ys_of(s)) - min_y + 1;
            let c = clip_tiles(s, li, min_x, min_y, level);
            &&& forall|i: int| 0 <= i < s.len() ==> min_x <= #[trigger] s[i].2 <= seq_max(xs_of(s)) && min_y <= s[i].3
                <= seq_max(ys_of(s))
            &&& exists|i: int| 0 <= i < s.len() && #[trigger] s[i].2 == min_x
            &&& exists|i: int| 0 <= i < s.len() && #[trigger] s[i].3 == min_y
            &&& exists|i: int| 0 <= i < s.len() && #[trigger] s[i].2 == seq_max(xs_of(s))
            &&& exists|i: int| 0 <= i < s.len() && #[trigger] s[i].3 == seq_max(ys_of(s))
            &&& forall|k: int| 0 <= k < c.len() ==> #[trigger] from_selected_cell(c[k], s, li, min_x, min_y, level)
            &&& forall|k: int| 0 <= k < c.len() ==> #[trigger] c[k].0 < width && c[k].1 < height
            &&& forall|i: int|
                0 <= i < s.len() && #[trigger] s[i].1 == li ==> exists|k: int|
                    0 <= k < c.len() && #[trigger] c[k].0 == s[i].2 - min_x && c[k].1 == s[i].3 - min_y && c[k].2
                        == level_tile(level, li as int, s[i].2, s[i].3)
        }),
{
    let min_x = seq_min(xs_of(s));
    let min_y = seq_min(ys_of(s));
    let c = clip_tiles(s, li, min_x, min_y, level);
    lemma_min_max_bounds(xs_of(s));
    lemma_min_max_bounds(ys_of(s));
    assert forall|i: int| 0 <= i < s.len() implies min_x <= #[trigger] s[i].2 <= seq_max(xs_of(s)) && min_y
        <= s[i].3 <= seq_max(ys_of(s)) by {
        assert(xs_of(s)[i] == s[i].2);
        assert(ys_of(s)[i] == s[i].3);
    }
    let a = choose|i: int| 0 <= i < s.len() && xs_of(s)[i] == seq_min(xs_of(s));
    assert(s[a].2 == min_x);
    let b = choose|i: int| 0 <= i < s.len() && ys_of(s)[i] == seq_min(ys_of(s));
    assert(s[b].3 == min_y);
    let e = choose|i: int| 0 <= i < s.len() && xs_of(s)[i] == seq_max(xs_of(s));
    assert(s[e].2 == seq_max(xs_of(s)));
    let f = choose|i: int| 0 <= i < s.len() && ys_of(s)[i] == seq_max(ys_of(s));
    assert(s[f].3 == seq_max(ys_of(s)));
    lemma_clip_tiles_sources(s, li, min_x, min_y, level);
    assert forall|k: int| 0 <= k < c.len() implies #[trigger] c[k].0 < seq_max(xs_of(s)) - min_x + 1 && c[k].1
        < seq_max(ys_of(s)) - min_y + 1 by {
        assert(from_selected_cell(c[k], s, li, min_x, min_y, level));
        let i = choose|i: int| 0 <= i < s.len() && #[trigger] copied_from(c[k], s[i], li, min_x, min_y, level);
        assert(xs_of(s)[i] == s[i].2);
        assert(ys_of(s)[i] == s[i].3);
    }
    assert forall|i: int| 0 <= i < s.len() && #[trigger] s[i].1 == li implies exists|k: int|
        0 <= k < c.len() && #[trigger] c[k].0 == s[i].2 - min_x && c[k].1 == s[i].3 - min_y && c[k].2
            == level_tile(level, li as int, s[i].2, s[i].3) by {
        lemma_clip_tiles_covers(s, li, min_x, min_y, level);
        let k = choose|k: int| 0 <= k < c.len() && #[trigger] copied_from(c[k], s[i], li, min_x, min_y, level);
        assert(copied_from(c[k], s[i], li, min_x, min_y, level));
    }
}

/// The selection's extent fits a `u32` in both directions.
pub open spec fn extent_fits(s: Seq<SelectedTile>) -> bool {
    forall|i: int, j: int| 0 <= i < s.len() && 0 <= j < s.len() ==> s[i].2 - s[j].2 < u32::MAX && s[i].3 - s[j].3 < u32::MAX
}

proof fn lemma_min_max_bounds(s: Seq<u32>)
    requires
        s.len() > 0,
    ensures
        exists|i: int| 0 <= i < s.len() && s[i] == seq_min(s),
        exists|i: int| 0 <= i < s.len() && s[i] == seq_max(s),
        forall|i: int| 0 <= i < s.len() ==> seq_min(s) <= #[trigger] s[i] <= seq_max(s),
    decreases s.len(),
{
    if s.len() > 1 {
        lemma_min_max_bounds(s.drop_last());
        let d = s.drop_last();
        let i1 = choose|i: int| 0 <= i < d.len() && d[i] == seq_min(d);
        let i2 = choose|i: int| 0 <= i < d.len() && d[i] == seq_max(d);
        assert(s[i1] == d[i1]);
        assert(s[i2] == d[i2]);
        assert(s[s.len() - 1] == s.last());
        if s.last() < seq_min(d) {
            assert(s[s.len() - 1] == seq_min(s));
        } else {
            assert(s[i1] == seq_min(s));
        }
        if s.last() > seq_max(d) {
            assert(s[s.len() - 1] == seq_max(s));
        } else {
            assert(s[i2] == seq_max(s));
        }
        assert forall|i: int| 0 <= i < s.len() implies seq_min(s) <= #[trigger] s[i] <= seq_max(s) by {
            if i < s.len() - 1 {
                assert(s[i] == d[i]);
            }
        }
    } else {
        assert(s.drop_last().len() == 0);
        assert(s[0] == s.last());
        assert(seq_min(s.drop_last()) == u32::MAX);
        assert(seq_max(s.drop_last()) == 0);
        assert(s[0] == seq_min(s));
        assert(s[0] == seq_max(s));
    }
}

/// Tile clipboard for copy/paste.
#[derive(Debug)]
pub struct TileClipboard {
    pub content: Option<ClipboardContent>,
}

impl TileClipboard {
    /// An empty clipboard.
    pub fn new() -> (r: TileClipboard)
        ensures
            r.content is None,
    {
        TileClipboard { content: None }
    }

    /// Copies the selected tiles of the selection's layer from the
    /// selection's level. The region spans all selected tiles. Nothing is
    /// copied (the clipboard keeps its content) when the selection has no
    /// level or layer, the level does not exist, or nothing is selected.
    pub fn copy_selection(&mut self, selection: &TileSelection, project: &Project)
        requires
            extent_fits(selection.tiles@),
        ensures
            match (selection.level_id, selection.layer_idx) {
                (Some(lid), Some(li)) => match level_pos(project@, lid) {
                    Some(pos) => if selection.tiles@.len() == 0 {
                        final(self).content == old(self).content
                    } else {
                        let xs = xs_of(selection.tiles@);
                        let ys = ys_of(selection.tiles@);
                        final(self).content matches Some(c) && c.width == seq_max(xs) - seq_min(xs) + 1
                            && c.height == seq_max(ys) - seq_min(ys) + 1 && c.tiles@ == clip_tiles(
                            selection.tiles@,
                            li,
                            seq_min(xs),
                            seq_min(ys),
                            project@.levels[pos],
                        ) && (forall|k: int|
                            0 <= k < c.tiles@.len() ==> #[trigger] from_selected_cell(
                                c.tiles@[k],
                                selection.tiles@,
                                li,
                                seq_min(xs),
                                seq_min(ys),
                                project@.levels[pos],
                            ) && c.tiles@[k].0 < c.width && c.tiles@[k].1 < c.height)
                    },
                    None => final(self).content == old(self).content,
                },
                _ => final(self).content == old(self).content,
            },
    {
        let level_id = match selection.level_id {
            Some(l) => l,
            None => return,
        };
        let layer_idx = match selection.layer_idx {
            Some(l) => l,
            None => return,
        };
        let level = match project.get_level(level_id) {
            Some(l) => l,
            None => return,
        };
        if selection.is_empty() {
            return;
        }
        let ghost s = selection.tiles@;
        let mut min_x: u32 = u32::MAX;
        let mut min_y: u32 = u32::MAX;
        let mut max_x: u32 = 0;
        let mut max_y: u32 = 0;
        let mut i: usize = 0;
        while i < selection.tiles.len()
            invariant
                i <= selection.tiles.len(),
                s == selection.tiles@,
                min_x == seq_min(xs_of(s).take(i as int)),
                max_x == seq_max(xs_of(s).take(i as int)),
                min_y == seq_min(ys_of(s).take(i as int)),
                max_y == seq_max(ys_of(s).take(i as int)),
            decreases selection.tiles.len() - i,
        {
            let t = selection.tiles[i];
            proof {
                assert(xs_of(s).take(i + 1).drop_last() =~= xs_of(s).take(i as int));
                assert(ys_of(s).take(i + 1).drop_last() =~= ys_of(s).take(i as int));
            }
            if t.2 < min_x {
                min_x = t.2;
            }
            if t.3 < min_y {
                min_y = t.3;
            }
            if t.2 > max_x {
                max_x = t.2;
            }
            if t.3 > max_y {
                max_y = t.3;
            }
            i = i + 1;
        }
        proof {
            assert(xs_of(s).take(i as int) =~= xs_of(s));
            assert(ys_of(s).take(i as int) =~= ys_of(s));
            lemma_min_max_bounds(xs_of(s));
            lemma_min_max_bounds(ys_of(s));
            let a = choose|a: int| 0 <= a < s.len() && xs_of(s)[a] == seq_max(xs_of(s));
            let b = choose|b: int| 0 <= b < s.len() && xs_of(s)[b] == seq_min(xs_of(s));
            assert(s[a].2 - s[b].2 < u32::MAX);
            let c = choose|c: int| 0 <= c < s.len() && ys_of(s)[c] == seq_max(ys_of(s));
            let d = choose|d: int| 0 <= d < s.len() && ys_of(s)[d] == seq_min(ys_of(s));
            assert(s[c].3 - s[d].3 < u32::MAX);
        }
        let width = max_x - min_x + 1;
        let height = max_y - min_y + 1;
        let mut tiles: Vec<(u32, u32, Option<u32>)> = Vec::new();
        let mut k: usize = 0;
        while k < selection.tiles.len()
            invariant
                k <= selection.tiles.len(),
                s == selection.tiles@,
                min_x == seq_min(xs_of(s)),
                min_y == seq_min(ys_of(s)),
                forall|j: int| 0 <= j < s.len() ==> min_x <= #[trigger] xs_of(s)[j] && min_y <= ys_of(s)[j],
                tiles@ == clip_tiles(s.take(k as int), layer_idx, min_x, min_y, level@),
            decreases selection.tiles.len() - k,
        {
            let t = selection.tiles[k];
            proof {
                assert(s.take(k + 1).drop_last() =~= s.take(k as int));
                assert(xs_of(s)[k as int] == t.2);
                assert(ys_of(s)[k as int] == t.3);
            }
            if t.1 == layer_idx {
                let tile = level.get_tile(layer_idx, t.2, t.3);
                tiles.push((t.2 - min_x, t.3 - min_y, tile));
            }
            k = k + 1;
        }
        assert(s.take(k as int) =~= s);
        proof {
            law_copied_tiles_from_selection(s, layer_idx, level@);
        }
        self.content = Some(ClipboardContent { width, height, tiles });
    }

    /// Whether the clipboard holds something.
    pub fn has_content(&self) -> (r: bool)
        ensures
            r == (self.content is Some),
    {
        self.content.is_some()
    }

    /// Empties the clipboard.
    pub fn clear(&mut self)
        ensures
            final(self).content is None,
    {
        self.content = None;
    }
}

} // verus!
