//! Tilesets and the per-tile properties that the tile properties tab edits:
//! collision kind, one-way direction and layer, the grid cells a tile spans,
//! and the point it anchors at.
use vstd::prelude::*;
use std::collections::HashMap;

verus! {

/// The collision shape of a tile. Rectangles and circles start at their
/// default geometry (the unit square, a circle of radius one half); their
/// geometry is edited on the collision canvas.
#[derive(Debug, Clone, Copy, PartialEq, Eq, Structural)]
pub enum CollisionShape {
    NoCollision,
    Full,
    Rectangle,
    Circle,
}

/// The side from which a tile can be passed through.
#[derive(Debug, Clone, Copy, PartialEq, Eq, Structural)]
pub enum OneWayDirection {
    /// Solid from every side.
    Solid,
    Top,
    Bottom,
    Left,
    Right,
}

/// How a tile collides.
#[derive(Debug, Clone, Copy, PartialEq, Eq, Structural)]
pub struct CollisionData {
    pub shape: CollisionShape,
    pub one_way: OneWayDirection,
    pub layer: u8,
}

/// The properties of one tile.
#[derive(Debug, Clone, Copy, PartialEq, Eq, Structural)]
pub struct TileProperties {
    pub collision: CollisionData,
    /// Grid cells the tile spans across.
    pub grid_width: u32,
    /// Grid cells the tile spans down.
    pub grid_height: u32,
    /// Anchor point in pixels from the tile's left edge; the centre when
    /// unset.
    pub origin_x: Option<u32>,
    /// Anchor point in pixels from the tile's top edge; the centre when
    /// unset.
    pub origin_y: Option<u32>,
}

/// The highest collision layer.
pub const MAX_COLLISION_LAYER: u8 = 31;
/// The most grid cells a tile spans in either direction.
pub const MAX_TILE_SPAN: u32 = 8;

/// The properties of a tile that has none recorded: no collision, solid,
/// layer 0, one cell, anchored at its centre.
pub open spec fn default_tile_properties() -> TileProperties {
    TileProperties {
        collision: CollisionData { shape: CollisionShape::NoCollision, one_way: OneWayDirection::Solid, layer: 0 },
        grid_width: 1,
        grid_height: 1,
        origin_x: None,
        origin_y: None,
    }
}

impl TileProperties {
    /// The properties of a tile that has none recorded.
    pub fn new() -> (r: TileProperties)
        ensures
            r == default_tile_properties(),
    {
        TileProperties {
            collision: CollisionData { shape: CollisionShape::NoCollision, one_way: OneWayDirection::Solid, layer: 0 },
            grid_width: 1,
            grid_height: 1,
            origin_x: None,
            origin_y: None,
        }
    }

    /// Whether the tile collides at all.
    pub fn has_collision(&self) -> (r: bool)
        ensures
            r == (self.collision.shape != CollisionShape::NoCollision),
    {
        self.collision.shape != CollisionShape::NoCollision
    }
}

/// One change made in the tile properties tab.
#[derive(Debug, Clone, Copy, PartialEq, Eq, Structural)]
pub enum TileEdit {
    /// The "Has collision" box: a full-tile shape, or none.
    Collision(bool),
    Shape(CollisionShape),
    OneWay(OneWayDirection),
    /// The collision layer, at most `MAX_COLLISION_LAYER`.
    Layer(u8),
    /// Grid width and height, each from 1 to `MAX_TILE_SPAN`.
    GridSize(u32, u32),
    /// The anchor point picked on the preview, in tile pixels.
    Origin(u32, u32),
    /// "Reset to Center".
    ResetOrigin,
}

/// `v` kept within `lo..=hi`.
pub open spec fn clamped(v: int, lo: int, hi: int) -> int {
    if v < lo { lo } else if v > hi { hi } else { v }
}

/// The properties `p` of a tile of a tileset with `tile_size` pixel tiles
/// after `edit`. Values outside the tab's ranges are brought into them; an
/// anchor point is kept inside the tile's pixels.
pub open spec fn edited_properties(p: TileProperties, tile_size: u32, edit: TileEdit) -> TileProperties {
    match edit {
        TileEdit::Collision(on) => TileProperties {
            collision: CollisionData {
                shape: if on { CollisionShape::Full } else { CollisionShape::NoCollision },
                ..p.collision
            },
            ..p
        },
        TileEdit::Shape(s) => TileProperties { collision: CollisionData { shape: s, ..p.collision }, ..p },
        TileEdit::OneWay(d) => TileProperties { collision: CollisionData { one_way: d, ..p.collision }, ..p },
        TileEdit::Layer(l) => TileProperties {
            collision: CollisionData { layer: clamped(l as int, 0, MAX_COLLISION_LAYER as int) as u8, ..p.collision },
            ..p
        },
        TileEdit::GridSize(w, h) => TileProperties {
            grid_width: clamped(w as int, 1, MAX_TILE_SPAN as int) as u32,
            grid_height: clamped(h as int, 1, MAX_TILE_SPAN as int) as u32,
            ..p
        },
        TileEdit::Origin(x, y) => TileProperties {
            origin_x: Some(clamped(x as int, 0, p.grid_width * tile_size - 1) as u32),
            origin_y: Some(clamped(y as int, 0, p.grid_height * tile_size - 1) as u32),
            ..p
        },
        TileEdit::ResetOrigin => TileProperties { origin_x: None, origin_y: None, ..p },
    }
}

/// An edit that the tab can make on a tile of `p`'s size: an anchor point is
/// only picked on a tile at least one pixel wide and high.
pub open spec fn edit_applies(p: TileProperties, tile_size: u32, edit: TileEdit) -> bool {
    edit matches TileEdit::Origin(_, _) ==> p.grid_width * tile_size >= 1 && p.grid_height * tile_size >= 1
}

fn clamp_u32(v: u32, lo: u32, hi: u32) -> (r: u32)
    requires
        lo <= hi,
    ensures
        r == clamped(v as int, lo as int, hi as int),
{
    if v < lo { lo } else if v > hi { hi } else { v }
}

fn last_pixel(cells: u32, tile_size: u32) -> (r: u32)
    requires
        cells * tile_size >= 1,
    ensures
        r == clamped(cells * tile_size - 1, 0, u32::MAX as int),
{
    assert((cells as int) * (tile_size as int) <= 0xffff_ffff * 0xffff_ffff) by (nonlinear_arith)
        requires
            cells <= 0xffff_ffff,
            tile_size <= 0xffff_ffff,
    ;
    let pixels: u64 = cells as u64 * tile_size as u64;
    if pixels - 1 > u32::MAX as u64 { u32::MAX } else { (pixels - 1) as u32 }
}

/// The tile's properties after `edit`, on a tileset of `tile_size` pixel
/// tiles.
pub fn edit_tile_properties(p: TileProperties, tile_size: u32, edit: TileEdit) -> (r: TileProperties)
    requires
        edit_applies(p, tile_size, edit),
    ensures
        r == edited_properties(p, tile_size, edit),
{
    match edit {
        TileEdit::Collision(on) => TileProperties {
            collision: CollisionData {
                shape: if on { CollisionShape::Full } else { CollisionShape::NoCollision },
                ..p.collision
            },
            ..p
        },
        TileEdit::Shape(s) => TileProperties { collision: CollisionData { shape: s, ..p.collision }, ..p },
        TileEdit::OneWay(d) => TileProperties { collision: CollisionData { one_way: d, ..p.collision }, ..p },
        TileEdit::Layer(l) => {
            let layer = if l > MAX_COLLISION_LAYER { MAX_COLLISION_LAYER } else { l };
            TileProperties { collision: CollisionData { layer, ..p.collision }, ..p }
        },
        TileEdit::GridSize(w, h) => TileProperties {
            grid_width: clamp_u32(w, 1, MAX_TILE_SPAN),
            grid_height: clamp_u32(h, 1, MAX_TILE_SPAN),
            ..p
        },
        TileEdit::Origin(x, y) => {
            let max_x = last_pixel(p.grid_width, tile_size);
            let max_y = last_pixel(p.grid_height, tile_size);
            TileProperties { origin_x: Some(clamp_u32(x, 0, max_x)), origin_y: Some(clamp_u32(y, 0, max_y)), ..p }
        },
        TileEdit::ResetOrigin => TileProperties { origin_x: None, origin_y: None, ..p },
    }
}

/// A tileset: its id, name, tile size in pixels, and the properties
/// recorded for some of its tiles, by tile index.
#[derive(Debug)]
pub struct Tileset {
    pub id: u128,
    pub name: String,
    pub tile_size: u32,
    pub tile_properties: HashMap<u32, TileProperties>,
}

/// What a tileset holds.
pub struct TilesetView {
    pub id: u128,
    pub name: Seq<char>,
    pub tile_size: u32,
    pub tile_properties: Map<u32, TileProperties>,
}

impl View for Tileset {
    type V = TilesetView;

    open spec fn view(&self) -> TilesetView {
        TilesetView { id: self.id, name: self.name@, tile_size: self.tile_size, tile_properties: self.tile_properties@ }
    }
}

/// The properties recorded for `tile`, or the defaults.
pub open spec fn properties_of(m: Map<u32, TileProperties>, tile: u32) -> TileProperties {
    if m.contains_key(tile) {
        m[tile]
    } else {
        default_tile_properties()
    }
}

/// `after` is the tileset `before` with `edit` applied to `tile`: that tile
/// now has the edited properties recorded, every other tile keeps its own,
/// and the id, name and tile size stay.
pub open spec fn tile_edited(before: TilesetView, after: TilesetView, tile: u32, edit: TileEdit) -> bool {
    &&& after.tile_properties == before.tile_properties.insert(
        tile,
        edited_properties(properties_of(before.tile_properties, tile), before.tile_size, edit),
    )
    &&& after.id == before.id
    &&& after.name == before.name
    &&& after.tile_size == before.tile_size
}

impl Tileset {
    /// A tileset with no tile properties recorded.
    pub fn new(id: u128, name: String, tile_size: u32) -> (r: Tileset)
        ensures
            r@.id == id,
            r@.name == name@,
            r@.tile_size == tile_size,
            r@.tile_properties == Map::<u32, TileProperties>::empty(),
    {
        Tileset { id, name, tile_size, tile_properties: HashMap::new() }
    }

    /// The properties of `tile`: those recorded, or the defaults.
    pub fn tile_properties_of(&self, tile: u32) -> (r: TileProperties)
        ensures
            r == properties_of(self@.tile_properties, tile),
    {
        broadcast use vstd::std_specs::hash::group_hash_axioms;

        match self.tile_properties.get(&tile) {
            Some(p) => *p,
            None => TileProperties::new(),
        }
    }

    /// Applies `edit` to `tile`, recording properties for it where it had
    /// none; every other tile keeps its properties.
    pub fn edit_tile(&mut self, tile: u32, edit: TileEdit)
        requires
            edit_applies(properties_of(old(self)@.tile_properties, tile), old(self).tile_size, edit),
        ensures
            tile_edited(old(self)@, final(self)@, tile, edit),
    {
        broadcast use vstd::std_specs::hash::group_hash_axioms;

        let current = self.tile_properties_of(tile);
        let updated = edit_tile_properties(current, self.tile_size, edit);
        self.tile_properties.insert(tile, updated);
    }

    /// The "Has collision" box of the tile properties tab: gives `tile` a
    /// full-tile shape, or takes its collision away.
    pub fn set_tile_collision(&mut self, tile: u32, has_collision: bool)
        ensures
            tile_edited(old(self)@, final(self)@, tile, TileEdit::Collision(has_collision)),
    {
        self.edit_tile(tile, TileEdit::Collision(has_collision));
    }
}

} // verus!
