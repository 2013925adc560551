//! The map data that the editor manipulates: levels, their layers and the
//! entities placed on them.
//!
//! Identifiers are the 128-bit values of UUIDs. Entity positions are kept as
//! the IEEE-754 bit patterns of their two coordinates: the editor only ever
//! copies positions around, it never computes with them.
use vstd::prelude::*;

verus! {

/// Bit patterns of the two `f32` coordinates of an entity position.
#[derive(Debug, Clone, Copy, PartialEq, Eq, Structural)]
pub struct Position {
    pub x_bits: u32,
    pub y_bits: u32,
}

/// An entity placed on a level.
#[derive(Debug)]
pub struct EntityInstance {
    pub id: u128,
    pub entity_type: String,
    pub position: Position,
}

pub struct EntityInstanceView {
    pub id: u128,
    pub entity_type: Seq<char>,
    pub position: Position,
}

impl View for EntityInstance {
    type V = EntityInstanceView;

    open spec fn view(&self) -> EntityInstanceView {
        EntityInstanceView { id: self.id, entity_type: self.entity_type@, position: self.position }
    }
}

impl EntityInstance {
    /// A copy of this entity.
    pub fn duplicate(&self) -> (r: EntityInstance)
        ensures
            r@ == self@,
    {
        EntityInstance { id: self.id, entity_type: self.entity_type.clone(), position: self.position }
    }
}

/// What a layer holds: a row-major grid of optional tile ids, or entity ids.
#[derive(Debug)]
pub enum LayerData {
    Tiles { tiles: Vec<Option<u32>> },
    Objects { entities: Vec<u128> },
}

pub enum LayerDataView {
    Tiles { tiles: Seq<Option<u32>> },
    Objects { entities: Seq<u128> },
}

impl View for LayerData {
    type V = LayerDataView;

    open spec fn view(&self) -> LayerDataView {
        match self {
            LayerData::Tiles { tiles } => LayerDataView::Tiles { tiles: tiles@ },
            LayerData::Objects { entities } => LayerDataView::Objects { entities: entities@ },
        }
    }
}

/// A layer of a level.
#[derive(Debug)]
pub struct Layer {
    pub name: String,
    pub data: LayerData,
}

pub struct LayerView {
    pub name: Seq<char>,
    pub data: LayerDataView,
}

impl View for Layer {
    type V = LayerView;

    open spec fn view(&self) -> LayerView {
        LayerView { name: self.name@, data: self.data@ }
    }
}

fn copy_tiles(tiles: &Vec<Option<u32>>) -> (r: Vec<Option<u32>>)
    ensures
        r@ == tiles@,
{
    let mut r: Vec<Option<u32>> = Vec::new();
    let mut i: usize = 0;
    while i < tiles.len()
        invariant
            i <= tiles.len(),
            r@ == tiles@.take(i as int),
        decreases tiles.len() - i,
    {
        r.push(tiles[i]);
        i = i + 1;
        assert(r@ =~= tiles@.take(i as int));
    }
    assert(tiles@.take(i as int) =~= tiles@);
    r
}

fn copy_ids(ids: &Vec<u128>) -> (r: Vec<u128>)
    ensures
        r@ == ids@,
{
    let mut r: Vec<u128> = Vec::new();
    let mut i: usize = 0;
    while i < ids.len()
        invariant
            i <= ids.len(),
            r@ == ids@.take(i as int),
        decreases ids.len() - i,
    {
        r.push(ids[i]);
        i = i + 1;
        assert(r@ =~= ids@.take(i as int));
    }
    assert(ids@.take(i as int) =~= ids@);
    r
}

impl Layer {
    /// A copy of this layer.
    pub fn duplicate(&self) -> (r: Layer)
        ensures
            r@ == self@,
    {
        let data = match &self.data {
            LayerData::Tiles { tiles } => LayerData::Tiles { tiles: copy_tiles(tiles) },
            LayerData::Objects { entities } => LayerData::Objects { entities: copy_ids(entities) },
        };
        Layer { name: self.name.clone(), data }
    }
}

/// A level: a grid of `width` x `height` cells with layers and entities.
#[derive(Debug)]
pub struct Level {
    pub id: u128,
    pub name: String,
    pub width: u32,
    pub height: u32,
    pub layers: Vec<Layer>,
    pub entities: Vec<EntityInstance>,
}

pub struct LevelView {
    pub id: u128,
    pub name: Seq<char>,
    pub width: u32,
    pub height: u32,
    pub layers: Seq<LayerView>,
    pub entities: Seq<EntityInstanceView>,
}

impl View for Level {
    type V = LevelView;

    open spec fn view(&self) -> LevelView {
        LevelView {
            id: self.id,
            name: self.name@,
            width: self.width,
            height: self.height,
            layers: layers_view(self.layers@),
            entities: entities_view(self.entities@),
        }
    }
}

pub open spec fn layers_view(s: Seq<Layer>) -> Seq<LayerView> {
    Seq::new(s.len(), |i: int| s[i]@)
}

pub open spec fn entities_view(s: Seq<EntityInstance>) -> Seq<EntityInstanceView> {
    Seq::new(s.len(), |i: int| s[i]@)
}

/// Row-major index of the cell (x, y) in a grid `width` cells wide.
pub open spec fn cell_index(width: u32, x: u32, y: u32) -> int {
    y * width + x
}

/// The tile at (x, y) of layer `layer` of a level: nothing outside the level,
/// on a layer that is not a tile layer, or past the end of the grid.
pub open spec fn level_tile(level: LevelView, layer: int, x: u32, y: u32) -> Option<u32> {
    if 0 <= layer < level.layers.len() && x < level.width && y < level.height {
        match level.layers[layer].data {
            LayerDataView::Tiles { tiles } => {
                let idx = cell_index(level.width, x, y);
                if idx < tiles.len() {
                    tiles[idx]
                } else {
                    None
                }
            },
            LayerDataView::Objects { .. } => None,
        }
    } else {
        None
    }
}

fn copy_layers(layers: &Vec<Layer>) -> (r: Vec<Layer>)
    ensures
        layers_view(r@) == layers_view(layers@),
{
    let mut r: Vec<Layer> = Vec::new();
    let mut i: usize = 0;
    while i < layers.len()
        invariant
            i <= layers.len(),
            r.len() == i,
            forall|k: int| 0 <= k < i ==> (#[trigger] r@[k])@ == layers@[k]@,
        decreases layers.len() - i,
    {
        r.push(layers[i].duplicate());
        i = i + 1;
    }
    assert(layers_view(r@) =~= layers_view(layers@));
    r
}

fn copy_entities(entities: &Vec<EntityInstance>) -> (r: Vec<EntityInstance>)
    ensures
        entities_view(r@) == entities_view(entities@),
{
    let mut r: Vec<EntityInstance> = Vec::new();
    let mut i: usize = 0;
    while i < entities.len()
        invariant
            i <= entities.len(),
            r.len() == i,
            forall|k: int| 0 <= k < i ==> (#[trigger] r@[k])@ == entities@[k]@,
        decreases entities.len() - i,
    {
        r.push(entities[i].duplicate());
        i = i + 1;
    }
    assert(entities_view(r@) =~= entities_view(entities@));
    r
}

/// Row-major index of (x, y), computed without overflow.
pub fn cell_idx(width: u32, x: u32, y: u32) -> (r: u64)
    ensures
        r == cell_index(width, x, y),
{
    proof {
        lemma_cell_index_fits(width, x, y);
    }
    (y as u64) * (width as u64) + (x as u64)
}

pub proof fn lemma_cell_index_fits(width: u32, x: u32, y: u32)
    ensures
        0 <= cell_index(width, x, y) <= u64::MAX,
{
    assert(0 <= y * width <= 0xffff_fffe_0000_0001) by (nonlinear_arith)
        requires
            0 <= y <= 0xffff_ffff,
            0 <= width <= 0xffff_ffff,
    ;
}

impl Level {
    /// A copy of this level.
    pub fn duplicate(&self) -> (r: Level)
        ensures
            r@ == self@,
    {
        Level {
            id: self.id,
            name: self.name.clone(),
            width: self.width,
            height: self.height,
            layers: copy_layers(&self.layers),
            entities: copy_entities(&self.entities),
        }
    }

    /// The tile at (x, y) on layer `layer_idx`, if there is one.
    pub fn get_tile(&self, layer_idx: usize, x: u32, y: u32) -> (r: Option<u32>)
        ensures
            r == level_tile(self@, layer_idx as int, x, y),
    {
        if layer_idx >= self.layers.len() || x >= self.width || y >= self.height {
            return None;
        }
        let layer = &self.layers[layer_idx];
        assert(self@.layers[layer_idx as int] == layer@);
        match &layer.data {
            LayerData::Tiles { tiles } => {
                let idx: u64 = cell_idx(self.width, x, y);
                if idx < tiles.len() as u64 {
                    tiles[idx as usize]
                } else {
                    None
                }
            },
            LayerData::Objects { .. } => None,
        }
    }
}

} // verus!
