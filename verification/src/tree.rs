//! Decisions of the project tree panel: how layers are labelled, what an
//! inline rename ends in, and when a bulk delete is offered.
use vstd::prelude::*;

use crate::map::{EntityInstanceView, LayerDataView, Level, LevelView, LayerData};
use crate::text::{decimal, push_decimal};

verus! {

/// How many of the entities have an id listed in `ids`.
pub open spec fn count_listed(entities: Seq<EntityInstanceView>, ids: Seq<u128>) -> nat
    decreases entities.len(),
{
    if entities.len() == 0 {
        0
    } else {
        count_listed(entities.drop_last(), ids) + if ids.contains(entities.last().id) {
            1nat
        } else {
            0nat
        }
    }
}

/// The label of layer `i` of a level in the tree: `[Tile] name` for a tile
/// layer; `[Object] name`, followed by ` (n)` when `n` of the level's
/// entities are on it, for an object layer.
pub open spec fn layer_label_of(level: LevelView, i: int) -> Seq<char> {
    let layer = level.layers[i];
    match layer.data {
        LayerDataView::Tiles { .. } => "[Tile] "@ + layer.name,
        LayerDataView::Objects { entities } => {
            let n = count_listed(level.entities, entities);
            if n > 0 {
                "[Object] "@ + layer.name + " ("@ + decimal(n) + ")"@
            } else {
                "[Object] "@ + layer.name
            }
        },
    }
}

fn contains_id(ids: &Vec<u128>, id: u128) -> (r: bool)
    ensures
        r == ids@.contains(id),
{
    let mut i: usize = 0;
    while i < ids.len()
        invariant
            i <= ids@.len(),
            forall|j: int| 0 <= j < i ==> ids@[j] != id,
        decreases ids@.len() - i,
    {
        if ids[i] == id {
            assert(ids@[i as int] == id);
            return true;
        }
        i = i + 1;
    }
    false
}

/// The label of layer `layer_idx` of `level`, None when there is no such
/// layer.
pub fn layer_label(level: &Level, layer_idx: usize) -> (r: Option<String>)
    ensures
        match r {
            Some(s) => layer_idx < level@.layers.len() && s@ == layer_label_of(level@, layer_idx as int),
            None => layer_idx >= level@.layers.len(),
        },
{
    if layer_idx >= level.layers.len() {
        return None;
    }
    let layer = &level.layers[layer_idx];
    assert(level@.layers[layer_idx as int] == layer@);
    match &layer.data {
        LayerData::Tiles { .. } => {
            let mut s = "[Tile] ".to_string();
            s.append(layer.name.as_str());
            Some(s)
        },
        LayerData::Objects { entities } => {
            let ghost ev = level@.entities;
            let mut n: u64 = 0;
            let mut i: usize = 0;
            while i < level.entities.len()
                invariant
                    i <= level.entities@.len(),
                    ev == level@.entities,
                    n == count_listed(ev.take(i as int), entities@),
                    n <= i,
                decreases level.entities@.len() - i,
            {
                proof {
                    assert(ev.take(i + 1).drop_last() =~= ev.take(i as int));
                    assert(ev.take(i + 1).last() == level.entities@[i as int]@);
                }
                if contains_id(entities, level.entities[i].id) {
                    n = n + 1;
                }
                i = i + 1;
            }
            assert(ev.take(level.entities@.len() as int) =~= ev);
            let mut s = "[Object] ".to_string();
            s.append(layer.name.as_str());
            if n > 0 {
                s.append(" (");
                push_decimal(&mut s, n);
                s.append(")");
            }
            Some(s)
        },
    }
}

/// What ends an inline rename that lost focus.
#[derive(Debug, PartialEq, Eq)]
pub struct RenameOutcome {
    /// The new name to apply, if any.
    pub commit: Option<String>,
    /// The rename ends.
    pub cancel: bool,
}

/// An inline rename that lost focus ends; it is applied when Enter was
/// pressed, and, where an empty name is refused (`require_name`), the
/// buffer is not empty.
pub fn rename_outcome(enter_pressed: bool, buffer: &str, require_name: bool) -> (r: RenameOutcome)
    ensures
        r.cancel,
        match r.commit {
            Some(s) => enter_pressed && (!require_name || buffer@.len() > 0) && s@ == buffer@,
            None => !enter_pressed || (require_name && buffer@.len() == 0),
        },
{
    let commit = if enter_pressed && (!require_name || !buffer.is_empty()) {
        Some(buffer.to_string())
    } else {
        None
    };
    RenameOutcome { commit, cancel: true }
}

/// The count shown by "Delete n Selected" in the context menu of an item:
/// offered when the item is one of several selected items.
pub fn bulk_delete_count(selected: &Vec<u128>, item: u128) -> (r: Option<usize>)
    ensures
        match r {
            Some(n) => selected@.contains(item) && selected@.len() > 1 && n == selected@.len(),
            None => !selected@.contains(item) || selected@.len() <= 1,
        },
{
    if contains_id(selected, item) && selected.len() > 1 {
        Some(selected.len())
    } else {
        None
    }
}

} // verus!
