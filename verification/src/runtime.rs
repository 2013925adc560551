//! Runtime side of map entities: the registry of entity types the game can
//! spawn, and which dialogue an entity's properties name.
use vstd::prelude::*;

use crate::project::{fields_view, key_is, PropertyValue, PropertyValueView};
use crate::seqs::{first_where, lemma_first_where_found, lemma_first_where_none};
use crate::text::str_eq;

verus! {

/// The entity types a game registered for spawning, each once.
#[derive(Debug)]
pub struct EntityRegistry {
    names: Vec<String>,
}

/// The views of a list of names.
pub open spec fn names_view(v: Seq<String>) -> Seq<Seq<char>> {
    Seq::new(v.len(), |i: int| v[i]@)
}

/// No name occurs twice.
pub open spec fn distinct_names(s: Seq<Seq<char>>) -> bool {
    forall|i: int, j: int| 0 <= i < j < s.len() ==> s[i] != s[j]
}

impl EntityRegistry {
    #[verifier::type_invariant]
    spec fn inv(self) -> bool {
        distinct_names(names_view(self.names@))
    }

    /// The registered type names.
    pub closed spec fn types(&self) -> Set<Seq<char>> {
        names_view(self.names@).to_set()
    }

    /// An empty registry.
    pub fn new() -> (r: Self)
        ensures
            r.types() == Set::<Seq<char>>::empty(),
    {
        let r = EntityRegistry { names: Vec::new() };
        assert(names_view(r.names@).to_set() =~= Set::<Seq<char>>::empty());
        r
    }

    fn position(&self, entity_type: &str) -> (r: Option<usize>)
        ensures
            match r {
                Some(i) => i < self.names@.len() && self.names@[i as int]@ == entity_type@,
                None => !self.types().contains(entity_type@),
            },
    {
        let mut i: usize = 0;
        while i < self.names.len()
            invariant
                i <= self.names@.len(),
                forall|j: int| 0 <= j < i ==> self.names@[j]@ != entity_type@,
            decreases self.names@.len() - i,
        {
            if str_eq(self.names[i].as_str(), entity_type) {
                return Some(i);
            }
            i = i + 1;
        }
        assert forall|x: Seq<char>| names_view(self.names@).to_set().contains(x) implies x != entity_type@ by {
            let k = choose|k: int| 0 <= k < names_view(self.names@).len() && names_view(self.names@)[k] == x;
            assert(self.names@[k]@ == x);
        }
        None
    }

    /// Registers an entity type by its name; registering a name again
    /// changes nothing.
    pub fn register(&mut self, entity_type: &str)
        ensures
            final(self).types() == old(self).types().insert(entity_type@),
    {
        proof {
            use_type_invariant(&*self);
        }
        match self.position(entity_type) {
            Some(i) => {
                assert(old(self).types().contains(entity_type@)) by {
                    assert(names_view(self.names@)[i as int] == entity_type@);
                }
                assert(names_view(self.names@).to_set().insert(entity_type@) =~= names_view(self.names@).to_set());
            },
            None => {
                let ghost before = names_view(self.names@);
                let mut names: Vec<String> = Vec::new();
                std::mem::swap(&mut names, &mut self.names);
                names.push(entity_type.to_string());
                assert(names_view(names@) =~= before.push(entity_type@));
                assert forall|y: Seq<char>| #[trigger] before.push(entity_type@).to_set().contains(y) <==> before.to_set().insert(
                    entity_type@,
                ).contains(y) by {
                    if y == entity_type@ {
                        assert(before.push(entity_type@)[before.len() as int] == y);
                    } else if before.to_set().contains(y) {
                        let k = choose|k: int| 0 <= k < before.len() && before[k] == y;
                        assert(before.push(entity_type@)[k] == y);
                    } else if before.push(entity_type@).to_set().contains(y) {
                        let k = choose|k: int| 0 <= k < before.len() + 1 && before.push(entity_type@)[k] == y;
                        assert(before[k] == y);
                    }
                }
                assert(before.push(entity_type@).to_set() =~= before.to_set().insert(entity_type@));
                self.names = names;
            },
        }
    }

    /// Whether a type of that name is registered.
    pub fn is_registered(&self, entity_type: &str) -> (r: bool)
        ensures
            r == self.types().contains(entity_type@),
    {
        match self.position(entity_type) {
            Some(i) => {
                assert(names_view(self.names@)[i as int] == entity_type@);
                true
            },
            None => false,
        }
    }

    /// The number of registered types.
    pub fn len(&self) -> (r: usize)
        ensures
            r == self.types().len(),
    {
        proof {
            use_type_invariant(self);
            names_view(self.names@).unique_seq_to_set();
        }
        self.names.len()
    }

    /// Whether no type is registered.
    pub fn is_empty(&self) -> (r: bool)
        ensures
            r == (self.types().len() == 0),
    {
        self.len() == 0
    }

    /// How many of the given entity types are not registered (each such
    /// entity is spawned with a placeholder instead).
    pub fn count_unregistered(&self, entity_types: &Vec<String>) -> (r: usize)
        ensures
            r == unregistered_count(self.types(), names_view(entity_types@)),
            r == names_view(entity_types@).filter(not_in(self.types())).len(),
    {
        proof {
            law_unregistered_count_counts_each(self.types(), names_view(entity_types@));
        }
        let mut n: usize = 0;
        let mut i: usize = 0;
        while i < entity_types.len()
            invariant
                i <= entity_types@.len(),
                n == unregistered_count(self.types(), names_view(entity_types@).take(i as int)),
                n <= i,
            decreases entity_types@.len() - i,
        {
            assert(names_view(entity_types@).take(i + 1).drop_last() =~= names_view(entity_types@).take(i as int));
            if !self.is_registered(entity_types[i].as_str()) {
                n = n + 1;
            }
            i = i + 1;
        }
        assert(names_view(entity_types@).take(entity_types@.len() as int) =~= names_view(entity_types@));
        n
    }
}

/// How many of the names are not in `types`.
pub open spec fn unregistered_count(types: Set<Seq<char>>, names: Seq<Seq<char>>) -> nat
    decreases names.len(),
{
    if names.len() == 0 {
        0
    } else {
        unregistered_count(types, names.drop_last()) + if types.contains(names.last()) {
            0nat
        } else {
            1nat
        }
    }
}

/// The predicate "this name is not in `types`".
pub open spec fn not_in(types: Set<Seq<char>>) -> spec_fn(Seq<char>) -> bool {
    |n: Seq<char>| !types.contains(n)
}

/// The unregistered count counts every entity whose type is not
/// registered, once each, repeated types included: it is the number of
/// such entities in the list.
pub proof fn law_unregistered_count_counts_each(types: Set<Seq<char>>, names: Seq<Seq<char>>)
    ensures
        unregistered_count(types, names) == names.filter(not_in(types)).len(),
    decreases names.len(),
{
    reveal_with_fuel(Seq::filter, 1);
    if names.len() > 0 {
        law_unregistered_count_counts_each(types, names.drop_last());
    }
}

/// A property that names a dialogue: `dialogue`, or a key ending in
/// `_dialogue`.
pub open spec fn is_dialogue_key(k: Seq<char>) -> bool {
    k == "dialogue"@ || (k.len() >= 9 && k.subrange(k.len() - 9, k.len() as int) == "_dialogue"@)
}

/// The text an embedded object gives as its id: its field `id`, when that
/// is text.
pub open spec fn object_id(fields: Seq<(Seq<char>, PropertyValueView)>) -> Option<Seq<char>> {
    match first_where(fields, key_is("id"@)) {
        Some(k) => match fields[k].1 {
            PropertyValueView::String(s) => Some(s),
            _ => None,
        },
        None => None,
    }
}

/// The dialogue id a value names: a text, or the `id` text of an embedded
/// object.
pub open spec fn value_dialogue_id(v: PropertyValueView) -> Option<Seq<char>> {
    match v {
        PropertyValueView::String(s) => Some(s),
        PropertyValueView::Object(fields) => object_id(fields),
        _ => None,
    }
}

/// The dialogue a property gives: a dialogue property whose value names a
/// non-empty id.
pub open spec fn dialogue_of(p: (Seq<char>, PropertyValueView)) -> Option<Seq<char>> {
    if is_dialogue_key(p.0) {
        match value_dialogue_id(p.1) {
            Some(s) => if s.len() > 0 {
                Some(s)
            } else {
                None
            },
            None => None,
        }
    } else {
        None
    }
}

/// The dialogue of the first property that gives one.
pub open spec fn first_dialogue(props: Seq<(Seq<char>, PropertyValueView)>) -> Option<Seq<char>>
    decreases props.len(),
{
    if props.len() == 0 {
        None
    } else {
        match dialogue_of(props[0]) {
            Some(d) => Some(d),
            None => first_dialogue(props.drop_first()),
        }
    }
}

fn is_dialogue_key_exec(k: &str) -> (r: bool)
    ensures
        r == is_dialogue_key(k@),
{
    proof {
        reveal_strlit("dialogue");
        reveal_strlit("_dialogue");
    }
    if str_eq(k, "dialogue") {
        return true;
    }
    let n = k.unicode_len();
    if n < 9 {
        return false;
    }
    let tail = k.substring_char(n - 9, n);
    str_eq(tail, "_dialogue")
}

/// The id text of an embedded object: its field `id`, when that is text.
fn object_id_exec(fields: &Vec<(String, PropertyValue)>) -> (r: Option<&String>)
    ensures
        match r {
            Some(s) => object_id(fields_view(fields@)) == Some(s@),
            None => object_id(fields_view(fields@)) is None,
        },
{
    let ghost fv = fields_view(fields@);
    proof {
        lemma_fields_view_index(fields@);
    }
    let mut i: usize = 0;
    while i < fields.len()
        invariant
            i <= fields@.len(),
            fv == fields_view(fields@),
            fv.len() == fields@.len(),
            forall|j: int| 0 <= j < fields@.len() ==> #[trigger] fv[j] == (fields@[j].0@, fields@[j].1@),
            forall|j: int| 0 <= j < i ==> !key_is("id"@)(#[trigger] fv[j]),
        decreases fields@.len() - i,
    {
        if str_eq(fields[i].0.as_str(), "id") {
            proof {
                assert(key_is("id"@)(fv[i as int]));
                lemma_first_where_found(fv, key_is("id"@), i as int);
            }
            return match &fields[i].1 {
                PropertyValue::String(s) => Some(s),
                _ => None,
            };
        }
        i = i + 1;
    }
    proof {
        lemma_first_where_none(fv, key_is("id"@));
    }
    None
}

/// The views of named values, position by position.
proof fn lemma_fields_view_index(s: Seq<(String, PropertyValue)>)
    ensures
        fields_view(s).len() == s.len(),
        forall|j: int| 0 <= j < s.len() ==> #[trigger] fields_view(s)[j] == (s[j].0@, s[j].1@),
    decreases s.len(),
{
    if s.len() > 0 {
        let d = s.subrange(0, s.len() - 1);
        lemma_fields_view_index(d);
        assert forall|j: int| 0 <= j < s.len() implies #[trigger] fields_view(s)[j] == (s[j].0@, s[j].1@) by {
            if j < s.len() - 1 {
                assert(d[j] == s[j]);
            }
        }
    }
}

/// The dialogue id a property value names, if any.
fn value_dialogue_id_exec(v: &PropertyValue) -> (r: Option<&String>)
    ensures
        match r {
            Some(s) => value_dialogue_id(v@) == Some(s@),
            None => value_dialogue_id(v@) is None,
        },
{
    match v {
        PropertyValue::String(s) => Some(s),
        PropertyValue::Object(fields) => object_id_exec(fields),
        _ => None,
    }
}

/// The dialogue an entity's properties attach to it: from the first
/// property called `dialogue` or ending in `_dialogue` whose value names a
/// non-empty id, as a text or as the `id` text of an embedded object.
pub fn dialogue_id_of(props: &Vec<(String, PropertyValue)>) -> (r: Option<String>)
    ensures
        match r {
            Some(s) => first_dialogue(props@.map_values(|p: (String, PropertyValue)| (p.0@, p.1@)))
                == Some(s@),
            None => first_dialogue(props@.map_values(|p: (String, PropertyValue)| (p.0@, p.1@))) is None,
        },
{
    let ghost pv = props@.map_values(|p: (String, PropertyValue)| (p.0@, p.1@));
    assert(pv.skip(0) =~= pv);
    let mut i: usize = 0;
    while i < props.len()
        invariant
            i <= props@.len(),
            pv == props@.map_values(|p: (String, PropertyValue)| (p.0@, p.1@)),
            first_dialogue(pv) == first_dialogue(pv.skip(i as int)),
        decreases props@.len() - i,
    {
        let ghost rest = pv.skip(i as int);
        assert(rest[0] == pv[i as int]);
        assert(rest.drop_first() =~= pv.skip(i + 1));
        if is_dialogue_key_exec(props[i].0.as_str()) {
            if let Some(s) = value_dialogue_id_exec(&props[i].1) {
                if s.as_str().unicode_len() > 0 {
                    return Some(s.clone());
                }
            }
        }
        i = i + 1;
    }
    assert(pv.skip(props@.len() as int).len() == 0);
    None
}

/// The dialogue to attach to an entity: none when it has one already, else
/// the one its properties name (at most one).
pub fn dialogue_to_attach(has_dialogue: bool, props: &Vec<(String, PropertyValue)>) -> (r: Option<String>)
    ensures
        has_dialogue ==> r is None,
        !has_dialogue ==> match r {
            Some(s) => first_dialogue(props@.map_values(|p: (String, PropertyValue)| (p.0@, p.1@)))
                == Some(s@),
            None => first_dialogue(props@.map_values(|p: (String, PropertyValue)| (p.0@, p.1@))) is None,
        },
{
    if has_dialogue {
        None
    } else {
        dialogue_id_of(props)
    }
}

} // verus!
