//! The editor project: levels, data instances, sprite sheets and dialogues,
//! with a flag that records unsaved changes.
use vstd::prelude::*;

use crate::ids::{hyphenated_text, is_v4_uuid, new_uuid, uuid_string};
use crate::map::{EntityInstance, EntityInstanceView, Level, LevelView, entities_view};
use crate::seqs::{first_where, is_first, lemma_first_where_found, lemma_first_where_none};
use crate::automap::{AutomapConfig, RuleSetView, rule_sets_view};
use crate::tileset::{edit_applies, properties_of, tile_edited, TileEdit, Tileset, TilesetView};

verus! {

// ---------------------------------------------------------------------------
// Property values and data instances
// ---------------------------------------------------------------------------

/// A property value of a data instance: text, a number, a flag, or an
/// object of named values.
#[derive(Debug, PartialEq, Eq)]
pub enum PropertyValue {
    String(String),
    Int(i64),
    Bool(bool),
    Object(Vec<(String, PropertyValue)>),
}

pub enum PropertyValueView {
    String(Seq<char>),
    Int(i64),
    Bool(bool),
    Object(Seq<(Seq<char>, PropertyValueView)>),
}

/// The view of a property value.
pub open spec fn value_view(v: PropertyValue) -> PropertyValueView
    decreases v,
{
    match v {
        PropertyValue::String(s) => PropertyValueView::String(s@),
        PropertyValue::Int(i) => PropertyValueView::Int(i),
        PropertyValue::Bool(b) => PropertyValueView::Bool(b),
        PropertyValue::Object(fields) => PropertyValueView::Object(fields_view(fields@)),
    }
}

/// The views of named values, in order.
pub open spec fn fields_view(s: Seq<(String, PropertyValue)>) -> Seq<(Seq<char>, PropertyValueView)>
    decreases s,
{
    if s.len() == 0 {
        Seq::empty()
    } else {
        fields_view(s.subrange(0, s.len() - 1)).push((s[s.len() - 1].0@, value_view(s[s.len() - 1].1)))
    }
}

impl View for PropertyValue {
    type V = PropertyValueView;

    open spec fn view(&self) -> PropertyValueView {
        value_view(*self)
    }
}

impl PropertyValue {
    /// A copy of this value.
    pub fn duplicate(&self) -> (r: PropertyValue)
        ensures
            r@ == self@,
        decreases self,
    {
        match self {
            PropertyValue::String(s) => PropertyValue::String(s.clone()),
            PropertyValue::Int(i) => PropertyValue::Int(*i),
            PropertyValue::Bool(b) => PropertyValue::Bool(*b),
            PropertyValue::Object(fields) => PropertyValue::Object(duplicate_fields(fields)),
        }
    }
}

/// A copy of a list of named values.
fn duplicate_fields(fields: &Vec<(String, PropertyValue)>) -> (r: Vec<(String, PropertyValue)>)
    ensures
        fields_view(r@) == fields_view(fields@),
    decreases fields,
{
    let mut out: Vec<(String, PropertyValue)> = Vec::new();
    let mut i: usize = 0;
    while i < fields.len()
        invariant
            i <= fields@.len(),
            fields_view(out@) == fields_view(fields@.subrange(0, i as int)),
        decreases fields@.len() - i,
    {
        proof {
            assert(fields@.subrange(0, i + 1).subrange(0, i as int) =~= fields@.subrange(0, i as int));
            assert(decreases_to!(fields => fields@[i as int].1));
        }
        let f = &fields[i];
        let v = f.1.duplicate();
        let ghost before = out@;
        out.push((f.0.clone(), v));
        proof {
            assert(out@.subrange(0, out@.len() - 1) =~= before);
        }
        i = i + 1;
    }
    assert(fields@.subrange(0, fields@.len() as int) =~= fields@);
    out
}

/// A data instance: a non-placeable thing such as an item or a quest.
#[derive(Debug)]
pub struct DataInstance {
    pub id: u128,
    pub data_type: String,
    pub properties: Vec<(String, PropertyValue)>,
}

pub struct DataInstanceView {
    pub id: u128,
    pub data_type: Seq<char>,
    pub properties: Seq<(Seq<char>, PropertyValueView)>,
}

impl View for DataInstance {
    type V = DataInstanceView;

    open spec fn view(&self) -> DataInstanceView {
        DataInstanceView {
            id: self.id,
            data_type: self.data_type@,
            properties: self.properties@.map_values(|p: (String, PropertyValue)| (p.0@, p.1@)),
        }
    }
}

/// The text appended to the name of a duplicate.
pub open spec fn copy_suffix() -> Seq<char> {
    seq![' ', '(', 'C', 'o', 'p', 'y', ')']
}

fn append_copy_suffix(s: &mut String)
    ensures
        final(s)@ == old(s)@ + copy_suffix(),
{
    let suffix = " (Copy)";
    proof {
        reveal_strlit(" (Copy)");
    }
    s.append(suffix);
}

/// The properties of a duplicated data instance: the first property called
/// `name`, when it holds a string, gets the copy suffix.
pub open spec fn renamed_copy_properties(props: Seq<(Seq<char>, PropertyValueView)>) -> Seq<
    (Seq<char>, PropertyValueView),
> {
    match first_where(props, key_is(name_key())) {
        Some(i) => match props[i].1 {
            PropertyValueView::String(s) => props.update(i, (props[i].0, PropertyValueView::String(s + copy_suffix()))),
            _ => props,
        },
        None => props,
    }
}

/// The predicate "this property is called `k`".
pub open spec fn key_is(k: Seq<char>) -> spec_fn((Seq<char>, PropertyValueView)) -> bool {
    |p: (Seq<char>, PropertyValueView)| p.0 == k
}

pub open spec fn name_key() -> Seq<char> {
    seq!['n', 'a', 'm', 'e']
}

fn is_name_key(s: &String) -> (r: bool)
    ensures
        r == (s@ == name_key()),
{
    let key = String::from_str("name");
    proof {
        reveal_strlit("name");
    }
    assert(key@ =~= name_key());
    *s == key
}

impl DataInstance {
    /// A new data instance of type `data_type` with a fresh id and no properties.
    pub fn new(data_type: String) -> (r: DataInstance)
        ensures
            r@.data_type == data_type@,
            r@.properties.len() == 0,
            is_v4_uuid(r.id),
    {
        DataInstance { id: new_uuid(), data_type, properties: Vec::new() }
    }

    pub fn duplicate(&self) -> (r: DataInstance)
        ensures
            r@ == self@,
    {
        let mut props: Vec<(String, PropertyValue)> = Vec::new();
        let mut i: usize = 0;
        while i < self.properties.len()
            invariant
                i <= self.properties.len(),
                props.len() == i,
                forall|k: int|
                    0 <= k < i ==> (#[trigger] props@[k]).0@ == self.properties@[k].0@
                        && props@[k].1@ == self.properties@[k].1@,
            decreases self.properties.len() - i,
        {
            let p = &self.properties[i];
            props.push((p.0.clone(), p.1.duplicate()));
            i = i + 1;
        }
        let r = DataInstance { id: self.id, data_type: self.data_type.clone(), properties: props };
        assert(r@.properties =~= self@.properties);
        r
    }
}

// ---------------------------------------------------------------------------
// Data store
// ---------------------------------------------------------------------------

/// All data instances, grouped by their type name.
#[derive(Debug)]
pub struct DataStore {
    pub instances: Vec<(String, Vec<DataInstance>)>,
}

pub open spec fn group_view(g: (String, Vec<DataInstance>)) -> (Seq<char>, Seq<DataInstanceView>) {
    (g.0@, g.1@.map_values(|d: DataInstance| d@))
}

pub open spec fn groups_view(s: Seq<(String, Vec<DataInstance>)>) -> Seq<(Seq<char>, Seq<DataInstanceView>)> {
    Seq::new(s.len(), |i: int| group_view(s[i]))
}

impl View for DataStore {
    type V = Seq<(Seq<char>, Seq<DataInstanceView>)>;

    open spec fn view(&self) -> Seq<(Seq<char>, Seq<DataInstanceView>)> {
        groups_view(self.instances@)
    }
}

/// The group of type `t` holds an instance with id `id`.
pub open spec fn group_has_id(g: (Seq<char>, Seq<DataInstanceView>), id: u128) -> bool {
    exists|k: int| 0 <= k < g.1.len() && (#[trigger] g.1[k]).id == id
}

/// The predicate "this group holds instances of type `t`".
pub open spec fn has_type(t: Seq<char>) -> spec_fn((Seq<char>, Seq<DataInstanceView>)) -> bool {
    |g: (Seq<char>, Seq<DataInstanceView>)| g.0 == t
}

/// The predicate "this group holds an instance with id `id`".
pub open spec fn holds_id(id: u128) -> spec_fn((Seq<char>, Seq<DataInstanceView>)) -> bool {
    |g: (Seq<char>, Seq<DataInstanceView>)| group_has_id(g, id)
}

/// The predicate "this instance has id `id`".
pub open spec fn instance_id_is(id: u128) -> spec_fn(DataInstanceView) -> bool {
    |d: DataInstanceView| d.id == id
}

/// Where the instance `id` stands: the first group holding it, and its first
/// position there.
pub open spec fn locate(store: Seq<(Seq<char>, Seq<DataInstanceView>)>, id: u128) -> Option<
    (int, int),
> {
    match first_where(store, holds_id(id)) {
        Some(gi) => match first_where(store[gi].1, instance_id_is(id)) {
            Some(k) => Some((gi, k)),
            None => None,
        },
        None => None,
    }
}

/// The store after adding `d` to the group of its type (a new group at the
/// end when there is none yet).
pub open spec fn store_add(store: Seq<(Seq<char>, Seq<DataInstanceView>)>, d: DataInstanceView) -> Seq<
    (Seq<char>, Seq<DataInstanceView>),
> {
    match first_where(store, has_type(d.data_type)) {
        Some(gi) => store.update(gi, (store[gi].0, store[gi].1.push(d))),
        None => store.push((d.data_type, seq![d])),
    }
}

/// Group type names are distinct, as the keys of a map are.
pub open spec fn store_wf(store: Seq<(Seq<char>, Seq<DataInstanceView>)>) -> bool {
    forall|i: int, j: int|
        0 <= i < j < store.len() ==> (#[trigger] store[i]).0 != (#[trigger] store[j]).0
}

/// Adding an instance keeps one group per type name.
pub proof fn law_store_add_keeps_wf(store: Seq<(Seq<char>, Seq<DataInstanceView>)>, d: DataInstanceView)
    requires
        store_wf(store),
    ensures
        store_wf(store_add(store, d)),
{
    match first_where(store, has_type(d.data_type)) {
        Some(gi) => {
            let r = store_add(store, d);
            assert forall|i: int, j: int| 0 <= i < j < r.len() implies (#[trigger] r[i]).0 != (#[trigger] r[j]).0 by {
                assert(r[i].0 == store[i].0 && r[j].0 == store[j].0);
            }
        },
        None => {
            let r = store_add(store, d);
            assert forall|i: int, j: int| 0 <= i < j < r.len() implies (#[trigger] r[i]).0 != (#[trigger] r[j]).0 by {
                if j == store.len() {
                    assert(!has_type(d.data_type)(store[i])) by {
                        if has_type(d.data_type)(store[i]) {
                            lemma_first_exists(store, has_type(d.data_type), i);
                        }
                    }
                }
            }
        },
    }
}

/// A predicate that holds somewhere holds first somewhere.
proof fn lemma_first_exists<A>(s: Seq<A>, p: spec_fn(A) -> bool, i: int)
    requires
        0 <= i < s.len(),
        p(s[i]),
    ensures
        first_where(s, p) is Some,
    decreases i,
{
    if exists|j: int| 0 <= j < i && p(s[j]) {
        let j = choose|j: int| 0 <= j < i && p(s[j]);
        lemma_first_exists(s, p, j);
    } else {
        assert(is_first(s, p, i));
    }
}

/// An instance added under an id the store does not hold yet is found under
/// that id, as it was added.
pub proof fn law_get_after_add(store: Seq<(Seq<char>, Seq<DataInstanceView>)>, d: DataInstanceView)
    requires
        forall|g: int| 0 <= g < store.len() ==> !group_has_id(#[trigger] store[g], d.id),
    ensures
        locate(store_add(store, d), d.id) matches Some((g, k)) && store_add(store, d)[g].1[k] == d,
{
    let r = store_add(store, d);
    let gi = match first_where(store, has_type(d.data_type)) {
        Some(gi) => gi,
        None => store.len() as int,
    };
    assert(r[gi].1.last() == d);
    let k = r[gi].1.len() - 1;
    assert(r[gi].1[k] == d);
    assert(group_has_id(r[gi], d.id));
    assert forall|g: int| 0 <= g < gi implies !holds_id(d.id)(#[trigger] r[g]) by {
        assert(r[g] == store[g]);
    }
    assert(is_first(r, holds_id(d.id), gi));
    lemma_first_where_found(r, holds_id(d.id), gi);
    assert forall|j: int| 0 <= j < k implies !instance_id_is(d.id)(#[trigger] r[gi].1[j]) by {
        if gi < store.len() {
            assert(r[gi].1[j] == store[gi].1[j]);
            if r[gi].1[j].id == d.id {
                assert(group_has_id(store[gi], d.id));
            }
        }
    }
    assert(is_first(r[gi].1, instance_id_is(d.id), k));
    lemma_first_where_found(r[gi].1, instance_id_is(d.id), k);
}

impl DataStore {
    pub fn new() -> (r: DataStore)
        ensures
            r@.len() == 0,
    {
        DataStore { instances: Vec::new() }
    }

    /// The index of the group of type `t`, if there is one.
    fn group_index(&self, t: &String) -> (r: Option<usize>)
        ensures
            r matches Some(i) ==> Some(i as int) == first_where(self@, has_type(t@)),
            r is None ==> first_where(self@, has_type(t@)) is None,
    {
        let mut i: usize = 0;
        while i < self.instances.len()
            invariant
                i <= self.instances.len(),
                forall|j: int| 0 <= j < i ==> !has_type(t@)(#[trigger] self@[j]),
            decreases self.instances.len() - i,
        {
            assert(self@[i as int].0 == self.instances@[i as int].0@);
            if self.instances[i].0 == *t {
                proof {
                    assert(self.instances@[i as int].0@ == t@);
                    assert(self@[i as int].0 == t@);
                    assert(has_type(t@)(self@[i as int]));
                    lemma_first_where_found(self@, has_type(t@), i as int);
                }
                return Some(i);
            }
            i = i + 1;
        }
        proof {
            lemma_first_where_none(self@, has_type(t@));
        }
        None
    }

    /// Adds an instance to the group of its type.
    pub fn add(&mut self, instance: DataInstance)
        ensures
            final(self)@ == store_add(old(self)@, instance@),
    {
        let ghost d = instance@;
        match self.group_index(&instance.data_type) {
            Some(gi) => {
                let ghost before = self@;
                let ghost old_group = self.instances@[gi as int];
                let group = &mut self.instances[gi];
                group.1.push(instance);
                proof {
                    let ng = self.instances@[gi as int];
                    assert(ng.1@ == old_group.1@.push(instance));
                    assert(group_view(ng).1 =~= group_view(old_group).1.push(d));
                    assert(self@ =~= before.update(gi as int, (before[gi as int].0, before[gi as int].1.push(d))));
                }
            },
            None => {
                let ghost before = self@;
                let t = instance.data_type.clone();
                let mut v: Vec<DataInstance> = Vec::new();
                v.push(instance);
                self.instances.push((t, v));
                proof {
                    assert(group_view(self.instances@.last()).1 =~= seq![d]);
                    assert(self@ =~= before.push((d.data_type, seq![d])));
                }
            },
        }
    }

    /// Finds the group index and position of instance `id`.
    fn find(&self, id: u128) -> (r: Option<(usize, usize)>)
        ensures
            match r {
                Some((g, k)) => locate(self@, id) == Some((g as int, k as int)),
                None => locate(self@, id) is None,
            },
            r matches Some((g, k)) ==> g < self.instances.len() && k < self.instances@[g as int].1.len(),
    {
        let mut gi: usize = 0;
        while gi < self.instances.len()
            invariant
                gi <= self.instances.len(),
                forall|j: int| 0 <= j < gi ==> !holds_id(id)(#[trigger] self@[j]),
            decreases self.instances.len() - gi,
        {
            let group = &self.instances[gi].1;
            let ghost gv = self@[gi as int];
            assert(gv.1 == group@.map_values(|d: DataInstance| d@));
            assert(gv.1.len() == group@.len());
            let mut k: usize = 0;
            while k < group.len()
                invariant
                    k <= group.len(),
                    gi < self.instances.len(),
                    gv == self@[gi as int],
                    gv.1 == group@.map_values(|d: DataInstance| d@),
                    forall|j: int| 0 <= j < gi ==> !holds_id(id)(#[trigger] self@[j]),
                    forall|j: int| 0 <= j < k ==> !instance_id_is(id)(#[trigger] gv.1[j]),
                decreases group.len() - k,
            {
                assert(gv.1[k as int] == group@[k as int]@);
                if group[k].id == id {
                    proof {
                        assert(instance_id_is(id)(gv.1[k as int]));
                        assert(holds_id(id)(gv));
                        lemma_first_where_found(self@, holds_id(id), gi as int);
                        lemma_first_where_found(gv.1, instance_id_is(id), k as int);
                    }
                    return Some((gi, k));
                }
                k = k + 1;
            }
            proof {
                assert(!holds_id(id)(gv)) by {
                    if holds_id(id)(gv) {
                        let k0 = choose|k0: int| 0 <= k0 < gv.1.len() && (#[trigger] gv.1[k0]).id == id;
                        assert(0 <= k0 < gv.1.len() && gv.1[k0].id == id);
                        assert(!instance_id_is(id)(gv.1[k0]));
                    }
                }
            }
            gi = gi + 1;
        }
        proof {
            lemma_first_where_none(self@, holds_id(id));
        }
        None
    }

    /// Removes instance `id` and returns it.
    pub fn remove(&mut self, id: u128) -> (r: Option<DataInstance>)
        ensures
            match locate(old(self)@, id) {
                Some((g, k)) => r matches Some(d) && d@ == old(self)@[g].1[k] && final(self)@
                    == old(self)@.update(g, (old(self)@[g].0, old(self)@[g].1.remove(k))),
                None => r is None && final(self)@ == old(self)@,
            },
    {
        match self.find(id) {
            Some((g, k)) => {
                let ghost before = self@;
                let ghost old_group = self.instances@[g as int];
                let group = &mut self.instances[g];
                let d = group.1.remove(k);
                proof {
                    let ng = self.instances@[g as int];
                    assert(group_view(ng).1 =~= group_view(old_group).1.remove(k as int));
                    assert(self@ =~= before.update(g as int, (before[g as int].0, before[g as int].1.remove(k as int))));
                }
                Some(d)
            },
            None => None,
        }
    }

    /// The instance `id`, if there is one.
    pub fn get(&self, id: u128) -> (r: Option<&DataInstance>)
        ensures
            match locate(self@, id) {
                Some((g, k)) => r matches Some(d) && d@ == self@[g].1[k],
                None => r is None,
            },
    {
        match self.find(id) {
            Some((g, k)) => Some(&self.instances[g].1[k]),
            None => None,
        }
    }

    /// The instance `id` for editing, if there is one; the store keeps
    /// whatever is written through the returned reference.
    pub fn get_mut(&mut self, id: u128) -> (r: Option<&mut DataInstance>)
        ensures
            match locate(old(self)@, id) {
                Some((g, k)) => r matches Some(d) && (*d)@ == old(self)@[g].1[k]
                    && final(self).instances@.len() == old(self).instances@.len()
                    && (forall|j: int| 0 <= j < old(self).instances@.len() && j != g
                        ==> final(self).instances@[j] == old(self).instances@[j])
                    && final(self).instances@[g].0 == old(self).instances@[g].0
                    && final(self).instances@[g].1@ == old(self).instances@[g].1@.update(k, *final(d)),
                None => r is None && final(self)@ == old(self)@,
            },
    {
        match self.find(id) {
            Some((g, k)) => {
                assert(self@[g as int].1[k as int] == self.instances@[g as int].1@[k as int]@);
                let group = &mut self.instances[g];
                let d = &mut group.1[k];
                Some(d)
            },
            None => None,
        }
    }

    /// The instances of type `data_type`, in the order they were added.
    pub fn get_by_type(&self, data_type: &String) -> (r: &[DataInstance])
        ensures
            match first_where(self@, has_type(data_type@)) {
                Some(g) => r@.map_values(|d: DataInstance| d@) == self@[g].1,
                None => r@.len() == 0,
            },
    {
        match self.group_index(data_type) {
            Some(g) => self.instances[g].1.as_slice(),
            None => &[],
        }
    }

    /// Every instance, group after group.
    pub fn all_instances(&self) -> (r: Vec<&DataInstance>)
        ensures
            refs_view(r@) == flatten_groups(self@),
    {
        let mut r: Vec<&DataInstance> = Vec::new();
        let mut g: usize = 0;
        assert(refs_view(r@) =~= flatten_groups(self@.take(0)));
        while g < self.instances.len()
            invariant
                g <= self.instances.len(),
                refs_view(r@) == flatten_groups(self@.take(g as int)),
            decreases self.instances.len() - g,
        {
            let group = &self.instances[g].1;
            let ghost base = refs_view(r@);
            let mut k: usize = 0;
            assert(instances_view(group@.take(0)) =~= seq![]);
            assert(base + instances_view(group@.take(0)) =~= base);
            while k < group.len()
                invariant
                    k <= group.len(),
                    refs_view(r@) == base + instances_view(group@.take(k as int)),
                decreases group.len() - k,
            {
                let ghost before = r@;
                r.push(&group[k]);
                proof {
                    assert(refs_view(r@) =~= refs_view(before).push(group@[k as int]@));
                    assert(instances_view(group@.take(k + 1)) =~= instances_view(group@.take(k as int)).push(group@[k as int]@));
                    assert(refs_view(r@) =~= base + instances_view(group@.take(k + 1)));
                }
                k = k + 1;
            }
            proof {
                assert(group@.take(k as int) =~= group@);
                assert(instances_view(group@) =~= self@[g as int].1);
                assert(self@.take(g + 1).drop_last() =~= self@.take(g as int));
                assert(self@.take(g + 1).last() == self@[g as int]);
            }
            g = g + 1;
        }
        assert(self@.take(g as int) =~= self@);
        r
    }
}

/// The views of a sequence of instances.
pub open spec fn instances_view(s: Seq<DataInstance>) -> Seq<DataInstanceView> {
    Seq::new(s.len(), |i: int| s[i]@)
}

/// The views of a sequence of references to instances.
pub open spec fn refs_view(s: Seq<&DataInstance>) -> Seq<DataInstanceView> {
    Seq::new(s.len(), |i: int| s[i]@)
}

/// The instances of all groups, in group order.
pub open spec fn flatten_groups(store: Seq<(Seq<char>, Seq<DataInstanceView>)>) -> Seq<DataInstanceView>
    decreases store.len(),
{
    if store.len() == 0 {
        seq![]
    } else {
        flatten_groups(store.drop_last()) + store.last().1
    }
}

// ---------------------------------------------------------------------------
// Sprite sheets, dialogues and the schema
// ---------------------------------------------------------------------------

/// A sprite sheet asset: a reusable sprite/animation definition.
#[derive(Debug)]
pub struct SpriteSheet {
    pub id: u128,
    pub name: String,
    pub sheet_path: String,
}

pub struct SpriteSheetView {
    pub id: u128,
    pub name: Seq<char>,
    pub sheet_path: Seq<char>,
}

impl View for SpriteSheet {
    type V = SpriteSheetView;

    open spec fn view(&self) -> SpriteSheetView {
        SpriteSheetView { id: self.id, name: self.name@, sheet_path: self.sheet_path@ }
    }
}

/// A dialogue tree asset, identified by a string id.
#[derive(Debug)]
pub struct DialogueTree {
    pub id: String,
    pub name: String,
}

pub struct DialogueTreeView {
    pub id: Seq<char>,
    pub name: Seq<char>,
}

impl View for DialogueTree {
    type V = DialogueTreeView;

    open spec fn view(&self) -> DialogueTreeView {
        DialogueTreeView { id: self.id@, name: self.name@ }
    }
}

/// Project settings of the schema.
#[derive(Debug)]
pub struct SchemaProject {
    pub name: String,
}

/// The type schema of a project; the editor reads its project name.
#[derive(Debug)]
pub struct Schema {
    pub project: SchemaProject,
}

// ---------------------------------------------------------------------------
// The project
// ---------------------------------------------------------------------------

/// The entire editor project.
#[derive(Debug)]
pub struct Project {
    pub version: u32,
    pub path: Option<String>,
    pub schema_path: Option<String>,
    pub schema: Schema,
    pub data: DataStore,
    pub levels: Vec<Level>,
    pub sprite_sheets: Vec<SpriteSheet>,
    pub dialogues: Vec<DialogueTree>,
    pub tilesets: Vec<Tileset>,
    pub automap_config: AutomapConfig,
    pub dirty: bool,
}

pub struct ProjectView {
    pub version: u32,
    pub path: Option<Seq<char>>,
    pub schema_path: Option<Seq<char>>,
    pub schema_name: Seq<char>,
    pub data: Seq<(Seq<char>, Seq<DataInstanceView>)>,
    pub levels: Seq<LevelView>,
    pub sprite_sheets: Seq<SpriteSheetView>,
    pub dialogues: Seq<DialogueTreeView>,
    pub tilesets: Seq<TilesetView>,
    pub automap_rule_sets: Seq<RuleSetView>,
    pub dirty: bool,
}

pub open spec fn opt_string_view(o: Option<String>) -> Option<Seq<char>> {
    match o {
        Some(s) => Some(s@),
        None => None,
    }
}

pub open spec fn levels_view(s: Seq<Level>) -> Seq<LevelView> {
    Seq::new(s.len(), |i: int| s[i]@)
}

pub open spec fn sheets_view(s: Seq<SpriteSheet>) -> Seq<SpriteSheetView> {
    Seq::new(s.len(), |i: int| s[i]@)
}

pub open spec fn dialogues_view(s: Seq<DialogueTree>) -> Seq<DialogueTreeView> {
    Seq::new(s.len(), |i: int| s[i]@)
}

pub open spec fn tilesets_view(s: Seq<Tileset>) -> Seq<TilesetView> {
    Seq::new(s.len(), |i: int| s[i]@)
}

/// The predicate "this tileset has id `id`".
pub open spec fn tileset_id_is(id: u128) -> spec_fn(TilesetView) -> bool {
    |t: TilesetView| t.id == id
}


impl View for Project {
    type V = ProjectView;

    open spec fn view(&self) -> ProjectView {
        ProjectView {
            version: self.version,
            path: opt_string_view(self.path),
            schema_path: opt_string_view(self.schema_path),
            schema_name: self.schema.project.name@,
            data: self.data@,
            levels: levels_view(self.levels@),
            sprite_sheets: sheets_view(self.sprite_sheets@),
            dialogues: dialogues_view(self.dialogues@),
            tilesets: tilesets_view(self.tilesets@),
            automap_rule_sets: rule_sets_view(self.automap_config.rule_sets@),
            dirty: self.dirty,
        }
    }
}

/// The predicate "this level has id `id`".
pub open spec fn level_id_is(id: u128) -> spec_fn(LevelView) -> bool {
    |l: LevelView| l.id == id
}

/// The predicate "this sprite sheet has id `id`".
pub open spec fn sheet_id_is(id: u128) -> spec_fn(SpriteSheetView) -> bool {
    |a: SpriteSheetView| a.id == id
}

/// The predicate "this dialogue has id `id`".
pub open spec fn dialogue_id_is(id: Seq<char>) -> spec_fn(DialogueTreeView) -> bool {
    |d: DialogueTreeView| d.id == id
}

/// The position of the first level with id `id`.
pub open spec fn level_pos(p: ProjectView, id: u128) -> Option<int> {
    first_where(p.levels, level_id_is(id))
}

/// The project with its dirty flag set.
pub open spec fn dirtied(p: ProjectView) -> ProjectView {
    ProjectView { dirty: true, ..p }
}

/// How many entities of type `t` a level holds.
pub open spec fn count_of_type(entities: Seq<EntityInstanceView>, t: Seq<char>) -> nat
    decreases entities.len(),
{
    if entities.len() == 0 {
        0
    } else {
        count_of_type(entities.drop_last(), t) + if entities.last().entity_type == t {
            1nat
        } else {
            0nat
        }
    }
}

/// How many entities of type `t` all levels hold together.
pub open spec fn count_in_levels(levels: Seq<LevelView>, t: Seq<char>) -> nat
    decreases levels.len(),
{
    if levels.len() == 0 {
        0
    } else {
        count_in_levels(levels.drop_last(), t) + count_of_type(levels.last().entities, t)
    }
}

/// The name shown for a project: the stem of its file name when it has a path
/// with one, else the project name of its schema.
pub open spec fn project_display_name(stem: Option<Seq<char>>, schema_name: Seq<char>) -> Seq<char> {
    match stem {
        Some(s) => s,
        None => schema_name,
    }
}

/// A bare file name that every platform reads alike: not empty, not `.`
/// or `..`, and without `/`, `\` or `:`.
pub open spec fn plain_name(p: Seq<char>) -> bool {
    &&& p.len() > 0
    &&& p != "."@
    &&& p != ".."@
    &&& forall|i: int| 0 <= i < p.len() ==> #[trigger] p[i] != '/' && p[i] != '\\' && p[i] != ':'
}

/// The position of the last `.` of `p`, -1 when there is none.
pub open spec fn last_dot(p: Seq<char>) -> int
    decreases p.len(),
{
    if p.len() == 0 {
        -1
    } else if p[p.len() - 1] == '.' {
        p.len() - 1
    } else {
        last_dot(p.drop_last())
    }
}

/// The stem of a file name, as std documents it: the whole name when it has
/// no `.` or only a leading one, else the text before its last `.`.
pub open spec fn stem_text(p: Seq<char>) -> Seq<char> {
    if last_dot(p) <= 0 {
        p
    } else {
        p.subrange(0, last_dot(p))
    }
}

/// What `Path::file_stem` may give for `path` (as text), as far as std
/// documents it on every platform: a bare file name gives its stem. Of
/// other paths nothing is said.
pub open spec fn stem_admits(path: Seq<char>, s: Option<Seq<char>>) -> bool {
    plain_name(path) ==> s == Some(stem_text(path))
}

/// Calls `std::path::Path::file_stem` on `path` and converts the stem to a
/// `String` (a stem of a `&str` path is always valid UTF-8).
///
/// Claimed: the stem of a bare file name, as std documents it (see
/// `stem_admits`). Nothing else is claimed: which characters separate the
/// components of a path depends on the platform.
#[verifier::external_body]
fn file_stem_of(path: &str) -> (r: Option<String>)
    ensures
        stem_admits(path@, opt_string_view(r)),
{
    std::path::Path::new(path).file_stem().and_then(|s| s.to_str()).map(|s| s.to_string())
}

/// The display name of a project, given the stem of its path.
pub fn project_name_from(stem: Option<String>, schema_name: &String) -> (r: String)
    ensures
        r@ == project_display_name(opt_string_view(stem), schema_name@),
{
    match stem {
        Some(s) => s,
        None => schema_name.clone(),
    }
}

impl Project {
    /// A new, empty project with the given schema.
    pub fn new(schema: Schema) -> (r: Project)
        ensures
            r@.version == 1,
            r@.path is None,
            r@.schema_path is None,
            r@.schema_name == schema.project.name@,
            r@.data.len() == 0,
            r@.levels.len() == 0,
            r@.sprite_sheets.len() == 0,
            r@.dialogues.len() == 0,
            r@.tilesets.len() == 0,
            r@.automap_rule_sets.len() == 0,
            !r@.dirty,
    {
        Project {
            version: 1,
            path: None,
            schema_path: None,
            schema,
            data: DataStore::new(),
            levels: Vec::new(),
            sprite_sheets: Vec::new(),
            dialogues: Vec::new(),
            tilesets: Vec::new(),
            automap_config: AutomapConfig::new(),
            dirty: false,
        }
    }

    /// Marks the project as modified.
    pub fn mark_dirty(&mut self)
        ensures
            final(self)@ == dirtied(old(self)@),
    {
        self.dirty = true;
    }

    /// Whether the project has unsaved changes.
    pub fn is_dirty(&self) -> (r: bool)
        ensures
            r == self@.dirty,
    {
        self.dirty
    }

    /// The project's name: the file stem of its path, else the schema's
    /// project name.
    pub fn name(&self) -> (r: String)
        ensures
            self@.path is None ==> r@ == self@.schema_name,
            self@.path matches Some(p) ==> exists|s: Option<Seq<char>>|
                #[trigger] stem_admits(p, s) && r@ == project_display_name(s, self@.schema_name),
    {
        let stem = match &self.path {
            Some(p) => file_stem_of(p.as_str()),
            None => None,
        };
        let ghost s = opt_string_view(stem);
        let r = project_name_from(stem, &self.schema.project.name);
        proof {
            if let Some(p) = self@.path {
                assert(stem_admits(p, s) && r@ == project_display_name(s, self@.schema_name));
            }
        }
        r
    }

    /// Adds a data instance.
    pub fn add_data_instance(&mut self, instance: DataInstance)
        ensures
            final(self)@ == (ProjectView { data: store_add(old(self)@.data, instance@), dirty: true, ..old(self)@ }),
    {
        self.data.add(instance);
        self.dirty = true;
    }

    /// Removes the data instance `id`; the project is modified only when it
    /// held one.
    pub fn remove_data_instance(&mut self, id: u128) -> (r: Option<DataInstance>)
        ensures
            match locate(old(self)@.data, id) {
                Some((g, k)) => r matches Some(d) && d@ == old(self)@.data[g].1[k] && final(self)@
                    == (ProjectView {
                        data: old(self)@.data.update(g, (old(self)@.data[g].0, old(self)@.data[g].1.remove(k))),
                        dirty: true,
                        ..old(self)@
                    }),
                None => r is None && final(self)@ == old(self)@,
            },
    {
        let result = self.data.remove(id);
        if result.is_some() {
            self.dirty = true;
        }
        result
    }

    /// The data instance `id`, if there is one.
    pub fn get_data_instance(&self, id: u128) -> (r: Option<&DataInstance>)
        ensures
            match locate(self@.data, id) {
                Some((g, k)) => r matches Some(d) && d@ == self@.data[g].1[k],
                None => r is None,
            },
    {
        self.data.get(id)
    }

    /// The data instance `id` for editing; asking for one that exists marks
    /// the project as modified.
    pub fn get_data_instance_mut(&mut self, id: u128) -> (r: Option<&mut DataInstance>)
        ensures
            final(self).levels == old(self).levels,
            final(self).version == old(self).version,
            final(self).path == old(self).path,
            final(self).schema_path == old(self).schema_path,
            final(self).sprite_sheets == old(self).sprite_sheets,
            final(self).dialogues == old(self).dialogues,
            final(self).tilesets == old(self).tilesets,
            final(self).automap_config == old(self).automap_config,
            match locate(old(self)@.data, id) {
                Some((g, k)) => r matches Some(d) && (*d)@ == old(self)@.data[g].1[k]
                    && final(self).dirty
                    && final(self).data.instances@.len() == old(self).data.instances@.len()
                    && (forall|j: int| 0 <= j < old(self).data.instances@.len() && j != g
                        ==> final(self).data.instances@[j] == old(self).data.instances@[j])
                    && final(self).data.instances@[g].0 == old(self).data.instances@[g].0
                    && final(self).data.instances@[g].1@ == old(self).data.instances@[g].1@.update(k, *final(d)),
                None => r is None && final(self)@ == old(self)@,
            },
    {
        let found = self.data.get(id).is_some();
        if found {
            self.dirty = true;
        }
        self.data.get_mut(id)
    }

    /// Counts the entities of type `entity_type` over all levels.
    pub fn count_entities_of_type(&self, entity_type: &str) -> (r: usize)
        requires
            count_in_levels(self@.levels, entity_type@) <= usize::MAX,
        ensures
            r == count_in_levels(self@.levels, entity_type@),
    {
        let t = String::from_str(entity_type);
        let mut total: usize = 0;
        let mut i: usize = 0;
        while i < self.levels.len()
            invariant
                i <= self.levels.len(),
                t@ == entity_type@,
                count_in_levels(self@.levels, entity_type@) <= usize::MAX,
                total == count_in_levels(self@.levels.take(i as int), entity_type@),
            decreases self.levels.len() - i,
        {
            let level = &self.levels[i];
            let ghost es = self@.levels[i as int].entities;
            assert(es == entities_view(level.entities@));
            let mut k: usize = 0;
            let mut n: usize = 0;
            while k < level.entities.len()
                invariant
                    k <= level.entities.len(),
                    t@ == entity_type@,
                    es == entities_view(level.entities@),
                    n == count_of_type(es.take(k as int), entity_type@),
                    n <= k,
                decreases level.entities.len() - k,
            {
                assert(es.take(k + 1).drop_last() =~= es.take(k as int));
                if level.entities[k].entity_type == t {
                    n = n + 1;
                }
                k = k + 1;
            }
            proof {
                assert(es.take(k as int) =~= es);
                assert(self@.levels.take(i + 1).drop_last() =~= self@.levels.take(i as int));
                lemma_count_in_levels_prefix(self@.levels, i + 1, entity_type@);
            }
            total = total + n;
            i = i + 1;
        }
        assert(self@.levels.take(i as int) =~= self@.levels);
        total
    }

    /// Adds a level at the end.
    pub fn add_level(&mut self, level: Level)
        ensures
            final(self)@ == (ProjectView { levels: old(self)@.levels.push(level@), dirty: true, ..old(self)@ }),
    {
        self.levels.push(level);
        self.dirty = true;
        assert(levels_view(self.levels@) =~= old(self)@.levels.push(level@));
    }

    /// The index of the first level with id `id`.
    fn level_index(&self, id: u128) -> (r: Option<usize>)
        ensures
            match r {
                Some(i) => level_pos(self@, id) == Some(i as int) && i < self.levels.len(),
                None => level_pos(self@, id) is None,
            },
    {
        let mut i: usize = 0;
        while i < self.levels.len()
            invariant
                i <= self.levels.len(),
                forall|j: int| 0 <= j < i ==> !level_id_is(id)(#[trigger] self@.levels[j]),
            decreases self.levels.len() - i,
        {
            if self.levels[i].id == id {
                proof {
                    lemma_first_where_found(self@.levels, level_id_is(id), i as int);
                }
                return Some(i);
            }
            i = i + 1;
        }
        proof {
            lemma_first_where_none(self@.levels, level_id_is(id));
        }
        None
    }

    /// The first level with id `id`, if there is one.
    pub fn get_level(&self, id: u128) -> (r: Option<&Level>)
        ensures
            match level_pos(self@, id) {
                Some(i) => r matches Some(l) && l@ == self@.levels[i],
                None => r is None,
            },
    {
        match self.level_index(id) {
            Some(i) => Some(&self.levels[i]),
            None => None,
        }
    }

    /// The first level with id `id` for editing. Asking marks the project as
    /// modified, whether or not such a level exists.
    pub fn get_level_mut(&mut self, id: u128) -> (r: Option<&mut Level>)
        ensures
            final(self).dirty,
            final(self).version == old(self).version,
            final(self).path == old(self).path,
            final(self).schema_path == old(self).schema_path,
            final(self).schema == old(self).schema,
            final(self).data == old(self).data,
            final(self).sprite_sheets == old(self).sprite_sheets,
            final(self).dialogues == old(self).dialogues,
            final(self).tilesets == old(self).tilesets,
            final(self).automap_config == old(self).automap_config,
            match level_pos(old(self)@, id) {
                Some(i) => r matches Some(l) && *l == old(self).levels@[i]
                    && final(self).levels@ == old(self).levels@.update(i, *final(l)),
                None => r is None && final(self).levels == old(self).levels,
            },
    {
        self.dirty = true;
        match self.level_index(id) {
            Some(i) => Some(&mut self.levels[i]),
            None => None,
        }
    }

    /// Removes the first level with id `id` and returns it.
    pub fn remove_level(&mut self, id: u128) -> (r: Option<Level>)
        ensures
            match level_pos(old(self)@, id) {
                Some(i) => r matches Some(l) && l@ == old(self)@.levels[i]
                    && final(self)@ == (ProjectView { levels: old(self)@.levels.remove(i), dirty: true, ..old(self)@ }),
                None => r is None && final(self)@ == old(self)@,
            },
    {
        match self.level_index(id) {
            Some(i) => {
                self.dirty = true;
                let l = self.levels.remove(i);
                assert(levels_view(self.levels@) =~= old(self)@.levels.remove(i as int));
                Some(l)
            },
            None => None,
        }
    }

    /// Duplicates the first level with id `id`, appending the copy, and
    /// returns the copy's id. The copy gets a fresh id, its name followed by
    /// " (Copy)", and fresh ids for all its entities.
    pub fn duplicate_level(&mut self, id: u128) -> (r: Option<u128>)
        ensures
            match level_pos(old(self)@, id) {
                Some(i) => r matches Some(new_id) && is_v4_uuid(new_id) && {
                    let orig = old(self)@.levels[i];
                    let copy = final(self)@.levels.last();
                    &&& final(self)@.levels.len() == old(self)@.levels.len() + 1
                    &&& final(self)@.levels.drop_last() == old(self)@.levels
                    &&& final(self)@ == (ProjectView { levels: final(self)@.levels, dirty: true, ..old(self)@ })
                    &&& copy.id == new_id
                    &&& copy.name == orig.name + copy_suffix()
                    &&& copy.width == orig.width
                    &&& copy.height == orig.height
                    &&& copy.layers == orig.layers
                    &&& copy.entities.len() == orig.entities.len()
                    &&& forall|k: int| 0 <= k < orig.entities.len() ==> {
                        &&& is_v4_uuid(#[trigger] copy.entities[k].id)
                        &&& copy.entities[k].entity_type == orig.entities[k].entity_type
                        &&& copy.entities[k].position == orig.entities[k].position
                    }
                },
                None => r is None && final(self)@ == old(self)@,
            },
    {
        match self.level_index(id) {
            Some(i) => {
                let mut copy = self.levels[i].duplicate();
                let new_id = new_uuid();
                copy.id = new_id;
                append_copy_suffix(&mut copy.name);
                let ghost orig_entities = old(self)@.levels[i as int].entities;
                let ghost orig_level = old(self)@.levels[i as int];
                let mut k: usize = 0;
                while k < copy.entities.len()
                    invariant
                        k <= copy.entities.len(),
                        copy.id == new_id,
                        copy@.name == orig_level.name + copy_suffix(),
                        copy@.width == orig_level.width,
                        copy@.height == orig_level.height,
                        copy@.layers == orig_level.layers,
                        copy.entities.len() == orig_entities.len(),
                        forall|j: int| 0 <= j < copy.entities.len() ==> {
                            &&& (#[trigger] copy.entities@[j])@.entity_type == orig_entities[j].entity_type
                            &&& copy.entities@[j]@.position == orig_entities[j].position
                            &&& (j < k ==> is_v4_uuid(copy.entities@[j].id))
                            &&& (j >= k ==> copy.entities@[j].id == orig_entities[j].id)
                        },
                    decreases copy.entities.len() - k,
                {
                    let fresh = new_uuid();
                    copy.entities[k].id = fresh;
                    k = k + 1;
                }
                let ghost cv = copy@;
                proof {
                    let orig = old(self)@.levels[i as int];
                    assert(cv.entities.len() == orig.entities.len());
                    assert forall|j: int| 0 <= j < orig.entities.len() implies {
                        &&& is_v4_uuid(#[trigger] cv.entities[j].id)
                        &&& cv.entities[j].entity_type == orig.entities[j].entity_type
                        &&& cv.entities[j].position == orig.entities[j].position
                    } by {
                        assert(cv.entities[j] == copy.entities@[j]@);
                    }
                }
                self.levels.push(copy);
                self.dirty = true;
                proof {
                    assert(levels_view(self.levels@).drop_last() =~= old(self)@.levels);
                    assert(self@.levels.last() == cv);
                    let orig = old(self)@.levels[i as int];
                    assert(cv.id == new_id);
                    assert(cv.name == orig.name + copy_suffix());
                    assert(cv.layers == orig.layers);
                    assert(self@ == (ProjectView { levels: self@.levels, dirty: true, ..old(self)@ }));
                }
                Some(new_id)
            },
            None => None,
        }
    }

    /// Duplicates the data instance `id` under a fresh id (its `name`
    /// property, when a string, gets " (Copy)") and returns the new id.
    pub fn duplicate_data_instance(&mut self, id: u128) -> (r: Option<u128>)
        ensures
            match locate(old(self)@.data, id) {
                Some((g, k)) => r matches Some(new_id) && is_v4_uuid(new_id) && {
                    let orig = old(self)@.data[g].1[k];
                    final(self)@ == (ProjectView {
                        data: store_add(
                            old(self)@.data,
                            DataInstanceView {
                                id: new_id,
                                data_type: orig.data_type,
                                properties: renamed_copy_properties(orig.properties),
                            },
                        ),
                        dirty: true,
                        ..old(self)@
                    })
                },
                None => r is None && final(self)@ == old(self)@,
            },
    {
        let original = match self.data.get(id) {
            Some(d) => d,
            None => return None,
        };
        let mut duplicate = original.duplicate();
        let new_id = new_uuid();
        duplicate.id = new_id;
        let ghost props = duplicate@.properties;
        let found = name_property_index(&duplicate.properties);
        let ghost before = duplicate@;
        match found {
            Some(i) => {
                let entry = &mut duplicate.properties[i];
                match &mut entry.1 {
                    PropertyValue::String(name) => {
                        append_copy_suffix(name);
                    },
                    _ => {},
                }
                proof {
                    assert(duplicate@.properties =~= renamed_copy_properties(props));
                }
            },
            None => {},
        }
        let ghost dv = duplicate@;
        assert(dv.properties == renamed_copy_properties(props));
        self.data.add(duplicate);
        self.dirty = true;
        Some(new_id)
    }

    // Tilesets

    /// Adds a tileset.
    pub fn add_tileset(&mut self, tileset: Tileset)
        ensures
            final(self)@ == (ProjectView {
                tilesets: old(self)@.tilesets.push(tileset@),
                dirty: true,
                ..old(self)@
            }),
    {
        self.tilesets.push(tileset);
        self.dirty = true;
        assert(tilesets_view(self.tilesets@) =~= old(self)@.tilesets.push(tileset@));
    }

    fn tileset_index(&self, id: u128) -> (r: Option<usize>)
        ensures
            match r {
                Some(i) => first_where(self@.tilesets, tileset_id_is(id)) == Some(i as int)
                    && i < self.tilesets.len(),
                None => first_where(self@.tilesets, tileset_id_is(id)) is None,
            },
    {
        let mut i: usize = 0;
        while i < self.tilesets.len()
            invariant
                i <= self.tilesets.len(),
                forall|j: int| 0 <= j < i ==> !tileset_id_is(id)(#[trigger] self@.tilesets[j]),
            decreases self.tilesets.len() - i,
        {
            if self.tilesets[i].id == id {
                proof {
                    lemma_first_where_found(self@.tilesets, tileset_id_is(id), i as int);
                }
                return Some(i);
            }
            i = i + 1;
        }
        proof {
            lemma_first_where_none(self@.tilesets, tileset_id_is(id));
        }
        None
    }

    /// Applies an edit of the tile properties tab to `tile` of the first
    /// tileset with id `tileset_id` and marks the project as modified;
    /// returns whether such a tileset exists (without one nothing changes).
    pub fn edit_tile(&mut self, tileset_id: u128, tile: u32, edit: TileEdit) -> (r: bool)
        requires
            first_where(old(self)@.tilesets, tileset_id_is(tileset_id)) matches Some(i) ==> edit_applies(
                properties_of(old(self)@.tilesets[i].tile_properties, tile),
                old(self)@.tilesets[i].tile_size,
                edit,
            ),
        ensures
            r == first_where(old(self)@.tilesets, tileset_id_is(tileset_id)) is Some,
            match first_where(old(self)@.tilesets, tileset_id_is(tileset_id)) {
                Some(i) => tile_edited(old(self)@.tilesets[i], final(self)@.tilesets[i], tile, edit)
                    && final(self)@ == (ProjectView {
                        tilesets: old(self)@.tilesets.update(i, final(self)@.tilesets[i]),
                        dirty: true,
                        ..old(self)@
                    }),
                None => final(self)@ == old(self)@,
            },
    {
        match self.tileset_index(tileset_id) {
            Some(i) => {
                self.tilesets[i].edit_tile(tile, edit);
                self.dirty = true;
                proof {
                    assert(tilesets_view(self.tilesets@) =~= old(self)@.tilesets.update(
                        i as int,
                        self@.tilesets[i as int],
                    ));
                }
                true
            },
            None => false,
        }
    }

    // Sprite sheets

    /// Adds a sprite sheet asset.
    pub fn add_sprite_sheet(&mut self, sprite_sheet: SpriteSheet)
        ensures
            final(self)@ == (ProjectView {
                sprite_sheets: old(self)@.sprite_sheets.push(sprite_sheet@),
                dirty: true,
                ..old(self)@
            }),
    {
        self.sprite_sheets.push(sprite_sheet);
        self.dirty = true;
        assert(sheets_view(self.sprite_sheets@) =~= old(self)@.sprite_sheets.push(sprite_sheet@));
    }

    fn sprite_sheet_index(&self, id: u128) -> (r: Option<usize>)
        ensures
            match r {
                Some(i) => first_where(self@.sprite_sheets, sheet_id_is(id)) == Some(i as int)
                    && i < self.sprite_sheets.len(),
                None => first_where(self@.sprite_sheets, sheet_id_is(id)) is None,
            },
    {
        let mut i: usize = 0;
        while i < self.sprite_sheets.len()
            invariant
                i <= self.sprite_sheets.len(),
                forall|j: int| 0 <= j < i ==> !sheet_id_is(id)(#[trigger] self@.sprite_sheets[j]),
            decreases self.sprite_sheets.len() - i,
        {
            if self.sprite_sheets[i].id == id {
                proof {
                    lemma_first_where_found(self@.sprite_sheets, sheet_id_is(id), i as int);
                }
                return Some(i);
            }
            i = i + 1;
        }
        proof {
            lemma_first_where_none(self@.sprite_sheets, sheet_id_is(id));
        }
        None
    }

    /// The first sprite sheet with id `id`.
    pub fn get_sprite_sheet(&self, id: u128) -> (r: Option<&SpriteSheet>)
        ensures
            match first_where(self@.sprite_sheets, sheet_id_is(id)) {
                Some(i) => r matches Some(a) && a@ == self@.sprite_sheets[i],
                None => r is None,
            },
    {
        match self.sprite_sheet_index(id) {
            Some(i) => Some(&self.sprite_sheets[i]),
            None => None,
        }
    }

    /// The first sprite sheet with id `id` for editing; asking marks the
    /// project as modified, whether or not one exists.
    pub fn get_sprite_sheet_mut(&mut self, id: u128) -> (r: Option<&mut SpriteSheet>)
        ensures
            final(self).dirty,
            final(self).levels == old(self).levels,
            final(self).data == old(self).data,
            final(self).dialogues == old(self).dialogues,
            final(self).tilesets == old(self).tilesets,
            final(self).automap_config == old(self).automap_config,
            match first_where(old(self)@.sprite_sheets, sheet_id_is(id)) {
                Some(i) => r matches Some(a) && *a == old(self).sprite_sheets@[i]
                    && final(self).sprite_sheets@ == old(self).sprite_sheets@.update(i, *final(a)),
                None => r is None && final(self).sprite_sheets == old(self).sprite_sheets,
            },
    {
        self.dirty = true;
        match self.sprite_sheet_index(id) {
            Some(i) => Some(&mut self.sprite_sheets[i]),
            None => None,
        }
    }

    /// Removes the first sprite sheet with id `id` and returns it.
    pub fn remove_sprite_sheet(&mut self, id: u128) -> (r: Option<SpriteSheet>)
        ensures
            match first_where(old(self)@.sprite_sheets, sheet_id_is(id)) {
                Some(i) => r matches Some(a) && a@ == old(self)@.sprite_sheets[i] && final(self)@
                    == (ProjectView {
                        sprite_sheets: old(self)@.sprite_sheets.remove(i),
                        dirty: true,
                        ..old(self)@
                    }),
                None => r is None && final(self)@ == old(self)@,
            },
    {
        match self.sprite_sheet_index(id) {
            Some(i) => {
                self.dirty = true;
                let a = self.sprite_sheets.remove(i);
                assert(sheets_view(self.sprite_sheets@) =~= old(self)@.sprite_sheets.remove(i as int));
                Some(a)
            },
            None => None,
        }
    }

    // Dialogues

    /// Adds a dialogue tree.
    pub fn add_dialogue(&mut self, dialogue: DialogueTree)
        ensures
            final(self)@ == (ProjectView {
                dialogues: old(self)@.dialogues.push(dialogue@),
                dirty: true,
                ..old(self)@
            }),
    {
        self.dialogues.push(dialogue);
        self.dirty = true;
        assert(dialogues_view(self.dialogues@) =~= old(self)@.dialogues.push(dialogue@));
    }

    fn dialogue_index(&self, id: &str) -> (r: Option<usize>)
        ensures
            match r {
                Some(i) => first_where(self@.dialogues, dialogue_id_is(id@)) == Some(i as int)
                    && i < self.dialogues.len(),
                None => first_where(self@.dialogues, dialogue_id_is(id@)) is None,
            },
    {
        let key = String::from_str(id);
        let mut i: usize = 0;
        while i < self.dialogues.len()
            invariant
                i <= self.dialogues.len(),
                key@ == id@,
                forall|j: int| 0 <= j < i ==> !dialogue_id_is(id@)(#[trigger] self@.dialogues[j]),
            decreases self.dialogues.len() - i,
        {
            if self.dialogues[i].id == key {
                proof {
                    lemma_first_where_found(self@.dialogues, dialogue_id_is(id@), i as int);
                }
                return Some(i);
            }
            i = i + 1;
        }
        proof {
            lemma_first_where_none(self@.dialogues, dialogue_id_is(id@));
        }
        None
    }

    /// The first dialogue with id `id`.
    pub fn get_dialogue(&self, id: &str) -> (r: Option<&DialogueTree>)
        ensures
            match first_where(self@.dialogues, dialogue_id_is(id@)) {
                Some(i) => r matches Some(d) && d@ == self@.dialogues[i],
                None => r is None,
            },
    {
        match self.dialogue_index(id) {
            Some(i) => Some(&self.dialogues[i]),
            None => None,
        }
    }

    /// The first dialogue with id `id` for editing; asking marks the project
    /// as modified, whether or not one exists.
    pub fn get_dialogue_mut(&mut self, id: &str) -> (r: Option<&mut DialogueTree>)
        ensures
            final(self).dirty,
            final(self).levels == old(self).levels,
            final(self).data == old(self).data,
            final(self).sprite_sheets == old(self).sprite_sheets,
            final(self).tilesets == old(self).tilesets,
            final(self).automap_config == old(self).automap_config,
            match first_where(old(self)@.dialogues, dialogue_id_is(id@)) {
                Some(i) => r matches Some(d) && *d == old(self).dialogues@[i]
                    && final(self).dialogues@ == old(self).dialogues@.update(i, *final(d)),
                None => r is None && final(self).dialogues == old(self).dialogues,
            },
    {
        self.dirty = true;
        match self.dialogue_index(id) {
            Some(i) => Some(&mut self.dialogues[i]),
            None => None,
        }
    }

    /// Removes the first dialogue with id `id` and returns it.
    pub fn remove_dialogue(&mut self, id: &str) -> (r: Option<DialogueTree>)
        ensures
            match first_where(old(self)@.dialogues, dialogue_id_is(id@)) {
                Some(i) => r matches Some(d) && d@ == old(self)@.dialogues[i] && final(self)@
                    == (ProjectView { dialogues: old(self)@.dialogues.remove(i), dirty: true, ..old(self)@ }),
                None => r is None && final(self)@ == old(self)@,
            },
    {
        match self.dialogue_index(id) {
            Some(i) => {
                self.dirty = true;
                let d = self.dialogues.remove(i);
                assert(dialogues_view(self.dialogues@) =~= old(self)@.dialogues.remove(i as int));
                Some(d)
            },
            None => None,
        }
    }
}

/// The position of the first property called `name`.
fn name_property_index(props: &Vec<(String, PropertyValue)>) -> (r: Option<usize>)
    ensures
        match r {
            Some(i) => i < props.len() && first_where(
                props@.map_values(|p: (String, PropertyValue)| (p.0@, p.1@)),
                key_is(name_key()),
            ) == Some(i as int),
            None => first_where(props@.map_values(|p: (String, PropertyValue)| (p.0@, p.1@)), key_is(name_key())) is None,
        },
{
    let ghost pv = props@.map_values(|p: (String, PropertyValue)| (p.0@, p.1@));
    let mut i: usize = 0;
    while i < props.len()
        invariant
            i <= props.len(),
            pv == props@.map_values(|p: (String, PropertyValue)| (p.0@, p.1@)),
            forall|j: int| 0 <= j < i ==> !key_is(name_key())(#[trigger] pv[j]),
        decreases props.len() - i,
    {
        assert(pv[i as int].0 == props@[i as int].0@);
        if is_name_key(&props[i].0) {
            proof {
                lemma_first_where_found(pv, key_is(name_key()), i as int);
            }
            return Some(i);
        }
        i = i + 1;
    }
    proof {
        lemma_first_where_none(pv, key_is(name_key()));
    }
    None
}

pub proof fn lemma_count_in_levels_prefix(levels: Seq<LevelView>, i: int, t: Seq<char>)
    requires
        0 <= i <= levels.len(),
    ensures
        count_in_levels(levels.take(i), t) <= count_in_levels(levels, t),
    decreases levels.len(),
{
    if i < levels.len() {
        assert(levels.drop_last().take(i) =~= levels.take(i));
        lemma_count_in_levels_prefix(levels.drop_last(), i, t);
    } else {
        assert(levels.take(i) =~= levels);
    }
}

/// The first eight characters of an id's hyphenated form.
pub open spec fn short_id(id: u128) -> Seq<char> {
    hyphenated_text(id).subrange(0, 8)
}

/// The name a data instance is listed by: its `name` property when that is
/// a string, else the start of its id.
pub open spec fn instance_display_name(d: DataInstanceView) -> Seq<char> {
    match first_where(d.properties, key_is(name_key())) {
        Some(i) => match d.properties[i].1 {
            PropertyValueView::String(s) => s,
            _ => short_id(d.id),
        },
        None => short_id(d.id),
    }
}

impl DataInstance {
    /// The name the instance is listed by in the project tree.
    pub fn display_name(&self) -> (r: String)
        ensures
            r@ == instance_display_name(self@),
    {
        let found = name_property_index(&self.properties);
        if let Some(i) = found {
            if let PropertyValue::String(s) = &self.properties[i].1 {
                return s.clone();
            }
        }
        let full = uuid_string(self.id);
        full.as_str().substring_char(0, 8).to_string()
    }
}

} // verus!
