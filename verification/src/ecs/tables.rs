//! The insertion-ordered tables of the data model (`indexmap::IndexMap`
//! keyed by 128-bit ids), described by the sequence of their entries.
//!
//! Each wrapper below makes one call into `indexmap`. Their contracts restate
//! the crate's documentation: `insert` keeps an existing key in place and
//! replaces its value, or appends a new key; `shift_remove` removes an entry
//! and shifts the later ones down, keeping their order; a map never holds a
//! key twice.
use indexmap::IndexMap;
use vstd::prelude::*;
use crate::table::{has_key, keys_unique, lookup, table_insert, table_remove};
use super::attribute::{Attribute, AttributeView};
use super::entity::{Entity, EntityView};
use super::scene::{Scene, SceneView};

verus! {

/// The entries of a table of attributes, in order, each value by its view.
pub uninterp spec fn attribute_entries(m: IndexMap<u128, Attribute>) -> Seq<(u128, AttributeView)>;

/// `IndexMap::new`: an empty table of attributes.
#[verifier::external_body]
pub(crate) fn attributes_new() -> (m: IndexMap<u128, Attribute>)
    ensures
        attribute_entries(m) == Seq::<(u128, AttributeView)>::empty(),
{
    IndexMap::new()
}

/// `IndexMap::len`: the number of entries.
#[verifier::external_body]
pub(crate) fn attributes_len(m: &IndexMap<u128, Attribute>) -> (n: usize)
    ensures
        n == attribute_entries(*m).len(),
{
    m.len()
}

/// `IndexMap::get_index_of`: the position of the entry with key `k`; no
/// other entry has that key.
#[verifier::external_body]
pub(crate) fn attributes_index_of(m: &IndexMap<u128, Attribute>, k: u128) -> (r: Option<usize>)
    ensures
        match r {
            Some(i) => i < attribute_entries(*m).len() && attribute_entries(*m)[i as int].0 == k && forall|j: int|
                0 <= j < attribute_entries(*m).len() && j != i ==> #[trigger] attribute_entries(*m)[j].0 != k,
            None => !has_key(attribute_entries(*m), k),
        },
{
    m.get_index_of(&k)
}

/// `IndexMap::get_index`: the entry at position `i`; no other entry has its key.
#[verifier::external_body]
pub(crate) fn attributes_entry(m: &IndexMap<u128, Attribute>, i: usize) -> (r: (u128, &Attribute))
    requires
        i < attribute_entries(*m).len(),
    ensures
        r.0 == attribute_entries(*m)[i as int].0,
        r.1@ == attribute_entries(*m)[i as int].1,
        forall|j: int| 0 <= j < attribute_entries(*m).len() && j != i ==> #[trigger] attribute_entries(*m)[j].0 != r.0,
{
    let (k, v) = m.get_index(i).unwrap();
    (*k, v)
}

/// `IndexMap`'s `IndexMut<usize>`: the value at position `i`, to change in place.
#[verifier::external_body]
pub(crate) fn attributes_value_mut(m: &mut IndexMap<u128, Attribute>, i: usize) -> (r: &mut Attribute)
    requires
        i < attribute_entries(*old(m)).len(),
    ensures
        (*r)@ == attribute_entries(*old(m))[i as int].1,
        attribute_entries(*final(m)) == attribute_entries(*old(m)).update(
            i as int,
            (attribute_entries(*old(m))[i as int].0, (*final(r))@),
        ),
{
    &mut m[i]
}

/// `IndexMap::insert`.
#[verifier::external_body]
pub(crate) fn attributes_insert(m: &mut IndexMap<u128, Attribute>, k: u128, v: Attribute) -> (r: Option<Attribute>)
    ensures
        attribute_entries(*final(m)) == table_insert(attribute_entries(*old(m)), k, v@),
        keys_unique(attribute_entries(*final(m))),
        r is Some == has_key(attribute_entries(*old(m)), k),
        r matches Some(o) ==> o@ == lookup(attribute_entries(*old(m)), k)->0,
{
    m.insert(k, v)
}

/// `IndexMap::shift_remove`.
#[verifier::external_body]
pub(crate) fn attributes_shift_remove(m: &mut IndexMap<u128, Attribute>, k: u128) -> (r: Option<Attribute>)
    ensures
        attribute_entries(*final(m)) == table_remove(attribute_entries(*old(m)), k),
        keys_unique(attribute_entries(*final(m))),
        r is Some == has_key(attribute_entries(*old(m)), k),
        r matches Some(o) ==> o@ == lookup(attribute_entries(*old(m)), k)->0,
{
    m.shift_remove(&k)
}

/// `IndexMap`'s `Clone`: the same entries, each value cloned (the values'
/// own clones keep their views).
#[verifier::external_body]
pub(crate) fn attributes_clone(m: &IndexMap<u128, Attribute>) -> (r: IndexMap<u128, Attribute>)
    ensures
        attribute_entries(r) == attribute_entries(*m),
{
    m.clone()
}

/// The entries of a table of entities, in order, each value by its view.
pub uninterp spec fn entity_entries(m: IndexMap<u128, Entity>) -> Seq<(u128, EntityView)>;

/// `IndexMap::new`: an empty table of entities.
#[verifier::external_body]
pub(crate) fn entities_new() -> (m: IndexMap<u128, Entity>)
    ensures
        entity_entries(m) == Seq::<(u128, EntityView)>::empty(),
{
    IndexMap::new()
}

/// `IndexMap::len`: the number of entries.
#[verifier::external_body]
pub(crate) fn entities_len(m: &IndexMap<u128, Entity>) -> (n: usize)
    ensures
        n == entity_entries(*m).len(),
{
    m.len()
}

/// `IndexMap::get_index_of`: the position of the entry with key `k`; no
/// other entry has that key.
#[verifier::external_body]
pub(crate) fn entities_index_of(m: &IndexMap<u128, Entity>, k: u128) -> (r: Option<usize>)
    ensures
        match r {
            Some(i) => i < entity_entries(*m).len() && entity_entries(*m)[i as int].0 == k && forall|j: int|
                0 <= j < entity_entries(*m).len() && j != i ==> #[trigger] entity_entries(*m)[j].0 != k,
            None => !has_key(entity_entries(*m), k),
        },
{
    m.get_index_of(&k)
}

/// `IndexMap::get_index`: the entry at position `i`; no other entry has its key.
#[verifier::external_body]
pub(crate) fn entities_entry(m: &IndexMap<u128, Entity>, i: usize) -> (r: (u128, &Entity))
    requires
        i < entity_entries(*m).len(),
    ensures
        r.0 == entity_entries(*m)[i as int].0,
        r.1@ == entity_entries(*m)[i as int].1,
        forall|j: int| 0 <= j < entity_entries(*m).len() && j != i ==> #[trigger] entity_entries(*m)[j].0 != r.0,
{
    let (k, v) = m.get_index(i).unwrap();
    (*k, v)
}

/// `IndexMap`'s `IndexMut<usize>`: the value at position `i`, to change in place.
#[verifier::external_body]
pub(crate) fn entities_value_mut(m: &mut IndexMap<u128, Entity>, i: usize) -> (r: &mut Entity)
    requires
        i < entity_entries(*old(m)).len(),
    ensures
        (*r)@ == entity_entries(*old(m))[i as int].1,
        entity_entries(*final(m)) == entity_entries(*old(m)).update(
            i as int,
            (entity_entries(*old(m))[i as int].0, (*final(r))@),
        ),
{
    &mut m[i]
}

/// `IndexMap::insert`.
#[verifier::external_body]
pub(crate) fn entities_insert(m: &mut IndexMap<u128, Entity>, k: u128, v: Entity) -> (r: Option<Entity>)
    ensures
        entity_entries(*final(m)) == table_insert(entity_entries(*old(m)), k, v@),
        keys_unique(entity_entries(*final(m))),
        r is Some == has_key(entity_entries(*old(m)), k),
        r matches Some(o) ==> o@ == lookup(entity_entries(*old(m)), k)->0,
{
    m.insert(k, v)
}

/// `IndexMap::shift_remove`.
#[verifier::external_body]
pub(crate) fn entities_shift_remove(m: &mut IndexMap<u128, Entity>, k: u128) -> (r: Option<Entity>)
    ensures
        entity_entries(*final(m)) == table_remove(entity_entries(*old(m)), k),
        keys_unique(entity_entries(*final(m))),
        r is Some == has_key(entity_entries(*old(m)), k),
        r matches Some(o) ==> o@ == lookup(entity_entries(*old(m)), k)->0,
{
    m.shift_remove(&k)
}

/// `IndexMap`'s `Clone`: the same entries, each value cloned (the values'
/// own clones keep their views).
#[verifier::external_body]
pub(crate) fn entities_clone(m: &IndexMap<u128, Entity>) -> (r: IndexMap<u128, Entity>)
    ensures
        entity_entries(r) == entity_entries(*m),
{
    m.clone()
}

/// The entries of a table of scenes, in order, each value by its view.
pub uninterp spec fn scene_entries(m: IndexMap<u128, Scene>) -> Seq<(u128, SceneView)>;

/// `IndexMap::new`: an empty table of scenes.
#[verifier::external_body]
pub(crate) fn scenes_new() -> (m: IndexMap<u128, Scene>)
    ensures
        scene_entries(m) == Seq::<(u128, SceneView)>::empty(),
{
    IndexMap::new()
}

/// `IndexMap::len`: the number of entries.
#[verifier::external_body]
pub(crate) fn scenes_len(m: &IndexMap<u128, Scene>) -> (n: usize)
    ensures
        n == scene_entries(*m).len(),
{
    m.len()
}

/// `IndexMap::get_index_of`: the position of the entry with key `k`; no
/// other entry has that key.
#[verifier::external_body]
pub(crate) fn scenes_index_of(m: &IndexMap<u128, Scene>, k: u128) -> (r: Option<usize>)
    ensures
        match r {
            Some(i) => i < scene_entries(*m).len() && scene_entries(*m)[i as int].0 == k && forall|j: int|
                0 <= j < scene_entries(*m).len() && j != i ==> #[trigger] scene_entries(*m)[j].0 != k,
            None => !has_key(scene_entries(*m), k),
        },
{
    m.get_index_of(&k)
}

/// `IndexMap::get_index`: the entry at position `i`; no other entry has its key.
#[verifier::external_body]
pub(crate) fn scenes_entry(m: &IndexMap<u128, Scene>, i: usize) -> (r: (u128, &Scene))
    requires
        i < scene_entries(*m).len(),
    ensures
        r.0 == scene_entries(*m)[i as int].0,
        r.1@ == scene_entries(*m)[i as int].1,
        forall|j: int| 0 <= j < scene_entries(*m).len() && j != i ==> #[trigger] scene_entries(*m)[j].0 != r.0,
{
    let (k, v) = m.get_index(i).unwrap();
    (*k, v)
}

/// `IndexMap`'s `IndexMut<usize>`: the value at position `i`, to change in place.
#[verifier::external_body]
pub(crate) fn scenes_value_mut(m: &mut IndexMap<u128, Scene>, i: usize) -> (r: &mut Scene)
    requires
        i < scene_entries(*old(m)).len(),
    ensures
        (*r)@ == scene_entries(*old(m))[i as int].1,
        scene_entries(*final(m)) == scene_entries(*old(m)).update(
            i as int,
            (scene_entries(*old(m))[i as int].0, (*final(r))@),
        ),
{
    &mut m[i]
}

/// `IndexMap::insert`.
#[verifier::external_body]
pub(crate) fn scenes_insert(m: &mut IndexMap<u128, Scene>, k: u128, v: Scene) -> (r: Option<Scene>)
    ensures
        scene_entries(*final(m)) == table_insert(scene_entries(*old(m)), k, v@),
        keys_unique(scene_entries(*final(m))),
        r is Some == has_key(scene_entries(*old(m)), k),
        r matches Some(o) ==> o@ == lookup(scene_entries(*old(m)), k)->0,
{
    m.insert(k, v)
}

/// `IndexMap::shift_remove`.
#[verifier::external_body]
pub(crate) fn scenes_shift_remove(m: &mut IndexMap<u128, Scene>, k: u128) -> (r: Option<Scene>)
    ensures
        scene_entries(*final(m)) == table_remove(scene_entries(*old(m)), k),
        keys_unique(scene_entries(*final(m))),
        r is Some == has_key(scene_entries(*old(m)), k),
        r matches Some(o) ==> o@ == lookup(scene_entries(*old(m)), k)->0,
{
    m.shift_remove(&k)
}

/// `IndexMap`'s `Clone`: the same entries, each value cloned (the values'
/// own clones keep their views).
#[verifier::external_body]
pub(crate) fn scenes_clone(m: &IndexMap<u128, Scene>) -> (r: IndexMap<u128, Scene>)
    ensures
        scene_entries(r) == scene_entries(*m),
{
    m.clone()
}

} // verus!
