//! Properties of the data model that span several operations.
use vstd::prelude::*;
use crate::table::{has_key, key_index, keys_unique, lemma_insert, lemma_remove, lemma_unique_key_at, lookup, table_insert, table_remove};
use super::attribute::{AttributeValueView, AttributeView};
use super::entity::{
    AttributeDef, defined, first_named, float_or, has_named, is_first_named, lemma_first_named, lemma_has_first_named,
    named, names_unique, set_float_named,
};
use super::scene::SceneView;
use super::scene_manager::SceneManagerView;

verus! {

/// Setting an attribute's float value by name, then reading it by name,
/// gives that value back (as `set_x` then `get_x` does).
pub proof fn law_set_float_then_read(t: Seq<(u128, AttributeView)>, name: Seq<char>, v: u32, default: u32)
    requires
        has_named(t, name),
    ensures
        float_or(set_float_named(t, name, v), name, default) == v,
        named(set_float_named(t, name, v), name) matches Some(a) && a.value == AttributeValueView::Float(v),
{
    lemma_has_first_named(t, name);
    let i = first_named(t, name);
    let r = set_float_named(t, name, v);
    assert(is_first_named(r, name, i)) by {
        assert forall|j: int| 0 <= j < i implies #[trigger] r[j].1.name != name by {
            assert(r[j] == t[j]);
        }
    }
    lemma_first_named(r, name, i);
}

/// Setting an attribute's float value by name leaves every other attribute
/// as it was.
pub proof fn law_set_float_keeps_others(t: Seq<(u128, AttributeView)>, name: Seq<char>, v: u32, other: Seq<char>, default: u32)
    requires
        has_named(t, name),
        other != name,
    ensures
        named(set_float_named(t, name, v), other) == named(t, other),
        float_or(set_float_named(t, name, v), other, default) == float_or(t, other, default),
{
    lemma_has_first_named(t, name);
    let i = first_named(t, name);
    let r = set_float_named(t, name, v);
    assert forall|j: int| 0 <= j < r.len() && j != i implies #[trigger] r[j] == t[j] by {}
    assert forall|j: int| 0 <= j < r.len() implies #[trigger] r[j].1.name == t[j].1.name by {}
    if has_named(t, other) {
        lemma_has_first_named(t, other);
        let k = first_named(t, other);
        assert(k != i);
        assert(is_first_named(r, other, k)) by {
            assert forall|j: int| 0 <= j < k implies #[trigger] r[j].1.name != other by {
                assert(r[j].1.name == t[j].1.name);
            }
        }
        lemma_first_named(r, other, k);
        lemma_first_named(t, other, k);
    } else {
        if has_named(r, other) {
            let w = choose|j: int| 0 <= j < r.len() && #[trigger] r[j].1.name == other;
            assert(t[w].1.name == other);
        }
    }
}

/// Creating an attribute under a name not yet used keeps the entity's
/// attribute names unique.
pub proof fn law_create_attribute_keeps_names_unique(t: Seq<(u128, AttributeView)>, id: u128, d: AttributeDef)
    requires
        names_unique(t),
        !has_named(t, d.0),
    ensures
        names_unique(table_insert(t, id, defined(id, d))),
{
    let r = table_insert(t, id, defined(id, d));
    assert forall|i: int, j: int| 0 <= i < r.len() && 0 <= j < r.len() && i != j implies
        #[trigger] r[i].1.name != #[trigger] r[j].1.name by {
        if has_key(t, id) {
            let c = key_index(t, id);
            if i == c {
                assert(r[j] == t[j]);
                assert(t[j].1.name != d.0);
            } else if j == c {
                assert(r[i] == t[i]);
                assert(t[i].1.name != d.0);
            } else {
                assert(t[i].1.name != t[j].1.name);
            }
        } else {
            if i == t.len() {
                assert(t[j].1.name != d.0);
            } else if j == t.len() {
                assert(t[i].1.name != d.0);
            } else {
                assert(t[i].1.name != t[j].1.name);
            }
        }
    }
}

/// Creating an entry under a new key and then deleting that key gives the
/// table back (as `create_entity` then `delete_entity` does).
pub proof fn law_insert_then_remove<V>(t: Seq<(u128, V)>, k: u128, v: V)
    requires
        keys_unique(t),
        !has_key(t, k),
    ensures
        table_remove(table_insert(t, k, v), k) == t,
{
    let r = table_insert(t, k, v);
    lemma_insert(t, k, v);
    lemma_unique_key_at(r, t.len() as int);
    assert(table_remove(r, k) =~= t);
}

/// After a deletion, the key is gone and every other key finds what it found
/// before (as `delete_scene`, `delete_entity`, `delete_shared_entity` and
/// `delete_attribute` do when they remove).
pub proof fn law_remove_only_that_key<V>(t: Seq<(u128, V)>, k: u128, other: u128)
    requires
        keys_unique(t),
        other != k,
    ensures
        lookup(table_remove(t, k), k) is None,
        lookup(table_remove(t, k), other) == lookup(t, other),
{
    lemma_remove(t, k);
}

/// After an insertion, the key finds the inserted value and every other key
/// finds what it found before (as the `create_*` operations do).
pub proof fn law_insert_only_that_key<V>(t: Seq<(u128, V)>, k: u128, v: V, other: u128)
    requires
        keys_unique(t),
        other != k,
    ensures
        lookup(table_insert(t, k, v), k) == Some(v),
        lookup(table_insert(t, k, v), other) == lookup(t, other),
{
    lemma_insert(t, k, v);
}

/// Adding a shared-entity reference (or a resource path) not yet present and
/// then removing it gives the list back.
pub proof fn law_add_then_remove_reference<T>(refs: Seq<T>, x: T)
    requires
        !refs.contains(x),
    ensures
        refs.push(x).filter(|y: T| y != x) == refs,
{
    let p = |y: T| y != x;
    refs.lemma_filter_push(x, p);
    lemma_filter_keeps_all(refs, x);
}

/// Filtering out an element that a list does not hold keeps the list.
pub proof fn lemma_filter_keeps_all<T>(refs: Seq<T>, x: T)
    requires
        !refs.contains(x),
    ensures
        refs.filter(|y: T| y != x) == refs,
    decreases refs.len(),
{
    let p = |y: T| y != x;
    if refs.len() > 0 {
        let init = refs.drop_last();
        assert(!init.contains(x)) by {
            if init.contains(x) {
                let w = choose|w: int| 0 <= w < init.len() && init[w] == x;
                assert(refs[w] == x);
            }
        }
        lemma_filter_keeps_all(init, x);
        assert(refs =~= init.push(refs.last()));
        assert(refs.last() != x) by {
            assert(refs[refs.len() - 1] == refs.last());
        }
        init.lemma_filter_push(refs.last(), p);
    } else {
        reveal(Seq::filter);
    }
}

/// Making a scene active, then asking for the active scene, gives that scene.
pub proof fn law_set_active_then_get(m: SceneManagerView, id: u128)
    requires
        has_key(m.scenes, id),
    ensures
        m.with_active(Some(id)).active() == lookup(m.scenes, id),
        m.with_active(Some(id)).active() is Some,
{
}

/// A scene's updates applied one by one: an empty batch changes nothing.
pub proof fn law_no_updates_no_change(s: SceneView)
    ensures
        s.apply_updates(Seq::empty()) == (s, None::<Seq<char>>),
{
}

} // verus!
