//! Ordered, keyed tables: the mathematical model of an insertion-ordered map
//! from 128-bit ids to values, as a sequence of `(key, value)` pairs.
use indexmap::IndexMap;
use vstd::prelude::*;

verus! {

#[verifier::external_type_specification]
#[verifier::external_body]
#[verifier::reject_recursive_types(K)]
#[verifier::reject_recursive_types(V)]
#[verifier::reject_recursive_types(S)]
pub struct ExIndexMap<K, V, S>(IndexMap<K, V, S>);

/// The table holds an entry with key `k`.
pub open spec fn has_key<V>(t: Seq<(u128, V)>, k: u128) -> bool {
    exists|i: int| 0 <= i < t.len() && #[trigger] t[i].0 == k
}

/// No key occurs twice.
pub open spec fn keys_unique<V>(t: Seq<(u128, V)>) -> bool {
    forall|i: int, j: int|
        0 <= i < t.len() && 0 <= j < t.len() && i != j ==> #[trigger] t[i].0 != #[trigger] t[j].0
}

/// The position of the entry with key `k` (meaningful when `has_key(t, k)`).
pub open spec fn key_index<V>(t: Seq<(u128, V)>, k: u128) -> int {
    choose|i: int| 0 <= i < t.len() && #[trigger] t[i].0 == k
}

/// The value stored under `k`, if any.
pub open spec fn lookup<V>(t: Seq<(u128, V)>, k: u128) -> Option<V> {
    if has_key(t, k) {
        Some(t[key_index(t, k)].1)
    } else {
        None
    }
}

/// Inserting keeps an existing key in its place and replaces its value;
/// a new key goes last.
pub open spec fn table_insert<V>(t: Seq<(u128, V)>, k: u128, v: V) -> Seq<(u128, V)> {
    if has_key(t, k) {
        t.update(key_index(t, k), (k, v))
    } else {
        t.push((k, v))
    }
}

/// Removing shifts the entries after the removed one, keeping their order.
pub open spec fn table_remove<V>(t: Seq<(u128, V)>, k: u128) -> Seq<(u128, V)> {
    if has_key(t, k) {
        t.remove(key_index(t, k))
    } else {
        t
    }
}

/// The keys in table order.
pub open spec fn table_keys<V>(t: Seq<(u128, V)>) -> Seq<u128> {
    t.map_values(|e: (u128, V)| e.0)
}

/// The values in table order.
pub open spec fn table_values<V>(t: Seq<(u128, V)>) -> Seq<V> {
    t.map_values(|e: (u128, V)| e.1)
}

/// `i` is the first position whose value satisfies `p`.
pub open spec fn is_first_match<V>(t: Seq<(u128, V)>, p: spec_fn(V) -> bool, i: int) -> bool {
    &&& 0 <= i < t.len()
    &&& p(t[i].1)
    &&& forall|j: int| 0 <= j < i ==> !p(#[trigger] t[j].1)
}

/// The first value satisfying `p`, if any.
pub open spec fn first_match<V>(t: Seq<(u128, V)>, p: spec_fn(V) -> bool) -> Option<V> {
    if exists|i: int| 0 <= i < t.len() && p(#[trigger] t[i].1) {
        Some(t[choose|i: int| is_first_match(t, p, i)].1)
    } else {
        None
    }
}

/// The first match is the one at its first position.
pub proof fn lemma_first_match<V>(t: Seq<(u128, V)>, p: spec_fn(V) -> bool, i: int)
    requires
        is_first_match(t, p, i),
    ensures
        first_match(t, p) == Some(t[i].1),
{
    assert(0 <= i < t.len() && p(t[i].1));
    let c = choose|i: int| is_first_match(t, p, i);
    assert(is_first_match(t, p, c));
    if c < i {
        assert(!p(t[c].1));
    }
    if c > i {
        assert(!p(t[i].1));
    }
}

/// The entry at `i` is the only one with its key: then it is the one found by key.
pub proof fn lemma_key_at<V>(t: Seq<(u128, V)>, i: int)
    requires
        0 <= i < t.len(),
        forall|j: int| 0 <= j < t.len() && j != i ==> #[trigger] t[j].0 != t[i].0,
    ensures
        has_key(t, t[i].0),
        key_index(t, t[i].0) == i,
        lookup(t, t[i].0) == Some(t[i].1),
{
    let k = t[i].0;
    assert(t[i].0 == k);
    let c = key_index(t, k);
    assert(0 <= c < t.len() && t[c].0 == k);
}

/// In a table whose keys are unique, the entry found by key is the one at `i`.
pub proof fn lemma_unique_key_at<V>(t: Seq<(u128, V)>, i: int)
    requires
        keys_unique(t),
        0 <= i < t.len(),
    ensures
        has_key(t, t[i].0),
        key_index(t, t[i].0) == i,
        lookup(t, t[i].0) == Some(t[i].1),
{
    assert forall|j: int| 0 <= j < t.len() && j != i implies #[trigger] t[j].0 != t[i].0 by {
        assert(t[i].0 != t[j].0);
    }
    lemma_key_at(t, i);
}

/// Inserting keeps keys unique, and the key then maps to the inserted value.
pub proof fn lemma_insert<V>(t: Seq<(u128, V)>, k: u128, v: V)
    requires
        keys_unique(t),
    ensures
        keys_unique(table_insert(t, k, v)),
        lookup(table_insert(t, k, v), k) == Some(v),
        forall|k2: u128| k2 != k ==> lookup(table_insert(t, k, v), k2) == lookup(t, k2),
        table_insert(t, k, v).len() == if has_key(t, k) { t.len() } else { t.len() + 1 },
{
    let r = table_insert(t, k, v);
    if has_key(t, k) {
        let c = key_index(t, k);
        assert(0 <= c < t.len() && t[c].0 == k);
        assert forall|i: int, j: int| 0 <= i < r.len() && 0 <= j < r.len() && i != j implies
            #[trigger] r[i].0 != #[trigger] r[j].0 by {
            assert(t[i].0 != t[j].0);
        }
    } else {
        assert forall|i: int, j: int| 0 <= i < r.len() && 0 <= j < r.len() && i != j implies
            #[trigger] r[i].0 != #[trigger] r[j].0 by {
            if i < t.len() && j < t.len() {
                assert(t[i].0 != t[j].0);
            } else if i < t.len() {
                assert(t[i].0 != k);
            } else {
                assert(t[j].0 != k);
            }
        }
    }
    lemma_unique_key_at(r, if has_key(t, k) { key_index(t, k) } else { t.len() as int });
    assert forall|k2: u128| k2 != k implies lookup(r, k2) == lookup(t, k2) by {
        if has_key(t, k2) {
            let c2 = key_index(t, k2);
            assert(0 <= c2 < t.len() && t[c2].0 == k2);
            assert(r[c2] == t[c2]);
            lemma_unique_key_at(t, c2);
            lemma_unique_key_at(r, c2);
        } else {
            if has_key(r, k2) {
                let c3 = key_index(r, k2);
                assert(0 <= c3 < r.len() && r[c3].0 == k2);
                assert(t[c3].0 == k2);
            }
        }
    }
}

/// After an insertion that leaves keys unique, the key finds the inserted value.
pub proof fn lemma_insert_lookup<V>(t: Seq<(u128, V)>, k: u128, v: V)
    requires
        keys_unique(table_insert(t, k, v)),
    ensures
        lookup(table_insert(t, k, v), k) == Some(v),
{
    let r = table_insert(t, k, v);
    if has_key(t, k) {
        let c = key_index(t, k);
        assert(0 <= c < t.len() && t[c].0 == k);
        lemma_unique_key_at(r, c);
    } else {
        lemma_unique_key_at(r, t.len() as int);
    }
}

/// Removing keeps keys unique, and the key is then absent.
pub proof fn lemma_remove<V>(t: Seq<(u128, V)>, k: u128)
    requires
        keys_unique(t),
    ensures
        keys_unique(table_remove(t, k)),
        !has_key(table_remove(t, k), k),
        forall|k2: u128| k2 != k ==> lookup(table_remove(t, k), k2) == lookup(t, k2),
        table_remove(t, k).len() == if has_key(t, k) { t.len() - 1 } else { t.len() as int },
{
    let r = table_remove(t, k);
    if has_key(t, k) {
        let c = key_index(t, k);
        assert(0 <= c < t.len() && t[c].0 == k);
        assert forall|i: int| 0 <= i < r.len() implies #[trigger] r[i] == if i < c { t[i] } else { t[i + 1] } by {}
        assert forall|i: int, j: int| 0 <= i < r.len() && 0 <= j < r.len() && i != j implies
            #[trigger] r[i].0 != #[trigger] r[j].0 by {
            let ti = if i < c { i } else { i + 1 };
            let tj = if j < c { j } else { j + 1 };
            assert(r[i] == t[ti] && r[j] == t[tj]);
            assert(t[ti].0 != t[tj].0);
        }
        if has_key(r, k) {
            let c3 = key_index(r, k);
            assert(0 <= c3 < r.len() && r[c3].0 == k);
            let tc = if c3 < c { c3 } else { c3 + 1 };
            assert(r[c3] == t[tc]);
            assert(t[tc].0 != t[c].0);
        }
        assert forall|k2: u128| k2 != k implies lookup(r, k2) == lookup(t, k2) by {
            if has_key(t, k2) {
                let c2 = key_index(t, k2);
                assert(0 <= c2 < t.len() && t[c2].0 == k2);
                let rc = if c2 < c { c2 } else { c2 - 1 };
                assert(c2 != c);
                assert(r[rc] == t[c2]);
                lemma_unique_key_at(t, c2);
                lemma_unique_key_at(r, rc);
            } else {
                if has_key(r, k2) {
                    let c3 = key_index(r, k2);
                    assert(0 <= c3 < r.len() && r[c3].0 == k2);
                    let tc = if c3 < c { c3 } else { c3 + 1 };
                    assert(r[c3] == t[tc]);
                }
            }
        }
    }
}

/// Removing a key that only the entry at `i` holds (or that no entry holds)
/// leaves no entry with that key.
pub proof fn lemma_remove_sole_key<V>(t: Seq<(u128, V)>, k: u128, found: Option<usize>)
    requires
        match found {
            Some(i) => i < t.len() && t[i as int].0 == k
                && forall|j: int| 0 <= j < t.len() && j != i ==> #[trigger] t[j].0 != k,
            None => !has_key(t, k),
        },
    ensures
        !has_key(table_remove(t, k), k),
{
    if let Some(i) = found {
        lemma_key_at(t, i as int);
        let r = table_remove(t, k);
        if has_key(r, k) {
            let c = choose|c: int| 0 <= c < r.len() && #[trigger] r[c].0 == k;
            let tc = if c < i { c } else { c + 1 };
            assert(r[c] == t[tc]);
        }
    }
}

} // verus!
