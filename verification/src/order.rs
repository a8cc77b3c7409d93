//! Ordering of listings: texts compared character by character (the order
//! of `String`'s `Ord`), keys made of a rank and a text, and a stable sort
//! by such keys.
use vstd::prelude::*;

verus! {

/// `a` comes before `b` in lexicographic order of characters (their code
/// points), a proper prefix coming first.
pub open spec fn text_less(a: Seq<char>, b: Seq<char>) -> bool
    decreases a.len(),
{
    if a.len() == 0 {
        b.len() > 0
    } else if b.len() == 0 {
        false
    } else if (a[0] as u32) != (b[0] as u32) {
        (a[0] as u32) < (b[0] as u32)
    } else {
        text_less(a.drop_first(), b.drop_first())
    }
}

/// Nothing comes before itself, and of two texts at most one comes first.
pub proof fn lemma_text_less_asymmetric(a: Seq<char>, b: Seq<char>)
    ensures
        text_less(a, b) ==> !text_less(b, a),
    decreases a.len(),
{
    if a.len() > 0 && b.len() > 0 && (a[0] as u32) == (b[0] as u32) {
        lemma_text_less_asymmetric(a.drop_first(), b.drop_first());
    }
}

/// When `a` comes before `c`, any `b` comes after `a` or before `c`.
pub proof fn lemma_text_less_split(a: Seq<char>, b: Seq<char>, c: Seq<char>)
    ensures
        text_less(a, c) ==> text_less(a, b) || text_less(b, c),
    decreases a.len(),
{
    if a.len() > 0 && b.len() > 0 && c.len() > 0 && (a[0] as u32) == (b[0] as u32)
        && (b[0] as u32) == (c[0] as u32) {
        lemma_text_less_split(a.drop_first(), b.drop_first(), c.drop_first());
    }
}

/// Does `a` come before `b` (see `text_less`)?
pub fn text_less_exec(a: &str, b: &str) -> (r: bool)
    ensures
        r == text_less(a@, b@),
{
    let n = a.unicode_len();
    let m = b.unicode_len();
    let mut i: usize = 0;
    proof {
        assert(a@.skip(0) =~= a@);
        assert(b@.skip(0) =~= b@);
    }
    while i < n && i < m
        invariant
            n == a@.len(),
            m == b@.len(),
            i <= n,
            i <= m,
            text_less(a@, b@) == text_less(a@.skip(i as int), b@.skip(i as int)),
        decreases n - i,
    {
        let ca = a.get_char(i);
        let cb = b.get_char(i);
        proof {
            assert(a@.skip(i as int)[0] == ca);
            assert(b@.skip(i as int)[0] == cb);
            assert(a@.skip(i as int).drop_first() =~= a@.skip(i + 1));
            assert(b@.skip(i as int).drop_first() =~= b@.skip(i + 1));
        }
        if (ca as u32) != (cb as u32) {
            return (ca as u32) < (cb as u32);
        }
        i = i + 1;
    }
    i < m
}

/// A sort key: first its rank, then its text.
#[derive(Debug)]
pub struct SortKey {
    pub rank: u8,
    pub text: String,
}

impl View for SortKey {
    type V = (u8, Seq<char>);

    open spec fn view(&self) -> (u8, Seq<char>) {
        (self.rank, self.text@)
    }
}

/// The views of a list of keys.
pub open spec fn key_views(v: Seq<SortKey>) -> Seq<(u8, Seq<char>)> {
    v.map_values(|k: SortKey| k@)
}

/// Key `a` comes before key `b`: a lower rank, or the same rank and an
/// earlier text.
pub open spec fn key_before(a: (u8, Seq<char>), b: (u8, Seq<char>)) -> bool {
    a.0 < b.0 || (a.0 == b.0 && text_less(a.1, b.1))
}

/// Of two keys at most one comes first.
pub proof fn lemma_key_before_asymmetric(a: (u8, Seq<char>), b: (u8, Seq<char>))
    ensures
        key_before(a, b) ==> !key_before(b, a),
{
    lemma_text_less_asymmetric(a.1, b.1);
}

/// When `a` comes before `c`, any `b` comes after `a` or before `c`.
pub proof fn lemma_key_before_split(a: (u8, Seq<char>), b: (u8, Seq<char>), c: (u8, Seq<char>))
    ensures
        key_before(a, c) ==> key_before(a, b) || key_before(b, c),
{
    lemma_text_less_split(a.1, b.1, c.1);
}

/// Does key `a` come before key `b`?
pub fn key_before_exec(a: &SortKey, b: &SortKey) -> (r: bool)
    ensures
        r == key_before(a@, b@),
{
    if a.rank != b.rank {
        a.rank < b.rank
    } else {
        text_less_exec(a.text.as_str(), b.text.as_str())
    }
}

/// `perm` orders the positions of `keys` stably: every position is used
/// once, no key comes before an earlier one, and positions with equal keys
/// keep their order.
pub open spec fn stable_order(keys: Seq<(u8, Seq<char>)>, perm: Seq<usize>) -> bool {
    &&& perm.len() == keys.len()
    &&& forall|k: int| 0 <= k < perm.len() ==> (#[trigger] perm[k]) < keys.len()
    &&& forall|k: int, l: int| 0 <= k < l < perm.len() ==> perm[k] != perm[l]
    &&& forall|k: int, l: int|
        0 <= k < l < perm.len() ==> !key_before(keys[perm[l] as int], keys[perm[k] as int])
    &&& forall|k: int, l: int|
        0 <= k < l < perm.len() && !key_before(keys[perm[k] as int], keys[perm[l] as int])
            ==> perm[k] < perm[l]
}

/// `out` is `input` sorted stably by `keys`, the item at position `k` of
/// `out` coming from position `perm[k]` of `input`.
pub open spec fn sorts_stably<T>(input: Seq<T>, keys: Seq<(u8, Seq<char>)>, out: Seq<T>, perm: Seq<usize>) -> bool {
    &&& keys.len() == input.len()
    &&& out.len() == input.len()
    &&& stable_order(keys, perm)
    &&& forall|k: int| 0 <= k < perm.len() ==> #[trigger] out[k] == input[perm[k] as int]
}

/// A stable sorting of items is one of their views too.
pub proof fn lemma_sorts_stably_views<T, V>(
    input: Seq<T>,
    keys: Seq<(u8, Seq<char>)>,
    out: Seq<T>,
    perm: Seq<usize>,
    f: spec_fn(T) -> V,
)
    requires
        sorts_stably(input, keys, out, perm),
    ensures
        sorts_stably(input.map_values(f), keys, out.map_values(f), perm),
{
    assert forall|k: int| 0 <= k < perm.len() implies #[trigger] out.map_values(f)[k]
        == input.map_values(f)[perm[k] as int] by {
        assert(out[k] == input[perm[k] as int]);
        assert(perm[k] < input.len());
    }
}

/// The invariant of the insertion sort after `i` items: `order` is a
/// stable sorting of the first `i` positions.
pub open spec fn sorted_prefix(keys: Seq<(u8, Seq<char>)>, order: Seq<usize>, i: int) -> bool {
    &&& order.len() == i
    &&& forall|k: int| 0 <= k < i ==> (#[trigger] order[k]) < i
    &&& forall|k: int, l: int| 0 <= k < l < i ==> order[k] != order[l]
    &&& forall|k: int, l: int|
        0 <= k < l < i ==> !key_before(keys[order[l] as int], keys[order[k] as int])
    &&& forall|k: int, l: int|
        0 <= k < l < i && !key_before(keys[order[k] as int], keys[order[l] as int])
            ==> order[k] < order[l]
}

/// Inserting position `i` at `p`, after every key it does not come before
/// and before every key it does come before, keeps the order stably sorted.
proof fn lemma_insert_sorted(keys: Seq<(u8, Seq<char>)>, order: Seq<usize>, i: int, p: int)
    requires
        0 <= i < keys.len(),
        i < usize::MAX,
        sorted_prefix(keys, order, i),
        0 <= p <= i,
        p > 0 ==> !key_before(keys[i], keys[order[p - 1] as int]),
        forall|j: int| p <= j < i ==> key_before(keys[i], keys[#[trigger] order[j] as int]),
    ensures
        sorted_prefix(keys, order.insert(p, i as usize), i + 1),
{
    let o2 = order.insert(p, i as usize);
    order.insert_ensures(p, i as usize);
    assert forall|k: int| 0 <= k < i + 1 implies (#[trigger] o2[k]) < i + 1 by {
        if k > p {
            assert(o2[k] == order[k - 1]);
        }
    }
    assert forall|k: int, l: int| 0 <= k < l < i + 1 implies o2[k] != o2[l] by {
        if l < p {
        } else if l == p {
            assert(order[k] < i);
        } else if k == p {
            assert(o2[l] == order[l - 1]);
        } else if k < p {
            assert(o2[l] == order[l - 1]);
        } else {
            assert(o2[l] == order[l - 1]);
            assert(o2[k] == order[k - 1]);
        }
    }
    assert forall|k: int, l: int| 0 <= k < l < i + 1 implies
        !key_before(keys[o2[l] as int], keys[o2[k] as int])
        && (!key_before(keys[o2[k] as int], keys[o2[l] as int]) ==> o2[k] < o2[l]) by {
        let x = keys[i];
        if l < p {
        } else if l == p {
            // o2[k] = order[k], k < p: key i does not come before it.
            let y = keys[order[k] as int];
            let z = keys[order[p - 1] as int];
            if k < p - 1 {
                lemma_key_before_split(x, z, y);
            }
            assert(!key_before(x, y));
            assert(order[k] < i);
        } else if k == p {
            assert(o2[l] == order[l - 1]);
            assert(key_before(x, keys[order[l - 1] as int]));
            lemma_key_before_asymmetric(x, keys[order[l - 1] as int]);
        } else if k < p {
            assert(o2[l] == order[l - 1]);
        } else {
            assert(o2[l] == order[l - 1]);
            assert(o2[k] == order[k - 1]);
        }
    }
}

/// `items` sorted stably by `keys` (each item has the key at its position),
/// as `sort_by` does with the key order.
pub fn stable_sort<T>(items: Vec<T>, keys: &Vec<SortKey>) -> (r: Vec<T>)
    requires
        items.len() == keys.len(),
    ensures
        exists|perm: Seq<usize>| sorts_stably(items@, key_views(keys@), r@, perm),
{
    let n = items.len();
    let ghost orig = items@;
    let ghost kv = key_views(keys@);
    let mut rest = items;
    let mut out: Vec<T> = Vec::new();
    let mut order: Vec<usize> = Vec::new();
    let mut i: usize = 0;
    proof {
        assert(orig.skip(0) =~= orig);
    }
    while i < n
        invariant
            n == orig.len(),
            n == keys.len(),
            kv == key_views(keys@),
            i <= n,
            rest@ == orig.skip(i as int),
            out.len() == i,
            sorted_prefix(kv, order@, i as int),
            forall|k: int| 0 <= k < i ==> out@[k] == orig[(#[trigger] order@[k]) as int],
        decreases n - i,
    {
        let ghost r0 = rest@;
        let x = rest.remove(0);
        proof {
            assert(x == orig[i as int]);
            assert(rest@ =~= orig.skip(i + 1));
        }
        let mut p: usize = i;
        while p > 0 && key_before_exec(&keys[i], &keys[order[p - 1]])
            invariant
                n == keys.len(),
                kv == key_views(keys@),
                i < n,
                p <= i,
                sorted_prefix(kv, order@, i as int),
                forall|j: int| p <= j < i ==> key_before(kv[i as int], kv[#[trigger] order@[j] as int]),
            decreases p,
        {
            p = p - 1;
        }
        proof {
            lemma_insert_sorted(kv, order@, i as int, p as int);
        }
        let ghost o0 = order@;
        let ghost out0 = out@;
        out.insert(p, x);
        order.insert(p, i);
        proof {
            o0.insert_ensures(p as int, i);
            out0.insert_ensures(p as int, x);
            assert forall|k: int| 0 <= k < i + 1 implies out@[k] == orig[(#[trigger] order@[k]) as int] by {
                if k > p {
                    assert(order@[k] == o0[k - 1]);
                    assert(out@[k] == out0[k - 1]);
                }
            }
        }
        i = i + 1;
    }
    proof {
        assert(sorts_stably(orig, kv, out@, order@));
    }
    out
}

} // verus!
