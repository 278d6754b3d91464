//! Stable sorting of listings by a key of `u32` components.
//!
//! Names are ordered by their characters (the order of `String`), versions by
//! their numeric components, highest first. Both are the lexicographic order
//! of a component list, read forwards or backwards; a stable insertion sort by
//! that order gives the order in which the listings are shown.

use std::cmp::Ordering;
use vstd::prelude::*;
use crate::text::chars_of;
use crate::version::{
    lemma_lex_equal, lemma_lex_flip, lemma_lex_trans, lex_cmp, lex_order_exec, version_parts,
    version_parts_vec,
};

verus! {

/// How key `a` stands to key `b` in the listing: by `lex_cmp`, reversed when
/// the listing is descending.
pub open spec fn key_order(a: Seq<u32>, b: Seq<u32>, desc: bool) -> Ordering {
    if desc {
        lex_cmp(b, a)
    } else {
        lex_cmp(a, b)
    }
}

/// Key `a` goes strictly after key `b`.
pub open spec fn goes_after(a: Seq<u32>, b: Seq<u32>, desc: bool) -> bool {
    key_order(a, b, desc) == Ordering::Greater
}

/// Key `a` goes strictly before key `b`.
pub open spec fn goes_before(a: Seq<u32>, b: Seq<u32>, desc: bool) -> bool {
    key_order(a, b, desc) == Ordering::Less
}

/// Key `a` and key `b` hold the same place.
pub open spec fn same_place(a: Seq<u32>, b: Seq<u32>, desc: bool) -> bool {
    key_order(a, b, desc) == Ordering::Equal
}

/// Where a new item with key `k` is inserted into a sorted list of item
/// indices: before the first item whose key goes strictly after `k`.
pub open spec fn insert_pos(order: Seq<int>, keys: Seq<Seq<u32>>, k: Seq<u32>, desc: bool) -> int
    decreases order.len(),
{
    if order.len() == 0 {
        0
    } else if goes_after(keys[order[0]], k, desc) {
        0
    } else {
        1 + insert_pos(order.drop_first(), keys, k, desc)
    }
}

/// The indices `0..n` of `keys`, in the order of a stable insertion sort.
pub open spec fn sort_order(keys: Seq<Seq<u32>>, n: nat, desc: bool) -> Seq<int>
    decreases n,
{
    if n == 0 {
        Seq::empty()
    } else {
        let o = sort_order(keys, (n - 1) as nat, desc);
        o.insert(insert_pos(o, keys, keys[n - 1], desc), n - 1)
    }
}

/// `o` lists each of `0..n` exactly once.
pub open spec fn is_index_permutation(o: Seq<int>, n: nat) -> bool {
    &&& o.len() == n
    &&& forall|i: int| 0 <= i < o.len() ==> 0 <= #[trigger] o[i] < n
    &&& forall|i: int, j: int| 0 <= i < j < o.len() ==> o[i] != o[j]
    &&& forall|v: int| 0 <= v < n ==> #[trigger] o.contains(v)
}

/// No item of the listing goes strictly after one that follows it.
pub open spec fn is_sorted_by(o: Seq<int>, keys: Seq<Seq<u32>>, desc: bool) -> bool {
    forall|i: int, j: int| 0 <= i < j < o.len() ==> !goes_after(keys[o[i]], keys[o[j]], desc)
}

/// Items that hold the same place keep their original order.
pub open spec fn is_stable_by(o: Seq<int>, keys: Seq<Seq<u32>>, desc: bool) -> bool {
    forall|i: int, j: int|
        0 <= i < j < o.len() && same_place(keys[o[i]], keys[o[j]], desc) ==> o[i] < o[j]
}

proof fn lemma_key_flip(a: Seq<u32>, b: Seq<u32>, desc: bool)
    ensures
        goes_after(a, b, desc) == goes_before(b, a, desc),
        same_place(a, b, desc) == same_place(b, a, desc),
{
    lemma_lex_flip(a, b);
    lemma_lex_flip(b, a);
}

proof fn lemma_key_trans(a: Seq<u32>, b: Seq<u32>, c: Seq<u32>, desc: bool)
    requires
        !goes_after(a, b, desc),
        !goes_after(b, c, desc),
    ensures
        !goes_after(a, c, desc),
{
    if desc {
        lemma_lex_trans(c, b, a);
    } else {
        lemma_lex_trans(a, b, c);
    }
}

/// Strictly before, then not after, is strictly before.
proof fn lemma_key_strict(a: Seq<u32>, b: Seq<u32>, c: Seq<u32>, desc: bool)
    requires
        goes_before(a, b, desc),
        !goes_after(b, c, desc),
    ensures
        goes_before(a, c, desc),
{
    lemma_key_flip(a, b, desc);
    lemma_key_flip(a, c, desc);
    if same_place(a, c, desc) {
        if desc {
            lemma_lex_equal(c, a);
        } else {
            lemma_lex_equal(a, c);
        }
        assert(a == c);
    } else if goes_after(a, c, desc) {
        lemma_key_flip(c, a, desc);
        lemma_key_trans(b, c, a, desc);
    }
}

/// `insert_pos` is the first index whose key goes strictly after `k`.
proof fn lemma_insert_pos(order: Seq<int>, keys: Seq<Seq<u32>>, k: Seq<u32>, desc: bool)
    ensures
        0 <= insert_pos(order, keys, k, desc) <= order.len(),
        forall|q: int|
            0 <= q < insert_pos(order, keys, k, desc) ==> !goes_after(keys[order[q]], k, desc),
        insert_pos(order, keys, k, desc) < order.len() ==> goes_after(
            keys[order[insert_pos(order, keys, k, desc)]],
            k,
            desc,
        ),
    decreases order.len(),
{
    if order.len() > 0 && !goes_after(keys[order[0]], k, desc) {
        let rest = order.drop_first();
        lemma_insert_pos(rest, keys, k, desc);
        assert forall|q: int| 0 <= q < insert_pos(order, keys, k, desc) implies !goes_after(
            keys[order[q]],
            k,
            desc,
        ) by {
            if q > 0 {
                assert(order[q] == rest[q - 1]);
            }
        }
    }
}

/// The first index whose key goes strictly after `k` is `insert_pos`.
proof fn lemma_insert_pos_unique(order: Seq<int>, keys: Seq<Seq<u32>>, k: Seq<u32>, desc: bool, p: int)
    requires
        0 <= p <= order.len(),
        forall|q: int| 0 <= q < p ==> !goes_after(keys[order[q]], k, desc),
        p < order.len() ==> goes_after(keys[order[p]], k, desc),
    ensures
        insert_pos(order, keys, k, desc) == p,
{
    lemma_insert_pos(order, keys, k, desc);
}

/// The insertion sort lists each index once, in sorted and stable order.
proof fn lemma_sort_order(keys: Seq<Seq<u32>>, n: nat, desc: bool)
    requires
        n <= keys.len(),
    ensures
        is_index_permutation(sort_order(keys, n, desc), n),
        is_sorted_by(sort_order(keys, n, desc), keys, desc),
        is_stable_by(sort_order(keys, n, desc), keys, desc),
    decreases n,
{
    if n > 0 {
        let m = (n - 1) as nat;
        lemma_sort_order(keys, m, desc);
        let o = sort_order(keys, m, desc);
        let k = keys[m as int];
        let p = insert_pos(o, keys, k, desc);
        lemma_insert_pos(o, keys, k, desc);
        let o2 = o.insert(p, m as int);
        assert(sort_order(keys, n, desc) == o2);
        assert forall|i: int| 0 <= i < o2.len() implies 0 <= #[trigger] o2[i] < n by {
            if i < p {
                assert(o2[i] == o[i]);
            } else if i > p {
                assert(o2[i] == o[i - 1]);
            }
        }
        assert forall|v: int| 0 <= v < n implies #[trigger] o2.contains(v) by {
            if v == m {
                assert(o2[p] == m);
            } else {
                assert(o.contains(v));
                let j = choose|j: int| 0 <= j < o.len() && o[j] == v;
                if j < p {
                    assert(o2[j] == v);
                } else {
                    assert(o2[j + 1] == v);
                }
            }
        }
        assert forall|i: int, j: int| 0 <= i < j < o2.len() implies o2[i] != o2[j] by {
            if i != p && j != p {
                let i1 = if i < p { i } else { i - 1 };
                let j1 = if j < p { j } else { j - 1 };
                assert(o2[i] == o[i1]);
                assert(o2[j] == o[j1]);
            } else if i == p {
                assert(o2[j] == o[j - 1]);
            } else {
                assert(o2[i] == o[i]);
            }
        }
        assert forall|i: int, j: int| 0 <= i < j < o2.len() implies !goes_after(
            keys[o2[i]],
            keys[o2[j]],
            desc,
        ) && (same_place(keys[o2[i]], keys[o2[j]], desc) ==> o2[i] < o2[j]) by {
            if i != p && j != p {
                let i1 = if i < p { i } else { i - 1 };
                let j1 = if j < p { j } else { j - 1 };
                assert(o2[i] == o[i1]);
                assert(o2[j] == o[j1]);
            } else if j == p {
                assert(o2[i] == o[i]);
                assert(o2[j] == m);
            } else {
                assert(o2[i] == m);
                assert(o2[j] == o[j - 1]);
                lemma_key_flip(keys[o[p]], k, desc);
                if j - 1 > p {
                    lemma_key_strict(k, keys[o[p]], keys[o[j - 1]], desc);
                }
                lemma_key_flip(k, keys[o[j - 1]], desc);
            }
        }
    }
}

/// Sorting lists every item exactly once.
pub proof fn law_sort_order_permutation(keys: Seq<Seq<u32>>, desc: bool)
    ensures
        is_index_permutation(sort_order(keys, keys.len(), desc), keys.len()),
{
    lemma_sort_order(keys, keys.len(), desc);
}

/// Sorting puts no item after one that goes strictly before it.
pub proof fn law_sort_order_sorted(keys: Seq<Seq<u32>>, desc: bool)
    ensures
        is_sorted_by(sort_order(keys, keys.len(), desc), keys, desc),
{
    lemma_sort_order(keys, keys.len(), desc);
}

/// Sorting keeps items that hold the same place in their original order.
pub proof fn law_sort_order_stable(keys: Seq<Seq<u32>>, desc: bool)
    ensures
        is_stable_by(sort_order(keys, keys.len(), desc), keys, desc),
{
    lemma_sort_order(keys, keys.len(), desc);
}

/// Indices as integers.
pub open spec fn indices_view(v: Seq<usize>) -> Seq<int> {
    v.map_values(|i: usize| i as int)
}

/// The keys as component lists.
pub open spec fn key_views(keys: Seq<Vec<u32>>) -> Seq<Seq<u32>> {
    keys.map_values(|k: Vec<u32>| k@)
}

fn goes_after_exec(a: &Vec<u32>, b: &Vec<u32>, desc: bool) -> (r: bool)
    ensures
        r == goes_after(a@, b@, desc),
{
    let o = if desc {
        lex_order_exec(b, a)
    } else {
        lex_order_exec(a, b)
    };
    match o {
        Ordering::Greater => true,
        _ => false,
    }
}

/// The indices of `keys` in the order of a stable sort by `lex_cmp` of the
/// keys (descending when `desc`).
pub fn sorted_order(keys: &Vec<Vec<u32>>, desc: bool) -> (r: Vec<usize>)
    ensures
        indices_view(r@) == sort_order(key_views(keys@), keys.len() as nat, desc),
{
    let ghost kv = key_views(keys@);
    let mut order: Vec<usize> = Vec::new();
    let mut n: usize = 0;
    while n < keys.len()
        invariant
            n <= keys.len(),
            kv == key_views(keys@),
            indices_view(order@) == sort_order(kv, n as nat, desc),
        decreases keys.len() - n,
    {
        let ghost o = indices_view(order@);
        proof {
            lemma_sort_order(kv, n as nat, desc);
            assert(kv[n as int] == keys@[n as int]@);
            assert forall|q: int| 0 <= q < order.len() implies order@[q] < n by {
                assert(o[q] == order@[q]);
            }
        }
        let mut p: usize = 0;
        while p < order.len() && !goes_after_exec(&keys[order[p]], &keys[n], desc)
            invariant
                p <= order.len(),
                n < keys.len(),
                kv == key_views(keys@),
                o == indices_view(order@),
                is_index_permutation(o, n as nat),
                forall|q: int| 0 <= q < order.len() ==> order@[q] < n,
                forall|q: int| 0 <= q < p ==> !goes_after(kv[o[q]], kv[n as int], desc),
            decreases order.len() - p,
        {
            proof {
                assert(o[p as int] == order@[p as int]);
                assert(kv[o[p as int]] == keys@[order@[p as int] as int]@);
            }
            p += 1;
        }
        proof {
            if p < order.len() {
                assert(o[p as int] == order@[p as int]);
                assert(kv[o[p as int]] == keys@[order@[p as int] as int]@);
            }
            lemma_insert_pos_unique(o, kv, kv[n as int], desc, p as int);
        }
        order.insert(p, n);
        proof {
            assert(indices_view(order@) =~= o.insert(p as int, n as int));
        }
        n += 1;
    }
    order
}

/// A text as the code points of its characters: their order is the order of
/// `String` (byte-wise order of UTF-8 is code point order).
pub open spec fn char_codes(s: Seq<char>) -> Seq<u32> {
    s.map_values(|c: char| c as u32)
}

/// The sort keys of names: their code points.
pub fn name_keys(names: &Vec<String>) -> (r: Vec<Vec<u32>>)
    ensures
        key_views(r@) == names@.map_values(|s: String| char_codes(s@)),
{
    let mut r: Vec<Vec<u32>> = Vec::new();
    let mut i: usize = 0;
    while i < names.len()
        invariant
            i <= names.len(),
            key_views(r@) == names@.take(i as int).map_values(|s: String| char_codes(s@)),
        decreases names.len() - i,
    {
        let v = chars_of(names[i].as_str());
        let mut k: Vec<u32> = Vec::new();
        let mut j: usize = 0;
        while j < v.len()
            invariant
                j <= v.len(),
                k@ == char_codes(v@.take(j as int)),
            decreases v.len() - j,
        {
            k.push(v[j] as u32);
            j += 1;
            assert(char_codes(v@.take(j as int)) =~= char_codes(v@.take(j - 1)).push(v@[j - 1] as u32));
        }
        assert(v@.take(v.len() as int) =~= v@);
        let ghost before = key_views(r@);
        r.push(k);
        i += 1;
        assert(key_views(r@) =~= before.push(char_codes(names@[i - 1]@)));
        assert(names@.take(i as int).map_values(|s: String| char_codes(s@)) =~= names@.take(i - 1).map_values(|s: String| char_codes(s@)).push(char_codes(names@[i - 1]@)));
    }
    assert(names@.take(names.len() as int) =~= names@);
    r
}

/// The sort keys of versions: their numeric components.
pub fn version_keys(versions: &Vec<String>) -> (r: Vec<Vec<u32>>)
    ensures
        key_views(r@) == versions@.map_values(|s: String| version_parts(s@)),
{
    let mut r: Vec<Vec<u32>> = Vec::new();
    let mut i: usize = 0;
    while i < versions.len()
        invariant
            i <= versions.len(),
            key_views(r@) == versions@.take(i as int).map_values(|s: String| version_parts(s@)),
        decreases versions.len() - i,
    {
        let v = chars_of(versions[i].as_str());
        let k = version_parts_vec(&v);
        let ghost before = key_views(r@);
        r.push(k);
        i += 1;
        assert(key_views(r@) =~= before.push(version_parts(versions@[i - 1]@)));
        assert(versions@.take(i as int).map_values(|s: String| version_parts(s@)) =~= versions@.take(i - 1).map_values(|s: String| version_parts(s@)).push(version_parts(versions@[i - 1]@)));
    }
    assert(versions@.take(versions.len() as int) =~= versions@);
    r
}

} // verus!
