//! Dotted version numbers ("8.2", "5.6.40") as the catalog and the PHP
//! runtimes write them: comparison with zero padding, the descending order
//! used for listings, and a stable sort by that order.

use std::cmp::Ordering;
use vstd::prelude::*;
use crate::text::{chars_of, parse_u32, parse_u32_vec, split_char, split_char_vec, texts};

verus! {

/// A version component: its `u32` value, or 0 where it does not parse.
pub open spec fn part_value(p: Seq<char>) -> u32 {
    match parse_u32(p) {
        Some(v) => v,
        None => 0,
    }
}

/// The numeric components of a dotted version.
pub open spec fn version_parts(v: Seq<char>) -> Seq<u32> {
    split_char(v, '.').map_values(|p: Seq<char>| part_value(p))
}

/// Component `i`, with 0 past the end.
pub open spec fn part_at(a: Seq<u32>, i: int) -> u32 {
    if 0 <= i < a.len() {
        a[i]
    } else {
        0
    }
}

pub open spec fn max_len(a: Seq<u32>, b: Seq<u32>) -> int {
    if a.len() >= b.len() {
        a.len() as int
    } else {
        b.len() as int
    }
}

/// `a` is at least `b` when both are padded with zeros to the same length and
/// compared component by component from index `i` on.
pub open spec fn at_least_from(a: Seq<u32>, b: Seq<u32>, i: int) -> bool
    decreases max_len(a, b) - i,
{
    if i < 0 || i >= max_len(a, b) {
        true
    } else if part_at(a, i) > part_at(b, i) {
        true
    } else if part_at(a, i) < part_at(b, i) {
        false
    } else {
        at_least_from(a, b, i + 1)
    }
}

/// `version` is at least `minimum`, components compared with zero padding.
pub open spec fn at_least(version: Seq<char>, minimum: Seq<char>) -> bool {
    at_least_from(version_parts(version), version_parts(minimum), 0)
}

/// Lexicographic order of component lists, a proper prefix coming first
/// (the order of `Vec<u32>`).
pub open spec fn lex_cmp(a: Seq<u32>, b: Seq<u32>) -> Ordering
    decreases a.len(),
{
    if a.len() == 0 && b.len() == 0 {
        Ordering::Equal
    } else if a.len() == 0 {
        Ordering::Less
    } else if b.len() == 0 {
        Ordering::Greater
    } else if a[0] < b[0] {
        Ordering::Less
    } else if a[0] > b[0] {
        Ordering::Greater
    } else {
        lex_cmp(a.drop_first(), b.drop_first())
    }
}

/// The order in which versions are listed: highest first.
pub open spec fn desc_cmp(a: Seq<char>, b: Seq<char>) -> Ordering {
    lex_cmp(version_parts(b), version_parts(a))
}

pub open spec fn flip(o: Ordering) -> Ordering {
    match o {
        Ordering::Less => Ordering::Greater,
        Ordering::Equal => Ordering::Equal,
        Ordering::Greater => Ordering::Less,
    }
}

/// The numeric components of a dotted version (`parse` of each piece, 0 on failure).
pub fn version_parts_vec(v: &Vec<char>) -> (r: Vec<u32>)
    ensures
        r@ == version_parts(v@),
{
    let pieces = split_char_vec(v, '.');
    let mut r: Vec<u32> = Vec::new();
    let mut i: usize = 0;
    while i < pieces.len()
        invariant
            i <= pieces.len(),
            texts(pieces@) == split_char(v@, '.'),
            r@ == texts(pieces@).take(i as int).map_values(|p: Seq<char>| part_value(p)),
        decreases pieces.len() - i,
    {
        let x = match parse_u32_vec(&pieces[i]) {
            Some(x) => x,
            None => 0,
        };
        r.push(x);
        assert(texts(pieces@).take(i + 1).map_values(|p: Seq<char>| part_value(p)) =~= texts(
            pieces@,
        ).take(i as int).map_values(|p: Seq<char>| part_value(p)).push(part_value(pieces@[i as int]@)));
        i += 1;
    }
    assert(texts(pieces@).take(pieces.len() as int) =~= texts(pieces@));
    r
}

fn part_at_exec(a: &Vec<u32>, i: usize) -> (r: u32)
    ensures
        r == part_at(a@, i as int),
{
    if i < a.len() {
        a[i]
    } else {
        0
    }
}

fn at_least_parts(a: &Vec<u32>, b: &Vec<u32>) -> (r: bool)
    ensures
        r == at_least_from(a@, b@, 0),
{
    let len = if a.len() >= b.len() { a.len() } else { b.len() };
    let mut i: usize = 0;
    while i < len
        invariant
            len == max_len(a@, b@),
            i <= len,
            at_least_from(a@, b@, 0) == at_least_from(a@, b@, i as int),
        decreases len - i,
    {
        let l = part_at_exec(a, i);
        let r = part_at_exec(b, i);
        if l > r {
            return true;
        }
        if l < r {
            return false;
        }
        i += 1;
    }
    true
}

/// Whether `version` is at least `minimum`: dotted components compared
/// numerically, missing components counting as 0 ("8.2" and "8.2.0" are equal).
pub fn version_at_least(version: &str, minimum: &str) -> (r: bool)
    ensures
        r == at_least(version@, minimum@),
{
    let v = chars_of(version);
    let m = chars_of(minimum);
    let a = version_parts_vec(&v);
    let b = version_parts_vec(&m);
    at_least_parts(&a, &b)
}

/// Whether `version` is at most `maximum`.
pub fn version_at_most(version: &str, maximum: &str) -> (r: bool)
    ensures
        r == at_least(maximum@, version@),
{
    version_at_least(maximum, version)
}

/// Length of the longest common prefix of two component lists.
pub open spec fn prefix_len(a: Seq<u32>, b: Seq<u32>) -> int
    decreases a.len(),
{
    if a.len() > 0 && b.len() > 0 && a[0] == b[0] {
        1 + prefix_len(a.drop_first(), b.drop_first())
    } else {
        0
    }
}

proof fn lemma_prefix_len(a: Seq<u32>, b: Seq<u32>)
    ensures
        0 <= prefix_len(a, b) <= a.len(),
        prefix_len(a, b) <= b.len(),
        forall|j: int| 0 <= j < prefix_len(a, b) ==> a[j] == b[j],
        prefix_len(a, b) < a.len() && prefix_len(a, b) < b.len() ==> a[prefix_len(a, b)]
            != b[prefix_len(a, b)],
    decreases a.len(),
{
    if a.len() > 0 && b.len() > 0 && a[0] == b[0] {
        lemma_prefix_len(a.drop_first(), b.drop_first());
        assert forall|j: int| 0 <= j < prefix_len(a, b) implies a[j] == b[j] by {
            if j > 0 {
                assert(a[j] == a.drop_first()[j - 1]);
                assert(b[j] == b.drop_first()[j - 1]);
            }
        }
    }
}

fn common_prefix(a: &Vec<u32>, b: &Vec<u32>) -> (k: usize)
    ensures
        k == prefix_len(a@, b@),
{
    let mut i: usize = 0;
    assert(a@.skip(0) == a@);
    assert(b@.skip(0) == b@);
    while i < a.len() && i < b.len() && a[i] == b[i]
        invariant
            i <= a.len(),
            i <= b.len(),
            prefix_len(a@, b@) == i + prefix_len(a@.skip(i as int), b@.skip(i as int)),
        decreases a.len() - i,
    {
        assert(a@.skip(i as int).drop_first() =~= a@.skip(i + 1));
        assert(b@.skip(i as int).drop_first() =~= b@.skip(i + 1));
        assert(a@.skip(i as int)[0] == a@[i as int]);
        assert(b@.skip(i as int)[0] == b@[i as int]);
        i += 1;
    }
    if i < a.len() && i < b.len() {
        assert(a@.skip(i as int)[0] == a@[i as int]);
        assert(b@.skip(i as int)[0] == b@[i as int]);
    }
    i
}

proof fn lemma_lex_cmp_prefix(a: Seq<u32>, b: Seq<u32>)
    ensures
        lex_cmp(a, b) == ({
            let k = prefix_len(a, b);
            if k == a.len() && k == b.len() {
                Ordering::Equal
            } else if k == a.len() {
                Ordering::Less
            } else if k == b.len() {
                Ordering::Greater
            } else if a[k] < b[k] {
                Ordering::Less
            } else {
                Ordering::Greater
            }
        }),
    decreases a.len(),
{
    if a.len() > 0 && b.len() > 0 && a[0] == b[0] {
        lemma_lex_cmp_prefix(a.drop_first(), b.drop_first());
        lemma_prefix_len(a.drop_first(), b.drop_first());
        let k = prefix_len(a.drop_first(), b.drop_first());
        if k < a.len() - 1 && k < b.len() - 1 {
            assert(a[k + 1] == a.drop_first()[k]);
            assert(b[k + 1] == b.drop_first()[k]);
        }
    }
}

pub fn lex_order_exec(a: &Vec<u32>, b: &Vec<u32>) -> (r: Ordering)
    ensures
        r == lex_cmp(a@, b@),
{
    let k = common_prefix(a, b);
    proof {
        lemma_prefix_len(a@, b@);
        lemma_lex_cmp_prefix(a@, b@);
    }
    if k == a.len() && k == b.len() {
        Ordering::Equal
    } else if k == a.len() {
        Ordering::Less
    } else if k == b.len() {
        Ordering::Greater
    } else if a[k] < b[k] {
        Ordering::Less
    } else {
        Ordering::Greater
    }
}

/// The order of the version listings: the higher version first (components
/// compared as numbers; of two versions equal up to the shorter one, the
/// longer comes first).
pub fn compare_versions_desc(a: &str, b: &str) -> (r: Ordering)
    ensures
        r == desc_cmp(a@, b@),
{
    let av = chars_of(a);
    let bv = chars_of(b);
    let pa = version_parts_vec(&av);
    let pb = version_parts_vec(&bv);
    lex_order_exec(&pb, &pa)
}


// ---------------------------------------------------------------------------
// Laws of the two orders
// ---------------------------------------------------------------------------

proof fn lemma_at_least_step(a: Seq<u32>, b: Seq<u32>, i: int)
    requires
        0 <= i,
        at_least_from(a, b, i),
    ensures
        part_at(a, i) >= part_at(b, i),
        part_at(a, i) == part_at(b, i) ==> at_least_from(a, b, i + 1),
{
}

proof fn lemma_at_least_refl(a: Seq<u32>, i: int)
    requires
        0 <= i,
    ensures
        at_least_from(a, a, i),
    decreases max_len(a, a) - i,
{
    if i < max_len(a, a) {
        lemma_at_least_refl(a, i + 1);
    }
}

proof fn lemma_at_least_total(a: Seq<u32>, b: Seq<u32>, i: int)
    requires
        0 <= i,
    ensures
        at_least_from(a, b, i) || at_least_from(b, a, i),
    decreases max_len(a, b) - i,
{
    if i < max_len(a, b) {
        lemma_at_least_total(a, b, i + 1);
    }
}

proof fn lemma_at_least_trans(a: Seq<u32>, b: Seq<u32>, c: Seq<u32>, i: int)
    requires
        0 <= i,
        at_least_from(a, b, i),
        at_least_from(b, c, i),
    ensures
        at_least_from(a, c, i),
    decreases a.len() + b.len() + c.len() - i,
{
    if i < max_len(a, c) {
        lemma_at_least_step(a, b, i);
        lemma_at_least_step(b, c, i);
        if part_at(a, i) == part_at(c, i) {
            lemma_at_least_trans(a, b, c, i + 1);
        }
    }
}

/// Past the end of `b`, every list is at least `b`.
proof fn lemma_at_least_past(a: Seq<u32>, b: Seq<u32>, i: int)
    requires
        0 <= i,
        b.len() <= i,
    ensures
        at_least_from(a, b, i),
    decreases max_len(a, b) - i,
{
    if i < max_len(a, b) {
        lemma_at_least_past(a, b, i + 1);
    }
}

proof fn lemma_lex_not_less_at_least(x: Seq<u32>, y: Seq<u32>, k: int)
    requires
        0 <= k <= x.len(),
        k <= y.len(),
        lex_cmp(x.skip(k), y.skip(k)) != Ordering::Less,
    ensures
        at_least_from(x, y, k),
    decreases max_len(x, y) - k,
{
    if k >= x.len() && k >= y.len() {
    } else if k >= y.len() {
        lemma_at_least_past(x, y, k);
    } else if k >= x.len() {
        assert(x.skip(k).len() == 0);
        assert(y.skip(k).len() > 0);
    } else {
        assert(x.skip(k)[0] == x[k]);
        assert(y.skip(k)[0] == y[k]);
        if x[k] == y[k] {
            assert(x.skip(k).drop_first() =~= x.skip(k + 1));
            assert(y.skip(k).drop_first() =~= y.skip(k + 1));
            lemma_lex_not_less_at_least(x, y, k + 1);
        }
    }
}

pub proof fn lemma_lex_flip(x: Seq<u32>, y: Seq<u32>)
    ensures
        lex_cmp(x, y) == flip(lex_cmp(y, x)),
    decreases x.len(),
{
    if x.len() > 0 && y.len() > 0 && x[0] == y[0] {
        lemma_lex_flip(x.drop_first(), y.drop_first());
    }
}

pub proof fn lemma_lex_equal(x: Seq<u32>, y: Seq<u32>)
    ensures
        (lex_cmp(x, y) == Ordering::Equal) == (x == y),
    decreases x.len(),
{
    if x.len() == 0 && y.len() == 0 {
        assert(x =~= y);
    }
    if x.len() > 0 && y.len() > 0 {
        lemma_lex_equal(x.drop_first(), y.drop_first());
        if x[0] == y[0] && x.drop_first() == y.drop_first() {
            assert(x =~= seq![x[0]] + x.drop_first());
            assert(y =~= seq![y[0]] + y.drop_first());
        }
        if x == y {
            assert(x.drop_first() == y.drop_first());
        }
    }
}

pub proof fn lemma_lex_trans(x: Seq<u32>, y: Seq<u32>, z: Seq<u32>)
    requires
        lex_cmp(x, y) != Ordering::Greater,
        lex_cmp(y, z) != Ordering::Greater,
    ensures
        lex_cmp(x, z) != Ordering::Greater,
    decreases x.len(),
{
    if x.len() > 0 && y.len() > 0 && z.len() > 0 && x[0] == y[0] && y[0] == z[0] {
        lemma_lex_trans(x.drop_first(), y.drop_first(), z.drop_first());
    }
}

/// Every version is at least itself.
pub proof fn law_version_at_least_reflexive(v: Seq<char>)
    ensures
        at_least(v, v),
{
    lemma_at_least_refl(version_parts(v), 0);
}

/// Of any two versions, one is at least the other.
pub proof fn law_version_at_least_total(a: Seq<char>, b: Seq<char>)
    ensures
        at_least(a, b) || at_least(b, a),
{
    lemma_at_least_total(version_parts(a), version_parts(b), 0);
}

/// "At least" is transitive.
pub proof fn law_version_at_least_transitive(a: Seq<char>, b: Seq<char>, c: Seq<char>)
    requires
        at_least(a, b),
        at_least(b, c),
    ensures
        at_least(a, c),
{
    lemma_at_least_trans(version_parts(a), version_parts(b), version_parts(c), 0);
}

/// Swapping the arguments of the listing order flips the answer.
pub proof fn law_compare_versions_desc_antisymmetric(a: Seq<char>, b: Seq<char>)
    ensures
        desc_cmp(a, b) == flip(desc_cmp(b, a)),
{
    lemma_lex_flip(version_parts(b), version_parts(a));
}

/// A version compares equal to itself in the listing order, and two versions
/// compare equal exactly when their components are the same.
pub proof fn law_compare_versions_desc_equal(a: Seq<char>, b: Seq<char>)
    ensures
        desc_cmp(a, a) == Ordering::Equal,
        (desc_cmp(a, b) == Ordering::Equal) == (version_parts(a) == version_parts(b)),
{
    lemma_lex_equal(version_parts(a), version_parts(a));
    lemma_lex_equal(version_parts(b), version_parts(a));
}

/// The listing order is transitive.
pub proof fn law_compare_versions_desc_transitive(a: Seq<char>, b: Seq<char>, c: Seq<char>)
    requires
        desc_cmp(a, b) != Ordering::Greater,
        desc_cmp(b, c) != Ordering::Greater,
    ensures
        desc_cmp(a, c) != Ordering::Greater,
{
    lemma_lex_trans(version_parts(c), version_parts(b), version_parts(a));
}

/// A version listed no later than another is at least that other.
pub proof fn law_listed_first_is_at_least(a: Seq<char>, b: Seq<char>)
    requires
        desc_cmp(a, b) != Ordering::Greater,
    ensures
        at_least(a, b),
{
    lemma_lex_flip(version_parts(b), version_parts(a));
    assert(version_parts(a).skip(0) == version_parts(a));
    assert(version_parts(b).skip(0) == version_parts(b));
    lemma_lex_not_less_at_least(version_parts(a), version_parts(b), 0);
}

} // verus!
