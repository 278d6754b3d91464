//! Character-level text model used by every parser and generator of the library.
//!
//! Strings are viewed as `Seq<char>`. The spec functions here state what the
//! usual string operations (trimming, splitting into lines, joining, searching)
//! compute, and the executable functions are proved against them.

use vstd::prelude::*;

verus! {

// ---------------------------------------------------------------------------
// Character classes
// ---------------------------------------------------------------------------

/// Unicode `White_Space`, the property that `char::is_whitespace` and
/// `str::trim` go by.
pub open spec fn is_ws(c: char) -> bool {
    ||| ('\u{9}' <= c && c <= '\u{d}')
    ||| c == ' '
    ||| c == '\u{85}'
    ||| c == '\u{a0}'
    ||| c == '\u{1680}'
    ||| ('\u{2000}' <= c && c <= '\u{200a}')
    ||| c == '\u{2028}'
    ||| c == '\u{2029}'
    ||| c == '\u{202f}'
    ||| c == '\u{205f}'
    ||| c == '\u{3000}'
}

pub fn is_ws_char(c: char) -> (b: bool)
    ensures
        b == is_ws(c),
{
    ('\u{9}' <= c && c <= '\u{d}') || c == ' ' || c == '\u{85}' || c == '\u{a0}' || c
        == '\u{1680}' || ('\u{2000}' <= c && c <= '\u{200a}') || c == '\u{2028}' || c
        == '\u{2029}' || c == '\u{202f}' || c == '\u{205f}' || c == '\u{3000}'
}

pub open spec fn is_digit(c: char) -> bool {
    '0' <= c && c <= '9'
}

pub open spec fn is_upper(c: char) -> bool {
    'A' <= c && c <= 'Z'
}

pub open spec fn is_lower(c: char) -> bool {
    'a' <= c && c <= 'z'
}

pub open spec fn is_alnum(c: char) -> bool {
    is_digit(c) || is_upper(c) || is_lower(c)
}

pub fn is_digit_char(c: char) -> (b: bool)
    ensures
        b == is_digit(c),
{
    '0' <= c && c <= '9'
}

pub fn is_alnum_char(c: char) -> (b: bool)
    ensures
        b == is_alnum(c),
{
    ('0' <= c && c <= '9') || ('A' <= c && c <= 'Z') || ('a' <= c && c <= 'z')
}

pub open spec fn lower_char(c: char) -> char {
    if is_upper(c) {
        ((c as u32) + 32) as char
    } else {
        c
    }
}

pub open spec fn upper_char(c: char) -> char {
    if is_lower(c) {
        ((c as u32) - 32) as char
    } else {
        c
    }
}

pub fn lower_char_exec(c: char) -> (r: char)
    ensures
        r == lower_char(c),
{
    if 'A' <= c && c <= 'Z' {
        let u: u8 = c as u8;
        let r = (u + 32) as char;
        assert(r == ((c as u32) + 32) as char);
        r
    } else {
        c
    }
}

pub fn upper_char_exec(c: char) -> (r: char)
    ensures
        r == upper_char(c),
{
    if 'a' <= c && c <= 'z' {
        let u: u8 = c as u8;
        let r = (u - 32) as char;
        assert(r == ((c as u32) - 32) as char);
        r
    } else {
        c
    }
}

/// ASCII lowercase of a whole text (`to_ascii_lowercase`).
pub open spec fn ascii_lower(s: Seq<char>) -> Seq<char> {
    s.map_values(|c: char| lower_char(c))
}

/// ASCII uppercase of a whole text (`to_ascii_uppercase`).
pub open spec fn ascii_upper(s: Seq<char>) -> Seq<char> {
    s.map_values(|c: char| upper_char(c))
}

/// Case-insensitive equality over ASCII letters (`eq_ignore_ascii_case`).
pub open spec fn eq_ignore_case(a: Seq<char>, b: Seq<char>) -> bool {
    ascii_lower(a) == ascii_lower(b)
}

pub open spec fn all_ascii(s: Seq<char>) -> bool {
    forall|i: int| 0 <= i < s.len() ==> (s[i] as u32) < 128
}


// ---------------------------------------------------------------------------
// Conversions
// ---------------------------------------------------------------------------

/// The characters of a string slice, in order.
pub fn chars_of(s: &str) -> (v: Vec<char>)
    ensures
        v@ == s@,
{
    let mut v: Vec<char> = Vec::new();
    for c in it: s.chars()
        invariant
            v@ == it.seq().take(it.index() as int),
    {
        v.push(c);
    }
    v
}

/// Builds a `String` from a sequence of characters (`Iterator::collect` over
/// the characters). The contract claims that the text holds exactly these
/// characters, in order.
#[verifier::external_body]
pub(crate) fn string_of(v: &Vec<char>) -> (s: String)
    ensures
        s@ == v@,
{
    v.iter().collect()
}

/// Copy of `s[a..b]`.
pub fn slice_of(s: &Vec<char>, a: usize, b: usize) -> (r: Vec<char>)
    requires
        a <= b <= s.len(),
    ensures
        r@ == s@.subrange(a as int, b as int),
{
    let mut r: Vec<char> = Vec::new();
    let mut i = a;
    while i < b
        invariant
            a <= i <= b <= s.len(),
            r@ == s@.subrange(a as int, i as int),
        decreases b - i,
    {
        r.push(s[i]);
        i += 1;
    }
    r
}

/// Appends every character of `b` to `a`.
pub fn push_all(a: &mut Vec<char>, b: &Vec<char>)
    ensures
        final(a)@ == old(a)@ + b@,
{
    let mut i: usize = 0;
    while i < b.len()
        invariant
            i <= b.len(),
            a@ == old(a)@ + b@.take(i as int),
        decreases b.len() - i,
    {
        a.push(b[i]);
        i += 1;
        assert(b@.take(i as int) == b@.take(i - 1).push(b@[i - 1]));
    }
    assert(b@.take(b.len() as int) == b@);
}

/// Appends every character of `b` to `a`.
pub fn push_str(a: &mut Vec<char>, b: &str)
    ensures
        final(a)@ == old(a)@ + b@,
{
    let v = chars_of(b);
    push_all(a, &v);
}

pub fn lower_text(s: &Vec<char>) -> (r: Vec<char>)
    ensures
        r@ == ascii_lower(s@),
{
    let mut r: Vec<char> = Vec::new();
    let mut i: usize = 0;
    while i < s.len()
        invariant
            i <= s.len(),
            r@ == ascii_lower(s@.take(i as int)),
        decreases s.len() - i,
    {
        r.push(lower_char_exec(s[i]));
        i += 1;
        assert(ascii_lower(s@.take(i as int)) =~= ascii_lower(s@.take(i - 1)).push(lower_char(s@[i - 1])));
    }
    assert(s@.take(s.len() as int) == s@);
    r
}

pub fn upper_text(s: &Vec<char>) -> (r: Vec<char>)
    ensures
        r@ == ascii_upper(s@),
{
    let mut r: Vec<char> = Vec::new();
    let mut i: usize = 0;
    while i < s.len()
        invariant
            i <= s.len(),
            r@ == ascii_upper(s@.take(i as int)),
        decreases s.len() - i,
    {
        r.push(upper_char_exec(s[i]));
        i += 1;
        assert(ascii_upper(s@.take(i as int)) =~= ascii_upper(s@.take(i - 1)).push(upper_char(s@[i - 1])));
    }
    assert(s@.take(s.len() as int) == s@);
    r
}

pub fn text_eq(a: &Vec<char>, b: &Vec<char>) -> (r: bool)
    ensures
        r == (a@ == b@),
{
    if a.len() != b.len() {
        return false;
    }
    let mut i: usize = 0;
    while i < a.len()
        invariant
            i <= a.len() == b.len(),
            a@.take(i as int) == b@.take(i as int),
        decreases a.len() - i,
    {
        if a[i] != b[i] {
            return false;
        }
        i += 1;
        assert(a@.take(i as int) == a@.take(i - 1).push(a@[i - 1]));
        assert(b@.take(i as int) == b@.take(i - 1).push(b@[i - 1]));
    }
    assert(a@ == a@.take(a.len() as int));
    assert(b@ == b@.take(b.len() as int));
    true
}

pub fn eq_ignore_case_exec(a: &Vec<char>, b: &Vec<char>) -> (r: bool)
    ensures
        r == eq_ignore_case(a@, b@),
{
    let la = lower_text(a);
    let lb = lower_text(b);
    text_eq(&la, &lb)
}

// ---------------------------------------------------------------------------
// Prefixes, suffixes and search
// ---------------------------------------------------------------------------

pub open spec fn starts_with(s: Seq<char>, p: Seq<char>) -> bool {
    p.len() <= s.len() && s.take(p.len() as int) == p
}

pub open spec fn ends_with(s: Seq<char>, p: Seq<char>) -> bool {
    p.len() <= s.len() && s.skip(s.len() - p.len()) == p
}

/// `p` occurs in `s` starting at `i`.
pub open spec fn occurs_at(s: Seq<char>, p: Seq<char>, i: int) -> bool {
    0 <= i && i + p.len() <= s.len() && s.subrange(i, i + p.len()) == p
}

/// `p` occurs somewhere in `s` (`str::contains`).
pub open spec fn contains(s: Seq<char>, p: Seq<char>) -> bool {
    exists|i: int| occurs_at(s, p, i)
}

pub fn occurs_at_exec(s: &Vec<char>, p: &Vec<char>, i: usize) -> (r: bool)
    ensures
        r == occurs_at(s@, p@, i as int),
{
    if i > s.len() || p.len() > s.len() - i {
        return false;
    }
    let mut j: usize = 0;
    while j < p.len()
        invariant
            i + p.len() <= s.len(),
            j <= p.len(),
            forall|k: int| 0 <= k < j ==> s@[i + k] == p@[k],
        decreases p.len() - j,
    {
        if s[i + j] != p[j] {
            assert(s@.subrange(i as int, i + p.len())[j as int] != p@[j as int]);
            return false;
        }
        j += 1;
    }
    assert(s@.subrange(i as int, i + p.len()) =~= p@);
    true
}

pub fn starts_with_exec(s: &Vec<char>, p: &Vec<char>) -> (r: bool)
    ensures
        r == starts_with(s@, p@),
{
    let r = occurs_at_exec(s, p, 0);
    assert(s@.subrange(0, p@.len() as int) == s@.take(p@.len() as int));
    r
}

pub fn ends_with_exec(s: &Vec<char>, p: &Vec<char>) -> (r: bool)
    ensures
        r == ends_with(s@, p@),
{
    if p.len() > s.len() {
        return false;
    }
    let r = occurs_at_exec(s, p, s.len() - p.len());
    assert(s@.subrange(s.len() - p.len(), s.len() as int) == s@.skip(s.len() - p.len()));
    r
}

pub fn starts_with_str(s: &Vec<char>, p: &str) -> (r: bool)
    ensures
        r == starts_with(s@, p@),
{
    let pv = chars_of(p);
    starts_with_exec(s, &pv)
}

pub fn ends_with_str(s: &Vec<char>, p: &str) -> (r: bool)
    ensures
        r == ends_with(s@, p@),
{
    let pv = chars_of(p);
    ends_with_exec(s, &pv)
}

pub fn contains_exec(s: &Vec<char>, p: &Vec<char>) -> (r: bool)
    ensures
        r == contains(s@, p@),
{
    if p.len() > s.len() {
        return false;
    }
    let last = s.len() - p.len();
    let mut i: usize = 0;
    while i <= last
        invariant
            p.len() <= s.len(),
            last == s.len() - p.len(),
            i <= last,
            forall|k: int| 0 <= k < i ==> !occurs_at(s@, p@, k),
        decreases last - i,
    {
        if occurs_at_exec(s, p, i) {
            return true;
        }
        if i == last {
            assert forall|k: int| !occurs_at(s@, p@, k) by {
                if 0 <= k < i {
                }
            }
            return false;
        }
        i += 1;
    }
    false
}

pub fn contains_str(s: &Vec<char>, p: &str) -> (r: bool)
    ensures
        r == contains(s@, p@),
{
    let pv = chars_of(p);
    contains_exec(s, &pv)
}

/// Whether `c` occurs in `s`.
pub open spec fn has_char(s: Seq<char>, c: char) -> bool {
    exists|i: int| 0 <= i < s.len() && s[i] == c
}

/// Index of the first `c` in `s`, if any.
pub open spec fn first_index(s: Seq<char>, c: char) -> Option<int>
    decreases s.len(),
{
    if s.len() == 0 {
        None
    } else if s[0] == c {
        Some(0)
    } else {
        match first_index(s.drop_first(), c) {
            Some(i) => Some(i + 1),
            None => None,
        }
    }
}

/// Index of the last `c` in `s`, if any.
pub open spec fn last_index(s: Seq<char>, c: char) -> Option<int>
    decreases s.len(),
{
    if s.len() == 0 {
        None
    } else if s.last() == c {
        Some(s.len() - 1)
    } else {
        last_index(s.drop_last(), c)
    }
}

pub proof fn lemma_first_index(s: Seq<char>, c: char)
    ensures
        first_index(s, c) matches Some(i) ==> 0 <= i < s.len() && s[i] == c && forall|k: int|
            0 <= k < i ==> s[k] != c,
        first_index(s, c) is None ==> forall|k: int| 0 <= k < s.len() ==> s[k] != c,
    decreases s.len(),
{
    if s.len() > 0 && s[0] != c {
        lemma_first_index(s.drop_first(), c);
        if first_index(s.drop_first(), c) is None {
            assert forall|k: int| 0 <= k < s.len() implies s[k] != c by {
                if k > 0 {
                    assert(s[k] == s.drop_first()[k - 1]);
                }
            }
        } else {
            let i = first_index(s.drop_first(), c)->0;
            assert forall|k: int| 0 <= k < i + 1 implies s[k] != c by {
                if k > 0 {
                    assert(s[k] == s.drop_first()[k - 1]);
                }
            }
        }
    }
}

pub proof fn lemma_last_index(s: Seq<char>, c: char)
    ensures
        last_index(s, c) matches Some(i) ==> 0 <= i < s.len() && s[i] == c && forall|k: int|
            i < k < s.len() ==> s[k] != c,
        last_index(s, c) is None ==> forall|k: int| 0 <= k < s.len() ==> s[k] != c,
    decreases s.len(),
{
    if s.len() > 0 && s.last() != c {
        lemma_last_index(s.drop_last(), c);
        assert forall|k: int| 0 <= k < s.len() - 1 implies s[k] == s.drop_last()[k] by {}
    }
}

pub fn first_index_exec(s: &Vec<char>, c: char) -> (r: Option<usize>)
    ensures
        r matches Some(i) ==> first_index(s@, c) == Some(i as int),
        r is None ==> first_index(s@, c) is None,
{
    let mut i: usize = 0;
    while i < s.len()
        invariant
            i <= s.len(),
            forall|k: int| 0 <= k < i ==> s@[k] != c,
        decreases s.len() - i,
    {
        if s[i] == c {
            proof {
                lemma_first_index(s@, c);
                if first_index(s@, c) is None {
                } else {
                    let j = first_index(s@, c)->0;
                    assert(!(j < i));
                    assert(!(j > i));
                }
            }
            return Some(i);
        }
        i += 1;
    }
    proof {
        lemma_first_index(s@, c);
    }
    None
}

pub fn last_index_exec(s: &Vec<char>, c: char) -> (r: Option<usize>)
    ensures
        r matches Some(i) ==> last_index(s@, c) == Some(i as int),
        r is None ==> last_index(s@, c) is None,
{
    let mut i: usize = s.len();
    while i > 0
        invariant
            i <= s.len(),
            forall|k: int| i <= k < s.len() ==> s@[k] != c,
        decreases i,
    {
        if s[i - 1] == c {
            proof {
                lemma_last_index(s@, c);
                if last_index(s@, c) is None {
                } else {
                    let j = last_index(s@, c)->0;
                    assert(!(j < i - 1));
                    assert(!(j > i - 1));
                }
            }
            return Some(i - 1);
        }
        i -= 1;
    }
    proof {
        lemma_last_index(s@, c);
    }
    None
}


// ---------------------------------------------------------------------------
// Trimming
// ---------------------------------------------------------------------------

/// `str::trim_start`: drops leading whitespace.
pub open spec fn trim_start(s: Seq<char>) -> Seq<char>
    decreases s.len(),
{
    if s.len() > 0 && is_ws(s[0]) {
        trim_start(s.drop_first())
    } else {
        s
    }
}

/// `str::trim_end`: drops trailing whitespace.
pub open spec fn trim_end(s: Seq<char>) -> Seq<char>
    decreases s.len(),
{
    if s.len() > 0 && is_ws(s.last()) {
        trim_end(s.drop_last())
    } else {
        s
    }
}

/// `str::trim`: drops whitespace at both ends.
pub open spec fn trim(s: Seq<char>) -> Seq<char> {
    trim_end(trim_start(s))
}

/// `str::trim_start_matches` with a character: drops every leading `c`.
pub open spec fn trim_start_char(s: Seq<char>, c: char) -> Seq<char>
    decreases s.len(),
{
    if s.len() > 0 && s[0] == c {
        trim_start_char(s.drop_first(), c)
    } else {
        s
    }
}

/// `str::trim_end_matches` with a character: drops every trailing `c`.
pub open spec fn trim_end_char(s: Seq<char>, c: char) -> Seq<char>
    decreases s.len(),
{
    if s.len() > 0 && s.last() == c {
        trim_end_char(s.drop_last(), c)
    } else {
        s
    }
}

/// `str::trim_matches` with a character.
pub open spec fn trim_char(s: Seq<char>, c: char) -> Seq<char> {
    trim_end_char(trim_start_char(s, c), c)
}

/// `str::trim_start_matches` with a non-empty string: drops every leading copy of `p`.
pub open spec fn trim_start_str(s: Seq<char>, p: Seq<char>) -> Seq<char>
    decreases s.len(),
{
    if p.len() > 0 && starts_with(s, p) {
        trim_start_str(s.skip(p.len() as int), p)
    } else {
        s
    }
}

/// `str::trim_end_matches` with a non-empty string: drops every trailing copy of `p`.
pub open spec fn trim_end_str(s: Seq<char>, p: Seq<char>) -> Seq<char>
    decreases s.len(),
{
    if p.len() > 0 && ends_with(s, p) {
        trim_end_str(s.take(s.len() - p.len()), p)
    } else {
        s
    }
}

/// `s[a..b]` after dropping leading whitespace: the index where it starts.
pub fn trim_start_at(s: &Vec<char>, a: usize, b: usize) -> (k: usize)
    requires
        a <= b <= s.len(),
    ensures
        a <= k <= b,
        trim_start(s@.subrange(a as int, b as int)) == s@.subrange(k as int, b as int),
{
    let mut k = a;
    while k < b && is_ws_char(s[k])
        invariant
            a <= k <= b <= s.len(),
            trim_start(s@.subrange(a as int, b as int)) == trim_start(s@.subrange(k as int, b as int)),
        decreases b - k,
    {
        assert(s@.subrange(k as int, b as int).drop_first() =~= s@.subrange(k + 1, b as int));
        k += 1;
    }
    if k < b {
        assert(s@.subrange(k as int, b as int)[0] == s@[k as int]);
    }
    k
}

/// `s[a..b]` after dropping trailing whitespace: the index where it ends.
pub fn trim_end_at(s: &Vec<char>, a: usize, b: usize) -> (k: usize)
    requires
        a <= b <= s.len(),
    ensures
        a <= k <= b,
        trim_end(s@.subrange(a as int, b as int)) == s@.subrange(a as int, k as int),
{
    let mut k = b;
    while k > a && is_ws_char(s[k - 1])
        invariant
            a <= k <= b <= s.len(),
            trim_end(s@.subrange(a as int, b as int)) == trim_end(s@.subrange(a as int, k as int)),
        decreases k,
    {
        assert(s@.subrange(a as int, k as int).drop_last() =~= s@.subrange(a as int, k - 1));
        k -= 1;
    }
    k
}

pub fn trim_vec(s: &Vec<char>) -> (r: Vec<char>)
    ensures
        r@ == trim(s@),
{
    let a = trim_start_at(s, 0, s.len());
    assert(s@.subrange(0, s.len() as int) == s@);
    let b = trim_end_at(s, a, s.len());
    slice_of(s, a, b)
}

pub fn trim_start_vec(s: &Vec<char>) -> (r: Vec<char>)
    ensures
        r@ == trim_start(s@),
{
    let a = trim_start_at(s, 0, s.len());
    assert(s@.subrange(0, s.len() as int) == s@);
    slice_of(s, a, s.len())
}

pub fn trim_str(s: &str) -> (r: Vec<char>)
    ensures
        r@ == trim(s@),
{
    let v = chars_of(s);
    trim_vec(&v)
}

pub fn trim_start_char_vec(s: &Vec<char>, c: char) -> (r: Vec<char>)
    ensures
        r@ == trim_start_char(s@, c),
{
    let mut k: usize = 0;
    assert(s@.skip(0) == s@);
    while k < s.len() && s[k] == c
        invariant
            k <= s.len(),
            trim_start_char(s@, c) == trim_start_char(s@.skip(k as int), c),
        decreases s.len() - k,
    {
        assert(s@.skip(k as int).drop_first() =~= s@.skip(k + 1));
        k += 1;
    }
    if k < s.len() {
        assert(s@.skip(k as int)[0] == s@[k as int]);
    }
    assert(s@.skip(k as int) == s@.subrange(k as int, s.len() as int));
    slice_of(s, k, s.len())
}

pub fn trim_end_char_vec(s: &Vec<char>, c: char) -> (r: Vec<char>)
    ensures
        r@ == trim_end_char(s@, c),
{
    let mut k: usize = s.len();
    assert(s@.take(s.len() as int) == s@);
    while k > 0 && s[k - 1] == c
        invariant
            k <= s.len(),
            trim_end_char(s@, c) == trim_end_char(s@.take(k as int), c),
        decreases k,
    {
        assert(s@.take(k as int).drop_last() =~= s@.take(k - 1));
        k -= 1;
    }
    assert(s@.take(k as int) == s@.subrange(0, k as int));
    slice_of(s, 0, k)
}

pub fn trim_char_vec(s: &Vec<char>, c: char) -> (r: Vec<char>)
    ensures
        r@ == trim_char(s@, c),
{
    let t = trim_start_char_vec(s, c);
    trim_end_char_vec(&t, c)
}

pub fn trim_start_str_vec(s: &Vec<char>, p: &Vec<char>) -> (r: Vec<char>)
    ensures
        r@ == trim_start_str(s@, p@),
{
    if p.len() == 0 {
        return s.clone();
    }
    let mut k: usize = 0;
    assert(s@.skip(0) == s@);
    while k <= s.len() && p.len() <= s.len() - k && occurs_at_exec(s, p, k)
        invariant
            p.len() > 0,
            k <= s.len(),
            trim_start_str(s@, p@) == trim_start_str(s@.skip(k as int), p@),
        decreases s.len() - k,
    {
        assert(s@.skip(k as int).take(p.len() as int) =~= s@.subrange(k as int, k + p.len()));
        assert(s@.skip(k as int).skip(p.len() as int) =~= s@.skip(k + p.len()));
        k += p.len();
    }
    if p.len() <= s.len() - k {
        assert(s@.skip(k as int).take(p.len() as int) =~= s@.subrange(k as int, k + p.len()));
    }
    assert(s@.skip(k as int) == s@.subrange(k as int, s.len() as int));
    slice_of(s, k, s.len())
}

pub fn trim_end_str_vec(s: &Vec<char>, p: &Vec<char>) -> (r: Vec<char>)
    ensures
        r@ == trim_end_str(s@, p@),
{
    if p.len() == 0 {
        return s.clone();
    }
    let mut k: usize = s.len();
    assert(s@.take(s.len() as int) == s@);
    while p.len() <= k && occurs_at_exec(s, p, k - p.len())
        invariant
            p.len() > 0,
            k <= s.len(),
            trim_end_str(s@, p@) == trim_end_str(s@.take(k as int), p@),
        decreases k,
    {
        assert(s@.take(k as int).skip(k - p.len()) =~= s@.subrange(k - p.len(), k as int));
        assert(s@.take(k as int).take(k - p.len()) =~= s@.take(k - p.len()));
        k -= p.len();
    }
    if p.len() <= k {
        assert(s@.take(k as int).skip(k - p.len()) =~= s@.subrange(k - p.len(), k as int));
    }
    assert(s@.take(k as int) == s@.subrange(0, k as int));
    slice_of(s, 0, k)
}

pub fn trim_start_lit(s: &Vec<char>, p: &str) -> (r: Vec<char>)
    ensures
        r@ == trim_start_str(s@, p@),
{
    let pv = chars_of(p);
    trim_start_str_vec(s, &pv)
}

pub fn trim_end_lit(s: &Vec<char>, p: &str) -> (r: Vec<char>)
    ensures
        r@ == trim_end_str(s@, p@),
{
    let pv = chars_of(p);
    trim_end_str_vec(s, &pv)
}


// ---------------------------------------------------------------------------
// Splitting and joining
// ---------------------------------------------------------------------------

/// The texts held by a vector of character vectors.
pub open spec fn texts(v: Seq<Vec<char>>) -> Seq<Seq<char>> {
    v.map_values(|x: Vec<char>| x@)
}

/// `str::split` with a character: the pieces between occurrences of `c`.
/// There is always at least one piece.
pub open spec fn split_char(s: Seq<char>, c: char) -> Seq<Seq<char>>
    decreases s.len(),
{
    if s.len() == 0 {
        seq![Seq::<char>::empty()]
    } else {
        let prev = split_char(s.drop_last(), c);
        if s.last() == c {
            prev.push(Seq::<char>::empty())
        } else {
            prev.update(prev.len() - 1, prev.last().push(s.last()))
        }
    }
}

/// `[T]::join`: the parts with `sep` between consecutive ones.
pub open spec fn join(parts: Seq<Seq<char>>, sep: Seq<char>) -> Seq<char>
    decreases parts.len(),
{
    if parts.len() == 0 {
        Seq::<char>::empty()
    } else if parts.len() == 1 {
        parts[0]
    } else {
        join(parts.drop_last(), sep) + sep + parts.last()
    }
}

/// Drops one trailing carriage return.
pub open spec fn strip_cr(t: Seq<char>) -> Seq<char> {
    if t.len() > 0 && t.last() == '\r' {
        t.drop_last()
    } else {
        t
    }
}

/// `str::lines`: the text split at `\n`, each terminated line losing one
/// trailing `\r`; a final line terminator yields no empty last line.
pub open spec fn lines(s: Seq<char>) -> Seq<Seq<char>> {
    let p = split_char(s, '\n');
    let body = p.drop_last().map_values(|l: Seq<char>| strip_cr(l));
    if p.last().len() == 0 {
        body
    } else {
        body.push(p.last())
    }
}

pub proof fn lemma_split_char_len(s: Seq<char>, c: char)
    ensures
        split_char(s, c).len() >= 1,
    decreases s.len(),
{
    if s.len() > 0 {
        lemma_split_char_len(s.drop_last(), c);
    }
}

/// `str::split` with a character.
pub fn split_char_vec(s: &Vec<char>, c: char) -> (r: Vec<Vec<char>>)
    ensures
        texts(r@) == split_char(s@, c),
{
    let mut done: Vec<Vec<char>> = Vec::new();
    let mut cur: Vec<char> = Vec::new();
    let mut i: usize = 0;
    while i < s.len()
        invariant
            i <= s.len(),
            texts(done@).push(cur@) == split_char(s@.take(i as int), c),
        decreases s.len() - i,
    {
        let ghost old_done = texts(done@);
        let ghost old_cur = cur@;
        proof {
            lemma_split_char_len(s@.take(i as int), c);
        }
        assert(s@.take(i + 1).drop_last() =~= s@.take(i as int));
        if s[i] == c {
            let finished = cur;
            done.push(finished);
            cur = Vec::new();
            assert(texts(done@) =~= old_done.push(old_cur));
            assert(texts(done@).push(cur@) =~= old_done.push(old_cur).push(Seq::<char>::empty()));
        } else {
            cur.push(s[i]);
            assert(texts(done@).push(cur@) =~= old_done.push(old_cur).update(
                old_done.len() as int,
                old_cur.push(s@[i as int]),
            ));
        }
        i += 1;
    }
    assert(s@.take(s.len() as int) == s@);
    let ghost before = texts(done@);
    done.push(cur);
    assert(texts(done@) =~= before.push(cur@));
    done
}

/// `str::lines`.
pub fn lines_vec(s: &Vec<char>) -> (r: Vec<Vec<char>>)
    ensures
        texts(r@) == lines(s@),
{
    let parts = split_char_vec(s, '\n');
    proof {
        lemma_split_char_len(s@, '\n');
    }
    let ghost p = split_char(s@, '\n');
    let n = parts.len();
    let mut out: Vec<Vec<char>> = Vec::new();
    let mut i: usize = 0;
    while i + 1 < n
        invariant
            n == parts.len() >= 1,
            texts(parts@) == p,
            i + 1 <= n,
            texts(out@) == p.drop_last().take(i as int).map_values(|l: Seq<char>| strip_cr(l)),
        decreases n - i,
    {
        let line = &parts[i];
        let stripped = if line.len() > 0 && line[line.len() - 1] == '\r' {
            slice_of(line, 0, line.len() - 1)
        } else {
            line.clone()
        };
        assert(line@ == p[i as int]);
        let ghost before = texts(out@);
        out.push(stripped);
        assert(texts(out@) =~= before.push(strip_cr(p[i as int])));
        assert(p.drop_last().take(i + 1).map_values(|l: Seq<char>| strip_cr(l)) =~= p.drop_last().take(
            i as int,
        ).map_values(|l: Seq<char>| strip_cr(l)).push(strip_cr(p[i as int])));
        i += 1;
    }
    assert(p.drop_last().take(i as int) == p.drop_last());
    let last = &parts[n - 1];
    assert(last@ == p.last());
    if last.len() > 0 {
        let ghost before = texts(out@);
        out.push(last.clone());
        assert(texts(out@) =~= before.push(p.last()));
    }
    out
}

pub fn lines_str(s: &str) -> (r: Vec<Vec<char>>)
    ensures
        texts(r@) == lines(s@),
{
    let v = chars_of(s);
    lines_vec(&v)
}

/// Appends `join(parts, sep)` to `out`.
pub fn push_joined(out: &mut Vec<char>, parts: &Vec<Vec<char>>, sep: &Vec<char>)
    ensures
        final(out)@ == old(out)@ + join(texts(parts@), sep@),
{
    let ghost start = out@;
    let mut i: usize = 0;
    while i < parts.len()
        invariant
            i <= parts.len(),
            out@ == start + join(texts(parts@).take(i as int), sep@),
        decreases parts.len() - i,
    {
        let ghost pv = texts(parts@);
        if i > 0 {
            push_all(out, sep);
        }
        push_all(out, &parts[i]);
        assert(pv.take(i + 1).drop_last() =~= pv.take(i as int));
        assert(pv.take(i + 1).last() == parts[i as int]@);
        if i == 0 {
            assert(join(pv.take(1), sep@) == pv.take(1)[0]);
        }
        i += 1;
    }
    assert(texts(parts@).take(parts.len() as int) =~= texts(parts@));
}

/// `join(parts, sep)`.
pub fn join_vec(parts: &Vec<Vec<char>>, sep: &str) -> (r: Vec<char>)
    ensures
        r@ == join(texts(parts@), sep@),
{
    let mut out: Vec<char> = Vec::new();
    let sv = chars_of(sep);
    push_joined(&mut out, parts, &sv);
    assert(out@ =~= join(texts(parts@), sep@));
    out
}

/// `str::split_once` with a character.
pub open spec fn split_once(s: Seq<char>, c: char) -> Option<(Seq<char>, Seq<char>)> {
    match first_index(s, c) {
        Some(i) => Some((s.take(i), s.skip(i + 1))),
        None => None,
    }
}

/// `str::rsplit_once` with a character.
pub open spec fn rsplit_once(s: Seq<char>, c: char) -> Option<(Seq<char>, Seq<char>)> {
    match last_index(s, c) {
        Some(i) => Some((s.take(i), s.skip(i + 1))),
        None => None,
    }
}

pub fn split_once_vec(s: &Vec<char>, c: char) -> (r: Option<(Vec<char>, Vec<char>)>)
    ensures
        match r {
            Some((a, b)) => split_once(s@, c) == Some((a@, b@)),
            None => split_once(s@, c) is None,
        },
{
    match first_index_exec(s, c) {
        Some(i) => {
            proof {
                lemma_first_index(s@, c);
            }
            let a = slice_of(s, 0, i);
            let b = slice_of(s, i + 1, s.len());
            assert(a@ == s@.take(i as int));
            assert(b@ == s@.skip(i + 1));
            Some((a, b))
        },
        None => None,
    }
}

pub fn rsplit_once_vec(s: &Vec<char>, c: char) -> (r: Option<(Vec<char>, Vec<char>)>)
    ensures
        match r {
            Some((a, b)) => rsplit_once(s@, c) == Some((a@, b@)),
            None => rsplit_once(s@, c) is None,
        },
{
    match last_index_exec(s, c) {
        Some(i) => {
            proof {
                lemma_last_index(s@, c);
            }
            let a = slice_of(s, 0, i);
            let b = slice_of(s, i + 1, s.len());
            assert(a@ == s@.take(i as int));
            assert(b@ == s@.skip(i + 1));
            Some((a, b))
        },
        None => None,
    }
}

/// The pieces between runs of whitespace (before dropping empty pieces).
pub open spec fn split_ws_raw(s: Seq<char>) -> Seq<Seq<char>>
    decreases s.len(),
{
    if s.len() == 0 {
        seq![Seq::<char>::empty()]
    } else {
        let prev = split_ws_raw(s.drop_last());
        if is_ws(s.last()) {
            prev.push(Seq::<char>::empty())
        } else {
            prev.update(prev.len() - 1, prev.last().push(s.last()))
        }
    }
}

/// The non-empty pieces, in order.
pub open spec fn non_empty(parts: Seq<Seq<char>>) -> Seq<Seq<char>>
    decreases parts.len(),
{
    if parts.len() == 0 {
        parts
    } else if parts.last().len() == 0 {
        non_empty(parts.drop_last())
    } else {
        non_empty(parts.drop_last()).push(parts.last())
    }
}

/// `str::split_whitespace`.
pub open spec fn split_whitespace(s: Seq<char>) -> Seq<Seq<char>> {
    non_empty(split_ws_raw(s))
}

pub proof fn lemma_split_ws_raw_len(s: Seq<char>)
    ensures
        split_ws_raw(s).len() >= 1,
    decreases s.len(),
{
    if s.len() > 0 {
        lemma_split_ws_raw_len(s.drop_last());
    }
}

pub proof fn lemma_non_empty_push(parts: Seq<Seq<char>>, x: Seq<char>)
    ensures
        non_empty(parts.push(x)) == if x.len() == 0 {
            non_empty(parts)
        } else {
            non_empty(parts).push(x)
        },
{
    assert(parts.push(x).drop_last() =~= parts);
}

/// `str::split_whitespace`.
pub fn split_whitespace_vec(s: &Vec<char>) -> (r: Vec<Vec<char>>)
    ensures
        texts(r@) == split_whitespace(s@),
{
    let mut done: Vec<Vec<char>> = Vec::new();
    let mut cur: Vec<char> = Vec::new();
    let mut i: usize = 0;
    let ghost mut raw_done: Seq<Seq<char>> = Seq::empty();
    while i < s.len()
        invariant
            i <= s.len(),
            raw_done.push(cur@) == split_ws_raw(s@.take(i as int)),
            texts(done@) == non_empty(raw_done),
        decreases s.len() - i,
    {
        proof {
            lemma_split_ws_raw_len(s@.take(i as int));
        }
        assert(s@.take(i + 1).drop_last() =~= s@.take(i as int));
        if is_ws_char(s[i]) {
            proof {
                lemma_non_empty_push(raw_done, cur@);
            }
            let ghost old_done = texts(done@);
            let ghost old_cur = cur@;
            if cur.len() > 0 {
                let finished = cur;
                done.push(finished);
                assert(texts(done@) =~= old_done.push(old_cur));
            }
            cur = Vec::new();
            proof {
                raw_done = raw_done.push(old_cur);
            }
            assert(raw_done.push(cur@) =~= raw_done.drop_last().push(old_cur).push(Seq::<char>::empty()));
        } else {
            let ghost old_cur = cur@;
            cur.push(s[i]);
            assert(raw_done.push(cur@) =~= raw_done.push(old_cur).update(
                raw_done.len() as int,
                old_cur.push(s@[i as int]),
            ));
        }
        i += 1;
    }
    assert(s@.take(s.len() as int) == s@);
    proof {
        lemma_non_empty_push(raw_done, cur@);
    }
    if cur.len() > 0 {
        let ghost before = texts(done@);
        done.push(cur);
        assert(texts(done@) =~= before.push(raw_done.push(cur@).last()));
    }
    done
}

/// Every occurrence of `from` replaced by `to` (a character map).
pub open spec fn replace_char(s: Seq<char>, from: char, to: char) -> Seq<char> {
    s.map_values(|x: char| if x == from { to } else { x })
}

pub fn replace_char_vec(s: &Vec<char>, from: char, to: char) -> (r: Vec<char>)
    ensures
        r@ == replace_char(s@, from, to),
{
    let mut r: Vec<char> = Vec::new();
    let mut i: usize = 0;
    while i < s.len()
        invariant
            i <= s.len(),
            r@ == replace_char(s@.take(i as int), from, to),
        decreases s.len() - i,
    {
        let c = s[i];
        r.push(if c == from { to } else { c });
        i += 1;
        assert(replace_char(s@.take(i as int), from, to) =~= replace_char(s@.take(i - 1), from, to).push(
            if s@[i - 1] == from { to } else { s@[i - 1] },
        ));
    }
    assert(s@.take(s.len() as int) == s@);
    r
}


/// `str::replace` with a non-empty pattern: every non-overlapping occurrence
/// of `from`, scanning left to right, replaced by `to`.
pub open spec fn replace_str(s: Seq<char>, from: Seq<char>, to: Seq<char>) -> Seq<char>
    decreases s.len(),
{
    if s.len() == 0 || from.len() == 0 {
        s
    } else if starts_with(s, from) {
        to + replace_str(s.skip(from.len() as int), from, to)
    } else {
        seq![s[0]] + replace_str(s.drop_first(), from, to)
    }
}

pub fn replace_str_vec(s: &Vec<char>, from: &Vec<char>, to: &Vec<char>) -> (r: Vec<char>)
    ensures
        r@ == replace_str(s@, from@, to@),
{
    if from.len() == 0 {
        return s.clone();
    }
    let mut out: Vec<char> = Vec::new();
    let mut i: usize = 0;
    assert(s@.skip(0) == s@);
    while i < s.len()
        invariant
            from.len() > 0,
            i <= s.len(),
            out@ + replace_str(s@.skip(i as int), from@, to@) == replace_str(s@, from@, to@),
        decreases s.len() - i,
    {
        let ghost rest = s@.skip(i as int);
        if from.len() <= s.len() - i && occurs_at_exec(s, from, i) {
            assert(rest.take(from.len() as int) =~= s@.subrange(i as int, i + from.len()));
            assert(rest.skip(from.len() as int) =~= s@.skip(i + from.len()));
            let ghost before = out@;
            push_all(&mut out, to);
            assert(out@ + replace_str(s@.skip(i + from.len()), from@, to@) =~= before + replace_str(rest, from@, to@));
            i += from.len();
        } else {
            if from.len() <= s.len() - i {
                assert(rest.take(from.len() as int) =~= s@.subrange(i as int, i + from.len()));
            }
            assert(rest.drop_first() =~= s@.skip(i + 1));
            assert(rest[0] == s@[i as int]);
            let ghost before = out@;
            out.push(s[i]);
            assert(out@ + replace_str(s@.skip(i + 1), from@, to@) =~= before + replace_str(rest, from@, to@));
            i += 1;
        }
    }
    assert(s@.skip(i as int) == Seq::<char>::empty());
    assert(out@ + Seq::<char>::empty() == out@);
    out
}

pub fn replace_lit(s: &Vec<char>, from: &str, to: &str) -> (r: Vec<char>)
    ensures
        r@ == replace_str(s@, from@, to@),
{
    let f = chars_of(from);
    let t = chars_of(to);
    replace_str_vec(s, &f, &t)
}

// ---------------------------------------------------------------------------
// Numbers
// ---------------------------------------------------------------------------

/// The character of a decimal digit.
pub open spec fn digit_char(d: nat) -> char {
    ((d + 48) as u32) as char
}

/// The value of a decimal digit character.
pub open spec fn digit_value(c: char) -> nat {
    ((c as u32) - 48) as nat
}

/// Decimal representation of `n`, without sign or leading zeros.
pub open spec fn decimal(n: nat) -> Seq<char>
    decreases n,
{
    if n < 10 {
        seq![digit_char(n)]
    } else {
        decimal(n / 10).push(digit_char(n % 10))
    }
}

/// Decimal representation (`to_string` of an unsigned integer).
pub fn decimal_vec(n: u64) -> (r: Vec<char>)
    ensures
        r@ == decimal(n as nat),
    decreases n,
{
    let d: u8 = (n % 10) as u8;
    let c = (d + 48) as char;
    assert(c == digit_char((n % 10) as nat));
    if n < 10 {
        let mut r: Vec<char> = Vec::new();
        r.push(c);
        assert(r@ =~= seq![digit_char(n as nat)]);
        r
    } else {
        let mut r = decimal_vec(n / 10);
        r.push(c);
        r
    }
}

/// Appends the decimal representation of `n`.
pub fn push_decimal(out: &mut Vec<char>, n: u64)
    ensures
        final(out)@ == old(out)@ + decimal(n as nat),
{
    let d = decimal_vec(n);
    push_all(out, &d);
}

/// The value of a run of decimal digits.
pub open spec fn digits_value(d: Seq<char>) -> nat
    decreases d.len(),
{
    if d.len() == 0 {
        0
    } else {
        digits_value(d.drop_last()) * 10 + digit_value(d.last())
    }
}

pub open spec fn all_digits(d: Seq<char>) -> bool {
    forall|i: int| 0 <= i < d.len() ==> is_digit(#[trigger] d[i])
}

/// `u32::from_str`: an optional `+` then one or more digits, in range.
pub open spec fn parse_u32(s: Seq<char>) -> Option<u32> {
    let d = if s.len() > 0 && s[0] == '+' {
        s.drop_first()
    } else {
        s
    };
    if d.len() > 0 && all_digits(d) && digits_value(d) <= u32::MAX {
        Some(digits_value(d) as u32)
    } else {
        None
    }
}

/// `i32::from_str`: an optional sign then one or more digits, in range.
pub open spec fn parse_i32(s: Seq<char>) -> Option<i32> {
    let neg = s.len() > 0 && s[0] == '-';
    let d = if s.len() > 0 && (s[0] == '+' || s[0] == '-') {
        s.drop_first()
    } else {
        s
    };
    if d.len() > 0 && all_digits(d) {
        if neg && digits_value(d) <= 0x8000_0000 {
            Some((0 - digits_value(d)) as i32)
        } else if !neg && digits_value(d) <= 0x7fff_ffff {
            Some(digits_value(d) as i32)
        } else {
            None
        }
    } else {
        None
    }
}

/// Value of `s[a..]` when it is all digits, capped at `2^32`.
fn digits_capped(s: &Vec<char>, a: usize) -> (r: Option<u64>)
    requires
        a <= s.len(),
    ensures
        r is Some <==> all_digits(s@.skip(a as int)),
        r matches Some(v) ==> v == if digits_value(s@.skip(a as int)) <= 0x1_0000_0000 {
            digits_value(s@.skip(a as int))
        } else {
            0x1_0000_0000
        },
{
    let cap: u64 = 0x1_0000_0000;
    let mut v: u64 = 0;
    let mut i = a;
    while i < s.len()
        invariant
            a <= i <= s.len(),
            all_digits(s@.subrange(a as int, i as int)),
            v == if digits_value(s@.subrange(a as int, i as int)) <= cap {
                digits_value(s@.subrange(a as int, i as int))
            } else {
                cap as nat
            },
            cap == 0x1_0000_0000,
        decreases s.len() - i,
    {
        let c = s[i];
        if !is_digit_char(c) {
            assert(s@.skip(a as int)[i - a] == c);
            return None;
        }
        let ghost prev = s@.subrange(a as int, i as int);
        let ghost next = s@.subrange(a as int, i + 1);
        assert(next.drop_last() =~= prev);
        assert(next.last() == c);
        let d: u64 = (c as u32 - 48) as u64;
        if v < cap {
            let w = v * 10 + d;
            v = if w <= cap { w } else { cap };
        }
        assert(all_digits(next)) by {
            assert forall|k: int| 0 <= k < next.len() implies is_digit(#[trigger] next[k]) by {
                if k < prev.len() {
                    assert(next[k] == prev[k]);
                }
            }
        }
        i += 1;
    }
    assert(s@.subrange(a as int, s.len() as int) == s@.skip(a as int));
    Some(v)
}

pub fn parse_u32_vec(s: &Vec<char>) -> (r: Option<u32>)
    ensures
        r == parse_u32(s@),
{
    let a: usize = if s.len() > 0 && s[0] == '+' { 1 } else { 0 };
    assert(a == 1 ==> s@.drop_first() == s@.skip(1));
    assert(a == 0 ==> s@ == s@.skip(0));
    if a >= s.len() {
        return None;
    }
    match digits_capped(s, a) {
        Some(v) => {
            if v <= 0xffff_ffff {
                Some(v as u32)
            } else {
                None
            }
        },
        None => None,
    }
}

pub fn parse_i32_vec(s: &Vec<char>) -> (r: Option<i32>)
    ensures
        r == parse_i32(s@),
{
    let neg = s.len() > 0 && s[0] == '-';
    let a: usize = if s.len() > 0 && (s[0] == '+' || s[0] == '-') { 1 } else { 0 };
    assert(a == 1 ==> s@.drop_first() == s@.skip(1));
    assert(a == 0 ==> s@ == s@.skip(0));
    if a >= s.len() {
        return None;
    }
    match digits_capped(s, a) {
        Some(v) => {
            if neg && v <= 0x8000_0000 {
                let w: i64 = 0 - (v as i64);
                Some(w as i32)
            } else if !neg && v <= 0x7fff_ffff {
                Some(v as i32)
            } else {
                None
            }
        },
        None => None,
    }
}


// ---------------------------------------------------------------------------
// Lemmas about lines and trimming
// ---------------------------------------------------------------------------

/// Appending text without `c` extends the last piece.
pub proof fn lemma_split_char_append(p: Seq<char>, q: Seq<char>, c: char)
    requires
        !has_char(q, c),
    ensures
        split_char(p + q, c) == split_char(p, c).update(
            split_char(p, c).len() - 1,
            split_char(p, c).last() + q,
        ),
    decreases q.len(),
{
    lemma_split_char_len(p, c);
    if q.len() == 0 {
        assert(p + q =~= p);
        assert(split_char(p, c).last() + q =~= split_char(p, c).last());
        assert(split_char(p, c).update(split_char(p, c).len() - 1, split_char(p, c).last())
            =~= split_char(p, c));
    } else {
        let q0 = q.drop_last();
        assert(!has_char(q0, c)) by {
            if has_char(q0, c) {
                let i = choose|i: int| 0 <= i < q0.len() && q0[i] == c;
                assert(q[i] == c);
            }
        }
        lemma_split_char_append(p, q0, c);
        assert((p + q).drop_last() =~= p + q0);
        assert((p + q).last() == q.last());
        assert(q.last() != c);
        lemma_split_char_len(p + q0, c);
        assert(split_char(p, c).last() + q =~= (split_char(p, c).last() + q0).push(q.last()));
        assert(split_char(p + q, c) =~= split_char(p, c).update(
            split_char(p, c).len() - 1,
            split_char(p, c).last() + q,
        ));
    }
}

pub open spec fn no_newlines(ls: Seq<Seq<char>>) -> bool {
    forall|i: int| 0 <= i < ls.len() ==> !has_char(#[trigger] ls[i], '\n')
}

/// Splitting joined pieces at the separator gives the pieces back.
pub proof fn lemma_split_join(ls: Seq<Seq<char>>)
    requires
        ls.len() >= 1,
        no_newlines(ls),
    ensures
        split_char(join(ls, "\n"@), '\n') == ls,
    decreases ls.len(),
{
    reveal_strlit("\n");
    if ls.len() == 1 {
        assert(split_char(Seq::<char>::empty(), '\n') =~= seq![Seq::<char>::empty()]);
        lemma_split_char_append(Seq::<char>::empty(), ls[0], '\n');
        assert(Seq::<char>::empty() + ls[0] =~= ls[0]);
        assert(Seq::<char>::empty() + ls[0] =~= ls[0]);
        assert(seq![Seq::<char>::empty()].update(0, Seq::<char>::empty() + ls[0]) =~= ls);
    } else {
        let init = ls.drop_last();
        assert(no_newlines(init)) by {
            assert forall|i: int| 0 <= i < init.len() implies !has_char(#[trigger] init[i], '\n') by {
                assert(init[i] == ls[i]);
            }
        }
        lemma_split_join(init);
        let j = join(init, "\n"@);
        let jn = j + "\n"@;
        assert(jn.drop_last() =~= j);
        assert(jn.last() == '\n');
        lemma_split_char_len(j, '\n');
        assert(split_char(jn, '\n') == init.push(Seq::<char>::empty()));
        assert(!has_char(ls.last(), '\n')) by {
            assert(ls.last() == ls[ls.len() - 1]);
        }
        lemma_split_char_append(jn, ls.last(), '\n');
        assert(join(ls, "\n"@) == jn + ls.last());
        assert(Seq::<char>::empty() + ls.last() =~= ls.last());
        assert(init.push(Seq::<char>::empty()).update(init.len() as int, Seq::<char>::empty() + ls.last())
            =~= ls);
    }
}

/// The lines of joined lines with a final newline are the lines, each
/// losing one trailing `\r`.
pub proof fn lemma_lines_unlines(ls: Seq<Seq<char>>)
    requires
        ls.len() >= 1,
        no_newlines(ls),
    ensures
        lines(join(ls, "\n"@) + "\n"@) == ls.map_values(|l: Seq<char>| strip_cr(l)),
{
    reveal_strlit("\n");
    lemma_split_join(ls);
    let j = join(ls, "\n"@);
    let jn = j + "\n"@;
    assert(jn.drop_last() =~= j);
    assert(jn.last() == '\n');
    assert(split_char(jn, '\n') == ls.push(Seq::<char>::empty()));
    assert(ls.push(Seq::<char>::empty()).drop_last() =~= ls);
}

/// Pieces of a split do not hold the separator.
pub proof fn lemma_split_char_no_sep(s: Seq<char>, c: char)
    ensures
        forall|i: int| 0 <= i < split_char(s, c).len() ==> !has_char(#[trigger] split_char(s, c)[i], c),
    decreases s.len(),
{
    lemma_split_char_len(s, c);
    if s.len() > 0 {
        lemma_split_char_no_sep(s.drop_last(), c);
        lemma_split_char_len(s.drop_last(), c);
        let prev = split_char(s.drop_last(), c);
        if s.last() != c {
            assert forall|i: int| 0 <= i < split_char(s, c).len() implies !has_char(
                #[trigger] split_char(s, c)[i],
                c,
            ) by {
                if i == prev.len() - 1 {
                    let x = prev.last().push(s.last());
                    if has_char(x, c) {
                        let k = choose|k: int| 0 <= k < x.len() && x[k] == c;
                        if k < prev.last().len() {
                            assert(prev.last()[k] == c);
                            assert(has_char(prev[prev.len() - 1], c));
                        }
                    }
                }
            }
        } else {
            assert forall|i: int| 0 <= i < split_char(s, c).len() implies !has_char(
                #[trigger] split_char(s, c)[i],
                c,
            ) by {
                if i < prev.len() {
                    assert(split_char(s, c)[i] == prev[i]);
                }
            }
        }
    }
}

/// Lines hold no newline.
pub proof fn lemma_lines_no_newline(s: Seq<char>)
    ensures
        no_newlines(lines(s)),
{
    lemma_split_char_no_sep(s, '\n');
    lemma_split_char_len(s, '\n');
    let p = split_char(s, '\n');
    assert forall|i: int| 0 <= i < lines(s).len() implies !has_char(#[trigger] lines(s)[i], '\n') by {
        if i < p.len() - 1 {
            let l = p[i];
            assert(lines(s)[i] == strip_cr(l));
            assert(!has_char(p[i], '\n'));
            if has_char(strip_cr(l), '\n') {
                let k = choose|k: int| 0 <= k < strip_cr(l).len() && strip_cr(l)[k] == '\n';
                assert(l[k] == '\n');
            }
        } else {
            assert(lines(s)[i] == p.last());
            assert(!has_char(p[p.len() - 1], '\n'));
        }
    }
}

/// A text whose ends are not whitespace is its own trim.
pub proof fn lemma_trim_of_clean(s: Seq<char>)
    requires
        s.len() == 0 || (!is_ws(s[0]) && !is_ws(s.last())),
    ensures
        trim(s) == s,
{
}

proof fn lemma_trim_start_shape(s: Seq<char>)
    ensures
        trim_start(s).len() <= s.len(),
        trim_start(s) == s.skip(s.len() - trim_start(s).len()),
        trim_start(s).len() == 0 || !is_ws(trim_start(s)[0]),
    decreases s.len(),
{
    if s.len() > 0 && is_ws(s[0]) {
        lemma_trim_start_shape(s.drop_first());
        assert(s.drop_first().skip(s.drop_first().len() - trim_start(s).len()) =~= s.skip(
            s.len() - trim_start(s).len(),
        ));
    } else {
        assert(s.skip(0) =~= s);
    }
}

proof fn lemma_trim_end_shape(s: Seq<char>)
    ensures
        trim_end(s).len() <= s.len(),
        trim_end(s) == s.take(trim_end(s).len() as int),
        trim_end(s).len() == 0 || !is_ws(trim_end(s).last()),
    decreases s.len(),
{
    if s.len() > 0 && is_ws(s.last()) {
        lemma_trim_end_shape(s.drop_last());
        assert(s.drop_last().take(trim_end(s).len() as int) =~= s.take(trim_end(s).len() as int));
    } else {
        assert(s.take(s.len() as int) =~= s);
    }
}

/// The ends of a trimmed text are not whitespace.
pub proof fn lemma_trim_ends(s: Seq<char>)
    ensures
        trim(s).len() == 0 || (!is_ws(trim(s)[0]) && !is_ws(trim(s).last())),
{
    lemma_trim_start_shape(s);
    lemma_trim_end_shape(trim_start(s));
    let t = trim_start(s);
    if trim(s).len() > 0 {
        assert(trim(s)[0] == t[0]);
    }
}

/// Trimming twice is trimming once.
pub proof fn lemma_trim_idempotent(s: Seq<char>)
    ensures
        trim(trim(s)) == trim(s),
{
    lemma_trim_ends(s);
    lemma_trim_of_clean(trim(s));
}

proof fn lemma_trim_start_push(y: Seq<char>, c: char)
    ensures
        trim_start(y.push(c)) == if trim_start(y).len() == 0 {
            if is_ws(c) {
                Seq::<char>::empty()
            } else {
                seq![c]
            }
        } else {
            trim_start(y).push(c)
        },
    decreases y.len(),
{
    if y.len() == 0 {
        assert(y.push(c) =~= seq![c]);
        assert(seq![c].drop_first() =~= Seq::<char>::empty());
        assert(trim_start(Seq::<char>::empty()) == Seq::<char>::empty());
        assert(trim_start(y) == y);
    } else {
        assert(y.push(c)[0] == y[0]);
        assert(y.push(c).drop_first() =~= y.drop_first().push(c));
        if is_ws(y[0]) {
            lemma_trim_start_push(y.drop_first(), c);
        }
    }
}

/// Trimming ignores one trailing carriage return.
pub proof fn lemma_trim_strip_cr(x: Seq<char>)
    ensures
        trim(strip_cr(x)) == trim(x),
{
    if x.len() > 0 && x.last() == '\r' {
        let y = x.drop_last();
        assert(x =~= y.push('\r'));
        lemma_trim_start_push(y, '\r');
        if trim_start(y).len() > 0 {
            assert(trim_start(y).push('\r').drop_last() =~= trim_start(y));
        }
    }
}


/// Keeps the non-empty texts, in order.
pub fn non_empty_vec(parts: &Vec<Vec<char>>) -> (r: Vec<Vec<char>>)
    ensures
        texts(r@) == non_empty(texts(parts@)),
{
    let mut r: Vec<Vec<char>> = Vec::new();
    let mut i: usize = 0;
    while i < parts.len()
        invariant
            i <= parts.len(),
            texts(r@) == non_empty(texts(parts@).take(i as int)),
        decreases parts.len() - i,
    {
        let ghost before = texts(r@);
        assert(texts(parts@).take(i + 1).drop_last() =~= texts(parts@).take(i as int));
        assert(texts(parts@).take(i + 1).last() == parts@[i as int]@);
        if parts[i].len() > 0 {
            r.push(parts[i].clone());
            assert(texts(r@) =~= before.push(parts@[i as int]@));
        }
        i += 1;
    }
    assert(texts(parts@).take(parts.len() as int) =~= texts(parts@));
    r
}

/// `s` without the prefix `p`, if it starts with it.
pub open spec fn strip_prefix(s: Seq<char>, p: Seq<char>) -> Option<Seq<char>> {
    if starts_with(s, p) {
        Some(s.skip(p.len() as int))
    } else {
        None
    }
}

/// `str::strip_prefix`.
pub fn strip_prefix_exec(s: &Vec<char>, p: &str) -> (r: Option<Vec<char>>)
    ensures
        match strip_prefix(s@, p@) {
            Some(t) => r matches Some(v) && v@ == t,
            None => r is None,
        },
{
    if starts_with_str(s, p) {
        let pv = chars_of(p);
        let mut v: Vec<char> = Vec::new();
        let mut i = pv.len();
        while i < s.len()
            invariant
                pv.len() <= i <= s.len(),
                pv@ == p@,
                v@ == s@.subrange(pv.len() as int, i as int),
            decreases s.len() - i,
        {
            v.push(s[i]);
            i += 1;
            assert(v@ =~= s@.subrange(pv.len() as int, i as int));
        }
        Some(v)
    } else {
        None
    }
}


/// The decimal text of an integer, `-` before a negative one.
pub open spec fn decimal_int(n: int) -> Seq<char> {
    if n < 0 {
        seq!['-'] + decimal((-n) as nat)
    } else {
        decimal(n as nat)
    }
}

/// `i32::to_string`.
pub fn decimal_i32(n: i32) -> (r: Vec<char>)
    ensures
        r@ == decimal_int(n as int),
{
    if n < 0 {
        let m: u64 = (0 - (n as i64)) as u64;
        let mut r: Vec<char> = Vec::new();
        r.push('-');
        push_decimal(&mut r, m);
        assert(r@ =~= seq!['-'] + decimal((-(n as int)) as nat));
        r
    } else {
        decimal_vec(n as u64)
    }
}

/// Splitting pieces joined by a one-character separator gives the pieces
/// back, when no piece holds the separator.
pub proof fn lemma_split_join_char(ls: Seq<Seq<char>>, c: char)
    requires
        ls.len() >= 1,
        forall|i: int| 0 <= i < ls.len() ==> !has_char(#[trigger] ls[i], c),
    ensures
        split_char(join(ls, seq![c]), c) == ls,
    decreases ls.len(),
{
    if ls.len() == 1 {
        assert(split_char(Seq::<char>::empty(), c) =~= seq![Seq::<char>::empty()]);
        lemma_split_char_append(Seq::<char>::empty(), ls[0], c);
        assert(Seq::<char>::empty() + ls[0] =~= ls[0]);
        assert(seq![Seq::<char>::empty()].update(0, Seq::<char>::empty() + ls[0]) =~= ls);
    } else {
        let init = ls.drop_last();
        assert forall|i: int| 0 <= i < init.len() implies !has_char(#[trigger] init[i], c) by {
            assert(init[i] == ls[i]);
        }
        lemma_split_join_char(init, c);
        let j = join(init, seq![c]);
        let jn = j + seq![c];
        assert(jn.drop_last() =~= j);
        assert(jn.last() == c);
        lemma_split_char_len(j, c);
        assert(split_char(jn, c) == init.push(Seq::<char>::empty()));
        assert(!has_char(ls.last(), c)) by {
            assert(ls.last() == ls[ls.len() - 1]);
        }
        lemma_split_char_append(jn, ls.last(), c);
        assert(join(ls, seq![c]) == jn + ls.last());
        assert(Seq::<char>::empty() + ls.last() =~= ls.last());
        assert(init.push(Seq::<char>::empty()).update(init.len() as int, Seq::<char>::empty() + ls.last()) =~= ls);
    }
}

/// Dropping empty pieces from pieces that are all non-empty changes nothing.
pub proof fn lemma_non_empty_id(parts: Seq<Seq<char>>)
    requires
        forall|i: int| 0 <= i < parts.len() ==> (#[trigger] parts[i]).len() > 0,
    ensures
        non_empty(parts) == parts,
    decreases parts.len(),
{
    if parts.len() > 0 {
        assert forall|i: int| 0 <= i < parts.drop_last().len() implies (#[trigger] parts.drop_last()[i]).len() > 0 by {
            assert(parts.drop_last()[i] == parts[i]);
        }
        lemma_non_empty_id(parts.drop_last());
        assert(parts.last() == parts[parts.len() - 1]);
        assert(parts.drop_last().push(parts.last()) =~= parts);
    }
}
} // verus!
