//! Names derived from user input and from runtime folders: URL slugs, the
//! `.test` domains of projects, PHP versions found in folder names, the
//! FastCGI port of a PHP version and the Visual C++ runtime a PHP build needs.

use vstd::prelude::*;
use vstd::utf8::encode_utf8;
use crate::text::{
    all_ascii, ascii_lower, chars_of, contains, contains_str, has_char, is_alnum, is_alnum_char,
    is_digit, is_digit_char, join, join_vec, lower_text, non_empty, non_empty_vec, push_str,
    split_char, split_char_vec, string_of, texts, trim, trim_end_lit, trim_end_str, trim_str,
    trim_vec,
};

verus! {

/// What `str::to_lowercase` returns for a text.
pub uninterp spec fn unicode_lowercase(s: Seq<char>) -> Seq<char>;

/// `str::to_lowercase`: the Unicode lowercase mapping. The contract names the
/// result and states that on ASCII text it is the ASCII lowercase (the
/// documented mapping lowercases `A`-`Z` and leaves other ASCII as is), and
/// that the result, being lowercase, holds no `A`-`Z`; the mapping of other
/// characters is left unsaid.
#[verifier::external_body]
fn to_lowercase(s: &str) -> (r: String)
    ensures
        r@ == unicode_lowercase(s@),
        all_ascii(s@) ==> r@ == ascii_lower(s@),
        forall|i: int| 0 <= i < r@.len() ==> !crate::text::is_upper(#[trigger] r@[i]),
{
    s.to_lowercase()
}

/// Every character that is not an ASCII letter or digit becomes `-`.
pub open spec fn dash_map(s: Seq<char>) -> Seq<char> {
    s.map_values(|c: char| if is_alnum(c) { c } else { '-' })
}

/// The lowercase of a text: the ASCII lowercase for ASCII text, what
/// `str::to_lowercase` returns otherwise (which holds no `A`-`Z`, so the
/// ASCII lowercase of it is itself).
pub open spec fn lowercase(s: Seq<char>) -> Seq<char> {
    ascii_lower(
        if all_ascii(s) {
            s
        } else {
            unicode_lowercase(s)
        },
    )
}

/// The slug of a text: trimmed, lowercased, every run of characters other than
/// ASCII letters and digits turned into one `-`, with no `-` at either end.
pub open spec fn slug(s: Seq<char>) -> Seq<char> {
    join(non_empty(split_char(dash_map(lowercase(trim(s))), '-')), "-"@)
}

fn dash_map_vec(s: &Vec<char>) -> (r: Vec<char>)
    ensures
        r@ == dash_map(s@),
{
    let mut r: Vec<char> = Vec::new();
    let mut i: usize = 0;
    while i < s.len()
        invariant
            i <= s.len(),
            r@ == dash_map(s@.take(i as int)),
        decreases s.len() - i,
    {
        let c = s[i];
        r.push(if is_alnum_char(c) { c } else { '-' });
        i += 1;
        assert(dash_map(s@.take(i as int)) =~= dash_map(s@.take(i - 1)).push(
            if is_alnum(s@[i - 1]) { s@[i - 1] } else { '-' },
        ));
    }
    assert(s@.take(s.len() as int) == s@);
    r
}

fn slug_vec(s: &Vec<char>) -> (r: Vec<char>)
    ensures
        r@ == slug(s@),
{
    let t = trim_vec(s);
    let ts = string_of(&t);
    let low = to_lowercase(ts.as_str());
    let lv = chars_of(low.as_str());
    proof {
        if !all_ascii(t@) {
            assert(ascii_lower(lv@) =~= lv@) by {
                assert forall|i: int| 0 <= i < lv@.len() implies crate::text::lower_char(lv@[i]) == lv@[i] by {
                    assert(!crate::text::is_upper(low@[i]));
                }
            }
        }
    }
    let mapped = dash_map_vec(&lv);
    let parts = split_char_vec(&mapped, '-');
    let kept = non_empty_vec(&parts);
    join_vec(&kept, "-")
}

/// URL-friendly form of a name ("Meu Projeto!" gives "meu-projeto").
pub fn slugify(input: &str) -> (r: String)
    ensures
        r@ == slug(input@),
{
    let v = chars_of(input);
    let r = slug_vec(&v);
    string_of(&r)
}

/// The `.test` domain of a project name or domain: a `.test` suffix (repeated
/// or not) is dropped before slugifying; an empty slug is an error.
pub open spec fn domain_of(domain: Seq<char>) -> Result<Seq<char>, Seq<char>> {
    let base = slug(trim_end_str(trim(domain), ".test"@));
    if base.len() == 0 {
        Err("Dominio invalido."@)
    } else {
        Ok(base + ".test"@)
    }
}

pub open spec fn result_view(r: Result<String, String>) -> Result<Seq<char>, Seq<char>> {
    match r {
        Ok(s) => Ok(s@),
        Err(e) => Err(e@),
    }
}

/// `name.test` for a project name or domain ("Loja.test" gives "loja.test").
pub fn normalize_domain(domain: &str) -> (r: Result<String, String>)
    ensures
        result_view(r) == domain_of(domain@),
{
    let t = trim_str(domain);
    let base = trim_end_lit(&t, ".test");
    let s = slug_vec(&base);
    if s.len() == 0 {
        return Err("Dominio invalido.".to_owned());
    }
    let mut d = s;
    push_str(&mut d, ".test");
    Ok(string_of(&d))
}


// ---------------------------------------------------------------------------
// PHP versions and runtime builds
// ---------------------------------------------------------------------------

/// A character that can be part of a dotted version.
pub open spec fn is_version_char(c: char) -> bool {
    is_digit(c) || c == '.'
}

/// The pieces of `s` between characters that cannot be part of a version.
pub open spec fn version_runs(s: Seq<char>) -> Seq<Seq<char>>
    decreases s.len(),
{
    if s.len() == 0 {
        seq![Seq::<char>::empty()]
    } else {
        let prev = version_runs(s.drop_last());
        if !is_version_char(s.last()) {
            prev.push(Seq::<char>::empty())
        } else {
            prev.update(prev.len() - 1, prev.last().push(s.last()))
        }
    }
}

proof fn lemma_version_runs_len(s: Seq<char>)
    ensures
        version_runs(s).len() >= 1,
    decreases s.len(),
{
    if s.len() > 0 {
        lemma_version_runs_len(s.drop_last());
    }
}

/// The first piece that holds a `.`.
pub open spec fn first_dotted(parts: Seq<Seq<char>>) -> Option<Seq<char>>
    decreases parts.len(),
{
    if parts.len() == 0 {
        None
    } else if has_char(parts[0], '.') {
        Some(parts[0])
    } else {
        first_dotted(parts.drop_first())
    }
}

/// The version written in a runtime folder name: the first run of digits and
/// dots that holds a dot ("php-8.2.12-nts-Win32-vs16-x64" gives "8.2.12"),
/// or the whole name when there is none.
pub open spec fn version_in_name(name: Seq<char>) -> Seq<char> {
    match first_dotted(version_runs(name)) {
        Some(v) => v,
        None => name,
    }
}

fn version_runs_vec(s: &Vec<char>) -> (r: Vec<Vec<char>>)
    ensures
        texts(r@) == version_runs(s@),
{
    let mut done: Vec<Vec<char>> = Vec::new();
    let mut cur: Vec<char> = Vec::new();
    let mut i: usize = 0;
    while i < s.len()
        invariant
            i <= s.len(),
            texts(done@).push(cur@) == version_runs(s@.take(i as int)),
        decreases s.len() - i,
    {
        let ghost old_done = texts(done@);
        let ghost old_cur = cur@;
        proof {
            lemma_version_runs_len(s@.take(i as int));
        }
        assert(s@.take(i + 1).drop_last() =~= s@.take(i as int));
        let c = s[i];
        if !(is_digit_char(c) || c == '.') {
            let finished = cur;
            done.push(finished);
            cur = Vec::new();
            assert(texts(done@) =~= old_done.push(old_cur));
            assert(texts(done@).push(cur@) =~= old_done.push(old_cur).push(Seq::<char>::empty()));
        } else {
            cur.push(c);
            assert(texts(done@).push(cur@) =~= old_done.push(old_cur).update(
                old_done.len() as int,
                old_cur.push(s@[i as int]),
            ));
        }
        i += 1;
    }
    assert(s@.take(s.len() as int) == s@);
    let ghost before = texts(done@);
    done.push(cur);
    assert(texts(done@) =~= before.push(cur@));
    done
}

fn has_char_vec(s: &Vec<char>, c: char) -> (r: bool)
    ensures
        r == has_char(s@, c),
{
    let mut i: usize = 0;
    while i < s.len()
        invariant
            i <= s.len(),
            forall|k: int| 0 <= k < i ==> s@[k] != c,
        decreases s.len() - i,
    {
        if s[i] == c {
            return true;
        }
        i += 1;
    }
    false
}

/// The version in a PHP runtime folder name.
pub fn php_version_from_name(name: &str) -> (r: String)
    ensures
        r@ == version_in_name(name@),
{
    let v = chars_of(name);
    let runs = version_runs_vec(&v);
    let mut i: usize = 0;
    assert(texts(runs@).skip(0) == texts(runs@));
    while i < runs.len()
        invariant
            i <= runs.len(),
            texts(runs@) == version_runs(name@),
            first_dotted(texts(runs@)) == first_dotted(texts(runs@).skip(i as int)),
        decreases runs.len() - i,
    {
        let ghost rest = texts(runs@).skip(i as int);
        assert(rest[0] == runs@[i as int]@);
        if has_char_vec(&runs[i], '.') {
            assert(has_char(rest[0], '.'));
            assert(first_dotted(rest) == Some(rest[0]));
            assert(first_dotted(version_runs(name@)) == Some(runs@[i as int]@));
            let r = string_of(&runs[i]);
            assert(r@ == version_in_name(name@));
            return r;
        }
        assert(rest.drop_first() =~= texts(runs@).skip(i + 1));
        i += 1;
    }
    assert(texts(runs@).skip(i as int).len() == 0);
    name.to_owned()
}

/// The FastCGI port hash: `h * 31 + byte` over the UTF-8 bytes, wrapping at 2^16.
pub open spec fn port_hash(bytes: Seq<u8>) -> u16
    decreases bytes.len(),
{
    if bytes.len() == 0 {
        0
    } else {
        ((port_hash(bytes.drop_last()) * 31 + bytes.last()) % 65536) as u16
    }
}

/// The FastCGI port of a PHP version, between 9100 and 9599.
pub open spec fn cgi_port(version: Seq<char>) -> u16 {
    (9100 + port_hash(encode_utf8(version)) % 500) as u16
}

/// The local port on which the `php-cgi` of a PHP version listens: a hash of
/// the version's bytes, so that each version gets its own port in 9100..9599.
pub fn php_cgi_port(version: &str) -> (r: u16)
    ensures
        r == cgi_port(version@),
        9100 <= r < 9600,
{
    let bytes = version.as_bytes();
    let mut hash: u16 = 0;
    let mut i: usize = 0;
    while i < bytes.len()
        invariant
            i <= bytes.len(),
            bytes@ == encode_utf8(version@),
            hash == port_hash(bytes@.take(i as int)),
        decreases bytes.len() - i,
    {
        assert(bytes@.take(i + 1).drop_last() =~= bytes@.take(i as int));
        assert(bytes@.take(i + 1).last() == bytes@[i as int]);
        let wide: u32 = (hash as u32) * 31 + (bytes[i] as u32);
        hash = (wide % 65536) as u16;
        i += 1;
    }
    assert(bytes@.take(bytes.len() as int) == bytes@);
    9100 + (hash % 500)
}


// ---------------------------------------------------------------------------
// The shape of slugs and domains
// ---------------------------------------------------------------------------

/// A character a slug may hold: a lowercase ASCII letter, a digit or `-`.
pub open spec fn slug_char(c: char) -> bool {
    ('a' <= c && c <= 'z') || ('0' <= c && c <= '9') || c == '-'
}

/// Every character of `s` satisfies `p`.
pub open spec fn all_chars(s: Seq<char>, p: spec_fn(char) -> bool) -> bool {
    forall|i: int| 0 <= i < s.len() ==> p(#[trigger] s[i])
}

proof fn lemma_split_pieces_chars(s: Seq<char>, c: char, p: spec_fn(char) -> bool)
    requires
        all_chars(s, p),
    ensures
        forall|i: int| 0 <= i < split_char(s, c).len() ==> all_chars(#[trigger] split_char(s, c)[i], p),
    decreases s.len(),
{
    crate::text::lemma_split_char_len(s, c);
    if s.len() > 0 {
        let prev = split_char(s.drop_last(), c);
        assert(all_chars(s.drop_last(), p)) by {
            assert forall|i: int| 0 <= i < s.drop_last().len() implies p(#[trigger] s.drop_last()[i]) by {
                assert(s.drop_last()[i] == s[i]);
            }
        }
        lemma_split_pieces_chars(s.drop_last(), c, p);
        crate::text::lemma_split_char_len(s.drop_last(), c);
        let sp = split_char(s, c);
        assert forall|i: int| 0 <= i < sp.len() implies all_chars(#[trigger] sp[i], p) by {
            if s.last() == c {
                if i < prev.len() {
                    assert(sp[i] == prev[i]);
                } else {
                    assert(sp[i] =~= Seq::<char>::empty());
                }
            } else {
                if i < prev.len() - 1 {
                    assert(sp[i] == prev[i]);
                } else {
                    let piece = prev.last().push(s.last());
                    assert(sp[i] == piece);
                    assert(all_chars(prev.last(), p));
                    assert forall|j: int| 0 <= j < piece.len() implies p(#[trigger] piece[j]) by {
                        if j < prev.last().len() {
                            assert(piece[j] == prev.last()[j]);
                        } else {
                            assert(piece[j] == s[s.len() - 1]);
                        }
                    }
                }
            }
        }
    }
}

proof fn lemma_non_empty_parts(parts: Seq<Seq<char>>, p: spec_fn(Seq<char>) -> bool)
    requires
        forall|i: int| 0 <= i < parts.len() ==> p(#[trigger] parts[i]),
    ensures
        forall|i: int| 0 <= i < non_empty(parts).len() ==> p(#[trigger] non_empty(parts)[i]) && non_empty(parts)[i].len() > 0,
    decreases parts.len(),
{
    if parts.len() > 0 {
        assert forall|i: int| 0 <= i < parts.drop_last().len() implies p(#[trigger] parts.drop_last()[i]) by {
            assert(parts.drop_last()[i] == parts[i]);
        }
        lemma_non_empty_parts(parts.drop_last(), p);
        let rest = non_empty(parts.drop_last());
        let ne = non_empty(parts);
        assert forall|i: int| 0 <= i < ne.len() implies p(#[trigger] ne[i]) && ne[i].len() > 0 by {
            if i < rest.len() {
                assert(ne[i] == rest[i]);
            } else {
                assert(ne[i] == parts.last());
                assert(parts.last() == parts[parts.len() - 1]);
            }
        }
    }
}

proof fn lemma_join_chars(parts: Seq<Seq<char>>, sep: Seq<char>, p: spec_fn(char) -> bool)
    requires
        forall|i: int| 0 <= i < parts.len() ==> all_chars(#[trigger] parts[i], p),
        all_chars(sep, p),
    ensures
        all_chars(join(parts, sep), p),
    decreases parts.len(),
{
    if parts.len() > 1 {
        assert forall|i: int| 0 <= i < parts.drop_last().len() implies all_chars(#[trigger] parts.drop_last()[i], p) by {
            assert(parts.drop_last()[i] == parts[i]);
        }
        lemma_join_chars(parts.drop_last(), sep, p);
        let a = join(parts.drop_last(), sep);
        let b = parts.last();
        assert(all_chars(b, p)) by {
            assert(b == parts[parts.len() - 1]);
        }
        let j = a + sep + b;
        assert forall|i: int| 0 <= i < j.len() implies p(#[trigger] j[i]) by {
            if i < a.len() {
                assert(j[i] == a[i]);
            } else if i < a.len() + sep.len() {
                assert(j[i] == sep[i - a.len()]);
            } else {
                assert(j[i] == b[i - a.len() - sep.len()]);
            }
        }
    } else if parts.len() == 1 {
        assert(all_chars(parts[0], p));
    }
}

/// Every character of a slug is a lowercase ASCII letter, a digit or `-`.
pub proof fn lemma_slug_chars(x: Seq<char>)
    ensures
        all_chars(slug(x), |c: char| slug_char(c)),
{
    let p = |c: char| slug_char(c);
    let t = trim(x);
    let u = if all_ascii(t) {
        t
    } else {
        unicode_lowercase(t)
    };
    let l = lowercase(t);
    assert(l == ascii_lower(u));
    let d = dash_map(l);
    assert(all_chars(d, p)) by {
        assert forall|i: int| 0 <= i < d.len() implies p(#[trigger] d[i]) by {
            let ch = u[i];
            assert(l[i] == crate::text::lower_char(ch));
            if crate::text::is_upper(ch) {
                assert((ch as u32) + 32 <= 122);
                assert(('a' as u32) <= (ch as u32) + 32);
            }
        }
    }
    lemma_split_pieces_chars(d, '-', p);
    let parts = split_char(d, '-');
    lemma_non_empty_parts(parts, |piece: Seq<char>| all_chars(piece, p));
    reveal_strlit("-");
    assert(all_chars("-"@, p));
    lemma_join_chars(non_empty(parts), "-"@, p);
}


/// Every character of a slug is an ASCII letter, a digit or `-`.
pub proof fn lemma_slug_alnum(x: Seq<char>)
    ensures
        all_chars(slug(x), |c: char| is_alnum(c) || c == '-'),
{
    let p = |c: char| is_alnum(c) || c == '-';
    let d = dash_map(lowercase(trim(x)));
    assert(all_chars(d, p));
    lemma_split_pieces_chars(d, '-', p);
    let parts = split_char(d, '-');
    lemma_non_empty_parts(parts, |piece: Seq<char>| all_chars(piece, p));
    reveal_strlit("-");
    assert(all_chars("-"@, p));
    lemma_join_chars(non_empty(parts), "-"@, p);
}

/// A normalized domain ends with `.test` and holds only ASCII letters,
/// digits, `-` and `.`, so no whitespace and no line break.
pub proof fn law_normalized_domain_shape(domain: Seq<char>)
    ensures
        domain_of(domain) matches Ok(d) ==> crate::text::ends_with(d, ".test"@) && !has_char(d, '\n') && !has_char(
            d,
            '\r',
        ) && d.len() > 0 && forall|i: int| 0 <= i < d.len() ==> !crate::text::is_ws(#[trigger] d[i]),
{
    reveal_strlit(".test");
    if let Ok(d) = domain_of(domain) {
        let base = trim_end_str(trim(domain), ".test"@);
        lemma_slug_alnum(base);
        let s = slug(base);
        assert(d == s + ".test"@);
        assert(d.skip(d.len() - 5) =~= ".test"@);
        assert(d.subrange(d.len() - 5, d.len() as int) =~= ".test"@);
        assert forall|i: int| 0 <= i < d.len() implies d[i] != '\n' && d[i] != '\r' && !crate::text::is_ws(d[i]) by {
            if i < s.len() {
                assert(d[i] == s[i]);
                assert(is_alnum(s[i]) || s[i] == '-');
            } else {
                assert(d[i] == ".test"@[i - s.len()]);
            }
        }
    }
}


/// Slugifying a slug gives it back.
pub proof fn law_slug_idempotent(x: Seq<char>)
    ensures
        slug(slug(x)) == slug(x),
{
    reveal_strlit("-");
    let s = slug(x);
    lemma_slug_chars(x);
    let p = |c: char| slug_char(c);
    assert(all_ascii(s)) by {
        assert forall|i: int| 0 <= i < s.len() implies (s[i] as u32) < 128 by {
            assert(p(s[i]));
        }
    }
    let t = dash_map(lowercase(trim(x)));
    let parts = split_char(t, '-');
    let ne = non_empty(parts);
    assert("-"@ =~= seq!['-']);
    assert(s == join(ne, seq!['-']));
    crate::text::lemma_split_char_no_sep(t, '-');
    lemma_non_empty_parts(parts, |piece: Seq<char>| !has_char(piece, '-'));
    if ne.len() == 0 {
        assert(s =~= Seq::<char>::empty());
        crate::text::lemma_trim_of_clean(s);
        assert(split_char(s, '-') =~= seq![Seq::<char>::empty()]);
        let one = seq![Seq::<char>::empty()];
        assert(one.drop_last() =~= Seq::<Seq<char>>::empty());
        assert(one.last().len() == 0);
        assert(non_empty(Seq::<Seq<char>>::empty()) =~= Seq::<Seq<char>>::empty());
        assert(non_empty(one) == non_empty(one.drop_last()));
        assert(non_empty(one) =~= Seq::<Seq<char>>::empty());
    } else {
        assert(s[0] != '-' && s.last() != '-') by {
            lemma_join_ends(ne, '-');
        }
        assert(!crate::text::is_ws(s[0]) && !crate::text::is_ws(s.last())) by {
            assert(p(s[0]));
            assert(p(s[s.len() - 1]));
        }
        crate::text::lemma_trim_of_clean(s);
        assert(ascii_lower(s) =~= s) by {
            assert forall|i: int| 0 <= i < s.len() implies crate::text::lower_char(s[i]) == s[i] by {
                assert(p(s[i]));
            }
        }
        assert(lowercase(s) == s);
        assert(dash_map(s) =~= s) by {
            assert forall|i: int| 0 <= i < s.len() implies (if is_alnum(s[i]) { s[i] } else { '-' }) == s[i] by {
                assert(p(s[i]));
            }
        }
        crate::text::lemma_split_join_char(ne, '-');
        crate::text::lemma_non_empty_id(ne);
    }
}

/// Pieces joined by a one-character separator hold no two separators in a
/// row, when every piece is non-empty and holds no separator.
proof fn lemma_join_no_double(ne: Seq<Seq<char>>, c: char)
    requires
        forall|i: int| 0 <= i < ne.len() ==> !has_char(#[trigger] ne[i], c) && ne[i].len() > 0,
    ensures
        forall|i: int| 0 <= i < join(ne, seq![c]).len() - 1 ==> !(#[trigger] join(ne, seq![c])[i] == c && join(ne, seq![c])[i + 1] == c),
    decreases ne.len(),
{
    let j = join(ne, seq![c]);
    if ne.len() == 1 {
        assert forall|i: int| 0 <= i < j.len() - 1 implies !(#[trigger] j[i] == c && j[i + 1] == c) by {
            assert(!has_char(ne[0], c));
            assert(j[i] == ne[0][i]);
        }
    } else if ne.len() > 1 {
        let rest = ne.drop_last();
        assert forall|i: int| 0 <= i < rest.len() implies !has_char(#[trigger] rest[i], c) && rest[i].len() > 0 by {
            assert(rest[i] == ne[i]);
        }
        lemma_join_no_double(rest, c);
        lemma_join_ends(rest, c);
        let a = join(rest, seq![c]);
        let l = ne.last();
        assert(!has_char(ne[ne.len() - 1], c) && ne[ne.len() - 1].len() > 0);
        assert(j == a + seq![c] + l);
        assert forall|i: int| 0 <= i < j.len() - 1 implies !(#[trigger] j[i] == c && j[i + 1] == c) by {
            if i < a.len() - 1 {
                assert(j[i] == a[i] && j[i + 1] == a[i + 1]);
            } else if i == a.len() - 1 {
                assert(j[i] == a.last());
            } else if i == a.len() {
                assert(j[i + 1] == l[0]);
            } else {
                assert(j[i] == l[i - a.len() - 1]);
            }
        }
    }
}

/// A text with a character other than the separator has a non-empty piece.
proof fn lemma_split_has_nonempty(d: Seq<char>, c: char, k: int)
    requires
        0 <= k < d.len(),
        d[k] != c,
    ensures
        exists|j: int| 0 <= j < split_char(d, c).len() && (#[trigger] split_char(d, c)[j]).len() > 0,
    decreases d.len(),
{
    crate::text::lemma_split_char_len(d, c);
    let prev = split_char(d.drop_last(), c);
    crate::text::lemma_split_char_len(d.drop_last(), c);
    if d.last() != c {
        let n = split_char(d, c);
        assert(n[n.len() - 1] == prev.last().push(d.last()));
    } else {
        assert(k < d.len() - 1);
        assert(d.drop_last()[k] == d[k]);
        lemma_split_has_nonempty(d.drop_last(), c, k);
        let j = choose|j: int| 0 <= j < prev.len() && (#[trigger] prev[j]).len() > 0;
        assert(split_char(d, c)[j] == prev[j]);
    }
}

/// Keeping the non-empty pieces keeps something when one piece is non-empty.
proof fn lemma_non_empty_has(parts: Seq<Seq<char>>, j: int)
    requires
        0 <= j < parts.len(),
        parts[j].len() > 0,
    ensures
        non_empty(parts).len() > 0,
    decreases parts.len(),
{
    if parts.last().len() == 0 {
        assert(j < parts.len() - 1);
        assert(parts.drop_last()[j] == parts[j]);
        lemma_non_empty_has(parts.drop_last(), j);
    }
}

/// Keeping the non-empty pieces of empty pieces keeps nothing.
proof fn lemma_non_empty_none(parts: Seq<Seq<char>>)
    requires
        forall|i: int| 0 <= i < parts.len() ==> (#[trigger] parts[i]).len() == 0,
    ensures
        non_empty(parts).len() == 0,
    decreases parts.len(),
{
    if parts.len() > 0 {
        assert(parts[parts.len() - 1].len() == 0);
        assert forall|i: int| 0 <= i < parts.drop_last().len() implies (#[trigger] parts.drop_last()[i]).len() == 0 by {
            assert(parts.drop_last()[i] == parts[i]);
        }
        lemma_non_empty_none(parts.drop_last());
    }
}

/// The shape of a slug: lowercase ASCII letters, digits and `-`; no `-` at
/// either end and no two in a row; and empty exactly when the lowercased,
/// trimmed text (what `str::to_lowercase` gives of it) holds no ASCII letter
/// or digit.
pub proof fn law_slug_shape(x: Seq<char>)
    ensures
        all_chars(slug(x), |c: char| slug_char(c)),
        slug(x).len() > 0 ==> slug(x)[0] != '-' && slug(x).last() != '-',
        forall|i: int| 0 <= i < slug(x).len() - 1 ==> !(#[trigger] slug(x)[i] == '-' && slug(x)[i + 1] == '-'),
        slug(x).len() == 0 <==> forall|i: int| 0 <= i < lowercase(trim(x)).len() ==> !is_alnum(
            #[trigger] lowercase(trim(x))[i],
        ),
{
    reveal_strlit("-");
    lemma_slug_chars(x);
    let l = lowercase(trim(x));
    let d = dash_map(l);
    let parts = split_char(d, '-');
    let ne = non_empty(parts);
    assert("-"@ =~= seq!['-']);
    assert(slug(x) == join(ne, seq!['-']));
    crate::text::lemma_split_char_no_sep(d, '-');
    lemma_non_empty_parts(parts, |piece: Seq<char>| !has_char(piece, '-'));
    lemma_join_no_double(ne, '-');
    if ne.len() > 0 {
        lemma_join_ends(ne, '-');
    }
    if forall|i: int| 0 <= i < l.len() ==> !is_alnum(#[trigger] l[i]) {
        assert(all_chars(d, |c: char| c == '-')) by {
            assert forall|i: int| 0 <= i < d.len() implies d[i] == '-' by {
                assert(!is_alnum(l[i]));
            }
        }
        lemma_split_pieces_chars(d, '-', |c: char| c == '-');
        assert forall|i: int| 0 <= i < parts.len() implies (#[trigger] parts[i]).len() == 0 by {
            if parts[i].len() > 0 {
                assert(parts[i][0] == '-');
                assert(has_char(parts[i], '-'));
            }
        }
        lemma_non_empty_none(parts);
        assert(slug(x).len() == 0);
    } else {
        let k = choose|i: int| 0 <= i < l.len() && is_alnum(#[trigger] l[i]);
        assert(d[k] == l[k]);
        lemma_split_has_nonempty(d, '-', k);
        let j = choose|j: int| 0 <= j < parts.len() && (#[trigger] parts[j]).len() > 0;
        lemma_non_empty_has(parts, j);
        lemma_join_ends(ne, '-');
    }
}

/// The ends of pieces joined by `-` are the ends of the first and last
/// piece, when those are non-empty and hold no `-`.
proof fn lemma_join_ends(ne: Seq<Seq<char>>, c: char)
    requires
        ne.len() > 0,
        forall|i: int| 0 <= i < ne.len() ==> !has_char(#[trigger] ne[i], c) && ne[i].len() > 0,
    ensures
        join(ne, seq![c]).len() > 0,
        join(ne, seq![c])[0] != c,
        join(ne, seq![c]).last() != c,
    decreases ne.len(),
{
    assert(!has_char(ne[0], c) && ne[0].len() > 0);
    assert(ne[0][0] != c);
    let l = ne[ne.len() - 1];
    assert(!has_char(l, c) && l.len() > 0);
    assert(l[l.len() - 1] != c);
    if ne.len() > 1 {
        assert forall|i: int| 0 <= i < ne.drop_last().len() implies !has_char(#[trigger] ne.drop_last()[i], c)
            && ne.drop_last()[i].len() > 0 by {
            assert(ne.drop_last()[i] == ne[i]);
        }
        lemma_join_ends(ne.drop_last(), c);
        let a = join(ne.drop_last(), seq![c]);
        let j = a + seq![c] + ne.last();
        assert(j[0] == a[0]);
        assert(j.last() == l.last());
    }
}

/// Normalizing a normalized domain gives it back.
pub proof fn law_normalize_domain_idempotent(domain: Seq<char>)
    ensures
        domain_of(domain) matches Ok(d) ==> domain_of(d) == Ok::<Seq<char>, Seq<char>>(d),
{
    reveal_strlit(".test");
    if let Ok(d) = domain_of(domain) {
        let base = trim_end_str(trim(domain), ".test"@);
        let s = slug(base);
        lemma_slug_chars(base);
        law_slug_idempotent(base);
        assert(d == s + ".test"@);
        assert(s.len() > 0);
        assert(!crate::text::is_ws(d[0]) && !crate::text::is_ws(d.last())) by {
            assert(d[0] == s[0]);
            assert(slug_char(s[0]));
            assert(d.last() == 't');
        }
        crate::text::lemma_trim_of_clean(d);
        assert(crate::text::ends_with(d, ".test"@)) by {
            assert(d.subrange(d.len() - 5, d.len() as int) =~= ".test"@);
        }
        let once = d.take(d.len() - 5);
        assert(once =~= s);
        assert(!crate::text::ends_with(s, ".test"@)) by {
            if crate::text::ends_with(s, ".test"@) {
                assert(".test"@[0] == '.');
                assert(s.skip(s.len() - 5)[0] == s[s.len() - 5]);
                assert(s[s.len() - 5] == '.');
                assert(slug_char(s[s.len() - 5]));
            }
        }
        assert(trim_end_str(d, ".test"@) == trim_end_str(once, ".test"@));
        assert(trim_end_str(s, ".test"@) == s);
    }
}
} // verus!
