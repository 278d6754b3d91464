//! `php.ini` editing: setting a directive, switching an extension on or off,
//! and reading whether an extension is on.

use vstd::prelude::*;
use crate::text::{
    has_char, is_ws, lemma_lines_no_newline, lemma_lines_unlines, lemma_trim_idempotent,
    lemma_trim_of_clean, lemma_trim_strip_cr, no_newlines, strip_cr,
    ascii_lower, chars_of, ends_with, eq_ignore_case, eq_ignore_case_exec, join, last_index,
    last_index_exec, lemma_last_index, lines, lines_str, lower_text, push_all, push_joined,
    push_str, replace_char, replace_char_vec, slice_of, starts_with, starts_with_str, string_of,
    ends_with_str, texts, trim, trim_char, trim_char_vec, trim_start, trim_start_char,
    trim_start_char_vec, trim_start_vec, trim_vec,
};

verus! {

/// `line`, commented out or not, sets `key`: after dropping leading
/// whitespace and `;`, it reads `key`, optional whitespace, then `=`.
pub open spec fn directive_matches(line: Seq<char>, key: Seq<char>) -> bool {
    let u = trim_start(trim_start_char(trim_start(line), ';'));
    starts_with(u, key) && {
        let rest = trim_start(u.skip(key.len() as int));
        rest.len() > 0 && rest[0] == '='
    }
}

/// `key=value`.
pub open spec fn directive_line(key: Seq<char>, value: Seq<char>) -> Seq<char> {
    key + "="@ + value
}

/// Lines joined with `\n`, with a final `\n`.
pub open spec fn unlines(ls: Seq<Seq<char>>) -> Seq<char> {
    join(ls, "\n"@) + "\n"@
}

/// Each line replaced by `f` where `m` holds of it.
pub open spec fn replace_matching(
    ls: Seq<Seq<char>>,
    m: spec_fn(Seq<char>) -> bool,
    new_line: Seq<char>,
) -> Seq<Seq<char>> {
    ls.map_values(|l: Seq<char>| if m(l) { new_line } else { l })
}

/// The lines after replacing every matching line, with `new_line` appended
/// when no line matched.
pub open spec fn replace_or_append(
    ls: Seq<Seq<char>>,
    m: spec_fn(Seq<char>) -> bool,
    new_line: Seq<char>,
) -> Seq<Seq<char>> {
    let replaced = replace_matching(ls, m, new_line);
    if exists|i: int| 0 <= i < ls.len() && m(ls[i]) {
        replaced
    } else {
        replaced.push(new_line)
    }
}

/// `set_ini_directive`: every line that sets `key` (commented out or not)
/// becomes `key=value`; without one, `key=value` is appended.
pub open spec fn ini_with_directive(raw: Seq<char>, key: Seq<char>, value: Seq<char>) -> Seq<char> {
    unlines(
        replace_or_append(lines(raw), |l: Seq<char>| directive_matches(l, key), directive_line(key, value)),
    )
}

fn directive_matches_exec(line: &Vec<char>, key: &Vec<char>) -> (r: bool)
    ensures
        r == directive_matches(line@, key@),
{
    let a = trim_start_vec(line);
    let b = trim_start_char_vec(&a, ';');
    let u = trim_start_vec(&b);
    if !crate::text::starts_with_exec(&u, key) {
        return false;
    }
    let rest0 = slice_of(&u, key.len(), u.len());
    assert(rest0@ == u@.skip(key@.len() as int));
    let rest = trim_start_vec(&rest0);
    rest.len() > 0 && rest[0] == '='
}

/// Sets `key=value` in an ini text: every line that sets `key`, commented
/// out or not, is replaced; without such a line one is appended. The result
/// has one line per line of the input (plus the appended one) and ends in `\n`.
pub fn set_ini_directive(raw: &str, key: &str, value: &str) -> (r: String)
    ensures
        r@ == ini_with_directive(raw@, key@, value@),
{
    let ls = lines_str(raw);
    let k = chars_of(key);
    let mut new_line = k.clone();
    push_str(&mut new_line, "=");
    push_str(&mut new_line, value);
    let ghost m = |l: Seq<char>| directive_matches(l, key@);
    let mut out: Vec<Vec<char>> = Vec::new();
    let mut found = false;
    let mut i: usize = 0;
    while i < ls.len()
        invariant
            i <= ls.len(),
            texts(ls@) == lines(raw@),
            new_line@ == directive_line(key@, value@),
            k@ == key@,
            m == (|l: Seq<char>| directive_matches(l, key@)),
            texts(out@) == replace_matching(texts(ls@).take(i as int), m, new_line@),
            found == exists|j: int| 0 <= j < i && m(texts(ls@)[j]),
        decreases ls.len() - i,
    {
        let ghost before = texts(out@);
        let hit = directive_matches_exec(&ls[i], &k);
        if hit {
            found = true;
            out.push(new_line.clone());
        } else {
            out.push(ls[i].clone());
        }
        assert(texts(out@) =~= before.push(if m(texts(ls@)[i as int]) { new_line@ } else { texts(ls@)[i as int] }));
        assert(replace_matching(texts(ls@).take(i + 1), m, new_line@) =~= replace_matching(
            texts(ls@).take(i as int), m, new_line@).push(
            if m(texts(ls@)[i as int]) { new_line@ } else { texts(ls@)[i as int] },
        ));
        i += 1;
    }
    assert(texts(ls@).take(ls.len() as int) =~= texts(ls@));
    if !found {
        let ghost before = texts(out@);
        out.push(new_line.clone());
        assert(texts(out@) =~= before.push(new_line@));
    }
    let mut text: Vec<char> = Vec::new();
    let nl = chars_of("\n");
    push_joined(&mut text, &out, &nl);
    push_str(&mut text, "\n");
    assert(text@ =~= unlines(texts(out@)));
    string_of(&text)
}

// ---------------------------------------------------------------------------
// Extensions
// ---------------------------------------------------------------------------

/// The file an `extension=` line names: the value after `extension=`,
/// trimmed, without surrounding quotes, with `\` read as `/`, after its last `/`.
pub open spec fn extension_file(value: Seq<char>) -> Seq<char> {
    let v = replace_char(trim_char(trim(value), '"'), '\\', '/');
    match last_index(v, '/') {
        Some(i) => v.skip(i + 1),
        None => v,
    }
}

/// `line` loads the extension: it starts with `extension=` and names the
/// library file `dll` or the extension `name`, in any ASCII case.
pub open spec fn extension_line_matches(line: Seq<char>, dll: Seq<char>, name: Seq<char>) -> bool {
    starts_with(line, "extension="@) && {
        let file = extension_file(line.skip(10));
        eq_ignore_case(file, dll) || eq_ignore_case(file, name)
    }
}

/// Whether an ini text loads the extension: some line, trimmed, is not a
/// comment and loads it.
pub open spec fn extension_enabled(ini: Seq<char>, dll: Seq<char>, name: Seq<char>) -> bool {
    exists|i: int|
        0 <= i < lines(ini).len() && {
            let t = trim(#[trigger] lines(ini)[i]);
            !(t.len() > 0 && t[0] == ';') && extension_line_matches(t, dll, name)
        }
}

/// The line that switches an extension on (`extension=name`) or off (`;extension=name`).
pub open spec fn extension_line(name: Seq<char>, enabled: bool) -> Seq<char> {
    if enabled {
        "extension="@ + name
    } else {
        ";extension="@ + name
    }
}

/// A line, commented out or not, that loads the extension.
pub open spec fn extension_setting_matches(line: Seq<char>, dll: Seq<char>, name: Seq<char>) -> bool {
    extension_line_matches(trim(trim_start_char(trim(line), ';')), dll, name)
}

/// `set_php_extension_line`: every line that loads the extension, commented
/// out or not, becomes the switch line; without one, the switch line is appended.
pub open spec fn ini_with_extension(raw: Seq<char>, dll: Seq<char>, name: Seq<char>, enabled: bool) -> Seq<char> {
    unlines(
        replace_or_append(
            lines(raw),
            |l: Seq<char>| extension_setting_matches(l, dll, name),
            extension_line(name, enabled),
        ),
    )
}

fn extension_file_exec(value: &Vec<char>) -> (r: Vec<char>)
    ensures
        r@ == extension_file(value@),
{
    let t = trim_vec(value);
    let q = trim_char_vec(&t, '"');
    let v = replace_char_vec(&q, '\\', '/');
    match last_index_exec(&v, '/') {
        Some(i) => {
            proof {
                lemma_last_index(v@, '/');
            }
            let r = slice_of(&v, i + 1, v.len());
            assert(r@ == v@.skip(i + 1));
            r
        },
        None => v,
    }
}

fn line_matches_vec(line: &Vec<char>, dll: &Vec<char>, name: &Vec<char>) -> (r: bool)
    ensures
        r == extension_line_matches(line@, dll@, name@),
{
    if !starts_with_str(line, "extension=") {
        return false;
    }
    proof {
        reveal_strlit("extension=");
    }
    let rest = slice_of(line, 10, line.len());
    assert(rest@ == line@.skip(10));
    let file = extension_file_exec(&rest);
    eq_ignore_case_exec(&file, dll) || eq_ignore_case_exec(&file, name)
}

/// Whether an `extension=` line loads the extension, given by its library
/// file (`php_curl.dll`) or its name (`curl`), ignoring ASCII case, quotes
/// and any directory in the value.
pub fn php_extension_line_matches(line: &str, dll: &str, name: &str) -> (r: bool)
    ensures
        r == extension_line_matches(line@, dll@, name@),
{
    let l = chars_of(line);
    let d = chars_of(dll);
    let n = chars_of(name);
    line_matches_vec(&l, &d, &n)
}

/// Whether an ini text loads the extension on a line that is not commented out.
pub fn php_extension_enabled(ini: &str, dll: &str, name: &str) -> (r: bool)
    ensures
        r == extension_enabled(ini@, dll@, name@),
{
    let ls = lines_str(ini);
    let d = chars_of(dll);
    let n = chars_of(name);
    let mut i: usize = 0;
    while i < ls.len()
        invariant
            i <= ls.len(),
            texts(ls@) == lines(ini@),
            d@ == dll@,
            n@ == name@,
            forall|j: int|
                0 <= j < i ==> !({
                    let t = trim(#[trigger] lines(ini@)[j]);
                    !(t.len() > 0 && t[0] == ';') && extension_line_matches(t, dll@, name@)
                }),
        decreases ls.len() - i,
    {
        let t = trim_vec(&ls[i]);
        assert(lines(ini@)[i as int] == ls@[i as int]@);
        if !(t.len() > 0 && t[0] == ';') && line_matches_vec(&t, &d, &n) {
            return true;
        }
        i += 1;
    }
    false
}

fn setting_matches_exec(line: &Vec<char>, dll: &Vec<char>, name: &Vec<char>) -> (r: bool)
    ensures
        r == extension_setting_matches(line@, dll@, name@),
{
    let t = trim_vec(line);
    let u = trim_start_char_vec(&t, ';');
    let u = trim_vec(&u);
    line_matches_vec(&u, dll, name)
}

/// Switches an extension on (`extension=name`) or off (`;extension=name`):
/// every line that loads it, commented out or not, is replaced; without such
/// a line the switch line is appended. The result ends in `\n`.
pub fn set_php_extension_line(raw: &str, dll: &str, name: &str, enabled: bool) -> (r: String)
    ensures
        r@ == ini_with_extension(raw@, dll@, name@, enabled),
{
    let ls = lines_str(raw);
    let d = chars_of(dll);
    let n = chars_of(name);
    let mut new_line: Vec<char> = Vec::new();
    if enabled {
        push_str(&mut new_line, "extension=");
    } else {
        push_str(&mut new_line, ";extension=");
    }
    push_str(&mut new_line, name);
    let ghost m = |l: Seq<char>| extension_setting_matches(l, dll@, name@);
    let mut out: Vec<Vec<char>> = Vec::new();
    let mut found = false;
    let mut i: usize = 0;
    while i < ls.len()
        invariant
            i <= ls.len(),
            texts(ls@) == lines(raw@),
            new_line@ == extension_line(name@, enabled),
            d@ == dll@,
            n@ == name@,
            m == (|l: Seq<char>| extension_setting_matches(l, dll@, name@)),
            texts(out@) == replace_matching(texts(ls@).take(i as int), m, new_line@),
            found == exists|j: int| 0 <= j < i && m(texts(ls@)[j]),
        decreases ls.len() - i,
    {
        let ghost before = texts(out@);
        let hit = setting_matches_exec(&ls[i], &d, &n);
        if hit {
            found = true;
            out.push(new_line.clone());
        } else {
            out.push(ls[i].clone());
        }
        assert(texts(out@) =~= before.push(if m(texts(ls@)[i as int]) { new_line@ } else { texts(ls@)[i as int] }));
        assert(replace_matching(texts(ls@).take(i + 1), m, new_line@) =~= replace_matching(
            texts(ls@).take(i as int), m, new_line@).push(
            if m(texts(ls@)[i as int]) { new_line@ } else { texts(ls@)[i as int] },
        ));
        i += 1;
    }
    assert(texts(ls@).take(ls.len() as int) =~= texts(ls@));
    if !found {
        let ghost before = texts(out@);
        out.push(new_line.clone());
        assert(texts(out@) =~= before.push(new_line@));
    }
    let mut text: Vec<char> = Vec::new();
    let nl = chars_of("\n");
    push_joined(&mut text, &out, &nl);
    push_str(&mut text, "\n");
    assert(text@ =~= unlines(texts(out@)));
    string_of(&text)
}

/// The library file of an extension given as `curl`, `php_curl`,
/// `php_curl.dll`, `extension=curl` or `;extension="php_curl.dll"`:
/// `php_` is prefixed and `.dll` appended where missing (ASCII case ignored).
pub open spec fn extension_dll(extension: Seq<char>) -> Seq<char> {
    let v0 = trim(trim_start_char(trim(extension), ';'));
    let v1 = if starts_with(v0, "extension="@) {
        trim_char(trim(v0.skip(10)), '"')
    } else {
        v0
    };
    let v2 = if starts_with(ascii_lower(v1), "php_"@) {
        v1
    } else {
        "php_"@ + v1
    };
    if ends_with(ascii_lower(v2), ".dll"@) {
        v2
    } else {
        v2 + ".dll"@
    }
}

/// The library file of an extension (`curl` gives `php_curl.dll`).
pub fn normalize_php_extension_dll(extension: &str) -> (r: String)
    ensures
        r@ == extension_dll(extension@),
{
    let t = crate::text::trim_str(extension);
    let u = trim_start_char_vec(&t, ';');
    let v0 = trim_vec(&u);
    let v1 = if starts_with_str(&v0, "extension=") {
        proof {
            reveal_strlit("extension=");
        }
        let rest = slice_of(&v0, 10, v0.len());
        assert(rest@ == v0@.skip(10));
        let rt = trim_vec(&rest);
        trim_char_vec(&rt, '"')
    } else {
        v0
    };
    let low1 = lower_text(&v1);
    let v2 = if starts_with_str(&low1, "php_") {
        v1
    } else {
        let mut w = chars_of("php_");
        push_all(&mut w, &v1);
        w
    };
    let low2 = lower_text(&v2);
    let v3 = if ends_with_str(&low2, ".dll") {
        v2
    } else {
        let mut w = v2;
        push_str(&mut w, ".dll");
        w
    };
    string_of(&v3)
}

/// The extensions switched on in every prepared `php.ini` whose library is present.
pub fn default_php_extensions() -> (r: Vec<&'static str>)
    ensures
        r@ == seq!["openssl", "curl", "fileinfo", "intl", "mbstring", "mysqli", "pdo_mysql", "zip", "gd"],
{
    let mut r: Vec<&'static str> = Vec::new();
    r.push("openssl");
    r.push("curl");
    r.push("fileinfo");
    r.push("intl");
    r.push("mbstring");
    r.push("mysqli");
    r.push("pdo_mysql");
    r.push("zip");
    r.push("gd");
    r
}


// ---------------------------------------------------------------------------
// Reading back a switched extension
// ---------------------------------------------------------------------------

/// An extension name as the extension list writes it: no whitespace or quote
/// at either end, and no `/`, `\` or newline inside.
pub open spec fn clean_extension_name(name: Seq<char>) -> bool {
    &&& name.len() == 0 || (!is_ws(name[0]) && !is_ws(name.last()) && name[0] != '"' && name.last() != '"')
    &&& !has_char(name, '/')
    &&& !has_char(name, '\\')
    &&& !has_char(name, '\n')
}

proof fn lemma_extension_file_clean(name: Seq<char>)
    requires
        clean_extension_name(name),
    ensures
        extension_file(name) == name,
{
    lemma_trim_of_clean(name);
    assert(trim_start_char(name, '"') == name);
    assert(crate::text::trim_end_char(name, '"') == name);
    assert(replace_char(name, '\\', '/') =~= name) by {
        assert forall|i: int| 0 <= i < name.len() implies name[i] != '\\' by {}
    }
    lemma_last_index(name, '/');
}

/// After switching an extension on or off, reading the ini text back reports
/// it on exactly when it was switched on.
pub proof fn law_php_extension_switch_read_back(raw: Seq<char>, dll: Seq<char>, name: Seq<char>, enabled: bool)
    requires
        clean_extension_name(name),
    ensures
        extension_enabled(ini_with_extension(raw, dll, name, enabled), dll, name) == enabled,
{
    reveal_strlit("extension=");
    reveal_strlit(";extension=");
    reveal_strlit("\n");
    let ls = lines(raw);
    lemma_lines_no_newline(raw);
    let m = |l: Seq<char>| extension_setting_matches(l, dll, name);
    let nl = extension_line(name, enabled);
    let out = replace_or_append(ls, m, nl);
    let prefix: Seq<char> = if enabled { "extension="@ } else { ";extension="@ };
    assert(nl == prefix + name);
    assert(!has_char(nl, '\n')) by {
        if has_char(nl, '\n') {
            let k = choose|k: int| 0 <= k < nl.len() && nl[k] == '\n';
            if k >= prefix.len() {
                assert(name[k - prefix.len()] == '\n');
            }
        }
    }
    assert(nl.last() != '\r' && !is_ws(nl.last()) && !is_ws(nl[0])) by {
        if name.len() > 0 {
            assert(nl.last() == name.last());
        }
    }
    assert(strip_cr(nl) == nl);
    lemma_trim_of_clean(nl);
    assert(out.len() >= 1);
    assert(no_newlines(out)) by {
        assert forall|i: int| 0 <= i < out.len() implies !has_char(#[trigger] out[i], '\n') by {
            if i < ls.len() {
                if !m(ls[i]) {
                    assert(out[i] == ls[i]);
                }
            }
        }
    }
    lemma_lines_unlines(out);
    let result = ini_with_extension(raw, dll, name, enabled);
    assert(lines(result) == out.map_values(|l: Seq<char>| strip_cr(l)));
    if enabled {
        lemma_extension_file_clean(name);
        assert(nl.skip(10) =~= name);
        assert(nl.take(10) =~= "extension="@);
        assert(extension_line_matches(nl, dll, name));
        let i = if exists|j: int| 0 <= j < ls.len() && m(ls[j]) {
            choose|j: int| 0 <= j < ls.len() && m(ls[j])
        } else {
            ls.len() as int
        };
        assert(out[i] == nl);
        assert(lines(result)[i] == nl);
        let t = trim(lines(result)[i]);
        assert(!(t.len() > 0 && t[0] == ';') && extension_line_matches(t, dll, name));
    } else {
        assert forall|i: int| 0 <= i < lines(result).len() implies !({
            let t = trim(#[trigger] lines(result)[i]);
            !(t.len() > 0 && t[0] == ';') && extension_line_matches(t, dll, name)
        }) by {
            assert(lines(result)[i] == strip_cr(out[i]));
            lemma_trim_strip_cr(out[i]);
            if i < ls.len() && !m(ls[i]) {
                let l = ls[i];
                assert(out[i] == l);
                let t = trim(l);
                lemma_trim_idempotent(l);
                if !(t.len() > 0 && t[0] == ';') {
                    assert(trim_start_char(t, ';') == t);
                }
            } else {
                assert(out[i] == nl);
                assert(trim(nl)[0] == ';');
            }
        }
    }
}


/// After a directive is set, the ini text holds the line `key=value` (for a
/// key and value without line breaks, the value not ending in `\r`).
pub proof fn law_set_ini_directive_read_back(raw: Seq<char>, key: Seq<char>, value: Seq<char>)
    requires
        !has_char(key, '\n'),
        !has_char(value, '\n'),
        value.len() == 0 || value.last() != '\r',
    ensures
        lines(ini_with_directive(raw, key, value)).contains(directive_line(key, value)),
{
    reveal_strlit("=");
    reveal_strlit("\n");
    let ls = lines(raw);
    lemma_lines_no_newline(raw);
    let m = |l: Seq<char>| directive_matches(l, key);
    let nl = directive_line(key, value);
    let out = replace_or_append(ls, m, nl);
    assert(!has_char(nl, '\n')) by {
        if has_char(nl, '\n') {
            let k = choose|k: int| 0 <= k < nl.len() && nl[k] == '\n';
            if k < key.len() {
                assert(key[k] == '\n');
            } else if k > key.len() {
                assert(value[k - key.len() - 1] == '\n');
            }
        }
    }
    assert(strip_cr(nl) == nl) by {
        if value.len() > 0 {
            assert(nl.last() == value.last());
        } else {
            assert(nl.last() == '=');
        }
    }
    assert(out.len() >= 1);
    assert(no_newlines(out)) by {
        assert forall|i: int| 0 <= i < out.len() implies !has_char(#[trigger] out[i], '\n') by {
            if i < ls.len() {
                if !m(ls[i]) {
                    assert(out[i] == ls[i]);
                }
            }
        }
    }
    lemma_lines_unlines(out);
    let result = ini_with_directive(raw, key, value);
    assert(lines(result) == out.map_values(|l: Seq<char>| strip_cr(l)));
    let i = if exists|j: int| 0 <= j < ls.len() && m(ls[j]) {
        choose|j: int| 0 <= j < ls.len() && m(ls[j])
    } else {
        ls.len() as int
    };
    assert(out[i] == nl);
    assert(lines(result)[i] == nl);
}

/// The line `key=value` sets `key`, for a key that starts with neither
/// whitespace nor `;`.
proof fn lemma_directive_line_matches(key: Seq<char>, value: Seq<char>)
    requires
        key.len() > 0,
        !is_ws(key[0]),
        key[0] != ';',
    ensures
        directive_matches(directive_line(key, value), key),
{
    reveal_strlit("=");
    let nl = directive_line(key, value);
    assert(nl[0] == key[0]);
    assert(trim_start(nl) == nl);
    assert(trim_start_char(nl, ';') == nl);
    assert(nl.take(key.len() as int) =~= key);
    let after = nl.skip(key.len() as int);
    assert(after =~= "="@ + value);
    assert(after[0] == '=');
    assert(!is_ws('='));
    assert(trim_start(after) == after);
}

/// Setting a directive twice is setting it once: the text that setting
/// `key=value` gives is left as it is by setting it again. This holds for a
/// key that starts with neither whitespace nor `;`, a key and value without
/// line breaks, and a text none of whose lines ends in a carriage return
/// that `lines` keeps (the second pass would drop it).
pub proof fn law_set_ini_directive_idempotent(raw: Seq<char>, key: Seq<char>, value: Seq<char>)
    requires
        key.len() > 0,
        !is_ws(key[0]),
        key[0] != ';',
        !has_char(key, '\n'),
        !has_char(value, '\n'),
        !has_char(value, '\r'),
        forall|i: int| 0 <= i < lines(raw).len() ==> strip_cr(#[trigger] lines(raw)[i]) == lines(raw)[i],
    ensures
        ini_with_directive(ini_with_directive(raw, key, value), key, value) == ini_with_directive(raw, key, value),
{
    reveal_strlit("=");
    reveal_strlit("\n");
    let ls = lines(raw);
    lemma_lines_no_newline(raw);
    let m = |l: Seq<char>| directive_matches(l, key);
    let nl = directive_line(key, value);
    let out = replace_or_append(ls, m, nl);
    lemma_directive_line_matches(key, value);
    assert(!has_char(nl, '\n')) by {
        if has_char(nl, '\n') {
            let k = choose|k: int| 0 <= k < nl.len() && nl[k] == '\n';
            if k < key.len() {
                assert(key[k] == '\n');
            } else if k > key.len() {
                assert(value[k - key.len() - 1] == '\n');
            }
        }
    }
    assert(strip_cr(nl) == nl) by {
        if value.len() > 0 {
            assert(nl.last() == value[value.len() - 1]);
        } else {
            assert(nl.last() == '=');
        }
    }
    assert(out.len() >= 1);
    assert(no_newlines(out)) by {
        assert forall|i: int| 0 <= i < out.len() implies !has_char(#[trigger] out[i], '\n') by {
            if i < ls.len() {
                if !m(ls[i]) {
                    assert(out[i] == ls[i]);
                }
            }
        }
    }
    lemma_lines_unlines(out);
    let r = ini_with_directive(raw, key, value);
    assert(lines(r) =~= out) by {
        assert forall|i: int| 0 <= i < out.len() implies strip_cr(#[trigger] out[i]) == out[i] by {
            if i < ls.len() && !m(ls[i]) {
                assert(out[i] == ls[i]);
            }
        }
    }
    let i0 = if exists|j: int| 0 <= j < ls.len() && m(ls[j]) {
        choose|j: int| 0 <= j < ls.len() && m(ls[j])
    } else {
        ls.len() as int
    };
    assert(out[i0] == nl);
    assert(m(out[i0]));
    let again = replace_or_append(out, m, nl);
    assert(again =~= out) by {
        assert(replace_matching(out, m, nl) =~= out) by {
            assert forall|i: int| 0 <= i < out.len() implies (if m(out[i]) { nl } else { out[i] }) == out[i] by {
                if i < ls.len() && !m(ls[i]) {
                    assert(out[i] == ls[i]);
                }
            }
        }
    }
}

/// Switching an extension keeps every other line where it was: a line that
/// does not load the extension (commented out or not) is read back unchanged
/// at the same place, unless it ends in a carriage return that `lines` keeps
/// (one that is last without a newline), which the rewrite drops; and the
/// result ends in a newline.
pub proof fn law_php_extension_switch_keeps_other_lines(
    raw: Seq<char>,
    dll: Seq<char>,
    name: Seq<char>,
    enabled: bool,
    i: int,
)
    requires
        clean_extension_name(name),
        0 <= i < lines(raw).len(),
        !extension_setting_matches(lines(raw)[i], dll, name),
        strip_cr(lines(raw)[i]) == lines(raw)[i],
    ensures
        lines(ini_with_extension(raw, dll, name, enabled))[i] == lines(raw)[i],
        ini_with_extension(raw, dll, name, enabled).last() == '\n',
{
    reveal_strlit("extension=");
    reveal_strlit(";extension=");
    reveal_strlit("\n");
    let ls = lines(raw);
    lemma_lines_no_newline(raw);
    let m = |l: Seq<char>| extension_setting_matches(l, dll, name);
    let nl = extension_line(name, enabled);
    let out = replace_or_append(ls, m, nl);
    let prefix: Seq<char> = if enabled { "extension="@ } else { ";extension="@ };
    assert(nl == prefix + name);
    assert(!has_char(nl, '\n')) by {
        if has_char(nl, '\n') {
            let k = choose|k: int| 0 <= k < nl.len() && nl[k] == '\n';
            if k >= prefix.len() {
                assert(name[k - prefix.len()] == '\n');
            }
        }
    }
    assert(out.len() >= 1);
    assert(no_newlines(out)) by {
        assert forall|j: int| 0 <= j < out.len() implies !has_char(#[trigger] out[j], '\n') by {
            if j < ls.len() {
                if !m(ls[j]) {
                    assert(out[j] == ls[j]);
                }
            }
        }
    }
    lemma_lines_unlines(out);
    assert(out[i] == ls[i]);
    let result = ini_with_extension(raw, dll, name, enabled);
    assert(lines(result)[i] == strip_cr(out[i]));
    assert(result.last() == '\n');
}

/// Switching one extension leaves another one on: when the text loads an
/// extension, it still does after switching a different one (one whose
/// library file and name differ, ignoring ASCII case, from both of the
/// first's), on or off.
pub proof fn law_switch_keeps_other_extension_on(
    raw: Seq<char>,
    dll: Seq<char>,
    name: Seq<char>,
    other_dll: Seq<char>,
    other_name: Seq<char>,
    enabled: bool,
)
    requires
        clean_extension_name(other_name),
        ascii_lower(dll) != ascii_lower(other_dll),
        ascii_lower(dll) != ascii_lower(other_name),
        ascii_lower(name) != ascii_lower(other_dll),
        ascii_lower(name) != ascii_lower(other_name),
        extension_enabled(raw, dll, name),
    ensures
        extension_enabled(ini_with_extension(raw, other_dll, other_name, enabled), dll, name),
{
    reveal_strlit("extension=");
    reveal_strlit(";extension=");
    reveal_strlit("\n");
    let ls = lines(raw);
    lemma_lines_no_newline(raw);
    let m = |l: Seq<char>| extension_setting_matches(l, other_dll, other_name);
    let nl = extension_line(other_name, enabled);
    let out = replace_or_append(ls, m, nl);
    let prefix: Seq<char> = if enabled { "extension="@ } else { ";extension="@ };
    assert(nl == prefix + other_name);
    assert(!has_char(nl, '\n')) by {
        if has_char(nl, '\n') {
            let k = choose|k: int| 0 <= k < nl.len() && nl[k] == '\n';
            if k >= prefix.len() {
                assert(other_name[k - prefix.len()] == '\n');
            }
        }
    }
    assert(out.len() >= 1);
    assert(no_newlines(out)) by {
        assert forall|j: int| 0 <= j < out.len() implies !has_char(#[trigger] out[j], '\n') by {
            if j < ls.len() {
                if !m(ls[j]) {
                    assert(out[j] == ls[j]);
                }
            }
        }
    }
    lemma_lines_unlines(out);
    let k = choose|k: int|
        0 <= k < lines(raw).len() && {
            let t = trim(#[trigger] lines(raw)[k]);
            !(t.len() > 0 && t[0] == ';') && extension_line_matches(t, dll, name)
        };
    let l = ls[k];
    let t = trim(l);
    lemma_trim_idempotent(l);
    assert(trim_start_char(t, ';') == t);
    assert(!m(l)) by {
        let file = extension_file(t.skip(10));
        assert(eq_ignore_case(file, dll) || eq_ignore_case(file, name));
    }
    assert(out[k] == l);
    let result = ini_with_extension(raw, other_dll, other_name, enabled);
    assert(lines(result)[k] == strip_cr(l));
    lemma_trim_strip_cr(l);
    assert(trim(lines(result)[k]) == t);
}
} // verus!
