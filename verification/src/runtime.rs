//! The PHP, MySQL and Apache runtimes under `bin/`: the folder names they are
//! given, the migration of runtimes unpacked flat into `bin/<kind>`, which
//! PHP folder serves a version, and the Visual C++ runtime a PHP build needs.

use vstd::prelude::*;
use crate::text::{
    ascii_lower, ascii_upper, chars_of, contains, contains_str, is_digit, is_digit_char,
    lower_text, parse_i32, parse_i32_vec, push_all, push_str, replace_lit, replace_str,
    split_whitespace, split_whitespace_vec, starts_with, starts_with_str, string_of, strip_prefix,
    strip_prefix_exec, text_eq, texts, trim, trim_char, trim_char_vec, trim_str, upper_text,
};
use crate::paths::{
    display, display_path, file_name, first_present, first_present_exec, join_path, path_file_name,
    path_join,
};
use crate::naming::{slug, slugify, version_in_name, php_version_from_name};
use crate::ini::{default_php_extensions, ini_with_directive, ini_with_extension, set_ini_directive, set_php_extension_line};
use crate::order::{
    char_codes, indices_view, key_views, name_keys, sort_order, sorted_order, version_keys,
};
use crate::version::version_parts;

verus! {

// ---------------------------------------------------------------------------
// The Visual C++ runtime of a PHP build
// ---------------------------------------------------------------------------

/// The compiler tag in a PHP folder name (`vc11`, `vc14`, `vc15`, `vs16`,
/// `vs17`, checked in that order, in any case), or empty.
pub open spec fn runtime_tag(php_dir: Seq<char>) -> Seq<char> {
    let folder = match file_name(php_dir) {
        Some(n) => ascii_lower(n),
        None => Seq::empty(),
    };
    if contains(folder, "vc11"@) {
        "vc11"@
    } else if contains(folder, "vc14"@) {
        "vc14"@
    } else if contains(folder, "vc15"@) {
        "vc15"@
    } else if contains(folder, "vs16"@) {
        "vs16"@
    } else if contains(folder, "vs17"@) {
        "vs17"@
    } else {
        Seq::empty()
    }
}

/// The Visual C++ tag of the PHP build in `php_dir`, read from its folder name.
pub fn detect_php_runtime_tag(php_dir: &str) -> (r: String)
    ensures
        r@ == runtime_tag(php_dir@),
{
    let folder = match path_file_name(php_dir) {
        Some(n) => lower_text(&chars_of(n.as_str())),
        None => Vec::new(),
    };
    if contains_str(&folder, "vc11") {
        "vc11".to_owned()
    } else if contains_str(&folder, "vc14") {
        "vc14".to_owned()
    } else if contains_str(&folder, "vc15") {
        "vc15".to_owned()
    } else if contains_str(&folder, "vs16") {
        "vs16".to_owned()
    } else if contains_str(&folder, "vs17") {
        "vs17".to_owned()
    } else {
        String::new()
    }
}

/// Whether the PHP build in `php_dir` needs the Visual C++ 2012 runtime (`MSVCR110.dll`).
pub fn runtime_requires_vc110(php_dir: &str) -> (r: bool)
    ensures
        r == (runtime_tag(php_dir@) == "vc11"@),
{
    let t = detect_php_runtime_tag(php_dir);
    text_eq(&chars_of(t.as_str()), &chars_of("vc11"))
}

/// A build with this tag lacks its Visual C++ 2012 runtime.
pub open spec fn needs_vc2012(tag: Seq<char>, has_vc110: bool) -> bool {
    tag == "vc11"@ && !has_vc110
}

/// A build with this tag lacks its Visual C++ 2015-2022 runtime.
pub open spec fn needs_vc14plus(tag: Seq<char>, has_vc14plus: bool) -> bool {
    (tag == "vc14"@ || tag == "vc15"@ || tag == "vs16"@ || tag == "vs17"@) && !has_vc14plus
}

/// Whether a PHP build with this tag needs the Visual C++ 2012 runtime
/// installed first (`has_vc110`: `msvcr110.dll` is present in the system).
pub fn needs_vc2012_runtime(tag: &str, has_vc110: bool) -> (r: bool)
    ensures
        r == needs_vc2012(tag@, has_vc110),
{
    !has_vc110 && text_eq(&chars_of(tag), &chars_of("vc11"))
}

/// Whether a PHP build with this tag needs the Visual C++ 2015-2022 runtime
/// installed first (`has_vc14plus`: `vcruntime140.dll` and `msvcp140.dll` are present).
pub fn needs_vc14plus_runtime(tag: &str, has_vc14plus: bool) -> (r: bool)
    ensures
        r == needs_vc14plus(tag@, has_vc14plus),
{
    let t = chars_of(tag);
    !has_vc14plus && (text_eq(&t, &chars_of("vc14")) || text_eq(&t, &chars_of("vc15")) || text_eq(
        &t,
        &chars_of("vs16"),
    ) || text_eq(&t, &chars_of("vs17")))
}

/// A failed PHP check whose message mentions `msvcr110.dll` or `vc11` (in any
/// case) is fixed by the Visual C++ 2012 runtime.
pub open spec fn detail_needs_vc2012(detail: Seq<char>) -> bool {
    contains(ascii_lower(detail), "msvcr110.dll"@) || contains(ascii_lower(detail), "vc11"@)
}

/// Whether a failed PHP check calls for the Visual C++ 2012 runtime.
pub fn failure_needs_vc2012(detail: &str) -> (r: bool)
    ensures
        r == detail_needs_vc2012(detail@),
{
    let l = lower_text(&chars_of(detail));
    contains_str(&l, "msvcr110.dll") || contains_str(&l, "vc11")
}

// ---------------------------------------------------------------------------
// Runtime folder names from the programs' version output
// ---------------------------------------------------------------------------

/// The kinds of runtime kept under `bin/`.
#[derive(PartialEq, Eq, Structural, Clone, Copy)]
pub enum RuntimeKind {
    Php,
    Mysql,
    Apache,
}

/// `php -v` prints `PHP <version> ...`; the folder is
/// `php-<version>[-nts]-Win32-x64`, with `-nts` when `NTS` (in any case) occurs.
pub open spec fn php_folder_name(text: Seq<char>) -> Option<Seq<char>> {
    let parts = split_whitespace(text);
    if parts.len() < 2 {
        None
    } else {
        Some(
            "php-"@ + parts[1] + (if contains(ascii_upper(text), "NTS"@) {
                "-nts"@
            } else {
                Seq::empty()
            }) + "-Win32-x64"@,
        )
    }
}

/// The first word that starts with an ASCII digit.
pub open spec fn first_numeric_word(parts: Seq<Seq<char>>) -> Option<Seq<char>>
    decreases parts.len(),
{
    if parts.len() == 0 {
        None
    } else if parts[0].len() > 0 && is_digit(parts[0][0]) {
        Some(parts[0])
    } else {
        first_numeric_word(parts.drop_first())
    }
}

/// `mysqld --version` names the version as its first word starting with a
/// digit; the folder is `mysql-<version>-winx64`, commas trimmed.
pub open spec fn mysql_folder_name(text: Seq<char>) -> Option<Seq<char>> {
    match first_numeric_word(split_whitespace(text)) {
        Some(v) => Some("mysql-"@ + trim_char(v, ',') + "-winx64"@),
        None => None,
    }
}

/// The rest of the first word that starts with `p`.
pub open spec fn first_after_prefix(parts: Seq<Seq<char>>, p: Seq<char>) -> Option<Seq<char>>
    decreases parts.len(),
{
    if parts.len() == 0 {
        None
    } else {
        match strip_prefix(parts[0], p) {
            Some(v) => Some(v),
            None => first_after_prefix(parts.drop_first(), p),
        }
    }
}

/// `httpd -v` prints `Apache/<version>`; the folder is `httpd-<version>-win64`.
pub open spec fn apache_folder_name(text: Seq<char>) -> Option<Seq<char>> {
    match first_after_prefix(split_whitespace(text), "Apache/"@) {
        Some(v) => Some("httpd-"@ + v + "-win64"@),
        None => None,
    }
}

/// The folder used when the version cannot be told.
pub open spec fn default_folder(kind: RuntimeKind) -> Seq<char> {
    match kind {
        RuntimeKind::Php => "php-runtime"@,
        RuntimeKind::Mysql => "mysql-runtime"@,
        RuntimeKind::Apache => "apache-runtime"@,
    }
}

/// The folder a runtime is moved into, from the output of its version
/// command (`None` when the program could not be run).
pub open spec fn runtime_folder(output: Option<Seq<char>>, kind: RuntimeKind) -> Seq<char> {
    let named = match output {
        None => None,
        Some(t) => match kind {
            RuntimeKind::Php => php_folder_name(t),
            RuntimeKind::Mysql => mysql_folder_name(t),
            RuntimeKind::Apache => apache_folder_name(t),
        },
    };
    match named {
        Some(n) => n,
        None => default_folder(kind),
    }
}

fn php_folder_exec(text: &str) -> (r: Option<Vec<char>>)
    ensures
        match php_folder_name(text@) {
            Some(n) => r matches Some(v) && v@ == n,
            None => r is None,
        },
{
    let t = chars_of(text);
    let parts = split_whitespace_vec(&t);
    assert(texts(parts@) == split_whitespace(text@));
    if parts.len() < 2 {
        return None;
    }
    assert(parts@[1]@ == split_whitespace(text@)[1]);
    let mut out = chars_of("php-");
    push_all(&mut out, &parts[1]);
    let up = upper_text(&t);
    if contains_str(&up, "NTS") {
        push_str(&mut out, "-nts");
    }
    push_str(&mut out, "-Win32-x64");
    Some(out)
}

fn mysql_folder_exec(text: &str) -> (r: Option<Vec<char>>)
    ensures
        match mysql_folder_name(text@) {
            Some(n) => r matches Some(v) && v@ == n,
            None => r is None,
        },
{
    let t = chars_of(text);
    let parts = split_whitespace_vec(&t);
    let ghost ps = texts(parts@);
    let mut i: usize = 0;
    assert(ps.skip(0) =~= ps);
    while i < parts.len()
        invariant
            i <= parts.len(),
            ps == texts(parts@),
            ps == split_whitespace(text@),
            first_numeric_word(ps) == first_numeric_word(ps.skip(i as int)),
        decreases parts.len() - i,
    {
        assert(ps.skip(i as int)[0] == parts@[i as int]@);
        if parts[i].len() > 0 && is_digit_char(parts[i][0]) {
            let mut out = chars_of("mysql-");
            let v = trim_char_vec(&parts[i], ',');
            push_all(&mut out, &v);
            push_str(&mut out, "-winx64");
            return Some(out);
        }
        assert(ps.skip(i as int).drop_first() =~= ps.skip(i + 1));
        i += 1;
    }
    None
}

fn apache_folder_exec(text: &str) -> (r: Option<Vec<char>>)
    ensures
        match apache_folder_name(text@) {
            Some(n) => r matches Some(v) && v@ == n,
            None => r is None,
        },
{
    let t = chars_of(text);
    let parts = split_whitespace_vec(&t);
    let ghost ps = texts(parts@);
    let mut i: usize = 0;
    assert(ps.skip(0) =~= ps);
    while i < parts.len()
        invariant
            i <= parts.len(),
            ps == texts(parts@),
            ps == split_whitespace(text@),
            first_after_prefix(ps, "Apache/"@) == first_after_prefix(ps.skip(i as int), "Apache/"@),
        decreases parts.len() - i,
    {
        assert(ps.skip(i as int)[0] == parts@[i as int]@);
        match strip_prefix_exec(&parts[i], "Apache/") {
            Some(v) => {
                let mut out = chars_of("httpd-");
                push_all(&mut out, &v);
                push_str(&mut out, "-win64");
                return Some(out);
            },
            None => {},
        }
        assert(ps.skip(i as int).drop_first() =~= ps.skip(i + 1));
        i += 1;
    }
    None
}

/// The folder name of a runtime, from the standard output of its version
/// command (`php -v`, `mysqld --version`, `httpd -v`; `None` when it could
/// not be run), or `<kind>-runtime` when no version is found.
pub fn runtime_folder_name(version_output: Option<&str>, kind: RuntimeKind) -> (r: String)
    ensures
        r@ == runtime_folder(
            match version_output {
                Some(t) => Some(t@),
                None => None,
            },
            kind,
        ),
{
    let named = match version_output {
        None => None,
        Some(t) => match kind {
            RuntimeKind::Php => php_folder_exec(t),
            RuntimeKind::Mysql => mysql_folder_exec(t),
            RuntimeKind::Apache => apache_folder_exec(t),
        },
    };
    match named {
        Some(n) => string_of(&n),
        None => match kind {
            RuntimeKind::Php => "php-runtime".to_owned(),
            RuntimeKind::Mysql => "mysql-runtime".to_owned(),
            RuntimeKind::Apache => "apache-runtime".to_owned(),
        },
    }
}


// ---------------------------------------------------------------------------
// Runtimes unpacked flat into bin/<kind>
// ---------------------------------------------------------------------------

/// A runtime folder that may hold a runtime unpacked flat, without a folder of its own.
pub struct FlatRuntime {
    /// `bin/php`, `bin/mysql` or `bin/apache`.
    pub parent: String,
    /// The program whose presence shows a flat runtime.
    pub marker: String,
    pub kind: RuntimeKind,
    /// The folder an earlier migration used.
    pub legacy: String,
}

pub struct FlatRuntimeView {
    pub parent: Seq<char>,
    pub marker: Seq<char>,
    pub kind: RuntimeKind,
    pub legacy: Seq<char>,
}

impl View for FlatRuntime {
    type V = FlatRuntimeView;

    open spec fn view(&self) -> FlatRuntimeView {
        FlatRuntimeView { parent: self.parent@, marker: self.marker@, kind: self.kind, legacy: self.legacy@ }
    }
}

pub open spec fn legacy_name(kind: RuntimeKind) -> Seq<char> {
    match kind {
        RuntimeKind::Php => "php-migrated"@,
        RuntimeKind::Mysql => "mysql-migrated"@,
        RuntimeKind::Apache => "apache-migrated"@,
    }
}

/// The three runtime folders of a root, in the order they are migrated.
pub open spec fn flat_runtimes(root: Seq<char>) -> Seq<FlatRuntimeView> {
    let bin = path_join(root, "bin"@);
    let php = path_join(bin, "php"@);
    let mysql = path_join(bin, "mysql"@);
    let apache = path_join(bin, "apache"@);
    seq![
        FlatRuntimeView { parent: php, marker: path_join(php, "php.exe"@), kind: RuntimeKind::Php, legacy: path_join(php, "php-migrated"@) },
        FlatRuntimeView { parent: mysql, marker: path_join(path_join(mysql, "bin"@), "mysqld.exe"@), kind: RuntimeKind::Mysql, legacy: path_join(mysql, "mysql-migrated"@) },
        FlatRuntimeView { parent: apache, marker: path_join(path_join(apache, "bin"@), "httpd.exe"@), kind: RuntimeKind::Apache, legacy: path_join(apache, "apache-migrated"@) },
    ]
}

/// The runtime folders to migrate: a runtime found flat in its folder (its
/// marker exists) moves into a folder named by its version, and a folder left
/// by an earlier migration is renamed the same way.
pub fn migrate_flat_runtime_dirs(root: &str) -> (r: Vec<FlatRuntime>)
    ensures
        r@.map_values(|f: FlatRuntime| f@) == flat_runtimes(root@),
{
    let bin = join_path(root, "bin");
    let php = join_path(bin.as_str(), "php");
    let mysql = join_path(bin.as_str(), "mysql");
    let apache = join_path(bin.as_str(), "apache");
    let mysql_bin = join_path(mysql.as_str(), "bin");
    let apache_bin = join_path(apache.as_str(), "bin");
    let mut r: Vec<FlatRuntime> = Vec::new();
    r.push(FlatRuntime {
        marker: join_path(php.as_str(), "php.exe"),
        legacy: join_path(php.as_str(), "php-migrated"),
        parent: php,
        kind: RuntimeKind::Php,
    });
    r.push(FlatRuntime {
        marker: join_path(mysql_bin.as_str(), "mysqld.exe"),
        legacy: join_path(mysql.as_str(), "mysql-migrated"),
        parent: mysql,
        kind: RuntimeKind::Mysql,
    });
    r.push(FlatRuntime {
        marker: join_path(apache_bin.as_str(), "httpd.exe"),
        legacy: join_path(apache.as_str(), "apache-migrated"),
        parent: apache,
        kind: RuntimeKind::Apache,
    });
    assert(r@.map_values(|f: FlatRuntime| f@) =~= flat_runtimes(root@));
    r
}

/// The moves that gather a flat runtime into `parent/folder`: every entry of
/// the parent other than that folder, in listing order.
pub open spec fn flat_moves(parent: Seq<char>, folder: Seq<char>, entries: Seq<Seq<char>>) -> Seq<(Seq<char>, Seq<char>)>
    decreases entries.len(),
{
    if entries.len() == 0 {
        Seq::empty()
    } else {
        let rest = flat_moves(parent, folder, entries.drop_last());
        let e = entries.last();
        if e == folder {
            rest
        } else {
            rest.push((path_join(parent, e), path_join(path_join(parent, folder), e)))
        }
    }
}

pub open spec fn pair_views(v: Seq<(String, String)>) -> Seq<(Seq<char>, Seq<char>)> {
    v.map_values(|p: (String, String)| (p.0@, p.1@))
}

/// The renames (from, to) that move the entries of a flat runtime folder
/// `parent` into its new folder `folder` (`entries`: the names listed in the parent).
pub fn migrate_flat_runtime_dir(parent: &str, folder: &str, entries: &Vec<String>) -> (r: Vec<(String, String)>)
    ensures
        pair_views(r@) == flat_moves(parent@, folder@, entries@.map_values(|s: String| s@)),
{
    let ghost ev = entries@.map_values(|s: String| s@);
    let target = join_path(parent, folder);
    let fv = chars_of(folder);
    let mut r: Vec<(String, String)> = Vec::new();
    let mut i: usize = 0;
    while i < entries.len()
        invariant
            i <= entries.len(),
            ev == entries@.map_values(|s: String| s@),
            target@ == path_join(parent@, folder@),
            fv@ == folder@,
            pair_views(r@) == flat_moves(parent@, folder@, ev.take(i as int)),
        decreases entries.len() - i,
    {
        let e = entries[i].as_str();
        proof {
            assert(ev.take(i + 1).drop_last() =~= ev.take(i as int));
            assert(ev.take(i + 1).last() == e@);
        }
        if !text_eq(&chars_of(e), &fv) {
            let from = join_path(parent, e);
            let to = join_path(target.as_str(), e);
            let ghost before = pair_views(r@);
            r.push((from, to));
            assert(pair_views(r@) =~= before.push((path_join(parent@, e@), path_join(path_join(parent@, folder@), e@))));
        }
        i += 1;
    }
    assert(ev.take(entries.len() as int) =~= ev);
    r
}

/// The rename (from, to) of the folder an earlier migration left in `parent`,
/// given the folder name its runtime reports; none when that is the same
/// folder or the new folder exists already.
pub fn legacy_runtime_rename(parent: &str, kind: RuntimeKind, folder: &str, target_exists: bool) -> (r: Option<(String, String)>)
    ensures
        match r {
            Some(p) => folder@ != legacy_name(kind) && !target_exists && p.0@ == path_join(parent@, legacy_name(kind)) && p.1@
                == path_join(parent@, folder@),
            None => folder@ == legacy_name(kind) || target_exists,
        },
{
    let legacy = match kind {
        RuntimeKind::Php => "php-migrated",
        RuntimeKind::Mysql => "mysql-migrated",
        RuntimeKind::Apache => "apache-migrated",
    };
    if target_exists || text_eq(&chars_of(folder), &chars_of(legacy)) {
        return None;
    }
    Some((join_path(parent, legacy), join_path(parent, folder)))
}

// ---------------------------------------------------------------------------
// The PHP folder that serves a version
// ---------------------------------------------------------------------------

/// An entry of `bin/php` and what was found of it.
pub struct RuntimeCandidate {
    /// Its name.
    pub name: String,
    /// It is a folder.
    pub is_dir: bool,
    /// It holds `php.exe`.
    pub has_php: bool,
    /// Its PHP runs (see `validate_php_runtime`).
    pub valid: bool,
}

pub struct RuntimeCandidateView {
    pub name: Seq<char>,
    pub is_dir: bool,
    pub has_php: bool,
    pub valid: bool,
}

impl View for RuntimeCandidate {
    type V = RuntimeCandidateView;

    open spec fn view(&self) -> RuntimeCandidateView {
        RuntimeCandidateView { name: self.name@, is_dir: self.is_dir, has_php: self.has_php, valid: self.valid }
    }
}

pub open spec fn candidate_views(v: Seq<RuntimeCandidate>) -> Seq<RuntimeCandidateView> {
    v.map_values(|c: RuntimeCandidate| c@)
}

/// A folder with a working PHP.
pub open spec fn usable(c: RuntimeCandidateView) -> bool {
    c.is_dir && c.has_php && c.valid
}

/// `root/bin/php`.
pub open spec fn php_parent(root: Seq<char>) -> Seq<char> {
    path_join(path_join(root, "bin"@), "php"@)
}

/// The first usable folder whose name contains `version`, in listing order.
pub open spec fn version_dir(cands: Seq<RuntimeCandidateView>, version: Seq<char>) -> Option<Seq<char>>
    decreases cands.len(),
{
    if cands.len() == 0 {
        None
    } else if usable(cands[0]) && contains(cands[0].name, version) {
        Some(cands[0].name)
    } else {
        version_dir(cands.drop_first(), version)
    }
}

pub open spec fn in_php_parent(root: Seq<char>, name: Option<Seq<char>>) -> Option<Seq<char>> {
    match name {
        Some(n) => Some(path_join(php_parent(root), n)),
        None => None,
    }
}

pub open spec fn opt_string_view(o: Option<String>) -> Option<Seq<char>> {
    match o {
        Some(s) => Some(s@),
        None => None,
    }
}

/// The PHP folder that serves `version`: the first entry of `bin/php` (in
/// the listing order of `candidates`) that is a folder with a working
/// `php.exe` and whose name contains the version.
pub fn php_runtime_dir_for_version(root: &str, version: &str, candidates: &Vec<RuntimeCandidate>) -> (r: Option<String>)
    ensures
        opt_string_view(r) == in_php_parent(root@, version_dir(candidate_views(candidates@), version@)),
{
    let ghost cv = candidate_views(candidates@);
    let mut i: usize = 0;
    assert(cv.skip(0) =~= cv);
    while i < candidates.len()
        invariant
            i <= candidates.len(),
            cv == candidate_views(candidates@),
            version_dir(cv, version@) == version_dir(cv.skip(i as int), version@),
        decreases candidates.len() - i,
    {
        let c = &candidates[i];
        assert(cv.skip(i as int)[0] == c@);
        if c.is_dir && c.has_php && c.valid && crate::text::contains_str(&chars_of(c.name.as_str()), version) {
            let b = join_path(root, "bin");
            let p = join_path(b.as_str(), "php");
            return Some(join_path(p.as_str(), c.name.as_str()));
        }
        assert(cv.skip(i as int).drop_first() =~= cv.skip(i + 1));
        i += 1;
    }
    None
}

/// Whether some folder of `bin/php` serves `version`.
pub fn php_version_installed(root: &str, version: &str, candidates: &Vec<RuntimeCandidate>) -> (r: bool)
    ensures
        r == (version_dir(candidate_views(candidates@), version@) is Some),
{
    php_runtime_dir_for_version(root, version, candidates).is_some()
}

/// The names of the usable folders, in listing order.
pub open spec fn usable_names(cands: Seq<RuntimeCandidateView>) -> Seq<Seq<char>>
    decreases cands.len(),
{
    if cands.len() == 0 {
        Seq::empty()
    } else if usable(cands.last()) {
        usable_names(cands.drop_last()).push(cands.last().name)
    } else {
        usable_names(cands.drop_last())
    }
}

/// The greatest of some names in the order of `String` (the last after sorting).
pub open spec fn greatest_name(names: Seq<Seq<char>>) -> Option<Seq<char>> {
    if names.len() == 0 {
        None
    } else {
        let o = sort_order(names.map_values(|n: Seq<char>| char_codes(n)), names.len(), false);
        Some(names[o[names.len() - 1]])
    }
}

/// The greatest of some names.
pub fn greatest_name_exec(names: &Vec<String>) -> (r: Option<String>)
    ensures
        opt_string_view(r) == greatest_name(names@.map_values(|s: String| s@)),
{
    if names.len() == 0 {
        return None;
    }
    let keys = name_keys(names);
    assert(key_views(keys@) =~= names@.map_values(|s: String| s@).map_values(|n: Seq<char>| char_codes(n)));
    let order = sorted_order(&keys, false);
    proof {
        crate::order::law_sort_order_permutation(key_views(keys@), false);
        assert(indices_view(order@)[names.len() - 1] == order@[names.len() - 1]);
    }
    Some(names[order[order.len() - 1]].clone())
}

/// The PHP folder used when no version is asked for: of the folders with a
/// working `php.exe`, the one whose name comes last.
pub fn active_php_runtime_dir(root: &str, candidates: &Vec<RuntimeCandidate>) -> (r: Option<String>)
    ensures
        opt_string_view(r) == in_php_parent(root@, greatest_name(usable_names(candidate_views(candidates@)))),
{
    let ghost cv = candidate_views(candidates@);
    let mut names: Vec<String> = Vec::new();
    let mut i: usize = 0;
    while i < candidates.len()
        invariant
            i <= candidates.len(),
            cv == candidate_views(candidates@),
            names@.map_values(|s: String| s@) == usable_names(cv.take(i as int)),
        decreases candidates.len() - i,
    {
        let c = &candidates[i];
        proof {
            assert(cv.take(i + 1).drop_last() =~= cv.take(i as int));
            assert(cv.take(i + 1).last() == c@);
        }
        if c.is_dir && c.has_php && c.valid {
            let ghost before = names@.map_values(|s: String| s@);
            names.push(c.name.clone());
            assert(names@.map_values(|s: String| s@) =~= before.push(c.name@));
        }
        i += 1;
    }
    assert(cv.take(candidates.len() as int) =~= cv);
    match greatest_name_exec(&names) {
        Some(n) => {
            let b = join_path(root, "bin");
            let p = join_path(b.as_str(), "php");
            Some(join_path(p.as_str(), n.as_str()))
        },
        None => None,
    }
}

/// The PHP folder that runs a project command: the one serving the requested
/// version, else the active one.
pub open spec fn command_runtime(root: Seq<char>, version: Option<Seq<char>>, cands: Seq<RuntimeCandidateView>) -> Result<Seq<char>, Seq<char>> {
    match version {
        Some(v) => match in_php_parent(root, version_dir(cands, v)) {
            Some(d) => Ok(d),
            None => Err("PHP "@ + v + " foi solicitado, mas não está instalado/válido para execução."@),
        },
        None => match in_php_parent(root, greatest_name(usable_names(cands))) {
            Some(d) => Ok(d),
            None => Err("Nenhuma versão de PHP instalada para executar Composer."@),
        },
    }
}

pub open spec fn result_view(r: Result<String, String>) -> Result<Seq<char>, Seq<char>> {
    match r {
        Ok(s) => Ok(s@),
        Err(e) => Err(e@),
    }
}

/// The PHP folder that runs a project command, or why there is none.
pub fn resolve_php_runtime_for_command(root: &str, php_version: Option<&str>, candidates: &Vec<RuntimeCandidate>) -> (r: Result<String, String>)
    ensures
        result_view(r) == command_runtime(
            root@,
            match php_version {
                Some(v) => Some(v@),
                None => None,
            },
            candidate_views(candidates@),
        ),
{
    match php_version {
        Some(v) => match php_runtime_dir_for_version(root, v, candidates) {
            Some(d) => Ok(d),
            None => {
                let mut m = chars_of("PHP ");
                push_str(&mut m, v);
                push_str(&mut m, " foi solicitado, mas não está instalado/válido para execução.");
                Err(string_of(&m))
            },
        },
        None => match active_php_runtime_dir(root, candidates) {
            Some(d) => Ok(d),
            None => Err("Nenhuma versão de PHP instalada para executar Composer.".to_owned()),
        },
    }
}


// ---------------------------------------------------------------------------
// Installing a Visual C++ runtime
// ---------------------------------------------------------------------------

/// `<base>/dependencias/<file>`.
pub open spec fn dep(base: Seq<char>, file: Seq<char>) -> Seq<char> {
    path_join(path_join(base, "dependencias"@), file)
}

/// `<root>/_up_/dependencias/<file>`.
pub open spec fn bundled_dep(root: Seq<char>, file: Seq<char>) -> Seq<char> {
    dep(path_join(root, "_up_"@), file)
}

/// Where a Visual C++ 2012 installer is looked for, in order.
pub open spec fn vc2012_installers(root: Seq<char>, workspace: Seq<char>) -> Seq<Seq<char>> {
    seq![
        dep(root, "vcredist_x64_2012.exe"@), dep(root, "vcredist_x64.exe"@),
        dep(workspace, "vcredist_x64_2012.exe"@), dep(workspace, "vcredist_x64.exe"@),
        bundled_dep(root, "vcredist_x64_2012.exe"@), bundled_dep(root, "vcredist_x64.exe"@),
    ]
}

/// Where a Visual C++ 2015-2022 installer is looked for, in order.
pub open spec fn vc14plus_installers(root: Seq<char>, workspace: Seq<char>) -> Seq<Seq<char>> {
    seq![
        dep(root, "VC_redist.x64.exe"@), dep(root, "vcredist_x64_2015_2022.exe"@), dep(root, "vcredist_x64_2019.exe"@),
        dep(workspace, "VC_redist.x64.exe"@), dep(workspace, "vcredist_x64_2015_2022.exe"@), dep(workspace, "vcredist_x64_2019.exe"@),
        bundled_dep(root, "VC_redist.x64.exe"@), bundled_dep(root, "vcredist_x64_2015_2022.exe"@), bundled_dep(root, "vcredist_x64_2019.exe"@),
    ]
}

fn dep_exec(base: &str, file: &str) -> (r: String)
    ensures
        r@ == dep(base@, file@),
{
    let d = join_path(base, "dependencias");
    join_path(d.as_str(), file)
}

/// The places a Visual C++ 2012 installer is looked for, in order.
pub fn vc2012_installer_candidates(root: &str, workspace: &str) -> (r: Vec<String>)
    ensures
        r@.map_values(|s: String| s@) == vc2012_installers(root@, workspace@),
{
    let up = join_path(root, "_up_");
    let mut r: Vec<String> = Vec::new();
    r.push(dep_exec(root, "vcredist_x64_2012.exe"));
    r.push(dep_exec(root, "vcredist_x64.exe"));
    r.push(dep_exec(workspace, "vcredist_x64_2012.exe"));
    r.push(dep_exec(workspace, "vcredist_x64.exe"));
    r.push(dep_exec(up.as_str(), "vcredist_x64_2012.exe"));
    r.push(dep_exec(up.as_str(), "vcredist_x64.exe"));
    assert(r@.map_values(|s: String| s@) =~= vc2012_installers(root@, workspace@));
    r
}

/// The places a Visual C++ 2015-2022 installer is looked for, in order.
pub fn vc14plus_installer_candidates(root: &str, workspace: &str) -> (r: Vec<String>)
    ensures
        r@.map_values(|s: String| s@) == vc14plus_installers(root@, workspace@),
{
    let up = join_path(root, "_up_");
    let mut r: Vec<String> = Vec::new();
    r.push(dep_exec(root, "VC_redist.x64.exe"));
    r.push(dep_exec(root, "vcredist_x64_2015_2022.exe"));
    r.push(dep_exec(root, "vcredist_x64_2019.exe"));
    r.push(dep_exec(workspace, "VC_redist.x64.exe"));
    r.push(dep_exec(workspace, "vcredist_x64_2015_2022.exe"));
    r.push(dep_exec(workspace, "vcredist_x64_2019.exe"));
    r.push(dep_exec(up.as_str(), "VC_redist.x64.exe"));
    r.push(dep_exec(up.as_str(), "vcredist_x64_2015_2022.exe"));
    r.push(dep_exec(up.as_str(), "vcredist_x64_2019.exe"));
    assert(r@.map_values(|s: String| s@) =~= vc14plus_installers(root@, workspace@));
    r
}

/// The Visual C++ 2012 installer to run (elevated, with `/quiet /norestart`):
/// the first candidate that exists (`present[i]` for the `i`-th of
/// `vc2012_installer_candidates`), or the error when none does.
pub fn install_vc2012_runtime(root: &str, workspace: &str, present: &Vec<bool>) -> (r: Result<String, String>)
    ensures
        match first_present(vc2012_installers(root@, workspace@), present@) {
            Some(p) => r matches Ok(s) && s@ == p,
            None => r matches Err(e) && e@
                == "Instalador VC++ 2012 não encontrado. Coloque vcredist_x64_2012.exe em dependencias para concluir o PHP 5.6."@,
        },
{
    let c = vc2012_installer_candidates(root, workspace);
    match first_present_exec(&c, present) {
        Some(p) => Ok(p),
        None => Err("Instalador VC++ 2012 não encontrado. Coloque vcredist_x64_2012.exe em dependencias para concluir o PHP 5.6.".to_owned()),
    }
}

/// The Visual C++ 2015-2022 installer to run (elevated, with `/quiet
/// /norestart`): the first candidate that exists, or the error when none does.
pub fn install_vc14plus_runtime(root: &str, workspace: &str, present: &Vec<bool>) -> (r: Result<String, String>)
    ensures
        match first_present(vc14plus_installers(root@, workspace@), present@) {
            Some(p) => r matches Ok(s) && s@ == p,
            None => r matches Err(e) && e@
                == "Instalador VC++ 2015-2022 não encontrado. Coloque VC_redist.x64.exe em dependencias."@,
        },
{
    let c = vc14plus_installer_candidates(root, workspace);
    match first_present_exec(&c, present) {
        Some(p) => Ok(p),
        None => Err("Instalador VC++ 2015-2022 não encontrado. Coloque VC_redist.x64.exe em dependencias.".to_owned()),
    }
}

/// Where the installers recommended for legacy and current PHP builds are
/// looked for at start-up: the Visual C++ 2012 ones, then the 2015-2022 ones.
pub open spec fn recommended_dependencies(root: Seq<char>, workspace: Seq<char>) -> (Seq<Seq<char>>, Seq<Seq<char>>) {
    (
        seq![
            dep(workspace, "vcredist_x64_2012.exe"@), dep(workspace, "vcredist_x64.exe"@),
            dep(root, "vcredist_x64_2012.exe"@), dep(root, "vcredist_x64.exe"@),
        ],
        seq![
            dep(workspace, "VC_redist.x64.exe"@), dep(workspace, "vcredist_x64_2015_2022.exe"@), dep(workspace, "vcredist_x64_2019.exe"@),
            dep(root, "VC_redist.x64.exe"@), dep(root, "vcredist_x64_2015_2022.exe"@), dep(root, "vcredist_x64_2019.exe"@),
        ],
    )
}

/// The recommended installers to look for at start-up.
pub fn recommended_dependency_paths(root: &str, workspace: &str) -> (r: (Vec<String>, Vec<String>))
    ensures
        (r.0@.map_values(|s: String| s@), r.1@.map_values(|s: String| s@)) == recommended_dependencies(root@, workspace@),
{
    let mut a: Vec<String> = Vec::new();
    a.push(dep_exec(workspace, "vcredist_x64_2012.exe"));
    a.push(dep_exec(workspace, "vcredist_x64.exe"));
    a.push(dep_exec(root, "vcredist_x64_2012.exe"));
    a.push(dep_exec(root, "vcredist_x64.exe"));
    let mut b: Vec<String> = Vec::new();
    b.push(dep_exec(workspace, "VC_redist.x64.exe"));
    b.push(dep_exec(workspace, "vcredist_x64_2015_2022.exe"));
    b.push(dep_exec(workspace, "vcredist_x64_2019.exe"));
    b.push(dep_exec(root, "VC_redist.x64.exe"));
    b.push(dep_exec(root, "vcredist_x64_2015_2022.exe"));
    b.push(dep_exec(root, "vcredist_x64_2019.exe"));
    assert(a@.map_values(|s: String| s@) =~= recommended_dependencies(root@, workspace@).0);
    assert(b@.map_values(|s: String| s@) =~= recommended_dependencies(root@, workspace@).1);
    (a, b)
}

pub const MISSING_VC2012_NOTICE: &'static str = "Recommended dependency missing: place dependencias/vcredist_x64_2012.exe to support legacy PHP (for example 5.6/VC11) without relying on winget/internet.";

pub const MISSING_VC14PLUS_NOTICE: &'static str = "Recommended dependency missing: place dependencias/VC_redist.x64.exe to support PHP VC14+/VS16/VS17.";

pub open spec fn any_present(p: Seq<bool>) -> bool {
    exists|i: int| 0 <= i < p.len() && p[i]
}

fn any_present_exec(p: &Vec<bool>) -> (r: bool)
    ensures
        r == any_present(p@),
{
    let mut i: usize = 0;
    while i < p.len()
        invariant
            i <= p.len(),
            forall|k: int| 0 <= k < i ==> !p@[k],
        decreases p.len() - i,
    {
        if p[i] {
            return true;
        }
        i += 1;
    }
    false
}

/// The notices logged at start-up for the recommended installers of which
/// none was found (`vc2012_present`, `vc14plus_present`: which of
/// `recommended_dependency_paths` exist).
pub fn warn_missing_legacy_php_runtime_dependency(vc2012_present: &Vec<bool>, vc14plus_present: &Vec<bool>) -> (r: Vec<&'static str>)
    ensures
        r@ == (if any_present(vc2012_present@) {
            Seq::<&'static str>::empty()
        } else {
            seq![MISSING_VC2012_NOTICE]
        }) + (if any_present(vc14plus_present@) {
            Seq::<&'static str>::empty()
        } else {
            seq![MISSING_VC14PLUS_NOTICE]
        }),
{
    let mut r: Vec<&'static str> = Vec::new();
    if !any_present_exec(vc2012_present) {
        r.push(MISSING_VC2012_NOTICE);
    }
    if !any_present_exec(vc14plus_present) {
        r.push(MISSING_VC14PLUS_NOTICE);
    }
    assert(r@ =~= (if any_present(vc2012_present@) {
        Seq::<&'static str>::empty()
    } else {
        seq![MISSING_VC2012_NOTICE]
    }) + (if any_present(vc14plus_present@) {
        Seq::<&'static str>::empty()
    } else {
        seq![MISSING_VC14PLUS_NOTICE]
    }));
    r
}

/// A text inside single quotes of PowerShell: each `'` doubled.
pub open spec fn ps_quoted(s: Seq<char>) -> Seq<char> {
    replace_str(s, "'"@, "''"@)
}

fn ps_quoted_exec(s: &str) -> (r: Vec<char>)
    ensures
        r@ == ps_quoted(s@),
{
    replace_lit(&chars_of(s), "'", "''")
}

/// The script that runs an installer and writes its exit code to `result`.
pub open spec fn installer_script(installer: Seq<char>, result: Seq<char>, args: Seq<char>) -> Seq<char> {
    "$ErrorActionPreference = 'Stop'\n$exe = '"@ + ps_quoted(display(installer))
        + "'\nif (-not (Test-Path -LiteralPath $exe)) { 'MISSING' | Set-Content -LiteralPath '"@
        + ps_quoted(display(result)) + "' ; exit 3 }\n$p = Start-Process -FilePath $exe -ArgumentList '"@
        + ps_quoted(args) + "' -Wait -PassThru -WindowStyle Hidden\n$p.ExitCode | Set-Content -LiteralPath '"@
        + ps_quoted(display(result)) + "'\nif ($p.ExitCode -ne 0) { exit $p.ExitCode }\n"@
}

/// The PowerShell script that runs `installer` with `args` and records its
/// exit code in the file `result`.
pub fn installer_script_text(installer: &str, result: &str, args: &str) -> (r: String)
    ensures
        r@ == installer_script(installer@, result@, args@),
{
    let di = display_path(installer);
    let dr = display_path(result);
    let qi = ps_quoted_exec(di.as_str());
    let qr = ps_quoted_exec(dr.as_str());
    let qa = ps_quoted_exec(args);
    let mut m = chars_of("$ErrorActionPreference = 'Stop'\n$exe = '");
    push_all(&mut m, &qi);
    push_str(&mut m, "'\nif (-not (Test-Path -LiteralPath $exe)) { 'MISSING' | Set-Content -LiteralPath '");
    push_all(&mut m, &qr);
    push_str(&mut m, "' ; exit 3 }\n$p = Start-Process -FilePath $exe -ArgumentList '");
    push_all(&mut m, &qa);
    push_str(&mut m, "' -Wait -PassThru -WindowStyle Hidden\n$p.ExitCode | Set-Content -LiteralPath '");
    push_all(&mut m, &qr);
    push_str(&mut m, "'\nif ($p.ExitCode -ne 0) { exit $p.ExitCode }\n");
    string_of(&m)
}

/// The command that starts a script elevated (through UAC) and waits for it.
pub open spec fn elevated_launcher(script: Seq<char>) -> Seq<char> {
    "Start-Process -FilePath powershell.exe -Verb RunAs -Wait -WindowStyle Hidden -ArgumentList '-NoProfile -ExecutionPolicy Bypass -WindowStyle Hidden -File \""@
        + script + "\"'"@
}

/// The command that starts the script at `script` elevated and waits for it.
pub fn elevated_launcher_command(script: &str) -> (r: String)
    ensures
        r@ == elevated_launcher(script@),
{
    let mut m = chars_of("Start-Process -FilePath powershell.exe -Verb RunAs -Wait -WindowStyle Hidden -ArgumentList '-NoProfile -ExecutionPolicy Bypass -WindowStyle Hidden -File \"");
    push_str(&mut m, script);
    push_str(&mut m, "\"'");
    string_of(&m)
}

/// The exit code recorded by the installer script: the trimmed text as an
/// `i32`, or -1 when it is not one.
pub open spec fn installer_code(raw: Seq<char>) -> i32 {
    match parse_i32(trim(raw)) {
        Some(c) => c,
        None => -1i32,
    }
}

/// How an elevated installation ended: the elevation could not be requested,
/// no result was written (UAC cancelled), or the recorded exit code, which
/// is success when 0 or 1638 (a newer version is installed).
pub open spec fn installer_outcome(launched: bool, result: Option<Seq<char>>) -> Result<(), Seq<char>> {
    if !launched {
        Err("Não foi possível solicitar elevação para instalar runtime VC++."@)
    } else {
        match result {
            None => Err("Instalação do runtime VC++ não confirmou resultado (UAC cancelado?)."@),
            Some(raw) => {
                let code = installer_code(raw);
                if code == 0 || code == 1638 {
                    Ok(())
                } else {
                    Err("Instalador do runtime VC++ retornou codigo "@ + crate::text::decimal_int(code as int) + "."@)
                }
            },
        }
    }
}

/// How an elevated installation ended: `launched` tells whether the elevated
/// launcher succeeded, `result` the text of the result file, if it was written.
pub fn run_elevated_installer_outcome(launched: bool, result: Option<&str>) -> (r: Result<(), String>)
    ensures
        match (r, installer_outcome(launched, match result {
            Some(t) => Some(t@),
            None => None,
        })) {
            (Ok(_), Ok(_)) => true,
            (Err(a), Err(b)) => a@ == b,
            _ => false,
        },
{
    if !launched {
        return Err("Não foi possível solicitar elevação para instalar runtime VC++.".to_owned());
    }
    match result {
        None => Err("Instalação do runtime VC++ não confirmou resultado (UAC cancelado?).".to_owned()),
        Some(raw) => {
            let t = trim_str(raw);
            let code: i32 = match parse_i32_vec(&t) {
                Some(c) => c,
                None => -1,
            };
            if code == 0 || code == 1638 {
                Ok(())
            } else {
                let mut m = chars_of("Instalador do runtime VC++ retornou codigo ");
                let d = crate::text::decimal_i32(code);
                crate::text::push_all(&mut m, &d);
                push_str(&mut m, ".");
                Err(string_of(&m))
            }
        },
    }
}


// ---------------------------------------------------------------------------
// Checking a PHP runtime
// ---------------------------------------------------------------------------

/// What a failed program reported: its trimmed error output, else its
/// trimmed standard output, else `fallback`.
pub open spec fn failure_detail(stderr: Seq<char>, stdout: Seq<char>, fallback: Seq<char>) -> Seq<char> {
    if trim(stderr).len() > 0 {
        trim(stderr)
    } else if trim(stdout).len() > 0 {
        trim(stdout)
    } else {
        fallback
    }
}

/// What a failed program reported (see `failure_detail`).
pub fn process_failure_detail(stderr: &str, stdout: &str, fallback: &str) -> (r: String)
    ensures
        r@ == failure_detail(stderr@, stdout@, fallback@),
{
    let e = trim_str(stderr);
    if e.len() > 0 {
        return string_of(&e);
    }
    let o = trim_str(stdout);
    if o.len() > 0 {
        return string_of(&o);
    }
    fallback.to_owned()
}

/// The checks of a PHP runtime made before running it: `php.exe` must exist,
/// and a VC11 build needs `msvcr110.dll`.
pub open spec fn php_precheck(php_dir: Seq<char>, php_exists: bool, has_vc110: bool) -> Result<(), Seq<char>> {
    if !php_exists {
        Err("php.exe ausente"@)
    } else if runtime_tag(php_dir) == "vc11"@ && !has_vc110 {
        Err("MSVCR110.dll ausente (Visual C++ 2012 x64 runtime não encontrado)"@)
    } else {
        Ok(())
    }
}

pub open spec fn unit_result_view(r: Result<(), String>) -> Result<(), Seq<char>> {
    match r {
        Ok(_) => Ok(()),
        Err(e) => Err(e@),
    }
}

/// The checks of the PHP runtime in `php_dir` before `php -v` is run on it
/// (`php_exists`: its `php.exe` exists; `has_vc110`: `msvcr110.dll` is installed).
pub fn validate_php_runtime(php_dir: &str, php_exists: bool, has_vc110: bool) -> (r: Result<(), String>)
    ensures
        unit_result_view(r) == php_precheck(php_dir@, php_exists, has_vc110),
{
    if !php_exists {
        return Err("php.exe ausente".to_owned());
    }
    if runtime_requires_vc110(php_dir) && !has_vc110 {
        return Err("MSVCR110.dll ausente (Visual C++ 2012 x64 runtime não encontrado)".to_owned());
    }
    Ok(())
}

/// The verdict of `php -v` on a runtime: it works when the command succeeded.
pub fn php_check_outcome(success: bool, stderr: &str, stdout: &str) -> (r: Result<(), String>)
    ensures
        success ==> r is Ok,
        !success ==> (r matches Err(e) && e@ == failure_detail(
            stderr@,
            stdout@,
            "dependencias do runtime ausentes (ex.: VC++/MSVCR)"@,
        )),
{
    if success {
        Ok(())
    } else {
        Err(process_failure_detail(stderr, stdout, "dependencias do runtime ausentes (ex.: VC++/MSVCR)"))
    }
}

pub const VC2012_STILL_MISSING: &'static str = "MSVCR110.dll ainda não disponível após tentativa automática. Instale Visual C++ 2012 Redistributable (x64) e tente novamente.";

pub const VC14PLUS_STILL_MISSING: &'static str = "vcruntime140.dll ainda não disponível após tentativa automática. Instale Visual C++ 2015-2022 Redistributable (x64) e tente novamente.";

/// The error when a PHP runtime still fails after the Visual C++ 2012 runtime was installed.
pub fn unresolved_dependency_message(detail: &str) -> (r: String)
    ensures
        r@ == "Dependência do PHP não resolvida automaticamente. Instale o Visual C++ 2012 Redistributable (x64) e tente novamente. Detalhe: "@
            + detail@,
{
    let mut m = chars_of("Dependência do PHP não resolvida automaticamente. Instale o Visual C++ 2012 Redistributable (x64) e tente novamente. Detalhe: ");
    push_str(&mut m, detail);
    string_of(&m)
}

// ---------------------------------------------------------------------------
// The php.ini of a runtime
// ---------------------------------------------------------------------------

/// The text a runtime's `php.ini` starts from.
#[derive(PartialEq, Eq, Structural, Clone, Copy)]
pub enum IniSource {
    /// The ini Ipeenv kept for the version.
    Existing,
    /// The runtime's `php.ini-development`.
    Development,
    /// The runtime's `php.ini-production`.
    Production,
    /// The shared `etc/php/php.ini`.
    Shared,
    /// Nothing: an empty text.
    Empty,
}

/// The text a runtime's ini starts from: the kept ini when it exists, else
/// the first of the development, production and shared ini that exists.
pub open spec fn ini_source(kept: bool, development: bool, production: bool, shared: bool) -> IniSource {
    if kept {
        IniSource::Existing
    } else if development {
        IniSource::Development
    } else if production {
        IniSource::Production
    } else if shared {
        IniSource::Shared
    } else {
        IniSource::Empty
    }
}

/// Which text a runtime's ini is prepared from, given which files exist.
pub fn php_ini_source(kept: bool, development: bool, production: bool, shared: bool) -> (r: IniSource)
    ensures
        r == ini_source(kept, development, production, shared),
{
    if kept {
        IniSource::Existing
    } else if development {
        IniSource::Development
    } else if production {
        IniSource::Production
    } else if shared {
        IniSource::Shared
    } else {
        IniSource::Empty
    }
}

/// The default extensions as a sequence of names.
pub open spec fn default_extension_names() -> Seq<Seq<char>> {
    seq!["openssl"@, "curl"@, "fileinfo"@, "intl"@, "mbstring"@, "mysqli"@, "pdo_mysql"@, "zip"@, "gd"@]
}

/// `php_<name>.dll`.
pub open spec fn dll_of(name: Seq<char>) -> Seq<char> {
    "php_"@ + name + ".dll"@
}

/// The default extensions whose library is present switched on, in order.
pub open spec fn with_default_extensions(ini: Seq<char>, names: Seq<Seq<char>>, present: Seq<bool>) -> Seq<char>
    decreases names.len(),
{
    if names.len() == 0 {
        ini
    } else {
        let before = with_default_extensions(ini, names.drop_last(), present);
        let k = names.len() - 1;
        if k < present.len() && present[k] {
            ini_with_extension(before, dll_of(names.last()), names.last(), true)
        } else {
            before
        }
    }
}

/// The ini Ipeenv writes for a runtime: the time zone, the runtime's `ext`
/// folder, a log file per version and `allow_url_fopen` set, then the default
/// extensions whose library is present switched on.
pub open spec fn php_ini_text(base: Seq<char>, root: Seq<char>, version: Seq<char>, php_dir: Seq<char>, present: Seq<bool>) -> Seq<char> {
    let c1 = ini_with_directive(base, "date.timezone"@, "America/Sao_Paulo"@);
    let c2 = ini_with_directive(c1, "extension_dir"@, "\""@ + display(path_join(php_dir, "ext"@)) + "\""@);
    let log = path_join(path_join(path_join(root, "logs"@), "php"@), "php-"@ + slug(version) + ".log"@);
    let c3 = ini_with_directive(c2, "error_log"@, display(log));
    let c4 = ini_with_directive(c3, "allow_url_fopen"@, "On"@);
    with_default_extensions(c4, default_extension_names(), present)
}

/// A default extension name is clean: no blank or quote at either end, no
/// `/`, `\\` or line break.
proof fn lemma_default_name_clean(i: int)
    requires
        0 <= i < 9,
    ensures
        crate::ini::clean_extension_name(default_extension_names()[i]),
{
    reveal_strlit("openssl");
    reveal_strlit("curl");
    reveal_strlit("fileinfo");
    reveal_strlit("intl");
    reveal_strlit("mbstring");
    reveal_strlit("mysqli");
    reveal_strlit("pdo_mysql");
    reveal_strlit("zip");
    reveal_strlit("gd");
    let n = default_extension_names()[i];
    assert forall|k: int| 0 <= k < n.len() implies n[k] != '/' && n[k] != '\\' && n[k] != '\n' && !crate::text::is_ws(n[k])
        && n[k] != '"' by {}
}

/// Two different default extensions differ in name and library file, in any
/// ASCII case.
proof fn lemma_default_names_apart(i: int, j: int)
    requires
        0 <= i < 9,
        0 <= j < 9,
        i != j,
    ensures
        ascii_lower(dll_of(default_extension_names()[i])) != ascii_lower(dll_of(default_extension_names()[j])),
        ascii_lower(dll_of(default_extension_names()[i])) != ascii_lower(default_extension_names()[j]),
        ascii_lower(default_extension_names()[i]) != ascii_lower(dll_of(default_extension_names()[j])),
        ascii_lower(default_extension_names()[i]) != ascii_lower(default_extension_names()[j]),
{
    reveal_strlit("openssl");
    reveal_strlit("curl");
    reveal_strlit("fileinfo");
    reveal_strlit("intl");
    reveal_strlit("mbstring");
    reveal_strlit("mysqli");
    reveal_strlit("pdo_mysql");
    reveal_strlit("zip");
    reveal_strlit("gd");
    reveal_strlit("php_");
    reveal_strlit(".dll");
    let a = default_extension_names()[i];
    let b = default_extension_names()[j];
    assert(a.len() <= 9 && b.len() <= 9);
    assert(ascii_lower(dll_of(a)).len() == a.len() + 8);
    assert(ascii_lower(dll_of(b)).len() == b.len() + 8);
    assert(ascii_lower(a).len() == a.len());
    assert(ascii_lower(b).len() == b.len());
    if a.len() == b.len() {
        assert(a[0] != b[0]);
        assert(ascii_lower(a)[0] == crate::text::lower_char(a[0]));
        assert(ascii_lower(b)[0] == crate::text::lower_char(b[0]));
        assert(dll_of(a)[4] == a[0] && dll_of(b)[4] == b[0]);
        assert(ascii_lower(dll_of(a))[4] == crate::text::lower_char(a[0]));
        assert(ascii_lower(dll_of(b))[4] == crate::text::lower_char(b[0]));
    }
}

/// After the first `m` default extensions are handled, each of them whose
/// library is present is on.
proof fn lemma_defaults_on(ini: Seq<char>, present: Seq<bool>, m: int)
    requires
        0 <= m <= 9,
    ensures
        forall|i: int| 0 <= i < m && i < present.len() && present[i] ==> crate::ini::extension_enabled(
            #[trigger] with_default_extensions(ini, default_extension_names().take(m), present),
            dll_of(default_extension_names()[i]),
            default_extension_names()[i],
        ),
    decreases m,
{
    let names = default_extension_names();
    if m > 0 {
        lemma_defaults_on(ini, present, m - 1);
        let ns = names.take(m);
        assert(ns.drop_last() =~= names.take(m - 1));
        assert(ns.last() == names[m - 1]);
        let before = with_default_extensions(ini, names.take(m - 1), present);
        let w = with_default_extensions(ini, ns, present);
        if m - 1 < present.len() && present[m - 1] {
            lemma_default_name_clean(m - 1);
            assert forall|i: int| 0 <= i < m && i < present.len() && present[i] implies crate::ini::extension_enabled(
                w,
                dll_of(names[i]),
                names[i],
            ) by {
                if i == m - 1 {
                    crate::ini::law_php_extension_switch_read_back(before, dll_of(names[i]), names[i], true);
                } else {
                    lemma_default_names_apart(i, m - 1);
                    assert(crate::ini::extension_enabled(before, dll_of(names[i]), names[i]));
                    crate::ini::law_switch_keeps_other_extension_on(
                        before,
                        dll_of(names[i]),
                        names[i],
                        dll_of(names[m - 1]),
                        names[m - 1],
                        true,
                    );
                }
            }
        } else {
            assert(w == before);
        }
    }
}

/// Every default extension whose library the runtime ships is on in the ini
/// Ipeenv writes for it.
pub proof fn law_present_default_extensions_are_on(
    base: Seq<char>,
    root: Seq<char>,
    version: Seq<char>,
    php_dir: Seq<char>,
    present: Seq<bool>,
    i: int,
)
    requires
        0 <= i < 9,
        i < present.len(),
        present[i],
    ensures
        crate::ini::extension_enabled(
            php_ini_text(base, root, version, php_dir, present),
            dll_of(default_extension_names()[i]),
            default_extension_names()[i],
        ),
{
    let c1 = ini_with_directive(base, "date.timezone"@, "America/Sao_Paulo"@);
    let c2 = ini_with_directive(c1, "extension_dir"@, "\""@ + display(path_join(php_dir, "ext"@)) + "\""@);
    let log = path_join(path_join(path_join(root, "logs"@), "php"@), "php-"@ + slug(version) + ".log"@);
    let c3 = ini_with_directive(c2, "error_log"@, display(log));
    let c4 = ini_with_directive(c3, "allow_url_fopen"@, "On"@);
    lemma_defaults_on(c4, present, 9);
    assert(default_extension_names().take(9) =~= default_extension_names());
    assert(with_default_extensions(c4, default_extension_names().take(9), present) == php_ini_text(
        base,
        root,
        version,
        php_dir,
        present,
    ));
}

/// The libraries of the default extensions in a runtime, in the order of
/// `default_php_extensions` (their presence is what `php_ini_content` takes).
pub fn default_extension_paths(php_dir: &str) -> (r: Vec<String>)
    ensures
        r@.len() == 9,
        forall|i: int| 0 <= i < 9 ==> r@[i]@ == path_join(path_join(php_dir@, "ext"@), dll_of(#[trigger] default_extension_names()[i])),
{
    let names = default_php_extensions();
    let ext = join_path(php_dir, "ext");
    let mut r: Vec<String> = Vec::new();
    let mut i: usize = 0;
    while i < names.len()
        invariant
            i <= names.len(),
            names@ == seq!["openssl", "curl", "fileinfo", "intl", "mbstring", "mysqli", "pdo_mysql", "zip", "gd"],
            ext@ == path_join(php_dir@, "ext"@),
            r@.len() == i,
            forall|k: int| 0 <= k < i ==> r@[k]@ == path_join(ext@, dll_of(default_extension_names()[k])),
        decreases names.len() - i,
    {
        let mut f = chars_of("php_");
        push_str(&mut f, names[i]);
        push_str(&mut f, ".dll");
        let fs = string_of(&f);
        assert(names@[i as int]@ == default_extension_names()[i as int]);
        r.push(join_path(ext.as_str(), fs.as_str()));
        i += 1;
    }
    r
}

/// The ini Ipeenv writes for the runtime of `version` in `php_dir`, from the
/// text `base` (see `php_ini_source`); `present[i]` tells whether the library
/// of the `i`-th default extension exists.
pub fn php_ini_content(base: &str, root: &str, version: &str, php_dir: &str, present: &Vec<bool>) -> (r: String)
    ensures
        r@ == php_ini_text(base@, root@, version@, php_dir@, present@),
{
    let c1 = set_ini_directive(base, "date.timezone", "America/Sao_Paulo");
    let ext = join_path(php_dir, "ext");
    let shown = display_path(ext.as_str());
    let mut quoted = chars_of("\"");
    push_str(&mut quoted, shown.as_str());
    push_str(&mut quoted, "\"");
    let qs = string_of(&quoted);
    let c2 = set_ini_directive(c1.as_str(), "extension_dir", qs.as_str());
    let l1 = join_path(root, "logs");
    let l2 = join_path(l1.as_str(), "php");
    let mut lf = chars_of("php-");
    let sv = slugify(version);
    push_str(&mut lf, sv.as_str());
    push_str(&mut lf, ".log");
    let lfs = string_of(&lf);
    let log = join_path(l2.as_str(), lfs.as_str());
    let shown_log = display_path(log.as_str());
    let c3 = set_ini_directive(c2.as_str(), "error_log", shown_log.as_str());
    let c4 = set_ini_directive(c3.as_str(), "allow_url_fopen", "On");
    let names = default_php_extensions();
    let ghost dn = default_extension_names();
    let mut content = c4;
    let mut i: usize = 0;
    while i < names.len()
        invariant
            i <= names.len(),
            names@ == seq!["openssl", "curl", "fileinfo", "intl", "mbstring", "mysqli", "pdo_mysql", "zip", "gd"],
            dn == default_extension_names(),
            content@ == with_default_extensions(c4@, dn.take(i as int), present@),
        decreases names.len() - i,
    {
        proof {
            assert(dn.take(i + 1).drop_last() =~= dn.take(i as int));
            assert(names@[i as int]@ == dn[i as int]);
        }
        if i < present.len() && present[i] {
            let mut d = chars_of("php_");
            push_str(&mut d, names[i]);
            push_str(&mut d, ".dll");
            let ds = string_of(&d);
            content = set_php_extension_line(content.as_str(), ds.as_str(), names[i], true);
        }
        i += 1;
    }
    assert(dn.take(9) =~= dn);
    content
}

// ---------------------------------------------------------------------------
// The listing of installed PHP runtimes
// ---------------------------------------------------------------------------

/// An installed PHP runtime as listed.
pub struct PhpRuntimeInfo {
    pub name: String,
    pub version: String,
    pub path: String,
    pub ini_path: String,
    pub extension_count: usize,
}

pub struct PhpRuntimeInfoView {
    pub name: Seq<char>,
    pub version: Seq<char>,
    pub path: Seq<char>,
    pub ini_path: Seq<char>,
    pub extension_count: nat,
}

impl View for PhpRuntimeInfo {
    type V = PhpRuntimeInfoView;

    open spec fn view(&self) -> PhpRuntimeInfoView {
        PhpRuntimeInfoView {
            name: self.name@,
            version: self.version@,
            path: self.path@,
            ini_path: self.ini_path@,
            extension_count: self.extension_count as nat,
        }
    }
}

/// The version a runtime reports for `echo PHP_VERSION;`: its trimmed
/// output, when the command succeeded and printed something.
pub open spec fn reported_version(success: bool, stdout: Seq<char>) -> Option<Seq<char>> {
    if success && trim(stdout).len() > 0 {
        Some(trim(stdout))
    } else {
        None
    }
}

/// The version a PHP runtime reported, if it did.
pub fn php_runtime_version(success: bool, stdout: &str) -> (r: Option<String>)
    ensures
        opt_string_view(r) == reported_version(success, stdout@),
{
    if !success {
        return None;
    }
    let t = trim_str(stdout);
    if t.len() > 0 {
        Some(string_of(&t))
    } else {
        None
    }
}

/// How many names start with `php_` in any case.
pub open spec fn php_library_count(names: Seq<Seq<char>>) -> nat
    decreases names.len(),
{
    if names.len() == 0 {
        0
    } else {
        php_library_count(names.drop_last()) + if starts_with(ascii_lower(names.last()), "php_"@) {
            1nat
        } else {
            0nat
        }
    }
}

/// The listing of the runtime in `path`: its version is the one it reports,
/// else the version in its folder name, else `desconhecida`; its extensions
/// are the `php_*` entries of its `ext` folder (`ext_names`).
pub open spec fn runtime_info(root: Seq<char>, path: Seq<char>, reported: Option<Seq<char>>, ext_names: Seq<Seq<char>>) -> PhpRuntimeInfoView {
    let version = match reported {
        Some(v) => v,
        None => match file_name(path) {
            Some(n) => version_in_name(n),
            None => "desconhecida"@,
        },
    };
    PhpRuntimeInfoView {
        name: match file_name(path) {
            Some(n) => n,
            None => version,
        },
        version,
        path: display(path),
        ini_path: display(crate::paths::php_ini(root, version)),
        extension_count: php_library_count(ext_names),
    }
}

/// The listing of the PHP runtime in `path` (see `runtime_info`).
pub fn php_runtime_info(root: &str, path: &str, reported: Option<&str>, ext_names: &Vec<String>) -> (r: PhpRuntimeInfo)
    ensures
        r@ == runtime_info(
            root@,
            path@,
            match reported {
                Some(v) => Some(v@),
                None => None,
            },
            ext_names@.map_values(|s: String| s@),
        ),
{
    let folder = path_file_name(path);
    let version = match reported {
        Some(v) => v.to_owned(),
        None => match &folder {
            Some(n) => php_version_from_name(n.as_str()),
            None => "desconhecida".to_owned(),
        },
    };
    let ghost en = ext_names@.map_values(|s: String| s@);
    let mut count: usize = 0;
    let mut i: usize = 0;
    while i < ext_names.len()
        invariant
            i <= ext_names.len(),
            en == ext_names@.map_values(|s: String| s@),
            count == php_library_count(en.take(i as int)),
            count <= i,
        decreases ext_names.len() - i,
    {
        proof {
            assert(en.take(i + 1).drop_last() =~= en.take(i as int));
        }
        let l = lower_text(&chars_of(ext_names[i].as_str()));
        if starts_with_str(&l, "php_") {
            count += 1;
        }
        i += 1;
    }
    assert(en.take(ext_names.len() as int) =~= en);
    let name = match folder {
        Some(n) => n,
        None => version.clone(),
    };
    let ini = crate::paths::php_ini_path(root, version.as_str());
    PhpRuntimeInfo {
        name,
        path: display_path(path),
        ini_path: display_path(ini.as_str()),
        extension_count: count,
        version,
    }
}


pub open spec fn runtime_views(v: Seq<PhpRuntimeInfo>) -> Seq<PhpRuntimeInfoView> {
    v.map_values(|r: PhpRuntimeInfo| r@)
}

/// `items` in the order `o`.
pub open spec fn in_order<A>(items: Seq<A>, o: Seq<int>) -> Seq<A> {
    Seq::new(o.len(), |i: int| items[o[i]])
}

/// The runtimes, highest version first (a stable sort).
pub open spec fn runtimes_by_version(l: Seq<PhpRuntimeInfoView>) -> Seq<PhpRuntimeInfoView> {
    in_order(l, sort_order(l.map_values(|r: PhpRuntimeInfoView| version_parts(r.version)), l.len(), true))
}

fn copy_runtime(r: &PhpRuntimeInfo) -> (c: PhpRuntimeInfo)
    ensures
        c@ == r@,
{
    PhpRuntimeInfo {
        name: r.name.clone(),
        version: r.version.clone(),
        path: r.path.clone(),
        ini_path: r.ini_path.clone(),
        extension_count: r.extension_count,
    }
}

/// The installed runtimes in the order they are listed: highest version first.
pub fn sort_php_runtimes(runtimes: &Vec<PhpRuntimeInfo>) -> (r: Vec<PhpRuntimeInfo>)
    ensures
        runtime_views(r@) == runtimes_by_version(runtime_views(runtimes@)),
{
    let ghost l = runtime_views(runtimes@);
    let mut versions: Vec<String> = Vec::new();
    let mut j: usize = 0;
    while j < runtimes.len()
        invariant
            j <= runtimes.len(),
            l == runtime_views(runtimes@),
            versions@.len() == j,
            forall|k: int| 0 <= k < j ==> versions@[k]@ == l[k].version,
        decreases runtimes.len() - j,
    {
        versions.push(runtimes[j].version.clone());
        j += 1;
    }
    let keys = version_keys(&versions);
    assert(key_views(keys@) =~= l.map_values(|r: PhpRuntimeInfoView| version_parts(r.version)));
    let order = sorted_order(&keys, true);
    let ghost o = sort_order(key_views(keys@), keys.len() as nat, true);
    proof {
        crate::order::law_sort_order_permutation(key_views(keys@), true);
    }
    let mut out: Vec<PhpRuntimeInfo> = Vec::new();
    let mut k: usize = 0;
    while k < order.len()
        invariant
            k <= order.len(),
            l == runtime_views(runtimes@),
            indices_view(order@) == o,
            o.len() == l.len(),
            forall|q: int| 0 <= q < o.len() ==> 0 <= #[trigger] o[q] < l.len(),
            runtime_views(out@) == in_order(l, o.take(k as int)),
        decreases order.len() - k,
    {
        assert(o[k as int] == order@[k as int]);
        let c = copy_runtime(&runtimes[order[k]]);
        proof {
            assert(l[order@[k as int] as int] == runtimes@[order@[k as int] as int]@);
            assert(in_order(l, o.take(k + 1)) =~= in_order(l, o.take(k as int)).push(l[o[k as int]]));
        }
        let ghost before = runtime_views(out@);
        out.push(c);
        k += 1;
        assert(runtime_views(out@) =~= before.push(c@));
    }
    assert(o.take(o.len() as int) =~= o);
    out
}

/// The name chosen among folder names is one of them and comes no earlier
/// than any of them in the order of `String`.
pub proof fn law_greatest_name_is_greatest(names: Seq<Seq<char>>)
    requires
        names.len() > 0,
    ensures
        greatest_name(names) matches Some(g) && names.contains(g) && forall|i: int|
            0 <= i < names.len() ==> crate::version::lex_cmp(char_codes(names[i]), char_codes(g))
                != std::cmp::Ordering::Greater,
{
    let keys = names.map_values(|n: Seq<char>| char_codes(n));
    crate::order::law_sort_order_permutation(keys, false);
    crate::order::law_sort_order_sorted(keys, false);
    let o = sort_order(keys, names.len(), false);
    let last = names.len() - 1;
    let g = names[o[last]];
    assert(0 <= o[last] < names.len());
    assert forall|i: int| 0 <= i < names.len() implies crate::version::lex_cmp(char_codes(names[i]), char_codes(g))
        != std::cmp::Ordering::Greater by {
        assert(o.contains(i));
        let j = choose|j: int| 0 <= j < o.len() && o[j] == i;
        if j == last {
            crate::version::lemma_lex_equal(char_codes(g), char_codes(g));
        } else {
            assert(!crate::order::goes_after(keys[o[j]], keys[o[last]], false));
        }
    }
}


/// The Windows folder: `WINDIR`, or `C:\Windows` when it is not set.
pub open spec fn windows_dir(windir: Option<Seq<char>>) -> Seq<char> {
    match windir {
        Some(w) => w,
        None => "C:\\Windows"@,
    }
}

/// The system libraries that show the Visual C++ runtimes: `msvcr110.dll` in
/// `System32` and `SysWOW64` (2012), then `vcruntime140.dll` and
/// `msvcp140.dll` in `System32` and in `SysWOW64` (2015-2022).
pub open spec fn system_runtime_files(windir: Option<Seq<char>>) -> Seq<Seq<char>> {
    let w = windows_dir(windir);
    let s32 = path_join(w, "System32"@);
    let wow = path_join(w, "SysWOW64"@);
    seq![
        path_join(s32, "msvcr110.dll"@), path_join(wow, "msvcr110.dll"@),
        path_join(s32, "vcruntime140.dll"@), path_join(s32, "msvcp140.dll"@),
        path_join(wow, "vcruntime140.dll"@), path_join(wow, "msvcp140.dll"@),
    ]
}

/// The system libraries to look for (see `system_runtime_files`).
pub fn system_runtime_paths(windir: Option<&str>) -> (r: Vec<String>)
    ensures
        r@.map_values(|s: String| s@) == system_runtime_files(
            match windir {
                Some(w) => Some(w@),
                None => None,
            },
        ),
{
    let w = match windir {
        Some(w) => w.to_owned(),
        None => "C:\\Windows".to_owned(),
    };
    let s32 = join_path(w.as_str(), "System32");
    let wow = join_path(w.as_str(), "SysWOW64");
    let mut r: Vec<String> = Vec::new();
    r.push(join_path(s32.as_str(), "msvcr110.dll"));
    r.push(join_path(wow.as_str(), "msvcr110.dll"));
    r.push(join_path(s32.as_str(), "vcruntime140.dll"));
    r.push(join_path(s32.as_str(), "msvcp140.dll"));
    r.push(join_path(wow.as_str(), "vcruntime140.dll"));
    r.push(join_path(wow.as_str(), "msvcp140.dll"));
    assert(r@.map_values(|s: String| s@) =~= system_runtime_files(
        match windir {
            Some(w) => Some(w@),
            None => None,
        },
    ));
    r
}

/// Which Visual C++ runtimes are installed, from the presence of the files of
/// `system_runtime_paths`: 2012 when `msvcr110.dll` is in either folder;
/// 2015-2022 when both its libraries are in the same folder.
pub fn installed_vc_runtimes(present: &Vec<bool>) -> (r: (bool, bool))
    ensures
        r.0 == (present.len() > 0 && present@[0] || present.len() > 1 && present@[1]),
        r.1 == ((present.len() > 3 && present@[2] && present@[3]) || (present.len() > 5 && present@[4] && present@[5])),
{
    let at = |i: usize| -> (b: bool)
        ensures
            b == (i < present.len() && present@[i as int]),
        { i < present.len() && present[i] };
    (at(0) || at(1), (at(2) && at(3)) || (at(4) && at(5)))
}

/// The error when a project command's runtime has no `php.exe`.
pub fn php_missing_in(php_dir: &str) -> (r: String)
    ensures
        r@ == "php.exe não encontrado em "@ + display(php_dir@) + "."@,
{
    let shown = display_path(php_dir);
    let mut m = chars_of("php.exe não encontrado em ");
    push_str(&mut m, shown.as_str());
    push_str(&mut m, ".");
    string_of(&m)
}

} // verus!
