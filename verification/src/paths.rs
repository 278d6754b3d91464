//! Locations inside the Ipeenv root, as text.
//!
//! A path is its text. Joining inserts `\`, the separator of Windows where
//! Ipeenv runs, unless the base is empty or ends with a separator; `/` and
//! `\` are both separators, and the displayed form of a path writes every
//! separator as `/`.

use vstd::prelude::*;
use crate::text::{
    chars_of, last_index, last_index_exec, lemma_last_index, push_all, push_str, replace_char,
    replace_char_vec, slice_of, string_of, text_eq,
};
use crate::naming::{slug, slugify};

verus! {

pub open spec fn is_sep(c: char) -> bool {
    c == '/' || c == '\\'
}

/// `base` joined with the relative path `part`, as `Path::join` does on
/// Windows.
pub open spec fn path_join(base: Seq<char>, part: Seq<char>) -> Seq<char> {
    if base.len() == 0 {
        part
    } else if is_sep(base.last()) {
        base + part
    } else {
        base + "\\"@ + part
    }
}

/// Joins a relative path onto a base path.
pub fn join_path(base: &str, part: &str) -> (r: String)
    ensures
        r@ == path_join(base@, part@),
{
    let b = chars_of(base);
    let mut out = b.clone();
    if b.len() > 0 && !(b[b.len() - 1] == '/' || b[b.len() - 1] == '\\') {
        push_str(&mut out, "\\");
    }
    push_str(&mut out, part);
    string_of(&out)
}

/// The path with every `\` written as `/`.
pub open spec fn display(path: Seq<char>) -> Seq<char> {
    replace_char(path, '\\', '/')
}

/// A path as it is shown and written into configuration files: with `/` as separator.
pub fn display_path(path: &str) -> (r: String)
    ensures
        r@ == display(path@),
{
    let v = chars_of(path);
    let r = replace_char_vec(&v, '\\', '/');
    string_of(&r)
}

/// A path as the operating system takes it.
pub fn native_path(path: &str) -> (r: String)
    ensures
        r@ == path@,
{
    path.to_owned()
}

/// The path with its trailing separators removed.
pub open spec fn strip_seps(p: Seq<char>) -> Seq<char>
    decreases p.len(),
{
    if p.len() > 0 && is_sep(p.last()) {
        strip_seps(p.drop_last())
    } else {
        p
    }
}

/// Index of the last separator.
pub open spec fn last_sep(p: Seq<char>) -> Option<int>
    decreases p.len(),
{
    if p.len() == 0 {
        None
    } else if is_sep(p.last()) {
        Some(p.len() - 1)
    } else {
        last_sep(p.drop_last())
    }
}

/// The last component of a path (trailing separators ignored), if it is a name.
pub open spec fn file_name(p: Seq<char>) -> Option<Seq<char>> {
    let q = strip_seps(p);
    let name = match last_sep(q) {
        Some(i) => q.skip(i + 1),
        None => q,
    };
    if name.len() == 0 || name == ".."@ {
        None
    } else {
        Some(name)
    }
}

/// The path without its last component (trailing separators ignored).
pub open spec fn parent(p: Seq<char>) -> Option<Seq<char>> {
    let q = strip_seps(p);
    match last_sep(q) {
        Some(i) => Some(strip_seps(q.take(i))),
        None => if q.len() == 0 {
            None
        } else {
            Some(Seq::<char>::empty())
        },
    }
}

/// The extension of the last component: the text after its last `.`, when
/// that `.` is not its first character.
pub open spec fn extension(p: Seq<char>) -> Option<Seq<char>> {
    match file_name(p) {
        Some(n) => match last_index(n, '.') {
            Some(i) => if i > 0 {
                Some(n.skip(i + 1))
            } else {
                None
            },
            None => None,
        },
        None => None,
    }
}

fn strip_seps_vec(p: &Vec<char>) -> (r: usize)
    ensures
        r <= p.len(),
        strip_seps(p@) == p@.take(r as int),
{
    let mut k = p.len();
    assert(p@.take(p.len() as int) == p@);
    while k > 0 && (p[k - 1] == '/' || p[k - 1] == '\\')
        invariant
            k <= p.len(),
            strip_seps(p@) == strip_seps(p@.take(k as int)),
        decreases k,
    {
        assert(p@.take(k as int).drop_last() =~= p@.take(k - 1));
        k -= 1;
    }
    k
}

fn last_sep_in(p: &Vec<char>, n: usize) -> (r: Option<usize>)
    requires
        n <= p.len(),
    ensures
        r matches Some(i) ==> last_sep(p@.take(n as int)) == Some(i as int) && i < n,
        r is None ==> last_sep(p@.take(n as int)) is None,
{
    let mut k = n;
    while k > 0 && !(p[k - 1] == '/' || p[k - 1] == '\\')
        invariant
            k <= n <= p.len(),
            last_sep(p@.take(n as int)) == last_sep(p@.take(k as int)),
        decreases k,
    {
        assert(p@.take(k as int).drop_last() =~= p@.take(k - 1));
        k -= 1;
    }
    if k == 0 {
        None
    } else {
        Some(k - 1)
    }
}

fn file_name_vec(p: &Vec<char>) -> (r: Option<Vec<char>>)
    ensures
        match r {
            Some(v) => file_name(p@) == Some(v@),
            None => file_name(p@) is None,
        },
{
    let n = strip_seps_vec(p);
    let ghost q = p@.take(n as int);
    let name = match last_sep_in(p, n) {
        Some(i) => {
            assert(q.skip(i + 1) =~= p@.subrange(i + 1, n as int));
            slice_of(p, i + 1, n)
        },
        None => {
            assert(q =~= p@.subrange(0, n as int));
            slice_of(p, 0, n)
        },
    };
    let dots = chars_of("..");
    if name.len() == 0 || text_eq(&name, &dots) {
        None
    } else {
        Some(name)
    }
}

/// The last component of a path, if it is a name.
pub fn path_file_name(path: &str) -> (r: Option<String>)
    ensures
        match r {
            Some(s) => file_name(path@) == Some(s@),
            None => file_name(path@) is None,
        },
{
    let p = chars_of(path);
    match file_name_vec(&p) {
        Some(v) => Some(string_of(&v)),
        None => None,
    }
}

/// The path without its last component.
pub fn path_parent(path: &str) -> (r: Option<String>)
    ensures
        match r {
            Some(s) => parent(path@) == Some(s@),
            None => parent(path@) is None,
        },
{
    let p = chars_of(path);
    let n = strip_seps_vec(&p);
    match last_sep_in(&p, n) {
        Some(i) => {
            let head = slice_of(&p, 0, i);
            assert(head@ == p@.take(n as int).take(i as int));
            let m = strip_seps_vec(&head);
            let r = slice_of(&head, 0, m);
            assert(r@ == head@.take(m as int));
            Some(string_of(&r))
        },
        None => if n == 0 {
            None
        } else {
            Some(String::new())
        },
    }
}

/// The extension of the last component of a path.
pub fn path_extension(path: &str) -> (r: Option<String>)
    ensures
        match r {
            Some(s) => extension(path@) == Some(s@),
            None => extension(path@) is None,
        },
{
    let p = chars_of(path);
    match file_name_vec(&p) {
        Some(n) => match last_index_exec(&n, '.') {
            Some(i) => {
                proof {
                    lemma_last_index(n@, '.');
                }
                assert(i < n.len());
                if i > 0 {
                    let e = slice_of(&n, i + 1, n.len());
                    assert(e@ == n@.skip(i + 1));
                    Some(string_of(&e))
                } else {
                    None
                }
            },
            None => None,
        },
        None => None,
    }
}

/// `base` joined with each part in turn.
pub open spec fn path_join_all(base: Seq<char>, parts: Seq<Seq<char>>) -> Seq<char>
    decreases parts.len(),
{
    if parts.len() == 0 {
        base
    } else {
        path_join(path_join_all(base, parts.drop_last()), parts.last())
    }
}

/// The Apache configuration that Ipeenv writes into the Apache runtime.
pub open spec fn apache_runtime_config(apache_root: Seq<char>) -> Seq<char> {
    path_join(path_join(apache_root, "conf"@), "ipeenv-httpd.conf"@)
}

/// `conf/ipeenv-httpd.conf` inside an Apache runtime.
pub fn apache_runtime_config_path(apache_root: &str) -> (r: String)
    ensures
        r@ == apache_runtime_config(apache_root@),
{
    let a = join_path(apache_root, "conf");
    join_path(a.as_str(), "ipeenv-httpd.conf")
}

/// `etc/php/php-<slug of version>.ini`: the ini file Ipeenv keeps for a PHP version.
pub open spec fn php_ini(root: Seq<char>, version: Seq<char>) -> Seq<char> {
    path_join(path_join(path_join(root, "etc"@), "php"@), "php-"@ + slug(version) + ".ini"@)
}

/// The ini file Ipeenv keeps for a PHP version.
pub fn php_ini_path(root: &str, version: &str) -> (r: String)
    ensures
        r@ == php_ini(root@, version@),
{
    let a = join_path(root, "etc");
    let b = join_path(a.as_str(), "php");
    let s = slugify(version);
    let mut f = chars_of("php-");
    push_str(&mut f, s.as_str());
    push_str(&mut f, ".ini");
    let fs = string_of(&f);
    join_path(b.as_str(), fs.as_str())
}

/// The settings file of a project.
pub fn project_config_path(project_dir: &str) -> (r: String)
    ensures
        r@ == path_join(project_dir@, ".ipeenv.json"@),
{
    join_path(project_dir, ".ipeenv.json")
}

/// Relative location of the component catalog.
pub const PACKAGE_CATALOG_PATH: &'static str = "config/component-catalog.conf";

/// Relative location of the project template catalog.
pub const SITE_TEMPLATE_CATALOG_PATH: &'static str = "config/project-templates.conf";

/// Older location of the component catalog, next to the program.
pub const LEGACY_PACKAGE_CATALOG_PATH: &'static str = "packages.conf";

/// Older location of the project template catalog, next to the program.
pub const LEGACY_SITE_TEMPLATE_CATALOG_PATH: &'static str = "dependencias/sites.conf";

/// The component catalog of a root.
pub fn package_catalog_path(root: &str) -> (r: String)
    ensures
        r@ == path_join(root@, PACKAGE_CATALOG_PATH@),
{
    join_path(root, PACKAGE_CATALOG_PATH)
}

/// The project template catalog of a root.
pub fn site_template_catalog_path(root: &str) -> (r: String)
    ensures
        r@ == path_join(root@, SITE_TEMPLATE_CATALOG_PATH@),
{
    join_path(root, SITE_TEMPLATE_CATALOG_PATH)
}

/// The Windows hosts file.
pub fn windows_hosts_path() -> (r: String)
    ensures
        r@ == "C:\\Windows\\System32\\drivers\\etc\\hosts"@,
{
    "C:\\Windows\\System32\\drivers\\etc\\hosts".to_owned()
}

/// Where mkcert keeps the local certificate authority.
pub fn mkcert_ca_root(root: &str) -> (r: String)
    ensures
        r@ == path_join(path_join(path_join(root@, "etc"@), "ssl"@), "mkcert"@),
{
    let a = join_path(root, "etc");
    let b = join_path(a.as_str(), "ssl");
    join_path(b.as_str(), "mkcert")
}

/// Where mkcert.exe is looked for, in order: `bin/mkcert/mkcert.exe` and
/// `dependencias/mkcert.exe` of the root, then `dependencias/mkcert.exe` of
/// the workspace.
pub open spec fn mkcert_candidate_paths(root: Seq<char>, workspace: Seq<char>) -> Seq<Seq<char>> {
    seq![
        path_join(path_join(path_join(root, "bin"@), "mkcert"@), "mkcert.exe"@),
        path_join(path_join(root, "dependencias"@), "mkcert.exe"@),
        path_join(path_join(workspace, "dependencias"@), "mkcert.exe"@),
    ]
}

pub fn mkcert_candidates(root: &str, workspace: &str) -> (r: Vec<String>)
    ensures
        r@.map_values(|s: String| s@) == mkcert_candidate_paths(root@, workspace@),
{
    let a = join_path(root, "bin");
    let a = join_path(a.as_str(), "mkcert");
    let a = join_path(a.as_str(), "mkcert.exe");
    let b = join_path(root, "dependencias");
    let b = join_path(b.as_str(), "mkcert.exe");
    let c = join_path(workspace, "dependencias");
    let c = join_path(c.as_str(), "mkcert.exe");
    let mut r: Vec<String> = Vec::new();
    r.push(a);
    r.push(b);
    r.push(c);
    assert(r@.map_values(|s: String| s@) =~= mkcert_candidate_paths(root@, workspace@));
    r
}

/// The first of `items` whose flag is set.
pub open spec fn first_present(items: Seq<Seq<char>>, present: Seq<bool>) -> Option<Seq<char>>
    decreases items.len(),
{
    if items.len() == 0 || present.len() == 0 {
        None
    } else if present[0] {
        Some(items[0])
    } else {
        first_present(items.drop_first(), present.drop_first())
    }
}

/// The mkcert executable: the first candidate that exists (`present[i]` tells
/// whether the `i`-th of `mkcert_candidates` exists).
pub fn mkcert_path(root: &str, workspace: &str, present: &Vec<bool>) -> (r: Result<String, String>)
    ensures
        match r {
            Ok(p) => first_present(mkcert_candidate_paths(root@, workspace@), present@) == Some(p@),
            Err(e) => first_present(mkcert_candidate_paths(root@, workspace@), present@) is None
                && e@ == "mkcert.exe não encontrado. Coloque-o em dependencias/mkcert.exe."@,
        },
{
    let cands = mkcert_candidates(root, workspace);
    let ghost items = mkcert_candidate_paths(root@, workspace@);
    let mut i: usize = 0;
    assert(items.skip(0) == items);
    assert(present@.skip(0) == present@);
    while i < cands.len() && i < present.len()
        invariant
            cands@.map_values(|s: String| s@) == items,
            items == mkcert_candidate_paths(root@, workspace@),
            items.len() == 3,
            cands.len() == 3,
            i <= 3,
            i <= present.len(),
            first_present(items, present@) == first_present(items.skip(i as int), present@.skip(i as int)),
        decreases 3 - i,
    {
        assert(cands@.map_values(|s: String| s@)[i as int] == cands@[i as int]@);
        assert(items.skip(i as int)[0] == cands@[i as int]@);
        assert(present@.skip(i as int)[0] == present@[i as int]);
        if present[i] {
            let r = cands[i].clone();
            assert(first_present(items.skip(i as int), present@.skip(i as int)) == Some(r@));
            return Ok(r);
        }
        assert(items.skip(i as int).drop_first() =~= items.skip(i + 1));
        assert(present@.skip(i as int).drop_first() =~= present@.skip(i + 1));
        i += 1;
    }
    assert(items.skip(i as int).len() == 0 || present@.skip(i as int).len() == 0);
    Err("mkcert.exe não encontrado. Coloque-o em dependencias/mkcert.exe.".to_owned())
}

/// The first of `items` whose flag in `present` is set.
pub fn first_present_exec(items: &Vec<String>, present: &Vec<bool>) -> (r: Option<String>)
    ensures
        match r {
            Some(p) => first_present(items@.map_values(|s: String| s@), present@) == Some(p@),
            None => first_present(items@.map_values(|s: String| s@), present@) is None,
        },
{
    let ghost iv = items@.map_values(|s: String| s@);
    let mut i: usize = 0;
    assert(iv.skip(0) == iv);
    assert(present@.skip(0) == present@);
    while i < items.len() && i < present.len()
        invariant
            iv == items@.map_values(|s: String| s@),
            i <= items.len(),
            i <= present.len(),
            first_present(iv, present@) == first_present(iv.skip(i as int), present@.skip(i as int)),
        decreases items.len() - i,
    {
        assert(iv.skip(i as int)[0] == items@[i as int]@);
        assert(present@.skip(i as int)[0] == present@[i as int]);
        if present[i] {
            return Some(items[i].clone());
        }
        assert(iv.skip(i as int).drop_first() =~= iv.skip(i + 1));
        assert(present@.skip(i as int).drop_first() =~= present@.skip(i + 1));
        i += 1;
    }
    assert(iv.skip(i as int).len() == 0 || present@.skip(i as int).len() == 0);
    None
}

/// Whether the bundled resource folder is the temporary `_up_` folder placed
/// directly inside the root.
pub open spec fn ephemeral_resource_dir(root: Seq<char>, resource_dir: Seq<char>) -> bool {
    &&& file_name(resource_dir) == Some("_up_"@)
    &&& parent(resource_dir) == Some(strip_seps(root))
}

/// Whether the bundled resource folder is the temporary `_up_` folder of the root.
pub fn is_ephemeral_resource_dir(root: &str, resource_dir: &str) -> (r: bool)
    ensures
        r == ephemeral_resource_dir(root@, resource_dir@),
{
    let up = chars_of("_up_");
    let name_ok = match path_file_name(resource_dir) {
        Some(n) => {
            let nv = chars_of(n.as_str());
            text_eq(&nv, &up)
        },
        None => false,
    };
    if !name_ok {
        return false;
    }
    let rv = chars_of(root);
    let k = strip_seps_vec(&rv);
    let rs = slice_of(&rv, 0, k);
    match path_parent(resource_dir) {
        Some(p) => {
            let pv = chars_of(p.as_str());
            text_eq(&pv, &rs)
        },
        None => false,
    }
}

/// The folders that every root holds, as texts.
pub open spec fn required_folder_names() -> Seq<Seq<char>> {
    seq![
        "bin/apache"@, "bin/php"@, "bin/mysql"@, "bin/openssl"@, "config"@, "dependencias"@,
        "data/mysql"@, "etc/apache/vhosts"@, "etc/php"@, "etc/mysql"@, "etc/ssl/certs"@,
        "etc/hosts"@, "logs/apache"@, "logs/php"@, "logs/mysql"@, "logs/app"@, "tmp"@, "www"@, "backup"@,
    ]
}

/// The folders that every root holds, relative to it.
pub fn required_folders() -> (r: Vec<&'static str>)
    ensures
        r@ == seq![
            "bin/apache", "bin/php", "bin/mysql", "bin/openssl", "config", "dependencias",
            "data/mysql", "etc/apache/vhosts", "etc/php", "etc/mysql", "etc/ssl/certs",
            "etc/hosts", "logs/apache", "logs/php", "logs/mysql", "logs/app", "tmp", "www", "backup",
        ],
        r@.map_values(|s: &'static str| s@) == required_folder_names(),
{
    let mut r: Vec<&'static str> = Vec::new();
    r.push("bin/apache");
    r.push("bin/php");
    r.push("bin/mysql");
    r.push("bin/openssl");
    r.push("config");
    r.push("dependencias");
    r.push("data/mysql");
    r.push("etc/apache/vhosts");
    r.push("etc/php");
    r.push("etc/mysql");
    r.push("etc/ssl/certs");
    r.push("etc/hosts");
    r.push("logs/apache");
    r.push("logs/php");
    r.push("logs/mysql");
    r.push("logs/app");
    r.push("tmp");
    r.push("www");
    r.push("backup");
    assert(r@.map_values(|s: &'static str| s@) =~= required_folder_names());
    r
}


/// Showing a shown path changes nothing.
pub proof fn law_display_idempotent(path: Seq<char>)
    ensures
        display(display(path)) == display(path),
{
    assert(display(display(path)) =~= display(path));
}
} // verus!
