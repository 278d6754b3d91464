//! Installing components from the catalog: where a package goes, what its
//! download is called, when it counts as installed, and which PHP versions
//! the catalog offers.

use vstd::prelude::*;
use crate::text::{
    all_ascii, ascii_lower, chars_of, contains, contains_str, last_index, last_index_exec, lemma_last_index,
    lower_text, push_str, slice_of, starts_with, starts_with_str, string_of, text_eq, trim,
    trim_end_lit, trim_end_str, trim_start_lit, trim_start_str, trim_vec,
};
use crate::naming::{slug, slugify};
use crate::paths::{display, display_path, join_path, path_join};
use crate::catalog::{PackageEntry, PackageEntryView, package_views};
use crate::config::{ActionResult, ActionResultView, coded_result};
use crate::version::{at_least, version_at_least, version_parts};
use crate::order::{indices_view, key_views, sort_order, sorted_order, version_keys};

verus! {

// ---------------------------------------------------------------------------
// Download names and install folders
// ---------------------------------------------------------------------------

/// The file extension given to a download, from its URL.
pub open spec fn package_ext(url: Seq<char>) -> Seq<char> {
    let l = ascii_lower(url);
    if contains(l, ".tar.xz"@) {
        ".tar.xz"@
    } else if contains(l, ".zip"@) {
        ".zip"@
    } else if contains(l, ".exe"@) {
        ".exe"@
    } else {
        ".download"@
    }
}

/// The extension under which a download is saved: `.tar.xz`, `.zip` or `.exe`
/// when the URL mentions it (in any case), else `.download`.
pub fn package_extension(url: &str) -> (r: &'static str)
    ensures
        r@ == package_ext(url@),
{
    let l = lower_text(&chars_of(url));
    if contains_str(&l, ".tar.xz") {
        ".tar.xz"
    } else if contains_str(&l, ".zip") {
        ".zip"
    } else if contains_str(&l, ".exe") {
        ".exe"
    } else {
        ".download"
    }
}

/// What follows the last `/` of a URL (the whole URL when it has none).
pub open spec fn last_segment(url: Seq<char>) -> Seq<char> {
    match last_index(url, '/') {
        Some(i) => url.subrange(i + 1, url.len() as int),
        None => url,
    }
}

/// The folder a package is installed in: the file name of its URL without the
/// archive extensions, or the slug of its name when nothing is left.
pub open spec fn package_folder(name: Seq<char>, url: Seq<char>) -> Seq<char> {
    let f = trim_end_str(
        trim_end_str(trim_end_str(trim_end_str(last_segment(url), ".zip"@), ".msi"@), ".exe"@),
        ".tar.xz"@,
    );
    if f.len() == 0 {
        slug(name)
    } else {
        f
    }
}

/// The folder name of a package, from its download URL.
pub fn package_folder_name(name: &str, url: &str) -> (r: String)
    ensures
        r@ == package_folder(name@, url@),
{
    let u = chars_of(url);
    proof {
        lemma_last_index(u@, '/');
    }
    let seg = match last_index_exec(&u, '/') {
        Some(i) => slice_of(&u, i + 1, u.len()),
        None => u,
    };
    let a = trim_end_lit(&seg, ".zip");
    let b = trim_end_lit(&a, ".msi");
    let c = trim_end_lit(&b, ".exe");
    let d = trim_end_lit(&c, ".tar.xz");
    if d.len() == 0 {
        slugify(name)
    } else {
        string_of(&d)
    }
}

/// `root/bin/<sub>/<folder>`.
pub open spec fn bin_dir(root: Seq<char>, sub: Seq<char>, folder: Seq<char>) -> Seq<char> {
    path_join(path_join(path_join(root, "bin"@), sub), folder)
}

/// Where a package is installed: runtimes under `bin/<kind>/<folder>`,
/// phpMyAdmin under `www/phpmyadmin`, anything else under `bin/<slug>/<folder>`.
pub open spec fn package_target(root: Seq<char>, name: Seq<char>, url: Seq<char>) -> Seq<char> {
    let lower = ascii_lower(name);
    let folder = package_folder(name, url);
    if starts_with(lower, "php-"@) {
        bin_dir(root, "php"@, folder)
    } else if starts_with(lower, "apache"@) {
        bin_dir(root, "apache"@, folder)
    } else if starts_with(lower, "mysql"@) {
        bin_dir(root, "mysql"@, folder)
    } else if starts_with(lower, "nginx"@) {
        bin_dir(root, "nginx"@, folder)
    } else if starts_with(lower, "node"@) {
        bin_dir(root, "node"@, folder)
    } else if starts_with(lower, "postgresql"@) {
        bin_dir(root, "postgresql"@, folder)
    } else if starts_with(lower, "go-"@) {
        bin_dir(root, "go"@, folder)
    } else if lower == "phpmyadmin"@ || starts_with(lower, "phpmyadmin-"@) {
        path_join(path_join(root, "www"@), "phpmyadmin"@)
    } else {
        bin_dir(root, slug(name), folder)
    }
}

fn bin_dir_exec(root: &str, sub: &str, folder: &str) -> (r: String)
    ensures
        r@ == bin_dir(root@, sub@, folder@),
{
    let b = join_path(root, "bin");
    let s = join_path(b.as_str(), sub);
    join_path(s.as_str(), folder)
}

/// The folder a catalog package is installed into (the category does not
/// change it).
pub fn package_target_dir(root: &str, name: &str, category: &str, url: &str) -> (r: String)
    ensures
        r@ == package_target(root@, name@, url@),
{
    let lower = lower_text(&chars_of(name));
    let folder = package_folder_name(name, url);
    let f = folder.as_str();
    if starts_with_str(&lower, "php-") {
        bin_dir_exec(root, "php", f)
    } else if starts_with_str(&lower, "apache") {
        bin_dir_exec(root, "apache", f)
    } else if starts_with_str(&lower, "mysql") {
        bin_dir_exec(root, "mysql", f)
    } else if starts_with_str(&lower, "nginx") {
        bin_dir_exec(root, "nginx", f)
    } else if starts_with_str(&lower, "node") {
        bin_dir_exec(root, "node", f)
    } else if starts_with_str(&lower, "postgresql") {
        bin_dir_exec(root, "postgresql", f)
    } else if starts_with_str(&lower, "go-") {
        bin_dir_exec(root, "go", f)
    } else if text_eq(&lower, &chars_of("phpmyadmin")) || starts_with_str(&lower, "phpmyadmin-") {
        let w = join_path(root, "www");
        join_path(w.as_str(), "phpmyadmin")
    } else {
        let s = slugify(name);
        bin_dir_exec(root, s.as_str(), f)
    }
}

// ---------------------------------------------------------------------------
// Whether a package is installed
// ---------------------------------------------------------------------------

/// What was found in a package's install folder.
pub struct InstallProbe {
    /// The folder exists.
    pub target_exists: bool,
    /// `php.exe` is in it.
    pub php_exe: bool,
    /// `bin/httpd.exe` is in it.
    pub bin_httpd: bool,
    /// `httpd.exe` is in it.
    pub httpd: bool,
    /// `bin/mysqld.exe` is in it.
    pub bin_mysqld: bool,
    /// `mysqld.exe` is in it.
    pub mysqld: bool,
    /// It holds at least one entry.
    pub has_entries: bool,
}

/// A package is installed when its folder exists and holds its main program
/// (PHP, Apache, MySQL), or for other packages anything at all.
pub open spec fn installed(name: Seq<char>, p: InstallProbe) -> bool {
    let lower = ascii_lower(name);
    if !p.target_exists {
        false
    } else if starts_with(lower, "php-"@) {
        p.php_exe
    } else if starts_with(lower, "apache"@) {
        p.bin_httpd || p.httpd
    } else if starts_with(lower, "mysql"@) {
        p.bin_mysqld || p.mysqld
    } else {
        p.has_entries
    }
}

/// Whether the package `name` counts as installed, given what its folder holds.
pub fn package_is_installed(name: &str, probe: &InstallProbe) -> (r: bool)
    ensures
        r == installed(name@, *probe),
{
    let lower = lower_text(&chars_of(name));
    if !probe.target_exists {
        false
    } else if starts_with_str(&lower, "php-") {
        probe.php_exe
    } else if starts_with_str(&lower, "apache") {
        probe.bin_httpd || probe.httpd
    } else if starts_with_str(&lower, "mysql") {
        probe.bin_mysqld || probe.mysqld
    } else {
        probe.has_entries
    }
}

// ---------------------------------------------------------------------------
// Installing a package
// ---------------------------------------------------------------------------

/// How a package that is not installed yet gets installed.
pub struct PackageInstall {
    /// The folder it goes into.
    pub target_dir: String,
    /// Where the download is saved.
    pub archive: String,
    /// The download is a zip archive to extract (else it is copied as is).
    pub is_zip: bool,
    /// An Apache package: its `Apache24` folder is flattened into the target.
    pub flatten_apache: bool,
}

/// The first decision of an installation.
pub enum PackageStep {
    /// Nothing to do; the answer to give.
    AlreadyInstalled(ActionResult),
    /// Download and install as described.
    Install(PackageInstall),
}

/// The reply for a package that is installed at `target`.
pub open spec fn already_installed_result(name: Seq<char>, target: Seq<char>) -> ActionResultView {
    coded_result(
        true,
        "package.alreadyInstalled"@,
        name + " já está instalado em "@ + display(target) + "."@,
        seq![("package"@, name), ("path"@, display(target))],
    )
}

/// The reply after a package was installed at `target`.
pub open spec fn installed_result(name: Seq<char>, target: Seq<char>) -> ActionResultView {
    coded_result(
        true,
        "package.installed"@,
        name + " instalado em "@ + display(target) + "."@,
        seq![("package"@, name), ("path"@, display(target))],
    )
}

/// Where the download of a package is saved: `tmp/downloads/<slug><extension>`.
pub open spec fn download_archive(root: Seq<char>, name: Seq<char>, url: Seq<char>) -> Seq<char> {
    path_join(path_join(path_join(root, "tmp"@), "downloads"@), slug(name) + package_ext(url))
}

fn path_result(name: &str, target: &str, code: &str, middle: &str) -> (r: ActionResult)
    ensures
        r@ == coded_result(
            true,
            code@,
            name@ + middle@ + display(target@) + "."@,
            seq![("package"@, name@), ("path"@, display(target@))],
        ),
{
    let shown = display_path(target);
    let mut m = chars_of(name);
    push_str(&mut m, middle);
    push_str(&mut m, shown.as_str());
    push_str(&mut m, ".");
    let mut params: Vec<(&str, String)> = Vec::new();
    params.push(("package", name.to_owned()));
    params.push(("path", shown.clone()));
    let r = ActionResult::coded(true, code, string_of(&m), params);
    assert(crate::config::param_views(params@) =~= seq![("package"@, name@), ("path"@, display(target@))]);
    proof {
        reveal_strlit("package");
        reveal_strlit("path");
        assert("package"@.len() != "path"@.len());
        crate::config::lemma_distinct_keys2(("package"@, name@), ("path"@, display(target@)));
    }
    r
}

/// Decides how to install the catalog package `name` from `url`: refused when
/// its name has no slug, nothing to do when it is installed already
/// (`installed` is what `package_is_installed` says of its target), else the
/// target folder, the download file and how to unpack it.
pub fn install_package_plan(root: &str, name: &str, url: &str, category: &str, installed: bool) -> (r: Result<PackageStep, String>)
    ensures
        slug(name@).len() == 0 ==> (r matches Err(e) && e@ == "Pacote invalido."@),
        slug(name@).len() != 0 && installed ==> (r matches Ok(PackageStep::AlreadyInstalled(a)) && a@
            == already_installed_result(name@, package_target(root@, name@, url@))),
        slug(name@).len() != 0 && !installed ==> (r matches Ok(PackageStep::Install(p)) && p.target_dir@
            == package_target(root@, name@, url@) && p.archive@ == download_archive(root@, name@, url@)
            && p.is_zip == (package_ext(url@) == ".zip"@) && p.flatten_apache == starts_with(
            ascii_lower(name@),
            "apache"@,
        )),
{
    let safe = slugify(name);
    let safe_chars = chars_of(safe.as_str());
    if safe_chars.len() == 0 {
        return Err("Pacote invalido.".to_owned());
    }
    let target = package_target_dir(root, name, category, url);
    if installed {
        return Ok(PackageStep::AlreadyInstalled(path_result(name, target.as_str(), "package.alreadyInstalled", " já está instalado em ")));
    }
    let ext = package_extension(url);
    let t = join_path(root, "tmp");
    let d = join_path(t.as_str(), "downloads");
    let mut file = safe_chars;
    push_str(&mut file, ext);
    let fs = string_of(&file);
    let archive = join_path(d.as_str(), fs.as_str());
    let is_zip = text_eq(&chars_of(ext), &chars_of(".zip"));
    let lower = lower_text(&chars_of(name));
    let flatten_apache = starts_with_str(&lower, "apache");
    Ok(PackageStep::Install(PackageInstall { target_dir: target, archive, is_zip, flatten_apache }))
}

/// The reply after the package `name` was installed at `target`.
pub fn package_installed_result(name: &str, target: &str) -> (r: ActionResult)
    ensures
        r@ == installed_result(name@, target@),
{
    path_result(name, target, "package.installed", " instalado em ")
}


// ---------------------------------------------------------------------------
// PHP versions offered by the catalog
// ---------------------------------------------------------------------------

/// A PHP version that can be chosen for a project.
pub struct PhpOption {
    pub label: String,
    pub version: String,
    pub installed: bool,
    pub installable: bool,
}

pub struct PhpOptionView {
    pub label: Seq<char>,
    pub version: Seq<char>,
    pub installed: bool,
    pub installable: bool,
}

impl View for PhpOption {
    type V = PhpOptionView;

    open spec fn view(&self) -> PhpOptionView {
        PhpOptionView {
            label: self.label@,
            version: self.version@,
            installed: self.installed,
            installable: self.installable,
        }
    }
}

pub open spec fn php_option_views(s: Seq<PhpOption>) -> Seq<PhpOptionView> {
    s.map_values(|o: PhpOption| o@)
}

/// A catalog entry is a PHP package when its name starts with `php-` in any case.
pub open spec fn is_php_package(name: Seq<char>) -> bool {
    starts_with(ascii_lower(name), "php-"@)
}

/// The option a PHP package gives: its version is the name without the
/// leading `PHP-`; it can be installed when its URL is not blank.
pub open spec fn php_option_of(e: PackageEntryView) -> PhpOptionView {
    PhpOptionView {
        label: e.name,
        version: trim_start_str(e.name, "PHP-"@),
        installed: e.installed,
        installable: trim(e.url).len() > 0,
    }
}

/// The options of the PHP packages, in catalog order.
pub open spec fn php_option_list(entries: Seq<PackageEntryView>) -> Seq<PhpOptionView>
    decreases entries.len(),
{
    if entries.len() == 0 {
        Seq::empty()
    } else {
        let rest = php_option_list(entries.drop_last());
        if is_php_package(entries.last().name) {
            rest.push(php_option_of(entries.last()))
        } else {
            rest
        }
    }
}

/// `items` in the order `o`.
pub open spec fn reordered<A>(items: Seq<A>, o: Seq<int>) -> Seq<A> {
    Seq::new(o.len(), |i: int| items[o[i]])
}

/// The PHP options, highest version first (a stable sort).
pub open spec fn php_options_spec(entries: Seq<PackageEntryView>) -> Seq<PhpOptionView> {
    let l = php_option_list(entries);
    reordered(
        l,
        sort_order(l.map_values(|o: PhpOptionView| version_parts(o.version)), l.len(), true),
    )
}

fn copy_option(o: &PhpOption) -> (r: PhpOption)
    ensures
        r@ == o@,
{
    PhpOption {
        label: o.label.clone(),
        version: o.version.clone(),
        installed: o.installed,
        installable: o.installable,
    }
}

/// The PHP versions the catalog offers, highest first. `entries` are the
/// catalog entries with `installed` filled in (as the package listing does).
pub fn php_options(entries: &Vec<PackageEntry>) -> (r: Vec<PhpOption>)
    ensures
        php_option_views(r@) == php_options_spec(package_views(entries@)),
{
    let ghost ev = package_views(entries@);
    let mut list: Vec<PhpOption> = Vec::new();
    let mut i: usize = 0;
    while i < entries.len()
        invariant
            i <= entries.len(),
            ev == package_views(entries@),
            php_option_views(list@) == php_option_list(ev.take(i as int)),
        decreases entries.len() - i,
    {
        let e = &entries[i];
        let lower = lower_text(&chars_of(e.name.as_str()));
        proof {
            assert(ev.take(i + 1).drop_last() =~= ev.take(i as int));
            assert(ev.take(i + 1).last() == e@);
        }
        if starts_with_str(&lower, "php-") {
            let version = trim_start_lit(&chars_of(e.name.as_str()), "PHP-");
            let url = trim_vec(&chars_of(e.url.as_str()));
            let o = PhpOption {
                label: e.name.clone(),
                version: string_of(&version),
                installed: e.installed,
                installable: url.len() > 0,
            };
            let ghost before = php_option_views(list@);
            list.push(o);
            assert(php_option_views(list@) =~= before.push(php_option_of(e@)));
        }
        i += 1;
    }
    assert(ev.take(entries.len() as int) =~= ev);
    let ghost l = php_option_list(ev);
    let mut versions: Vec<String> = Vec::new();
    let mut j: usize = 0;
    while j < list.len()
        invariant
            j <= list.len(),
            php_option_views(list@) == l,
            versions@.len() == j,
            forall|k: int| 0 <= k < j ==> versions@[k]@ == l[k].version,
        decreases list.len() - j,
    {
        versions.push(list[j].version.clone());
        j += 1;
    }
    let keys = version_keys(&versions);
    assert(key_views(keys@) =~= l.map_values(|o: PhpOptionView| version_parts(o.version)));
    let order = sorted_order(&keys, true);
    let ghost o = sort_order(key_views(keys@), keys.len() as nat, true);
    proof {
        crate::order::law_sort_order_permutation(key_views(keys@), true);
    }
    let mut out: Vec<PhpOption> = Vec::new();
    let mut k: usize = 0;
    while k < order.len()
        invariant
            k <= order.len(),
            php_option_views(list@) == l,
            indices_view(order@) == o,
            o.len() == l.len(),
            forall|q: int| 0 <= q < o.len() ==> 0 <= #[trigger] o[q] < l.len(),
            php_option_views(out@) == reordered(l, o.take(k as int)),
        decreases order.len() - k,
    {
        assert(o[k as int] == order@[k as int]);
        let c = copy_option(&list[order[k]]);
        proof {
            assert(php_option_views(list@)[order@[k as int] as int] == list@[order@[k as int] as int]@);
            assert(reordered(l, o.take(k + 1)) =~= reordered(l, o.take(k as int)).push(l[o[k as int]]));
        }
        let ghost before = php_option_views(out@);
        out.push(c);
        k += 1;
        assert(php_option_views(out@) =~= before.push(c@));
    }
    assert(o.take(o.len() as int) =~= o);
    out
}


// ---------------------------------------------------------------------------
// A PHP version compatible with a template
// ---------------------------------------------------------------------------

/// The highest of some versions (the first of them in listing order).
pub open spec fn highest_first(vs: Seq<Seq<char>>) -> Option<Seq<char>> {
    if vs.len() == 0 {
        None
    } else {
        Some(vs[sort_order(vs.map_values(|v: Seq<char>| version_parts(v)), vs.len(), true)[0]])
    }
}

/// `v` is within the optional bounds.
pub open spec fn fits(v: Seq<char>, min: Option<Seq<char>>, max: Option<Seq<char>>) -> bool {
    &&& (min matches Some(m) ==> at_least(v, m))
    &&& (max matches Some(m) ==> at_least(m, v))
}

/// The versions within the bounds, in their order.
pub open spec fn fitting(vs: Seq<Seq<char>>, min: Option<Seq<char>>, max: Option<Seq<char>>) -> Seq<Seq<char>>
    decreases vs.len(),
{
    if vs.len() == 0 {
        Seq::empty()
    } else {
        let rest = fitting(vs.drop_last(), min, max);
        if fits(vs.last(), min, max) {
            rest.push(vs.last())
        } else {
            rest
        }
    }
}

/// The version a PHP package installs: its name without `PHP-`, trimmed.
pub open spec fn package_php_version(name: Seq<char>) -> Seq<char> {
    trim(trim_start_str(name, "PHP-"@))
}

/// The PHP versions of the catalog that are within the bounds and can be
/// downloaded, in catalog order.
pub open spec fn catalog_php_versions(
    entries: Seq<PackageEntryView>,
    min: Option<Seq<char>>,
    max: Option<Seq<char>>,
) -> Seq<Seq<char>>
    decreases entries.len(),
{
    if entries.len() == 0 {
        Seq::empty()
    } else {
        let rest = catalog_php_versions(entries.drop_last(), min, max);
        let e = entries.last();
        if is_php_package(e.name) && fits(package_php_version(e.name), min, max) && trim(e.url).len()
            > 0 {
            rest.push(package_php_version(e.name))
        } else {
            rest
        }
    }
}

/// The PHP version used for a template when none was chosen: the highest
/// installed version within the template's bounds, else the highest such
/// version the catalog can download (when the catalog could be read).
pub open spec fn compatible_php(
    installed: Seq<Seq<char>>,
    catalog: Option<Seq<PackageEntryView>>,
    min: Option<Seq<char>>,
    max: Option<Seq<char>>,
) -> Option<Seq<char>> {
    match highest_first(fitting(installed, min, max)) {
        Some(v) => Some(v),
        None => match catalog {
            Some(entries) => highest_first(catalog_php_versions(entries, min, max)),
            None => None,
        },
    }
}

pub open spec fn opt_str_view(o: Option<&str>) -> Option<Seq<char>> {
    match o {
        Some(s) => Some(s@),
        None => None,
    }
}

pub open spec fn string_views(v: Seq<String>) -> Seq<Seq<char>> {
    v.map_values(|s: String| s@)
}

fn fits_exec(v: &str, min: Option<&str>, max: Option<&str>) -> (r: bool)
    ensures
        r == fits(v@, opt_str_view(min), opt_str_view(max)),
{
    let lo = match min {
        Some(m) => version_at_least(v, m),
        None => true,
    };
    let hi = match max {
        Some(m) => version_at_least(m, v),
        None => true,
    };
    lo && hi
}

/// The highest of some versions.
pub fn highest_version(vs: &Vec<String>) -> (r: Option<String>)
    ensures
        opt_view_string(r) == highest_first(string_views(vs@)),
{
    if vs.len() == 0 {
        return None;
    }
    let keys = version_keys(vs);
    assert(key_views(keys@) =~= string_views(vs@).map_values(|v: Seq<char>| version_parts(v)));
    let order = sorted_order(&keys, true);
    proof {
        crate::order::law_sort_order_permutation(key_views(keys@), true);
        assert(indices_view(order@)[0] == order@[0]);
    }
    Some(vs[order[0]].clone())
}

pub open spec fn opt_view_string(o: Option<String>) -> Option<Seq<char>> {
    match o {
        Some(s) => Some(s@),
        None => None,
    }
}

/// The PHP version to use for a template with the given bounds when the user
/// chose none. `installed` are the versions of the installed PHP runtimes;
/// `catalog` the component catalog, `None` when it could not be read.
pub fn resolve_compatible_php_version_range(
    installed: &Vec<String>,
    catalog: &Option<Vec<PackageEntry>>,
    minimum: Option<&str>,
    maximum: Option<&str>,
) -> (r: Option<String>)
    ensures
        opt_view_string(r) == compatible_php(
            string_views(installed@),
            match catalog {
                Some(c) => Some(package_views(c@)),
                None => None,
            },
            opt_str_view(minimum),
            opt_str_view(maximum),
        ),
{
    let ghost iv = string_views(installed@);
    let ghost lo = opt_str_view(minimum);
    let ghost hi = opt_str_view(maximum);
    let mut fit: Vec<String> = Vec::new();
    let mut i: usize = 0;
    while i < installed.len()
        invariant
            i <= installed.len(),
            iv == string_views(installed@),
            lo == opt_str_view(minimum),
            hi == opt_str_view(maximum),
            string_views(fit@) == fitting(iv.take(i as int), lo, hi),
        decreases installed.len() - i,
    {
        proof {
            assert(iv.take(i + 1).drop_last() =~= iv.take(i as int));
            assert(iv.take(i + 1).last() == installed@[i as int]@);
        }
        if fits_exec(installed[i].as_str(), minimum, maximum) {
            let ghost before = string_views(fit@);
            fit.push(installed[i].clone());
            assert(string_views(fit@) =~= before.push(installed@[i as int]@));
        }
        i += 1;
    }
    assert(iv.take(installed.len() as int) =~= iv);
    if let Some(v) = highest_version(&fit) {
        return Some(v);
    }
    match catalog {
        None => None,
        Some(entries) => {
            let ghost ev = package_views(entries@);
            let mut cands: Vec<String> = Vec::new();
            let mut j: usize = 0;
            while j < entries.len()
                invariant
                    j <= entries.len(),
                    ev == package_views(entries@),
                    lo == opt_str_view(minimum),
                    hi == opt_str_view(maximum),
                    string_views(cands@) == catalog_php_versions(ev.take(j as int), lo, hi),
                decreases entries.len() - j,
            {
                let e = &entries[j];
                proof {
                    assert(ev.take(j + 1).drop_last() =~= ev.take(j as int));
                    assert(ev.take(j + 1).last() == e@);
                }
                let name = chars_of(e.name.as_str());
                let lower = lower_text(&name);
                let version = trim_vec(&trim_start_lit(&name, "PHP-"));
                let vs = string_of(&version);
                let url = trim_vec(&chars_of(e.url.as_str()));
                if starts_with_str(&lower, "php-") && fits_exec(vs.as_str(), minimum, maximum) && url.len()
                    > 0 {
                    let ghost before = string_views(cands@);
                    cands.push(vs);
                    assert(string_views(cands@) =~= before.push(package_php_version(e.name@)));
                }
                j += 1;
            }
            assert(ev.take(entries.len() as int) =~= ev);
            highest_version(&cands)
        },
    }
}

/// The catalog package that installs PHP `version`: the first PHP package
/// whose version starts with it.
pub open spec fn php_package_index(entries: Seq<PackageEntryView>, version: Seq<char>) -> Option<int>
    decreases entries.len(),
{
    if entries.len() == 0 {
        None
    } else if is_php_package(entries[0].name) && starts_with(
        trim_start_str(entries[0].name, "PHP-"@),
        version,
    ) {
        Some(0)
    } else {
        match php_package_index(entries.drop_first(), version) {
            Some(i) => Some(i + 1),
            None => None,
        }
    }
}

/// The position in the catalog of the package that installs PHP `version`,
/// or the error given when there is none.
pub fn php_package_for_version(entries: &Vec<PackageEntry>, version: &str) -> (r: Result<usize, String>)
    ensures
        match php_package_index(package_views(entries@), version@) {
            Some(i) => r == Ok::<usize, String>(i as usize),
            None => r matches Err(e) && e@ == "PHP "@ + version@ + " não está no catálogo de pacotes."@,
        },
{
    let ghost ev = package_views(entries@);
    let mut i: usize = 0;
    assert(ev.skip(0) =~= ev);
    while i < entries.len()
        invariant
            i <= entries.len(),
            ev == package_views(entries@),
            php_package_index(ev, version@) == match php_package_index(ev.skip(i as int), version@) {
                Some(k) => Some(k + i),
                None => None::<int>,
            },
        decreases entries.len() - i,
    {
        let name = chars_of(entries[i].name.as_str());
        let lower = lower_text(&name);
        let rest = trim_start_lit(&name, "PHP-");
        let v = chars_of(version);
        let found = starts_with_str(&lower, "php-") && crate::text::starts_with_exec(&rest, &v);
        proof {
            assert(ev.skip(i as int)[0] == entries@[i as int]@);
            assert(ev.skip(i as int).drop_first() =~= ev.skip(i + 1));
        }
        if found {
            return Ok(i);
        }
        i += 1;
    }
    let mut m = chars_of("PHP ");
    push_str(&mut m, version);
    push_str(&mut m, " não está no catálogo de pacotes.");
    Err(string_of(&m))
}


/// The highest version of a non-empty list is one of them and at least each of them.
pub proof fn law_highest_first_is_highest(vs: Seq<Seq<char>>)
    requires
        vs.len() > 0,
    ensures
        highest_first(vs) matches Some(h) && vs.contains(h) && forall|i: int|
            0 <= i < vs.len() ==> at_least(h, vs[i]),
{
    let keys = vs.map_values(|v: Seq<char>| version_parts(v));
    crate::order::law_sort_order_permutation(keys, true);
    crate::order::law_sort_order_sorted(keys, true);
    let o = sort_order(keys, vs.len(), true);
    let h = vs[o[0]];
    assert(0 <= o[0] < vs.len());
    assert(vs[o[0]] == h);
    assert forall|i: int| 0 <= i < vs.len() implies at_least(h, vs[i]) by {
        assert(o.contains(i));
        let j = choose|j: int| 0 <= j < o.len() && o[j] == i;
        if j == 0 {
            crate::version::law_version_at_least_reflexive(h);
        } else {
            assert(!crate::order::goes_after(keys[o[0]], keys[o[j]], true));
            assert(keys[o[j]] == version_parts(vs[i]));
            assert(keys[o[0]] == version_parts(h));
            crate::version::law_listed_first_is_at_least(h, vs[i]);
        }
    }
}

/// The runtimes install where their services and listings look: a package
/// whose lowercased name starts with `php-`, `apache` or `mysql` goes into
/// `bin/php`, `bin/apache` or `bin/mysql` under the root, in the folder
/// its archive names.
pub proof fn law_runtime_packages_install_under_their_kind(root: Seq<char>, name: Seq<char>, url: Seq<char>)
    ensures
        starts_with(ascii_lower(name), "php-"@) ==> package_target(root, name, url) == path_join(
            path_join(path_join(root, "bin"@), "php"@),
            package_folder(name, url),
        ),
        starts_with(ascii_lower(name), "apache"@) ==> package_target(root, name, url) == path_join(
            path_join(path_join(root, "bin"@), "apache"@),
            package_folder(name, url),
        ),
        starts_with(ascii_lower(name), "mysql"@) ==> package_target(root, name, url) == path_join(
            path_join(path_join(root, "bin"@), "mysql"@),
            package_folder(name, url),
        ),
{
    reveal_strlit("php-");
    reveal_strlit("apache");
    reveal_strlit("mysql");
    let lower = ascii_lower(name);
    if starts_with(lower, "apache"@) {
        assert(lower.take(6)[0] == 'a');
        assert(lower[0] == 'a');
        assert(!starts_with(lower, "php-"@)) by {
            if starts_with(lower, "php-"@) {
                assert(lower.take(4)[0] == 'p');
            }
        }
    }
    if starts_with(lower, "mysql"@) {
        assert(lower.take(5)[0] == 'm');
        assert(lower[0] == 'm');
        assert(!starts_with(lower, "php-"@)) by {
            if starts_with(lower, "php-"@) {
                assert(lower.take(4)[0] == 'p');
            }
        }
        assert(!starts_with(lower, "apache"@)) by {
            if starts_with(lower, "apache"@) {
                assert(lower.take(6)[0] == 'a');
            }
        }
    }
}

/// The runtimes a package installs are where the services look: a
/// MySQL package is where the MySQL service looks when it is the only
/// runtime installed, and the same holds of Apache.
pub proof fn law_installed_runtime_is_the_service_folder(
    cfg: crate::config::AppConfigView,
    name: Seq<char>,
    url: Seq<char>,
)
    ensures
        starts_with(ascii_lower(name), "mysql"@) ==> crate::services::mysql_spec(cfg, seq![package_folder(name, url)]).work_dir
            == package_target(cfg.root_dir, name, url),
        starts_with(ascii_lower(name), "apache"@) ==> crate::services::apache_spec(cfg, seq![package_folder(name, url)]).work_dir
            == package_target(cfg.root_dir, name, url),
{
    law_runtime_packages_install_under_their_kind(cfg.root_dir, name, url);
    let one = seq![package_folder(name, url)];
    crate::runtime::law_greatest_name_is_greatest(one);
    assert(one.contains(crate::runtime::greatest_name(one)->0));
}

/// An installed PHP that fits the template's bounds is preferred to the
/// catalog: when one fits, the version chosen is installed, fits, and is at
/// least every installed version that fits, whatever the catalog holds.
pub proof fn law_installed_php_is_preferred(
    installed: Seq<Seq<char>>,
    catalog: Option<Seq<PackageEntryView>>,
    min: Option<Seq<char>>,
    max: Option<Seq<char>>,
    k: int,
)
    requires
        0 <= k < installed.len(),
        fits(installed[k], min, max),
    ensures
        compatible_php(installed, catalog, min, max) matches Some(v) && installed.contains(v) && fits(v, min, max)
            && forall|j: int| 0 <= j < installed.len() && fits(installed[j], min, max) ==> at_least(v, installed[j]),
{
    lemma_fitting(installed, min, max);
    lemma_fitting_members(installed, min, max);
    let f = fitting(installed, min, max);
    assert(f.contains(installed[k]));
    law_highest_first_is_highest(f);
    let v = highest_first(f)->0;
    let i = choose|i: int| 0 <= i < f.len() && f[i] == v;
    assert(installed.contains(f[i]));
    assert forall|j: int| 0 <= j < installed.len() && fits(installed[j], min, max) implies at_least(v, installed[j]) by {
        assert(f.contains(installed[j]));
        let m = choose|m: int| 0 <= m < f.len() && f[m] == installed[j];
        assert(at_least(v, f[m]));
    }
}

/// The versions that fit are exactly the listed ones within the bounds.
proof fn lemma_fitting_members(vs: Seq<Seq<char>>, min: Option<Seq<char>>, max: Option<Seq<char>>)
    ensures
        forall|i: int| 0 <= i < fitting(vs, min, max).len() ==> vs.contains(#[trigger] fitting(vs, min, max)[i]),
        forall|j: int| 0 <= j < vs.len() && fits(#[trigger] vs[j], min, max) ==> fitting(vs, min, max).contains(vs[j]),
    decreases vs.len(),
{
    if vs.len() > 0 {
        let d = vs.drop_last();
        lemma_fitting_members(d, min, max);
        let rest = fitting(d, min, max);
        let f = fitting(vs, min, max);
        assert forall|i: int| 0 <= i < f.len() implies vs.contains(#[trigger] f[i]) by {
            if i < rest.len() {
                assert(f[i] == rest[i]);
                let j = choose|j: int| 0 <= j < d.len() && d[j] == rest[i];
                assert(vs[j] == d[j]);
            } else {
                assert(f[i] == vs[vs.len() - 1]);
            }
        }
        assert forall|j: int| 0 <= j < vs.len() && fits(#[trigger] vs[j], min, max) implies f.contains(vs[j]) by {
            if j < vs.len() - 1 {
                assert(d[j] == vs[j]);
                assert(rest.contains(d[j]));
                let m = choose|m: int| 0 <= m < rest.len() && rest[m] == d[j];
                assert(f[m] == rest[m]);
            } else {
                assert(f[f.len() - 1] == vs[j]);
            }
        }
    }
}

/// A version chosen for a template lies within the template's bounds.
pub proof fn law_compatible_php_fits(
    installed: Seq<Seq<char>>,
    catalog: Option<Seq<PackageEntryView>>,
    min: Option<Seq<char>>,
    max: Option<Seq<char>>,
)
    ensures
        compatible_php(installed, catalog, min, max) matches Some(v) ==> fits(v, min, max),
{
    lemma_fitting(installed, min, max);
    let f = fitting(installed, min, max);
    if f.len() > 0 {
        law_highest_first_is_highest(f);
    } else if let Some(entries) = catalog {
        lemma_catalog_fits(entries, min, max);
        let c = catalog_php_versions(entries, min, max);
        if c.len() > 0 {
            law_highest_first_is_highest(c);
        }
    }
}

proof fn lemma_fitting(vs: Seq<Seq<char>>, min: Option<Seq<char>>, max: Option<Seq<char>>)
    ensures
        forall|i: int| 0 <= i < fitting(vs, min, max).len() ==> fits(#[trigger] fitting(vs, min, max)[i], min, max),
    decreases vs.len(),
{
    if vs.len() > 0 {
        lemma_fitting(vs.drop_last(), min, max);
        let rest = fitting(vs.drop_last(), min, max);
        let f = fitting(vs, min, max);
        assert forall|i: int| 0 <= i < f.len() implies fits(#[trigger] f[i], min, max) by {
            if i < rest.len() {
                assert(f[i] == rest[i]);
            }
        }
    }
}

proof fn lemma_catalog_fits(entries: Seq<PackageEntryView>, min: Option<Seq<char>>, max: Option<Seq<char>>)
    ensures
        forall|i: int| 0 <= i < catalog_php_versions(entries, min, max).len() ==> fits(
            #[trigger] catalog_php_versions(entries, min, max)[i],
            min,
            max,
        ),
    decreases entries.len(),
{
    if entries.len() > 0 {
        lemma_catalog_fits(entries.drop_last(), min, max);
        let rest = catalog_php_versions(entries.drop_last(), min, max);
        let f = catalog_php_versions(entries, min, max);
        assert forall|i: int| 0 <= i < f.len() implies fits(#[trigger] f[i], min, max) by {
            if i < rest.len() {
                assert(f[i] == rest[i]);
            }
        }
    }
}


// ---------------------------------------------------------------------------
// Listing and flattening installed packages
// ---------------------------------------------------------------------------

/// The catalog entries as listed: each with its install folder shown and
/// whether it is installed (`probes[i]`: what the folder of the `i`-th entry holds).
pub open spec fn listed_entry(root: Seq<char>, e: PackageEntryView, p: Option<InstallProbe>) -> PackageEntryView {
    PackageEntryView {
        install_dir: display(package_target(root, e.name, e.url)),
        installed: match p {
            Some(q) => installed(e.name, q),
            None => false,
        },
        ..e
    }
}

/// The package listing: each catalog entry with its install folder and
/// whether it is installed (an entry without probe counts as not installed).
pub fn package_listing(root: &str, entries: Vec<PackageEntry>, probes: &Vec<InstallProbe>) -> (r: Vec<PackageEntry>)
    ensures
        r@.len() == entries@.len(),
        forall|i: int| 0 <= i < r@.len() ==> (#[trigger] r@[i])@ == listed_entry(
            root@,
            entries@[i]@,
            if i < probes@.len() {
                Some(probes@[i])
            } else {
                None
            },
        ),
{
    let ghost orig = entries@;
    let mut out: Vec<PackageEntry> = Vec::new();
    let mut i: usize = 0;
    while i < entries.len()
        invariant
            i <= entries.len(),
            entries@ == orig,
            out@.len() == i,
            forall|k: int| 0 <= k < i ==> (#[trigger] out@[k])@ == listed_entry(
                root@,
                orig[k]@,
                if k < probes@.len() {
                    Some(probes@[k])
                } else {
                    None
                },
            ),
        decreases entries.len() - i,
    {
        let e = &entries[i];
        let target = package_target_dir(root, e.name.as_str(), e.category.as_str(), e.url.as_str());
        let inst = if i < probes.len() {
            package_is_installed(e.name.as_str(), &probes[i])
        } else {
            false
        };
        out.push(PackageEntry {
            name: e.name.clone(),
            url: e.url.clone(),
            category: e.category.clone(),
            preferred: e.preferred,
            install_dir: display_path(target.as_str()),
            installed: inst,
        });
        i += 1;
    }
    out
}

/// The copy (from, to) that lifts the contents of `target/child` into
/// `target`, when that child is a folder (`child_is_dir`); Apache archives
/// keep their files in `Apache24`.
pub fn flatten_named_child(target: &str, child_name: &str, child_is_dir: bool) -> (r: Option<(String, String)>)
    ensures
        child_is_dir ==> (r matches Some((from, to)) && from@ == path_join(target@, child_name@) && to@ == target@),
        !child_is_dir ==> r is None,
{
    if child_is_dir {
        Some((join_path(target, child_name), target.to_owned()))
    } else {
        None
    }
}

/// The copy (from, to) that lifts the contents of the only entry of
/// `target` into it, when that entry is a folder (`entries`: the names in
/// `target`, each with whether it is a folder).
pub fn flatten_single_directory(target: &str, entries: &Vec<(String, bool)>) -> (r: Option<(String, String)>)
    ensures
        (entries.len() == 1 && entries@[0].1) ==> (r matches Some((from, to)) && from@ == path_join(
            target@,
            entries@[0].0@,
        ) && to@ == target@),
        !(entries.len() == 1 && entries@[0].1) ==> r is None,
{
    if entries.len() == 1 && entries[0].1 {
        Some((join_path(target, entries[0].0.as_str()), target.to_owned()))
    } else {
        None
    }
}

/// The error when PHP was installed but no runtime folder serves it.
pub fn php_install_not_found(version: &str) -> (r: String)
    ensures
        r@ == "PHP "@ + version@ + " foi instalado, mas não foi localizado em bin/php."@,
{
    let mut m = chars_of("PHP ");
    push_str(&mut m, version);
    push_str(&mut m, " foi instalado, mas não foi localizado em bin/php.");
    string_of(&m)
}

/// The error when PHP was installed but does not run.
pub fn php_install_broken(version: &str, error: &str) -> (r: String)
    ensures
        r@ == "PHP "@ + version@ + " foi instalado, mas não executa: "@ + error@,
{
    let mut m = chars_of("PHP ");
    push_str(&mut m, version);
    push_str(&mut m, " foi instalado, mas não executa: ");
    push_str(&mut m, error);
    string_of(&m)
}

} // verus!
