//! The portable tools (Cmder, Notepad++, HeidiSQL, ngrok): where each one's
//! archive and program are, where it may be downloaded from, and the
//! decisions of installing and opening it.

use vstd::prelude::*;
use crate::text::{chars_of, eq_ignore_case, eq_ignore_case_exec, push_str, string_of, text_eq};
use crate::naming::{slug, slugify};
use crate::paths::{display, display_path, extension, join_path, path_extension, path_join};
use crate::catalog::{PackageEntry, PackageEntryView, package_views};
use crate::config::{ActionResult, ActionResultView, coded_result, param_views};

verus! {

// ---------------------------------------------------------------------------
// Download sources from the catalog
// ---------------------------------------------------------------------------

/// The download source of each catalog entry, keyed by the slug of its name.
pub open spec fn source_pairs(entries: Seq<PackageEntryView>) -> Seq<(Seq<char>, Seq<char>)> {
    entries.map_values(|e: PackageEntryView| (slug(e.name), e.url))
}

/// The source recorded last under `key` (a later entry replaces an earlier one).
pub open spec fn lookup(pairs: Seq<(Seq<char>, Seq<char>)>, key: Seq<char>) -> Option<Seq<char>>
    decreases pairs.len(),
{
    if pairs.len() == 0 {
        None
    } else if pairs.last().0 == key {
        Some(pairs.last().1)
    } else {
        lookup(pairs.drop_last(), key)
    }
}

pub open spec fn pair_views(v: Seq<(String, String)>) -> Seq<(Seq<char>, Seq<char>)> {
    v.map_values(|p: (String, String)| (p.0@, p.1@))
}

/// The download sources of the tools: for each catalog entry, the slug of its
/// name and its URL, in catalog order.
pub fn tool_source_urls(entries: &Vec<PackageEntry>) -> (r: Vec<(String, String)>)
    ensures
        pair_views(r@) == source_pairs(package_views(entries@)),
{
    let ghost ev = package_views(entries@);
    let mut r: Vec<(String, String)> = Vec::new();
    let mut i: usize = 0;
    while i < entries.len()
        invariant
            i <= entries.len(),
            ev == package_views(entries@),
            pair_views(r@) == source_pairs(ev.take(i as int)),
        decreases entries.len() - i,
    {
        let ghost before = pair_views(r@);
        assert(ev[i as int] == entries@[i as int]@);
        assert(source_pairs(ev.take(i + 1)) =~= source_pairs(ev.take(i as int)).push((slug(ev[i as int].name), ev[i as int].url)));
        r.push((slugify(entries[i].name.as_str()), entries[i].url.clone()));
        assert(pair_views(r@) =~= before.push((slug(ev[i as int].name), ev[i as int].url)));
        i += 1;
    }
    assert(ev.take(entries.len() as int) =~= ev);
    r
}

/// The source recorded last under `key`.
pub fn lookup_url(pairs: &Vec<(String, String)>, key: &str) -> (r: Option<String>)
    ensures
        match lookup(pair_views(pairs@), key@) {
            Some(u) => r matches Some(s) && s@ == u,
            None => r is None,
        },
{
    let ghost pv = pair_views(pairs@);
    let k = chars_of(key);
    let mut i: usize = pairs.len();
    assert(pv.take(pairs.len() as int) =~= pv);
    while i > 0
        invariant
            i <= pairs.len(),
            pv == pair_views(pairs@),
            k@ == key@,
            lookup(pv, key@) == lookup(pv.take(i as int), key@),
        decreases i,
    {
        proof {
            assert(pv.take(i as int).drop_last() =~= pv.take(i - 1));
            assert(pv.take(i as int).last() == (pairs@[i - 1].0@, pairs@[i - 1].1@));
        }
        if text_eq(&chars_of(pairs[i - 1].0.as_str()), &k) {
            return Some(pairs[i - 1].1.clone());
        }
        i -= 1;
    }
    None
}

// ---------------------------------------------------------------------------
// The tools
// ---------------------------------------------------------------------------

/// A portable tool.
pub struct ToolSpec {
    pub id: String,
    pub name: String,
    pub kind: String,
    /// Its archive in the dependencies folder.
    pub source_path: String,
    /// Where it may be downloaded from, when the catalog says.
    pub source_url: Option<String>,
    pub install_path: String,
    pub executable_path: String,
}

pub struct ToolSpecView {
    pub id: Seq<char>,
    pub name: Seq<char>,
    pub kind: Seq<char>,
    pub source_path: Seq<char>,
    pub source_url: Option<Seq<char>>,
    pub install_path: Seq<char>,
    pub executable_path: Seq<char>,
}

pub open spec fn opt_seq(o: Option<String>) -> Option<Seq<char>> {
    match o {
        Some(s) => Some(s@),
        None => None,
    }
}

impl View for ToolSpec {
    type V = ToolSpecView;

    open spec fn view(&self) -> ToolSpecView {
        ToolSpecView {
            id: self.id@,
            name: self.name@,
            kind: self.kind@,
            source_path: self.source_path@,
            source_url: opt_seq(self.source_url),
            install_path: self.install_path@,
            executable_path: self.executable_path@,
        }
    }
}

pub open spec fn tool_views(v: Seq<ToolSpec>) -> Seq<ToolSpecView> {
    v.map_values(|t: ToolSpec| t@)
}

/// A tool installed in `bin/<id>` from `deps/<archive>`.
pub open spec fn tool(
    root: Seq<char>,
    deps: Seq<char>,
    id: Seq<char>,
    name: Seq<char>,
    kind: Seq<char>,
    archive: Seq<char>,
    url: Option<Seq<char>>,
    program: Seq<char>,
) -> ToolSpecView {
    let install = path_join(path_join(root, "bin"@), id);
    ToolSpecView {
        id,
        name,
        kind,
        source_path: path_join(deps, archive),
        source_url: url,
        install_path: install,
        executable_path: path_join(install, program),
    }
}

/// The four tools, their archives taken from `deps` and their download
/// sources from the catalog (Cmder, Notepad++ under `notepad`, HeidiSQL; ngrok has none).
pub open spec fn tools(root: Seq<char>, deps: Seq<char>, urls: Seq<(Seq<char>, Seq<char>)>) -> Seq<ToolSpecView> {
    seq![
        tool(root, deps, "cmder"@, "Cmder"@, "Terminal"@, "cmder.zip"@, lookup(urls, "cmder"@), "Cmder.exe"@),
        tool(root, deps, "notepadpp"@, "Notepad++"@, "Editor"@, "npp.8.9.6.portable.x64.zip"@, lookup(urls, "notepad"@), "notepad++.exe"@),
        tool(root, deps, "heidisql"@, "HeidiSQL"@, "Banco de dados"@, "HeidiSQL_12.17_64_Portable.zip"@, lookup(urls, "heidisql"@), "heidisql.exe"@),
        tool(root, deps, "ngrok"@, "ngrok"@, "Tunel"@, "ngrok-v3-stable-windows-amd64.zip"@, None, "ngrok.exe"@),
    ]
}

fn make_tool(root: &str, deps: &str, id: &str, name: &str, kind: &str, archive: &str, url: Option<String>, program: &str) -> (r: ToolSpec)
    ensures
        r@ == tool(root@, deps@, id@, name@, kind@, archive@, opt_seq(url), program@),
{
    let bin = join_path(root, "bin");
    let install = join_path(bin.as_str(), id);
    ToolSpec {
        id: id.to_owned(),
        name: name.to_owned(),
        kind: kind.to_owned(),
        source_path: join_path(deps, archive),
        source_url: url,
        executable_path: join_path(install.as_str(), program),
        install_path: install,
    }
}

/// The tools of a root, their archives taken from `deps` and their download
/// sources from `urls` (see `tool_source_urls`).
pub fn tool_specs_with_deps(root: &str, deps: &str, urls: &Vec<(String, String)>) -> (r: Vec<ToolSpec>)
    ensures
        tool_views(r@) == tools(root@, deps@, pair_views(urls@)),
{
    let mut r: Vec<ToolSpec> = Vec::new();
    r.push(make_tool(root, deps, "cmder", "Cmder", "Terminal", "cmder.zip", lookup_url(urls, "cmder"), "Cmder.exe"));
    r.push(make_tool(root, deps, "notepadpp", "Notepad++", "Editor", "npp.8.9.6.portable.x64.zip", lookup_url(urls, "notepad"), "notepad++.exe"));
    r.push(make_tool(root, deps, "heidisql", "HeidiSQL", "Banco de dados", "HeidiSQL_12.17_64_Portable.zip", lookup_url(urls, "heidisql"), "heidisql.exe"));
    r.push(make_tool(root, deps, "ngrok", "ngrok", "Tunel", "ngrok-v3-stable-windows-amd64.zip", None, "ngrok.exe"));
    assert(tool_views(r@) =~= tools(root@, deps@, pair_views(urls@)));
    r
}

/// The tools of a root with their archives in its own `dependencias` folder.
pub fn tool_specs(root: &str, urls: &Vec<(String, String)>) -> (r: Vec<ToolSpec>)
    ensures
        tool_views(r@) == tools(root@, path_join(root@, "dependencias"@), pair_views(urls@)),
{
    let deps = join_path(root, "dependencias");
    tool_specs_with_deps(root, deps.as_str(), urls)
}

/// The folder the tool archives are taken from: the root's own
/// `dependencias` when it exists, else the bundled one when it exists, else
/// the one of the workspace.
pub fn dependency_root(root: &str, workspace: &str, resource_dir: Option<&str>, local_exists: bool, bundled_exists: bool) -> (r: String)
    ensures
        local_exists ==> r@ == path_join(root@, "dependencias"@),
        !local_exists && resource_dir is Some && bundled_exists ==> r@ == path_join(resource_dir->0@, "dependencias"@),
        !local_exists && !(resource_dir is Some && bundled_exists) ==> r@ == path_join(workspace@, "dependencias"@),
{
    if local_exists {
        return join_path(root, "dependencias");
    }
    match resource_dir {
        Some(d) => {
            if bundled_exists {
                return join_path(d, "dependencias");
            }
        },
        None => {},
    }
    join_path(workspace, "dependencias")
}

/// The index of the first tool from `i` on with this id whose flag is set.
pub open spec fn first_tool(ts: Seq<ToolSpecView>, id: Seq<char>, present: Seq<bool>, i: int) -> Option<int>
    decreases ts.len() - i,
{
    if i < 0 || i >= ts.len() {
        None
    } else if ts[i].id == id && i < present.len() && present[i] {
        Some(i)
    } else {
        first_tool(ts, id, present, i + 1)
    }
}

/// The program of the installed tool `id`, if it is installed
/// (`present[i]`: the program of the `i`-th of `tool_specs` exists).
pub fn tool_executable(root: &str, id: &str, present: &Vec<bool>) -> (r: Option<String>)
    ensures
        match first_tool(tools(root@, path_join(root@, "dependencias"@), Seq::empty()), id@, present@, 0) {
            Some(i) => r matches Some(p) && p@ == tools(root@, path_join(root@, "dependencias"@), Seq::empty())[i].executable_path,
            None => r is None,
        },
{
    let urls: Vec<(String, String)> = Vec::new();
    assert(pair_views(urls@) =~= Seq::<(Seq<char>, Seq<char>)>::empty());
    let specs = tool_specs(root, &urls);
    let ghost ts = tool_views(specs@);
    let k = chars_of(id);
    let mut i: usize = 0;
    while i < specs.len()
        invariant
            i <= specs.len(),
            ts == tool_views(specs@),
            ts == tools(root@, path_join(root@, "dependencias"@), Seq::empty()),
            k@ == id@,
            first_tool(ts, id@, present@, 0) == first_tool(ts, id@, present@, i as int),
        decreases specs.len() - i,
    {
        assert(ts[i as int] == specs@[i as int]@);
        let hit = text_eq(&chars_of(specs[i].id.as_str()), &k) && i < present.len() && present[i];
        if hit {
            return Some(specs[i].executable_path.clone());
        }
        i += 1;
    }
    None
}

// ---------------------------------------------------------------------------
// Installing and opening a tool
// ---------------------------------------------------------------------------

/// The archive is a zip file (its extension is `zip` in any case).
pub open spec fn is_zip_archive(path: Seq<char>) -> bool {
    match extension(path) {
        Some(e) => eq_ignore_case(e, "zip"@),
        None => false,
    }
}

fn is_zip_exec(path: &str) -> (r: bool)
    ensures
        r == is_zip_archive(path@),
{
    match path_extension(path) {
        Some(e) => eq_ignore_case_exec(&chars_of(e.as_str()), &chars_of("zip")),
        None => false,
    }
}

pub open spec fn unit_view(r: Result<(), String>) -> Result<(), Seq<char>> {
    match r {
        Ok(_) => Ok(()),
        Err(e) => Err(e@),
    }
}

/// HeidiSQL is installed only from its portable zip, kept apart from any
/// system installation: the archive must exist and be a zip.
pub open spec fn heidisql_check(source: Seq<char>, source_exists: bool) -> Result<(), Seq<char>> {
    if !source_exists {
        Err("Dependência não encontrada: "@ + display(source))
    } else if is_zip_archive(source) {
        Ok(())
    } else {
        Err("Use a versão portable do HeidiSQL em dependencias para manter isolamento."@)
    }
}

/// Whether HeidiSQL can be installed from its archive (then it is extracted
/// into its install folder and flattened), or why not.
pub fn install_heidisql_isolated(spec: &ToolSpec, source_exists: bool) -> (r: Result<(), String>)
    ensures
        unit_view(r) == heidisql_check(spec@.source_path, source_exists),
{
    if !source_exists {
        let shown = display_path(spec.source_path.as_str());
        let mut m = chars_of("Dependência não encontrada: ");
        push_str(&mut m, shown.as_str());
        return Err(string_of(&m));
    }
    if is_zip_exec(spec.source_path.as_str()) {
        Ok(())
    } else {
        Err("Use a versão portable do HeidiSQL em dependencias para manter isolamento.".to_owned())
    }
}

/// The position of the tool with this id.
pub fn find_tool(specs: &Vec<ToolSpec>, id: &str) -> (r: Result<usize, String>)
    ensures
        match r {
            Ok(i) => i < specs.len() && specs@[i as int]@.id == id@ && forall|k: int| 0 <= k < i ==> specs@[k]@.id != id@,
            Err(e) => e@ == "Ferramenta desconhecida."@ && forall|k: int| 0 <= k < specs.len() ==> specs@[k]@.id != id@,
        },
{
    let k = chars_of(id);
    let mut i: usize = 0;
    while i < specs.len()
        invariant
            i <= specs.len(),
            k@ == id@,
            forall|j: int| 0 <= j < i ==> specs@[j]@.id != id@,
        decreases specs.len() - i,
    {
        if text_eq(&chars_of(specs[i].id.as_str()), &k) {
            return Ok(i);
        }
        i += 1;
    }
    Err("Ferramenta desconhecida.".to_owned())
}

/// How a tool's archive is put in place.
#[derive(PartialEq, Eq, Structural, Clone, Copy)]
pub enum ToolMethod {
    /// The HeidiSQL way (see `install_heidisql_isolated`).
    Heidisql,
    /// Extracted and flattened.
    Zip,
    /// Copied as is.
    Copy,
}

/// How a tool is installed.
pub struct ToolInstall {
    /// Download the archive from this URL first.
    pub download: Option<String>,
    /// Remove the existing installation first.
    pub reinstall: bool,
    pub method: ToolMethod,
}

/// The plan of installing a tool: a missing archive is downloaded when the
/// catalog has a source, else the install is refused; an installed tool is
/// removed first; HeidiSQL has its own way, zip archives are extracted, other
/// files are copied.
pub open spec fn tool_plan(t: ToolSpecView, source_exists: bool, executable_exists: bool) -> Result<(Option<Seq<char>>, bool, ToolMethod), Seq<char>> {
    if !source_exists && t.source_url is None {
        Err("Dependência não encontrada: "@ + display(t.source_path))
    } else {
        Ok((
            if source_exists {
                None
            } else {
                t.source_url
            },
            executable_exists,
            if t.id == "heidisql"@ {
                ToolMethod::Heidisql
            } else if is_zip_archive(t.source_path) {
                ToolMethod::Zip
            } else {
                ToolMethod::Copy
            },
        ))
    }
}

/// The plan of installing a tool (see `tool_plan`).
pub fn tool_install_plan(spec: &ToolSpec, source_exists: bool, executable_exists: bool) -> (r: Result<ToolInstall, String>)
    ensures
        match (r, tool_plan(spec@, source_exists, executable_exists)) {
            (Ok(p), Ok((d, re, m))) => opt_seq(p.download) == d && p.reinstall == re && p.method == m,
            (Err(a), Err(b)) => a@ == b,
            _ => false,
        },
{
    let download = if source_exists {
        None
    } else {
        match &spec.source_url {
            Some(u) => Some(u.clone()),
            None => {
                let shown = display_path(spec.source_path.as_str());
                let mut m = chars_of("Dependência não encontrada: ");
                push_str(&mut m, shown.as_str());
                return Err(string_of(&m));
            },
        }
    };
    let method = if text_eq(&chars_of(spec.id.as_str()), &chars_of("heidisql")) {
        ToolMethod::Heidisql
    } else if is_zip_exec(spec.source_path.as_str()) {
        ToolMethod::Zip
    } else {
        ToolMethod::Copy
    };
    Ok(ToolInstall { download, reinstall: executable_exists, method })
}

/// The error when an installed tool could not be removed for reinstalling.
pub fn tool_update_error(name: &str, error: &str) -> (r: String)
    ensures
        r@ == "Não foi possível atualizar "@ + name@ + ". Feche a ferramenta se ela estiver aberta: "@ + error@,
{
    let mut m = chars_of("Não foi possível atualizar ");
    push_str(&mut m, name);
    push_str(&mut m, ". Feche a ferramenta se ela estiver aberta: ");
    push_str(&mut m, error);
    string_of(&m)
}

/// The reply once a tool is installed.
pub fn tool_installed_result(spec: &ToolSpec) -> (r: ActionResult)
    ensures
        r@ == coded_result(
            true,
            "tool.installed"@,
            spec@.name + " instalado em "@ + display(spec@.install_path) + "."@,
            seq![("tool"@, spec@.name), ("path"@, display(spec@.install_path))],
        ),
{
    let shown = display_path(spec.install_path.as_str());
    let mut m = chars_of(spec.name.as_str());
    push_str(&mut m, " instalado em ");
    push_str(&mut m, shown.as_str());
    push_str(&mut m, ".");
    let mut params: Vec<(&str, String)> = Vec::new();
    params.push(("tool", spec.name.clone()));
    params.push(("path", shown.clone()));
    let r = ActionResult::coded(true, "tool.installed", string_of(&m), params);
    assert(param_views(params@) =~= seq![("tool"@, spec@.name), ("path"@, display(spec@.install_path))]);
    proof {
        reveal_strlit("tool");
        reveal_strlit("path");
        assert("tool"@[0] != "path"@[0]);
        crate::config::lemma_distinct_keys2(("tool"@, spec@.name), ("path"@, display(spec@.install_path)));
    }
    r
}

/// The reply to opening a tool, which must be installed.
pub fn launch_tool_check(spec: &ToolSpec, executable_exists: bool) -> (r: Result<ActionResult, String>)
    ensures
        !executable_exists ==> (r matches Err(e) && e@ == spec@.name + " ainda não está instalado. Use instalar primeiro."@),
        executable_exists ==> (r matches Ok(a) && a@ == coded_result(
            true,
            "tool.opened"@,
            spec@.name + " aberto."@,
            seq![("tool"@, spec@.name)],
        )),
{
    if !executable_exists {
        let mut m = chars_of(spec.name.as_str());
        push_str(&mut m, " ainda não está instalado. Use instalar primeiro.");
        return Err(string_of(&m));
    }
    let mut m = chars_of(spec.name.as_str());
    push_str(&mut m, " aberto.");
    let mut params: Vec<(&str, String)> = Vec::new();
    params.push(("tool", spec.name.clone()));
    let r = ActionResult::coded(true, "tool.opened", string_of(&m), params);
    assert(param_views(params@) =~= seq![("tool"@, spec@.name)]);
    Ok(r)
}

/// A tool as the interface lists it.
pub struct ToolInfo {
    pub id: String,
    pub name: String,
    pub kind: String,
    pub source_path: String,
    pub install_path: String,
    pub installed: bool,
    pub available_source: bool,
}

pub struct ToolInfoView {
    pub id: Seq<char>,
    pub name: Seq<char>,
    pub kind: Seq<char>,
    pub source_path: Seq<char>,
    pub install_path: Seq<char>,
    pub installed: bool,
    pub available_source: bool,
}

impl View for ToolInfo {
    type V = ToolInfoView;

    open spec fn view(&self) -> ToolInfoView {
        ToolInfoView {
            id: self.id@,
            name: self.name@,
            kind: self.kind@,
            source_path: self.source_path@,
            install_path: self.install_path@,
            installed: self.installed,
            available_source: self.available_source,
        }
    }
}

/// The listing of a tool: installed when its program exists; its source is
/// available when its archive exists or the catalog has a download.
pub fn tool_info(spec: &ToolSpec, executable_exists: bool, source_exists: bool) -> (r: ToolInfo)
    ensures
        r@ == (ToolInfoView {
            id: spec@.id,
            name: spec@.name,
            kind: spec@.kind,
            source_path: display(spec@.source_path),
            install_path: display(spec@.install_path),
            installed: executable_exists,
            available_source: source_exists || spec@.source_url is Some,
        }),
{
    ToolInfo {
        id: spec.id.clone(),
        name: spec.name.clone(),
        kind: spec.kind.clone(),
        source_path: display_path(spec.source_path.as_str()),
        install_path: display_path(spec.install_path.as_str()),
        installed: executable_exists,
        available_source: source_exists || spec.source_url.is_some(),
    }
}

/// The log line after preparing a bundled tool at start-up.
pub fn bundled_tool_log(name: &str, outcome: &Result<(), String>) -> (r: String)
    ensures
        outcome is Ok ==> r@ == "Tool prepared in bin: "@ + name@,
        outcome matches Err(e) ==> r@ == "Failed to prepare "@ + name@ + ": "@ + e@,
{
    match outcome {
        Ok(_) => {
            let mut m = chars_of("Tool prepared in bin: ");
            push_str(&mut m, name);
            string_of(&m)
        },
        Err(e) => {
            let mut m = chars_of("Failed to prepare ");
            push_str(&mut m, name);
            push_str(&mut m, ": ");
            push_str(&mut m, e.as_str());
            string_of(&m)
        },
    }
}


/// The editor that opens text files: the installed Notepad++, else Windows Notepad.
pub fn text_editor(notepadpp: Option<String>) -> (r: String)
    ensures
        match notepadpp {
            Some(p) => r@ == p@,
            None => r@ == "notepad"@,
        },
{
    match notepadpp {
        Some(p) => p,
        None => "notepad".to_owned(),
    }
}

} // verus!
