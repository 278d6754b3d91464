//! The environment of a root: the dashboard summary, the configuration files
//! written at start-up, the local certificates, the seeding of the catalogs,
//! and the replies of the commands that open files and folders.

use vstd::prelude::*;
use crate::text::{chars_of, contains, contains_str, decimal, push_decimal, push_str, string_of, trim, trim_str};
use crate::paths::{display, display_path, join_path, path_join};
use crate::config::{ActionResult, ActionResultView, AppConfig, coded_result, param_views};
use crate::services::{Diagnostic, ServiceInfo};

verus! {

// ---------------------------------------------------------------------------
// The dashboard summary
// ---------------------------------------------------------------------------

/// A folder of the root as listed.
pub struct FolderInfo {
    pub name: String,
    pub path: String,
    pub exists: bool,
}

pub struct FolderInfoView {
    pub name: Seq<char>,
    pub path: Seq<char>,
    pub exists: bool,
}

impl View for FolderInfo {
    type V = FolderInfoView;

    open spec fn view(&self) -> FolderInfoView {
        FolderInfoView { name: self.name@, path: self.path@, exists: self.exists }
    }
}

/// The folders every root holds, each with its shown path and whether it exists
/// (`exists[i]` for the `i`-th of `required_folders`; missing flags count as absent).
pub fn folder_infos(root: &str, exists: &Vec<bool>) -> (r: Vec<FolderInfo>)
    ensures
        r@.len() == 19,
        forall|i: int|
            0 <= i < 19 ==> (#[trigger] r@[i])@ == (FolderInfoView {
                name: crate::paths::required_folder_names()[i],
                path: display(path_join(root@, crate::paths::required_folder_names()[i])),
                exists: i < exists@.len() && exists@[i],
            }),
{
    let names = crate::paths::required_folders();
    let mut r: Vec<FolderInfo> = Vec::new();
    let mut i: usize = 0;
    while i < names.len()
        invariant
            i <= names.len(),
            names@.map_values(|s: &'static str| s@) == crate::paths::required_folder_names(),
            names@.len() == 19,
            r@.len() == i,
            forall|k: int|
                0 <= k < i ==> (#[trigger] r@[k])@ == (FolderInfoView {
                    name: crate::paths::required_folder_names()[k],
                    path: display(path_join(root@, crate::paths::required_folder_names()[k])),
                    exists: k < exists@.len() && exists@[k],
                }),
        decreases names.len() - i,
    {
        assert(names@.map_values(|s: &'static str| s@)[i as int] == names@[i as int]@);
        let p = join_path(root, names[i]);
        let e = i < exists.len() && exists[i];
        r.push(FolderInfo { name: names[i].to_owned(), path: display_path(p.as_str()), exists: e });
        i += 1;
    }
    r
}

/// What the dashboard shows of the environment.
pub struct EnvironmentInfo {
    pub app_version: String,
    pub root_dir: String,
    pub http_port: u16,
    pub https_port: u16,
    pub mysql_port: u16,
    pub https_enabled: bool,
    pub folders: Vec<FolderInfo>,
    pub services: Vec<ServiceInfo>,
    pub diagnostics: Vec<Diagnostic>,
}

/// The dashboard summary: the settings, the folders and the services with
/// the warnings about them.
pub fn environment_info(
    app_version: &str,
    root: &str,
    cfg: &AppConfig,
    folders: Vec<FolderInfo>,
    services: Vec<ServiceInfo>,
) -> (r: EnvironmentInfo)
    ensures
        r.app_version@ == app_version@,
        r.root_dir@ == display(root@),
        r.http_port == cfg.http_port,
        r.https_port == cfg.https_port,
        r.mysql_port == cfg.mysql_port,
        r.https_enabled == cfg.https_enabled,
        r.folders@ == folders@,
        r.services@ == services@,
        r.diagnostics@.map_values(|d: Diagnostic| d@) == crate::services::all_diagnostics(
            services@.map_values(|s: ServiceInfo| s@),
        ),
{
    let diagnostics = crate::services::environment_diagnostics(&services);
    EnvironmentInfo {
        app_version: app_version.to_owned(),
        root_dir: display_path(root),
        http_port: cfg.http_port,
        https_port: cfg.https_port,
        mysql_port: cfg.mysql_port,
        https_enabled: cfg.https_enabled,
        folders,
        services,
        diagnostics,
    }
}

// ---------------------------------------------------------------------------
// Files written at start-up
// ---------------------------------------------------------------------------

/// `config/app.json`.
pub fn config_file_path(root: &str) -> (r: String)
    ensures
        r@ == path_join(path_join(root@, "config"@), "app.json"@),
{
    let c = join_path(root, "config");
    join_path(c.as_str(), "app.json")
}

/// `config/services.json` and the text it starts with.
pub fn services_file(root: &str) -> (r: (String, &'static str))
    ensures
        r.0@ == path_join(path_join(root@, "config"@), "services.json"@),
        r.1@ == "{\n  \"apache\": { \"autostart\": false },\n  \"mysql\": { \"autostart\": false }\n}\n"@,
{
    let c = join_path(root, "config");
    (join_path(c.as_str(), "services.json"), "{\n  \"apache\": { \"autostart\": false },\n  \"mysql\": { \"autostart\": false }\n}\n")
}

/// The `my.ini` of the root: the MySQL port (3306 when the settings cannot be
/// read), the data folder and the error log.
pub open spec fn mysql_ini(root: Seq<char>, port: Option<u16>) -> Seq<char> {
    let p = match port {
        Some(v) => v,
        None => 3306u16,
    };
    "[mysqld]\nport="@ + decimal(p as nat) + "\ndatadir="@ + display(path_join(path_join(root, "data"@), "mysql"@))
        + "\nlog-error="@ + display(path_join(path_join(path_join(root, "logs"@), "mysql"@), "mysql.log"@)) + "\n"@
}

/// Where the root's `my.ini` goes and what it holds.
pub fn mysql_config(root: &str, port: Option<u16>) -> (r: (String, String))
    ensures
        r.0@ == path_join(path_join(path_join(root@, "etc"@), "mysql"@), "my.ini"@),
        r.1@ == mysql_ini(root@, port),
{
    let e = join_path(root, "etc");
    let m = join_path(e.as_str(), "mysql");
    let path = join_path(m.as_str(), "my.ini");
    let p: u16 = match port {
        Some(v) => v,
        None => 3306,
    };
    let d1 = join_path(root, "data");
    let data = join_path(d1.as_str(), "mysql");
    let l1 = join_path(root, "logs");
    let l2 = join_path(l1.as_str(), "mysql");
    let log = join_path(l2.as_str(), "mysql.log");
    let mut t = chars_of("[mysqld]\nport=");
    push_decimal(&mut t, p as u64);
    push_str(&mut t, "\ndatadir=");
    let ds = display_path(data.as_str());
    push_str(&mut t, ds.as_str());
    push_str(&mut t, "\nlog-error=");
    let ls = display_path(log.as_str());
    push_str(&mut t, ls.as_str());
    push_str(&mut t, "\n");
    (path, string_of(&t))
}

/// Where the shared `php.ini` goes and what it starts with (written only when missing).
pub fn php_config(root: &str) -> (r: (String, String))
    ensures
        r.0@ == path_join(path_join(path_join(root@, "etc"@), "php"@), "php.ini"@),
        r.1@ == "display_errors=On\nerror_log="@ + display(path_join(path_join(path_join(root@, "logs"@), "php"@), "php.log"@))
            + "\ndate.timezone=America/Sao_Paulo\n"@,
{
    let e = join_path(root, "etc");
    let p = join_path(e.as_str(), "php");
    let path = join_path(p.as_str(), "php.ini");
    let l1 = join_path(root, "logs");
    let l2 = join_path(l1.as_str(), "php");
    let log = join_path(l2.as_str(), "php.log");
    let mut t = chars_of("display_errors=On\nerror_log=");
    let ls = display_path(log.as_str());
    push_str(&mut t, ls.as_str());
    push_str(&mut t, "\ndate.timezone=America/Sao_Paulo\n");
    (path, string_of(&t))
}

// ---------------------------------------------------------------------------
// Local certificates
// ---------------------------------------------------------------------------

/// A certificate file written as a placeholder, not by mkcert.
pub open spec fn placeholder(content: Option<Seq<char>>) -> bool {
    match content {
        Some(c) => contains(c, "IPEENV LOCAL CERT PLACEHOLDER"@),
        None => false,
    }
}

/// Whether a certificate file (its text, `None` when unreadable) is a placeholder.
pub fn certificate_is_placeholder(content: Option<&str>) -> (r: bool)
    ensures
        r == placeholder(
            match content {
                Some(c) => Some(c@),
                None => None,
            },
        ),
{
    match content {
        Some(c) => contains_str(&chars_of(c), "IPEENV LOCAL CERT PLACEHOLDER"),
        None => false,
    }
}

/// A domain's certificate is ready when its certificate and key exist and
/// the certificate is not a placeholder; otherwise mkcert makes them.
pub fn certificate_ready(cert_exists: bool, key_exists: bool, is_placeholder: bool) -> (r: bool)
    ensures
        r == (cert_exists && key_exists && !is_placeholder),
{
    cert_exists && key_exists && !is_placeholder
}

/// The arguments of mkcert that make a domain's certificate and key.
pub fn mkcert_args(cert: &str, key: &str, domain: &str) -> (r: Vec<String>)
    ensures
        r@.map_values(|s: String| s@) == seq!["-cert-file"@, cert@, "-key-file"@, key@, domain@],
{
    let mut r: Vec<String> = Vec::new();
    r.push("-cert-file".to_owned());
    r.push(cert.to_owned());
    r.push("-key-file".to_owned());
    r.push(key.to_owned());
    r.push(domain.to_owned());
    assert(r@.map_values(|s: String| s@) =~= seq!["-cert-file"@, cert@, "-key-file"@, key@, domain@]);
    r
}

/// The error when mkcert could not make a certificate.
pub fn mkcert_failure(domain: &str, stderr: &str, stdout: &str) -> (r: String)
    ensures
        r@ == "mkcert não conseguiu gerar certificado para "@ + domain@ + ": "@ + trim(stderr@) + " "@ + trim(stdout@),
{
    let mut m = chars_of("mkcert não conseguiu gerar certificado para ");
    push_str(&mut m, domain);
    push_str(&mut m, ": ");
    let e = trim_str(stderr);
    crate::text::push_all(&mut m, &e);
    push_str(&mut m, " ");
    let o = trim_str(stdout);
    crate::text::push_all(&mut m, &o);
    string_of(&m)
}

/// The verdict of `mkcert -install`: success, or a CA already trusted, is
/// fine; otherwise the error with what it printed.
pub fn mkcert_install_outcome(success: bool, stdout: &str, stderr: &str) -> (r: Result<(), String>)
    ensures
        ({
            let combined = trim(stdout@) + " "@ + trim(stderr@);
            &&& success ==> r is Ok
            &&& !success && contains(combined, "already installed in the system trust store"@) ==> r is Ok
            &&& !success && !contains(combined, "already installed in the system trust store"@) ==> (r matches Err(e) && e@
                == "mkcert -install falhou: "@ + trim(combined))
        }),
{
    if success {
        return Ok(());
    }
    let mut c = trim_str(stdout);
    push_str(&mut c, " ");
    let e = trim_str(stderr);
    crate::text::push_all(&mut c, &e);
    if contains_str(&c, "already installed in the system trust store") {
        return Ok(());
    }
    let t = crate::text::trim_vec(&c);
    let mut m = chars_of("mkcert -install falhou: ");
    crate::text::push_all(&mut m, &t);
    Err(string_of(&m))
}

// ---------------------------------------------------------------------------
// Catalogs shipped with the program
// ---------------------------------------------------------------------------

/// A file shipped with the program: next to the executable when it is there,
/// else in the resource folder when it is there, else in the workspace.
pub fn bundled_or_workspace_file(
    relative: &str,
    exe_dir: Option<&str>,
    next_to_exe: bool,
    resource_dir: Option<&str>,
    in_resources: bool,
    workspace: &str,
) -> (r: String)
    ensures
        exe_dir is Some && next_to_exe ==> r@ == path_join(exe_dir->0@, relative@),
        !(exe_dir is Some && next_to_exe) && resource_dir is Some && in_resources ==> r@ == path_join(
            resource_dir->0@,
            relative@,
        ),
        !(exe_dir is Some && next_to_exe) && !(resource_dir is Some && in_resources) ==> r@ == path_join(
            workspace@,
            relative@,
        ),
{
    if let Some(d) = exe_dir {
        if next_to_exe {
            return join_path(d, relative);
        }
    }
    if let Some(d) = resource_dir {
        if in_resources {
            return join_path(d, relative);
        }
    }
    join_path(workspace, relative)
}

/// How the template catalog of a root is prepared.
#[derive(PartialEq, Eq, Structural, Clone, Copy)]
pub enum TemplateSeed {
    /// It is there and not empty.
    Keep,
    /// Copy the legacy `config/sites.conf`.
    CopyLegacy,
    /// Copy the shipped catalog.
    CopyShipped,
    /// Write the default catalog.
    WriteDefault,
}

/// The template catalog is kept when present; else the legacy one is
/// copied, else the shipped one, else the default is written (files that
/// are empty count as missing).
pub fn site_template_seed(target_nonempty: bool, legacy_nonempty: bool, shipped_nonempty: bool) -> (r: TemplateSeed)
    ensures
        target_nonempty ==> r == TemplateSeed::Keep,
        !target_nonempty && legacy_nonempty ==> r == TemplateSeed::CopyLegacy,
        !target_nonempty && !legacy_nonempty && shipped_nonempty ==> r == TemplateSeed::CopyShipped,
        !target_nonempty && !legacy_nonempty && !shipped_nonempty ==> r == TemplateSeed::WriteDefault,
{
    if target_nonempty {
        TemplateSeed::Keep
    } else if legacy_nonempty {
        TemplateSeed::CopyLegacy
    } else if shipped_nonempty {
        TemplateSeed::CopyShipped
    } else {
        TemplateSeed::WriteDefault
    }
}

/// The error of copying a shipped catalog.
pub fn seed_copy_error(what: &str, source: &str, error: &str) -> (r: String)
    ensures
        r@ == "Não foi possível preparar catálogo de "@ + what@ + " a partir de "@ + display(source@) + ": "@ + error@,
{
    let shown = display_path(source);
    let mut m = chars_of("Não foi possível preparar catálogo de ");
    push_str(&mut m, what);
    push_str(&mut m, " a partir de ");
    push_str(&mut m, shown.as_str());
    push_str(&mut m, ": ");
    push_str(&mut m, error);
    string_of(&m)
}

// ---------------------------------------------------------------------------
// Replies of the commands that open things
// ---------------------------------------------------------------------------

/// A reply with one parameter.
pub fn reply_with(ok: bool, code: &str, message: String, key: &str, value: String) -> (r: ActionResult)
    ensures
        r@ == coded_result(ok, code@, message@, seq![(key@, value@)]),
{
    let mut params: Vec<(&str, String)> = Vec::new();
    let ghost v = value@;
    params.push((key, value));
    let r = ActionResult::coded(ok, code, message, params);
    assert(param_views(params@) =~= seq![(key@, v)]);
    r
}

/// The reply after a folder was handed to the file manager.
pub fn path_opened(ok: bool, path: &str) -> (r: ActionResult)
    ensures
        r@ == coded_result(ok, "path.opened"@, "Pasta aberta: "@ + display(path@) + "."@, seq![("path"@, display(path@))]),
{
    let shown = display_path(path);
    let mut m = chars_of("Pasta aberta: ");
    push_str(&mut m, shown.as_str());
    push_str(&mut m, ".");
    reply_with(ok, "path.opened", string_of(&m), "path", shown)
}

/// The error for a folder that does not exist.
pub fn folder_missing(path: &str) -> (r: String)
    ensures
        r@ == "Pasta não encontrada: "@ + display(path@),
{
    let shown = display_path(path);
    let mut m = chars_of("Pasta não encontrada: ");
    push_str(&mut m, shown.as_str());
    string_of(&m)
}

/// The path given to the file manager: every `/` written as `\`.
pub fn windows_path(path: &str) -> (r: String)
    ensures
        r@ == crate::text::replace_char(path@, '/', '\\'),
{
    let v = crate::text::replace_char_vec(&chars_of(path), '/', '\\');
    string_of(&v)
}

/// The reply after a URL was handed to the browser.
pub fn url_opened(ok: bool, url: &str) -> (r: ActionResult)
    ensures
        r@ == coded_result(ok, "url.opened"@, "URL solicitada ao navegador padrão."@, seq![("url"@, url@)]),
{
    reply_with(ok, "url.opened", "URL solicitada ao navegador padrão.".to_owned(), "url", url.to_owned())
}

/// The reply after a file was opened in the editor, naming its path.
pub fn file_opened(code: &str, message_head: &str, path: &str) -> (r: ActionResult)
    ensures
        r@ == coded_result(true, code@, message_head@ + display(path@) + "."@, seq![("path"@, display(path@))]),
{
    let shown = display_path(path);
    let mut m = chars_of(message_head);
    push_str(&mut m, shown.as_str());
    push_str(&mut m, ".");
    reply_with(true, code, string_of(&m), "path", shown)
}

/// The reply after a file was opened in the editor, with a fixed message.
pub fn editor_opened(code: &str, message: &str, path: &str) -> (r: ActionResult)
    ensures
        r@ == coded_result(true, code@, message@, seq![("path"@, display(path@))]),
{
    reply_with(true, code, message.to_owned(), "path", display_path(path))
}

/// The error for a file that does not exist, with its shown path.
pub fn missing_file(head: &str, path: &str) -> (r: String)
    ensures
        r@ == head@ + display(path@),
{
    let shown = display_path(path);
    let mut m = chars_of(head);
    push_str(&mut m, shown.as_str());
    string_of(&m)
}

/// The reply after the php.ini of a version was opened.
pub fn php_ini_opened(version: &str) -> (r: ActionResult)
    ensures
        r@ == coded_result(
            true,
            "php.iniOpened"@,
            "php.ini do PHP "@ + version@ + " aberto no editor."@,
            seq![("version"@, version@)],
        ),
{
    let mut m = chars_of("php.ini do PHP ");
    push_str(&mut m, version);
    push_str(&mut m, " aberto no editor.");
    reply_with(true, "php.iniOpened", string_of(&m), "version", version.to_owned())
}

/// The error for a PHP version without runtime.
pub fn php_not_installed(version: &str) -> (r: String)
    ensures
        r@ == "PHP "@ + version@ + " não está instalado."@,
{
    let mut m = chars_of("PHP ");
    push_str(&mut m, version);
    push_str(&mut m, " não está instalado.");
    string_of(&m)
}

/// The reply after the SSL files of a domain were prepared, and the line to log.
pub fn ssl_prepared(domain: &str) -> (r: (ActionResult, String))
    ensures
        r.0@ == coded_result(
            true,
            "ssl.prepared"@,
            "SSL local preparado para "@ + domain@ + "."@,
            seq![("domain"@, domain@)],
        ),
        r.1@ == "SSL prepared for "@ + domain@,
{
    let mut m = chars_of("SSL local preparado para ");
    push_str(&mut m, domain);
    push_str(&mut m, ".");
    let mut l = chars_of("SSL prepared for ");
    push_str(&mut l, domain);
    (reply_with(true, "ssl.prepared", string_of(&m), "domain", domain.to_owned()), string_of(&l))
}

/// The reply after the Apache configuration was written.
pub fn apache_config_generated() -> (r: ActionResult)
    ensures
        r@ == coded_result(true, "apache.configGenerated"@, "Configuracao do Apache regenerada."@, Seq::empty()),
{
    let params: Vec<(&str, String)> = Vec::new();
    let r = ActionResult::coded(true, "apache.configGenerated", "Configuracao do Apache regenerada.".to_owned(), params);
    assert(param_views(params@) =~= Seq::<(Seq<char>, Seq<char>)>::empty());
    r
}

} // verus!
