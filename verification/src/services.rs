//! The Apache and MySQL services: how each is started (program, folder,
//! arguments, port), what the interface shows of it, and the decisions of
//! starting and stopping it, including the `php-cgi` processes of the projects.

use vstd::prelude::*;
use crate::text::{chars_of, decimal, push_decimal, push_str, string_of, text_eq, trim, trim_str};
use crate::paths::{display, display_path, join_path, path_join};
use crate::config::{
    ActionResult, ActionResultView, AppConfig, AppConfigView, coded_result, param_views,
    plain_result,
};
use crate::naming::{cgi_port, php_cgi_port};
use crate::runtime::{failure_detail, greatest_name, greatest_name_exec, opt_string_view, process_failure_detail};

verus! {

// ---------------------------------------------------------------------------
// How a service is started
// ---------------------------------------------------------------------------

/// How a service is started.
pub struct ServiceSpec {
    pub id: String,
    pub name: String,
    pub executable: String,
    pub work_dir: String,
    pub args: Vec<String>,
    pub port: Option<u16>,
    pub version: String,
}

pub struct ServiceSpecView {
    pub id: Seq<char>,
    pub name: Seq<char>,
    pub executable: Seq<char>,
    pub work_dir: Seq<char>,
    pub args: Seq<Seq<char>>,
    pub port: Option<u16>,
    pub version: Seq<char>,
}

pub open spec fn strings(v: Seq<String>) -> Seq<Seq<char>> {
    v.map_values(|s: String| s@)
}

impl View for ServiceSpec {
    type V = ServiceSpecView;

    open spec fn view(&self) -> ServiceSpecView {
        ServiceSpecView {
            id: self.id@,
            name: self.name@,
            executable: self.executable@,
            work_dir: self.work_dir@,
            args: strings(self.args@),
            port: self.port,
            version: self.version@,
        }
    }
}

/// The runtime folders found under `bin/apache` and `bin/mysql`: the names of
/// the subfolders that hold `httpd.exe` or `mysqld.exe` (directly or in `bin`).
pub struct RuntimeListing {
    pub apache: Vec<String>,
    pub mysql: Vec<String>,
}

/// The active runtime of a kind: of the runtime folders, the one whose name
/// comes last; the parent folder itself when there is none.
pub open spec fn active_dir(parent: Seq<char>, names: Seq<Seq<char>>) -> Seq<char> {
    match greatest_name(names) {
        Some(n) => path_join(parent, n),
        None => parent,
    }
}

/// The active runtime folder under `parent`: of the runtime folders `names`,
/// the one whose name comes last.
pub fn active_runtime_dir(parent: &str, names: &Vec<String>) -> (r: Option<String>)
    ensures
        match greatest_name(strings(names@)) {
            Some(n) => r matches Some(d) && d@ == path_join(parent@, n),
            None => r is None,
        },
{
    match greatest_name_exec(names) {
        Some(n) => Some(join_path(parent, n.as_str())),
        None => None,
    }
}

fn active_dir_exec(parent: &str, names: &Vec<String>) -> (r: String)
    ensures
        r@ == active_dir(parent@, strings(names@)),
{
    match active_runtime_dir(parent, names) {
        Some(d) => d,
        None => parent.to_owned(),
    }
}

/// `root/bin/<kind>`.
pub open spec fn bin_of(root: Seq<char>, kind: Seq<char>) -> Seq<char> {
    path_join(path_join(root, "bin"@), kind)
}

/// The Apache service: the active Apache runtime, started with the
/// configuration Ipeenv writes into it, on the HTTP port.
pub open spec fn apache_spec(cfg: AppConfigView, apache: Seq<Seq<char>>) -> ServiceSpecView {
    let root = active_dir(bin_of(cfg.root_dir, "apache"@), apache);
    ServiceSpecView {
        id: "apache"@,
        name: "Apache"@,
        executable: path_join(path_join(root, "bin"@), "httpd.exe"@),
        work_dir: root,
        args: seq!["-d"@, root, "-f"@, "conf/ipeenv-httpd.conf"@],
        port: Some(cfg.http_port),
        version: "Apache 2.4.x"@,
    }
}

/// The MySQL service: the active MySQL runtime, with Ipeenv's `my.ini` and
/// data folder, on the MySQL port.
pub open spec fn mysql_spec(cfg: AppConfigView, mysql: Seq<Seq<char>>) -> ServiceSpecView {
    let root = active_dir(bin_of(cfg.root_dir, "mysql"@), mysql);
    let ini = path_join(path_join(path_join(cfg.root_dir, "etc"@), "mysql"@), "my.ini"@);
    let data = path_join(path_join(cfg.root_dir, "data"@), "mysql"@);
    ServiceSpecView {
        id: "mysql"@,
        name: "MySQL"@,
        executable: path_join(path_join(root, "bin"@), "mysqld.exe"@),
        work_dir: root,
        args: seq!["--defaults-file="@ + display(ini), "--datadir="@ + display(data)],
        port: Some(cfg.mysql_port),
        version: "MySQL 8.x"@,
    }
}

/// Each service runs from its active runtime folder: with runtime folders
/// listed under `bin/apache` or `bin/mysql`, the service's folder is the one
/// among them whose name comes last, and its program is `bin/httpd.exe` or
/// `bin/mysqld.exe` inside it; with none listed, the folder is `bin/apache`
/// or `bin/mysql` itself.
pub proof fn law_services_run_from_active_runtime(cfg: AppConfigView, apache: Seq<Seq<char>>, mysql: Seq<Seq<char>>)
    ensures
        spec_of(cfg, "apache"@, apache, mysql) matches Some(s) && s.executable == path_join(
            path_join(s.work_dir, "bin"@),
            "httpd.exe"@,
        ) && (apache.len() == 0 ==> s.work_dir == path_join(path_join(cfg.root_dir, "bin"@), "apache"@)) && (
        apache.len() > 0 ==> exists|i: int|
            0 <= i < apache.len() && s.work_dir == path_join(path_join(path_join(cfg.root_dir, "bin"@), "apache"@), apache[i])
                && #[trigger] greatest_name(apache) == Some(apache[i])),
        spec_of(cfg, "mysql"@, apache, mysql) matches Some(s) && s.executable == path_join(
            path_join(s.work_dir, "bin"@),
            "mysqld.exe"@,
        ) && (mysql.len() == 0 ==> s.work_dir == path_join(path_join(cfg.root_dir, "bin"@), "mysql"@)) && (
        mysql.len() > 0 ==> exists|i: int|
            0 <= i < mysql.len() && s.work_dir == path_join(path_join(path_join(cfg.root_dir, "bin"@), "mysql"@), mysql[i])
                && #[trigger] greatest_name(mysql) == Some(mysql[i])),
{
    reveal_strlit("apache");
    reveal_strlit("mysql");
    assert("apache"@ != "mysql"@) by {
        assert("apache"@.len() != "mysql"@.len());
    }
    if apache.len() > 0 {
        crate::runtime::law_greatest_name_is_greatest(apache);
        let g = greatest_name(apache)->0;
        let i = choose|i: int| 0 <= i < apache.len() && apache[i] == g;
        assert(greatest_name(apache) == Some(apache[i]));
    }
    if mysql.len() > 0 {
        crate::runtime::law_greatest_name_is_greatest(mysql);
        let g = greatest_name(mysql)->0;
        let i = choose|i: int| 0 <= i < mysql.len() && mysql[i] == g;
        assert(greatest_name(mysql) == Some(mysql[i]));
    }
}

/// The service with this id, if it is one.
pub open spec fn spec_of(cfg: AppConfigView, id: Seq<char>, apache: Seq<Seq<char>>, mysql: Seq<Seq<char>>) -> Option<ServiceSpecView> {
    if id == "apache"@ {
        Some(apache_spec(cfg, apache))
    } else if id == "mysql"@ {
        Some(mysql_spec(cfg, mysql))
    } else {
        None
    }
}

fn prefixed(prefix: &str, text: &str) -> (r: String)
    ensures
        r@ == prefix@ + text@,
{
    let mut m = chars_of(prefix);
    push_str(&mut m, text);
    string_of(&m)
}

/// How the service `id` (`apache` or `mysql`) is started; `None` for any other id.
pub fn service_spec(cfg: &AppConfig, id: &str, runtimes: &RuntimeListing) -> (r: Option<ServiceSpec>)
    ensures
        match spec_of(cfg@, id@, strings(runtimes.apache@), strings(runtimes.mysql@)) {
            Some(s) => r matches Some(x) && x@ == s,
            None => r is None,
        },
{
    let bin = join_path(cfg.root_dir.as_str(), "bin");
    let idv = chars_of(id);
    if text_eq(&idv, &chars_of("apache")) {
        let parent = join_path(bin.as_str(), "apache");
        let root = active_dir_exec(parent.as_str(), &runtimes.apache);
        let b = join_path(root.as_str(), "bin");
        let mut args: Vec<String> = Vec::new();
        args.push("-d".to_owned());
        args.push(crate::paths::native_path(root.as_str()));
        args.push("-f".to_owned());
        args.push("conf/ipeenv-httpd.conf".to_owned());
        let s = ServiceSpec {
            id: "apache".to_owned(),
            name: "Apache".to_owned(),
            executable: join_path(b.as_str(), "httpd.exe"),
            work_dir: root,
            args,
            port: Some(cfg.http_port),
            version: "Apache 2.4.x".to_owned(),
        };
        assert(s@.args =~= apache_spec(cfg@, strings(runtimes.apache@)).args);
        Some(s)
    } else if text_eq(&idv, &chars_of("mysql")) {
        let parent = join_path(bin.as_str(), "mysql");
        let root = active_dir_exec(parent.as_str(), &runtimes.mysql);
        let b = join_path(root.as_str(), "bin");
        let e1 = join_path(cfg.root_dir.as_str(), "etc");
        let e2 = join_path(e1.as_str(), "mysql");
        let ini = join_path(e2.as_str(), "my.ini");
        let d1 = join_path(cfg.root_dir.as_str(), "data");
        let data = join_path(d1.as_str(), "mysql");
        let mut args: Vec<String> = Vec::new();
        let ini_shown = display_path(ini.as_str());
        let data_shown = display_path(data.as_str());
        args.push(prefixed("--defaults-file=", ini_shown.as_str()));
        args.push(prefixed("--datadir=", data_shown.as_str()));
        let s = ServiceSpec {
            id: "mysql".to_owned(),
            name: "MySQL".to_owned(),
            executable: join_path(b.as_str(), "mysqld.exe"),
            work_dir: root,
            args,
            port: Some(cfg.mysql_port),
            version: "MySQL 8.x".to_owned(),
        };
        assert(s@.args =~= mysql_spec(cfg@, strings(runtimes.mysql@)).args);
        Some(s)
    } else {
        None
    }
}

// ---------------------------------------------------------------------------
// What the interface shows of a service
// ---------------------------------------------------------------------------

/// What was found of a service.
pub struct ServiceProbe {
    /// The process id of the child started for it, if there is one.
    pub pid: Option<u32>,
    /// Its program exists.
    pub executable_exists: bool,
    /// Whether its port is free (`None` when it has no port).
    pub port_available: Option<bool>,
    /// Ipeenv started it and has not stopped it since. Apache hands over to
    /// a process of its own, so no child is kept for it and this alone tells
    /// its port apart from one held by another program.
    pub started_here: bool,
}

/// A service as the interface lists it.
pub struct ServiceInfo {
    pub id: String,
    pub name: String,
    pub version: String,
    pub port: Option<u16>,
    pub status: String,
    pub pid: Option<u32>,
    pub available: bool,
    pub port_available: Option<bool>,
    pub executable: String,
    pub last_message: String,
    pub enabled: bool,
}

pub struct ServiceInfoView {
    pub id: Seq<char>,
    pub name: Seq<char>,
    pub version: Seq<char>,
    pub port: Option<u16>,
    pub status: Seq<char>,
    pub pid: Option<u32>,
    pub available: bool,
    pub port_available: Option<bool>,
    pub executable: Seq<char>,
    pub last_message: Seq<char>,
    pub enabled: bool,
}

impl View for ServiceInfo {
    type V = ServiceInfoView;

    open spec fn view(&self) -> ServiceInfoView {
        ServiceInfoView {
            id: self.id@,
            name: self.name@,
            version: self.version@,
            port: self.port,
            status: self.status@,
            pid: self.pid,
            available: self.available,
            port_available: self.port_available,
            executable: self.executable@,
            last_message: self.last_message@,
            enabled: self.enabled,
        }
    }
}

/// A service runs when a child started by Ipeenv is kept for it, or, for
/// Apache, when Ipeenv started it and its port is taken. A port taken by
/// another program (IIS on port 80, say) leaves the service stopped, so the
/// conflict is reported (see `service_diagnostics`).
pub open spec fn service_status(s: ServiceSpecView, p: ServiceProbe) -> Seq<char> {
    if p.pid is Some || (s.id == "apache"@ && p.started_here && p.port_available == Some(false)) {
        "running"@
    } else {
        "stopped"@
    }
}

/// The listing of a service.
pub open spec fn service_info_of(cfg: AppConfigView, s: ServiceSpecView, p: ServiceProbe) -> ServiceInfoView {
    ServiceInfoView {
        id: s.id,
        name: s.name,
        version: s.version,
        port: s.port,
        status: service_status(s, p),
        pid: p.pid,
        available: p.executable_exists,
        port_available: p.port_available,
        executable: display(s.executable),
        last_message: if p.executable_exists {
            "Pronto para iniciar"@
        } else {
            "Binário ainda não empacotado"@
        },
        enabled: cfg.enabled_services.contains(s.id),
    }
}

/// The listing of a service from what was found of it.
pub fn service_info(cfg: &AppConfig, spec: &ServiceSpec, probe: &ServiceProbe) -> (r: ServiceInfo)
    ensures
        r@ == service_info_of(cfg@, spec@, *probe),
{
    let external = text_eq(&chars_of(spec.id.as_str()), &chars_of("apache")) && probe.started_here && match probe.port_available {
        Some(a) => !a,
        None => false,
    };
    let status = if probe.pid.is_some() || external {
        "running".to_owned()
    } else {
        "stopped".to_owned()
    };
    let mut enabled = false;
    let mut i: usize = 0;
    let ghost l = cfg@.enabled_services;
    while i < cfg.enabled_services.len()
        invariant
            i <= cfg.enabled_services.len(),
            l == cfg@.enabled_services,
            l.len() == cfg.enabled_services.len(),
            enabled == exists|k: int| 0 <= k < i && l[k] == spec.id@,
        decreases cfg.enabled_services.len() - i,
    {
        assert(l[i as int] == cfg.enabled_services@[i as int]@);
        if text_eq(&chars_of(cfg.enabled_services[i].as_str()), &chars_of(spec.id.as_str())) {
            enabled = true;
        }
        i += 1;
    }
    ServiceInfo {
        id: spec.id.clone(),
        name: spec.name.clone(),
        version: spec.version.clone(),
        port: spec.port,
        status,
        pid: probe.pid,
        available: probe.executable_exists,
        port_available: probe.port_available,
        executable: display_path(spec.executable.as_str()),
        last_message: if probe.executable_exists {
            "Pronto para iniciar".to_owned()
        } else {
            "Binário ainda não empacotado".to_owned()
        },
        enabled,
    }
}

/// A warning or error shown on the dashboard.
pub struct Diagnostic {
    pub level: String,
    pub title: String,
    pub message: String,
}

pub struct DiagnosticView {
    pub level: Seq<char>,
    pub title: Seq<char>,
    pub message: Seq<char>,
}

impl View for Diagnostic {
    type V = DiagnosticView;

    open spec fn view(&self) -> DiagnosticView {
        DiagnosticView { level: self.level@, title: self.title@, message: self.message@ }
    }
}

pub open spec fn port_text(p: Option<u16>) -> Seq<char> {
    match p {
        Some(v) => decimal(v as nat),
        None => decimal(0),
    }
}

/// What the dashboard says of one service: a warning when its program is
/// missing, an error when its port is taken while it is not running.
pub open spec fn service_diagnostics(s: ServiceInfoView) -> Seq<DiagnosticView> {
    (if !s.available {
        seq![DiagnosticView {
            level: "warn"@,
            title: s.name + " não encontrado"@,
            message: "Coloque o executavel esperado em "@ + s.executable,
        }]
    } else {
        Seq::empty()
    }) + (if s.port_available == Some(false) && s.status != "running"@ {
        seq![DiagnosticView {
            level: "error"@,
            title: "Porta ocupada: "@ + port_text(s.port),
            message: s.name + " não pode iniciar enquanto essa porta estiver em uso."@,
        }]
    } else {
        Seq::empty()
    })
}

/// A port held by another program is reported: when nothing Ipeenv started
/// runs for a service and its port is taken (IIS on port 80 while Apache is
/// stopped, say), the service is listed as stopped and the dashboard shows
/// the port-occupied error for it.
pub proof fn law_foreign_port_is_reported(cfg: AppConfigView, s: ServiceSpecView, p: ServiceProbe)
    requires
        p.pid is None,
        !p.started_here,
        p.port_available == Some(false),
    ensures
        service_info_of(cfg, s, p).status == "stopped"@,
        service_diagnostics(service_info_of(cfg, s, p)).contains(
            DiagnosticView {
                level: "error"@,
                title: "Porta ocupada: "@ + port_text(s.port),
                message: s.name + " não pode iniciar enquanto essa porta estiver em uso."@,
            },
        ),
{
    reveal_strlit("running");
    reveal_strlit("stopped");
    let i = service_info_of(cfg, s, p);
    assert(i.status != "running"@) by {
        assert("stopped"@[0] != "running"@[0]);
    }
    let ds = service_diagnostics(i);
    assert(ds[ds.len() - 1].title == "Porta ocupada: "@ + port_text(s.port));
}

/// What the dashboard says of the services, in their order.
pub open spec fn all_diagnostics(ss: Seq<ServiceInfoView>) -> Seq<DiagnosticView>
    decreases ss.len(),
{
    if ss.len() == 0 {
        Seq::empty()
    } else {
        all_diagnostics(ss.drop_last()) + service_diagnostics(ss.last())
    }
}

/// The warnings and errors of the dashboard for the listed services.
pub fn environment_diagnostics(services: &Vec<ServiceInfo>) -> (r: Vec<Diagnostic>)
    ensures
        r@.map_values(|d: Diagnostic| d@) == all_diagnostics(services@.map_values(|s: ServiceInfo| s@)),
{
    let ghost sv = services@.map_values(|s: ServiceInfo| s@);
    let mut r: Vec<Diagnostic> = Vec::new();
    let mut i: usize = 0;
    while i < services.len()
        invariant
            i <= services.len(),
            sv == services@.map_values(|s: ServiceInfo| s@),
            r@.map_values(|d: Diagnostic| d@) == all_diagnostics(sv.take(i as int)),
        decreases services.len() - i,
    {
        let s = &services[i];
        proof {
            assert(sv.take(i + 1).drop_last() =~= sv.take(i as int));
            assert(sv.take(i + 1).last() == s@);
        }
        let ghost before = r@.map_values(|d: Diagnostic| d@);
        if !s.available {
            r.push(Diagnostic {
                level: "warn".to_owned(),
                title: {
                    let mut t = chars_of(s.name.as_str());
                    push_str(&mut t, " não encontrado");
                    string_of(&t)
                },
                message: prefixed("Coloque o executavel esperado em ", s.executable.as_str()),
            });
        }
        let ghost mid = r@.map_values(|d: Diagnostic| d@);
        let running = text_eq(&chars_of(s.status.as_str()), &chars_of("running"));
        let taken = match s.port_available {
            Some(a) => !a,
            None => false,
        };
        if taken && !running {
            let mut t = chars_of("Porta ocupada: ");
            let p: u64 = match s.port {
                Some(v) => v as u64,
                None => 0,
            };
            push_decimal(&mut t, p);
            let mut m = chars_of(s.name.as_str());
            push_str(&mut m, " não pode iniciar enquanto essa porta estiver em uso.");
            r.push(Diagnostic { level: "error".to_owned(), title: string_of(&t), message: string_of(&m) });
        }
        assert(r@.map_values(|d: Diagnostic| d@) =~= before + service_diagnostics(s@));
        i += 1;
    }
    assert(sv.take(services.len() as int) =~= sv);
    r
}

// ---------------------------------------------------------------------------
// Starting a service
// ---------------------------------------------------------------------------

/// What was found before starting a service.
pub struct StartProbe {
    /// A child started by Ipeenv for it is still registered.
    pub already_running: bool,
    /// Its program exists.
    pub executable_exists: bool,
    /// Its port is free.
    pub port_available: bool,
    /// The HTTPS port is free.
    pub https_port_available: bool,
}

/// The decision taken before starting a service.
pub enum StartCheck {
    /// Do not start; reply with this, after logging the line, if any.
    Reply(ActionResult, Option<String>),
    /// Go on starting; log the warning first, if any.
    Proceed(Option<String>),
}

pub open spec fn opt_seq(o: Option<String>) -> Option<Seq<char>> {
    match o {
        Some(s) => Some(s@),
        None => None,
    }
}

pub enum StartCheckView {
    Reply(ActionResultView, Option<Seq<char>>),
    Proceed(Option<Seq<char>>),
}

pub open spec fn start_check_view(c: StartCheck) -> StartCheckView {
    match c {
        StartCheck::Reply(a, l) => StartCheckView::Reply(a@, opt_seq(l)),
        StartCheck::Proceed(l) => StartCheckView::Proceed(opt_seq(l)),
    }
}

/// Before starting: a registered child means it runs already (Apache is
/// always restarted); the program must exist; its port must be free; Apache
/// with HTTPS also needs the HTTPS port, and a port below 1024 is logged as
/// needing administrator rights.
pub open spec fn start_check(cfg: AppConfigView, service: Seq<char>, s: ServiceSpecView, p: StartProbe) -> StartCheckView {
    if service != "apache"@ && p.already_running {
        StartCheckView::Reply(
            coded_result(true, "service.alreadyRunning"@, s.name + " já está em execução."@, seq![("service"@, s.name)]),
            None,
        )
    } else if !p.executable_exists {
        StartCheckView::Reply(
            coded_result(
                false,
                "service.missingBinary"@,
                s.name + " não encontrado em "@ + display(s.executable) + "."@,
                seq![("service"@, s.name), ("path"@, display(s.executable))],
            ),
            Some(s.name + " not started: missing binary"@),
        )
    } else if s.port is Some && !p.port_available {
        let port = decimal(s.port->0 as nat);
        StartCheckView::Reply(
            coded_result(
                false,
                "service.portOccupied"@,
                "Porta "@ + port + " ocupada. Pare o processo externo ou altere a configuracao."@,
                seq![("port"@, port)],
            ),
            Some(s.name + " did not start: port "@ + port + " was already in use."@),
        )
    } else if service == "apache"@ && cfg.https_enabled && !p.https_port_available {
        let port = decimal(cfg.https_port as nat);
        StartCheckView::Reply(
            coded_result(
                false,
                "service.httpsPortOccupied"@,
                "Porta HTTPS "@ + port + " ocupada. Outro processo está usando esta porta."@,
                seq![("port"@, port)],
            ),
            Some("Apache did not start: HTTPS port "@ + port + " was already in use."@),
        )
    } else if service == "apache"@ && cfg.https_enabled && cfg.https_port < 1024 {
        StartCheckView::Proceed(
            Some("Warning: HTTPS port "@ + decimal(cfg.https_port as nat) + " requires administrator privileges on Windows."@),
        )
    } else {
        StartCheckView::Proceed(None)
    }
}

fn decimal_string(n: u16) -> (r: String)
    ensures
        r@ == decimal(n as nat),
{
    let mut v: Vec<char> = Vec::new();
    push_decimal(&mut v, n as u64);
    string_of(&v)
}

fn three(a: &str, b: &str, c: &str) -> (r: String)
    ensures
        r@ == a@ + b@ + c@,
{
    let mut m = chars_of(a);
    push_str(&mut m, b);
    push_str(&mut m, c);
    string_of(&m)
}

/// The decision taken before starting `service` (see `start_check`).
pub fn start_service_check(cfg: &AppConfig, service: &str, spec: &ServiceSpec, probe: &StartProbe) -> (r: StartCheck)
    ensures
        start_check_view(r) == start_check(cfg@, service@, spec@, *probe),
{
    let is_apache = text_eq(&chars_of(service), &chars_of("apache"));
    let name = spec.name.as_str();
    if !is_apache && probe.already_running {
        let mut params: Vec<(&str, String)> = Vec::new();
        params.push(("service", spec.name.clone()));
        let r = ActionResult::coded(true, "service.alreadyRunning", prefixed(name, " já está em execução."), params);
        assert(param_views(params@) =~= seq![("service"@, spec.name@)]);
        return StartCheck::Reply(r, None);
    }
    if !probe.executable_exists {
        let shown = display_path(spec.executable.as_str());
        let mut m = chars_of(name);
        push_str(&mut m, " não encontrado em ");
        push_str(&mut m, shown.as_str());
        push_str(&mut m, ".");
        let mut params: Vec<(&str, String)> = Vec::new();
        params.push(("service", spec.name.clone()));
        params.push(("path", shown.clone()));
        let r = ActionResult::coded(false, "service.missingBinary", string_of(&m), params);
        assert(param_views(params@) =~= seq![("service"@, spec.name@), ("path"@, display(spec.executable@))]);
    proof {
        reveal_strlit("service");
        reveal_strlit("path");
        assert("service"@.len() != "path"@.len());
        crate::config::lemma_distinct_keys2(("service"@, spec.name@), ("path"@, display(spec.executable@)));
    }
        return StartCheck::Reply(r, Some(prefixed(name, " not started: missing binary")));
    }
    if let Some(p) = spec.port {
        if !probe.port_available {
            let port = decimal_string(p);
            let msg = three("Porta ", port.as_str(), " ocupada. Pare o processo externo ou altere a configuracao.");
            let mut params: Vec<(&str, String)> = Vec::new();
            params.push(("port", port.clone()));
            let r = ActionResult::coded(false, "service.portOccupied", msg, params);
            assert(param_views(params@) =~= seq![("port"@, decimal(p as nat))]);
            let mut l = chars_of(name);
            push_str(&mut l, " did not start: port ");
            push_str(&mut l, port.as_str());
            push_str(&mut l, " was already in use.");
            return StartCheck::Reply(r, Some(string_of(&l)));
        }
    }
    if is_apache && cfg.https_enabled {
        let port = decimal_string(cfg.https_port);
        if !probe.https_port_available {
            let msg = three("Porta HTTPS ", port.as_str(), " ocupada. Outro processo está usando esta porta.");
            let mut params: Vec<(&str, String)> = Vec::new();
            params.push(("port", port.clone()));
            let r = ActionResult::coded(false, "service.httpsPortOccupied", msg, params);
            assert(param_views(params@) =~= seq![("port"@, decimal(cfg.https_port as nat))]);
            let l = three("Apache did not start: HTTPS port ", port.as_str(), " was already in use.");
            return StartCheck::Reply(r, Some(l));
        }
        if cfg.https_port < 1024 {
            let l = three("Warning: HTTPS port ", port.as_str(), " requires administrator privileges on Windows.");
            return StartCheck::Proceed(Some(l));
        }
    }
    StartCheck::Proceed(None)
}


/// How the started program was found shortly after it was started.
pub enum StartExit {
    /// It still runs.
    Running,
    /// It exited already: its exit status as shown, and its error output.
    Exited { status: String, stderr: String },
}

/// What follows a start.
pub struct StartOutcome {
    pub result: ActionResult,
    /// The line to log.
    pub log: String,
    /// Keep the child registered as the running service.
    pub keep_child: bool,
    /// Stop the projects' `php-cgi` processes.
    pub stop_cgi: bool,
}

pub struct StartOutcomeView {
    pub result: ActionResultView,
    pub log: Seq<char>,
    pub keep_child: bool,
    pub stop_cgi: bool,
}

pub enum StartExitView {
    Running,
    Exited { status: Seq<char>, stderr: Seq<char> },
}

impl View for StartExit {
    type V = StartExitView;

    open spec fn view(&self) -> StartExitView {
        match self {
            StartExit::Running => StartExitView::Running,
            StartExit::Exited { status, stderr } => StartExitView::Exited { status: status@, stderr: stderr@ },
        }
    }
}

impl View for StartOutcome {
    type V = StartOutcomeView;

    open spec fn view(&self) -> StartOutcomeView {
        StartOutcomeView { result: self.result@, log: self.log@, keep_child: self.keep_child, stop_cgi: self.stop_cgi }
    }
}

pub open spec fn started(name: Seq<char>) -> ActionResultView {
    coded_result(true, "service.started"@, name + " iniciado."@, seq![("service"@, name)])
}

/// What follows a start. `port_busy`: for Apache with a port, whether that
/// port became busy within the 8 seconds waited for it (ignored otherwise).
/// A program that exited at once failed, unless it is Apache handing over to
/// a process that holds the port; an Apache that still runs must take its
/// port within the wait; any other service runs once started.
pub open spec fn start_outcome(service: Seq<char>, s: ServiceSpecView, exit: StartExitView, port_busy: bool) -> StartOutcomeView {
    let apache_up = service == "apache"@ && s.port is Some && port_busy;
    match exit {
        StartExitView::Exited { status, stderr } => if apache_up {
            StartOutcomeView {
                result: started("Apache"@),
                log: "Apache started in external mode (parent process exited, port is active)."@,
                keep_child: false,
                stop_cgi: false,
            }
        } else {
            let message = if trim(stderr).len() == 0 {
                s.name + " encerrou imediatamente com status "@ + status + "."@
            } else {
                s.name + " não iniciou: "@ + trim(stderr)
            };
            StartOutcomeView {
                result: plain_result(false, message),
                log: message,
                keep_child: false,
                stop_cgi: service == "apache"@,
            }
        },
        StartExitView::Running => if service == "apache"@ {
            if apache_up {
                StartOutcomeView { result: started(s.name), log: s.name + " started"@, keep_child: false, stop_cgi: false }
            } else {
                StartOutcomeView {
                    result: coded_result(
                        false,
                        "service.startTimeout"@,
                        "Apache não confirmou escuta da porta após start."@,
                        seq![("service"@, "Apache"@)],
                    ),
                    log: "Apache did not confirm port listening after start (8s timeout)."@,
                    keep_child: false,
                    stop_cgi: true,
                }
            }
        } else {
            StartOutcomeView { result: started(s.name), log: s.name + " started"@, keep_child: true, stop_cgi: false }
        },
    }
}

fn started_result(name: &str) -> (r: ActionResult)
    ensures
        r@ == started(name@),
{
    let mut params: Vec<(&str, String)> = Vec::new();
    params.push(("service", name.to_owned()));
    let r = ActionResult::coded(true, "service.started", prefixed(name, " iniciado."), params);
    assert(param_views(params@) =~= seq![("service"@, name@)]);
    r
}

/// What follows the start of `service` (see `start_outcome`).
pub fn start_service_outcome(service: &str, spec: &ServiceSpec, exit: StartExit, port_busy: bool) -> (r: StartOutcome)
    ensures
        r@ == start_outcome(service@, spec@, exit@, port_busy),
{
    let is_apache = text_eq(&chars_of(service), &chars_of("apache"));
    let apache_up = is_apache && spec.port.is_some() && port_busy;
    let name = spec.name.as_str();
    match exit {
        StartExit::Exited { status, stderr } => {
            if apache_up {
                return StartOutcome {
                    result: started_result("Apache"),
                    log: "Apache started in external mode (parent process exited, port is active).".to_owned(),
                    keep_child: false,
                    stop_cgi: false,
                };
            }
            let err = trim_str(stderr.as_str());
            let message = if err.len() == 0 {
                three(name, " encerrou imediatamente com status ", status.as_str()) 
            } else {
                let mut m = chars_of(name);
                push_str(&mut m, " não iniciou: ");
                crate::text::push_all(&mut m, &err);
                string_of(&m)
            };
            let message = if err.len() == 0 {
                prefixed(message.as_str(), ".")
            } else {
                message
            };
            let log = message.clone();
            StartOutcome { result: ActionResult::message(false, message), log, keep_child: false, stop_cgi: is_apache }
        },
        StartExit::Running => {
            if is_apache {
                if apache_up {
                    StartOutcome { result: started_result(name), log: prefixed(name, " started"), keep_child: false, stop_cgi: false }
                } else {
                    let mut params: Vec<(&str, String)> = Vec::new();
                    params.push(("service", "Apache".to_owned()));
                    let r = ActionResult::coded(false, "service.startTimeout", "Apache não confirmou escuta da porta após start.".to_owned(), params);
                    assert(param_views(params@) =~= seq![("service"@, "Apache"@)]);
                    StartOutcome {
                        result: r,
                        log: "Apache did not confirm port listening after start (8s timeout).".to_owned(),
                        keep_child: false,
                        stop_cgi: true,
                    }
                }
            } else {
                StartOutcome { result: started_result(name), log: prefixed(name, " started"), keep_child: true, stop_cgi: false }
            }
        },
    }
}

/// The arguments of `httpd -t`: the test flag, then the service's arguments.
pub fn apache_test_args(spec: &ServiceSpec) -> (r: Vec<String>)
    ensures
        strings(r@) == seq!["-t"@] + spec@.args,
{
    let mut r: Vec<String> = Vec::new();
    r.push("-t".to_owned());
    let mut i: usize = 0;
    while i < spec.args.len()
        invariant
            i <= spec.args.len(),
            strings(r@) == seq!["-t"@] + strings(spec.args@).take(i as int),
        decreases spec.args.len() - i,
    {
        let ghost before = strings(r@);
        assert(strings(spec.args@)[i as int] == spec.args@[i as int]@);
        assert(strings(spec.args@).take(i + 1) =~= strings(spec.args@).take(i as int).push(spec.args@[i as int]@));
        r.push(spec.args[i].clone());
        assert(strings(r@) =~= before.push(spec.args@[i as int]@));
        i += 1;
    }
    assert(strings(spec.args@).take(spec.args.len() as int) =~= strings(spec.args@));
    r
}

/// The verdict of the Apache configuration test: nothing when it passed,
/// else the message to show and log.
pub fn apache_test_outcome(success: bool, stderr: &str, stdout: &str) -> (r: Option<String>)
    ensures
        success ==> r is None,
        !success ==> (r matches Some(m) && m@ == "Apache não iniciou: "@ + failure_detail(stderr@, stdout@, "falha sem detalhes"@)),
{
    if success {
        None
    } else {
        let d = process_failure_detail(stderr, stdout, "falha sem detalhes");
        Some(prefixed("Apache não iniciou: ", d.as_str()))
    }
}

/// The arguments that initialise the MySQL data folder of a root.
pub open spec fn mysql_init(root: Seq<char>) -> Seq<Seq<char>> {
    let ini = path_join(path_join(path_join(root, "etc"@), "mysql"@), "my.ini"@);
    let data = path_join(path_join(root, "data"@), "mysql"@);
    seq!["--defaults-file="@ + display(ini), "--datadir="@ + display(data), "--initialize-insecure"@, "--console"@]
}

/// The arguments that initialise the MySQL data folder of a root.
pub fn mysql_init_args(root: &str) -> (r: Vec<String>)
    ensures
        strings(r@) == mysql_init(root@),
{
    let e1 = join_path(root, "etc");
    let e2 = join_path(e1.as_str(), "mysql");
    let ini = join_path(e2.as_str(), "my.ini");
    let d1 = join_path(root, "data");
    let data = join_path(d1.as_str(), "mysql");
    let ini_shown = display_path(ini.as_str());
    let data_shown = display_path(data.as_str());
    let mut r: Vec<String> = Vec::new();
    r.push(prefixed("--defaults-file=", ini_shown.as_str()));
    r.push(prefixed("--datadir=", data_shown.as_str()));
    r.push("--initialize-insecure".to_owned());
    r.push("--console".to_owned());
    assert(strings(r@) =~= mysql_init(root@));
    r
}

/// The verdict of initialising the MySQL data folder: it worked when the
/// command succeeded and `ibdata1` exists; otherwise the line to log and the error.
pub fn mysql_init_outcome(success: bool, marker_exists: bool, stderr: &str, stdout: &str) -> (r: Result<(), (String, String)>)
    ensures
        success && marker_exists ==> r is Ok,
        !(success && marker_exists) ==> (r matches Err((log, err)) && log@
            == "Failed to initialize MySQL data directory: "@ + failure_detail(stderr@, stdout@, "failure without details"@)
            && err@ == "MySQL não pode inicializar datadir: "@ + failure_detail(stderr@, stdout@, "failure without details"@)),
{
    if success && marker_exists {
        return Ok(());
    }
    let d = process_failure_detail(stderr, stdout, "failure without details");
    Err((prefixed("Failed to initialize MySQL data directory: ", d.as_str()), prefixed("MySQL não pode inicializar datadir: ", d.as_str())))
}

// ---------------------------------------------------------------------------
// Stopping a service
// ---------------------------------------------------------------------------

/// The reply to stopping `service` (`had_child`: a child was registered for
/// it), and the line to log. Apache is stopped by killing every `httpd.exe`.
pub open spec fn stop_result(service: Seq<char>, had_child: bool) -> (ActionResultView, Option<Seq<char>>) {
    if service == "apache"@ {
        (coded_result(true, "service.stopped"@, "apache parado."@, seq![("service"@, "apache"@)]), Some("apache stopped"@))
    } else if !had_child {
        (coded_result(true, "service.alreadyStopped"@, "Servico ja estava parado."@, seq![("service"@, service)]), None)
    } else {
        (coded_result(true, "service.stopped"@, service + " parado."@, seq![("service"@, service)]), Some(service + " stopped"@))
    }
}

/// The reply to stopping `service`, and the line to log.
pub fn stop_service_result(service: &str, had_child: bool) -> (r: (ActionResult, Option<String>))
    ensures
        (r.0@, opt_seq(r.1)) == stop_result(service@, had_child),
{
    let mut params: Vec<(&str, String)> = Vec::new();
    if text_eq(&chars_of(service), &chars_of("apache")) {
        params.push(("service", "apache".to_owned()));
        let r = ActionResult::coded(true, "service.stopped", "apache parado.".to_owned(), params);
        assert(param_views(params@) =~= seq![("service"@, "apache"@)]);
        return (r, Some("apache stopped".to_owned()));
    }
    params.push(("service", service.to_owned()));
    assert(param_views(params@) =~= seq![("service"@, service@)]);
    if !had_child {
        (ActionResult::coded(true, "service.alreadyStopped", "Servico ja estava parado.".to_owned(), params), None)
    } else {
        (ActionResult::coded(true, "service.stopped", prefixed(service, " parado."), params), Some(prefixed(service, " stopped")))
    }
}

/// Whether a service runs: Apache when Ipeenv started it and its port is
/// taken (`port_available` is `None` when it has no port), so that a port
/// held by another program does not count; any other when a child is
/// registered for it.
pub fn service_is_running(service: &str, port_available: Option<bool>, has_child: bool, started_here: bool) -> (r: bool)
    ensures
        service@ == "apache"@ ==> r == (started_here && port_available == Some(false)),
        service@ != "apache"@ ==> r == has_child,
{
    if text_eq(&chars_of(service), &chars_of("apache")) {
        started_here && match port_available {
            Some(a) => !a,
            None => false,
        }
    } else {
        has_child
    }
}

// ---------------------------------------------------------------------------
// The php-cgi processes of the projects
// ---------------------------------------------------------------------------

/// The PHP versions of the projects, each once, in order of first use.
pub open spec fn distinct_versions(vs: Seq<Option<Seq<char>>>) -> Seq<Seq<char>>
    decreases vs.len(),
{
    if vs.len() == 0 {
        Seq::empty()
    } else {
        let rest = distinct_versions(vs.drop_last());
        match vs.last() {
            Some(v) => if rest.contains(v) {
                rest
            } else {
                rest.push(v)
            },
            None => rest,
        }
    }
}

pub open spec fn opt_strings(v: Seq<Option<String>>) -> Seq<Option<Seq<char>>> {
    v.map_values(|o: Option<String>| opt_seq(o))
}

/// The PHP versions that need a `php-cgi`: those the projects use, each once.
pub fn php_cgi_versions(project_versions: &Vec<Option<String>>) -> (r: Vec<String>)
    ensures
        strings(r@) == distinct_versions(opt_strings(project_versions@)),
{
    let ghost pv = opt_strings(project_versions@);
    let mut r: Vec<String> = Vec::new();
    let mut i: usize = 0;
    while i < project_versions.len()
        invariant
            i <= project_versions.len(),
            pv == opt_strings(project_versions@),
            strings(r@) == distinct_versions(pv.take(i as int)),
        decreases project_versions.len() - i,
    {
        proof {
            assert(pv.take(i + 1).drop_last() =~= pv.take(i as int));
            assert(pv.take(i + 1).last() == opt_seq(project_versions@[i as int]));
        }
        match &project_versions[i] {
            Some(v) => {
                let ghost rs = strings(r@);
                let mut found = false;
                let mut j: usize = 0;
                while j < r.len()
                    invariant
                        j <= r.len(),
                        rs == strings(r@),
                        found == exists|k: int| 0 <= k < j && rs[k] == v@,
                    decreases r.len() - j,
                {
                    assert(rs[j as int] == r@[j as int]@);
                    if text_eq(&chars_of(r[j].as_str()), &chars_of(v.as_str())) {
                        found = true;
                    }
                    j += 1;
                }
                if !found {
                    r.push(v.clone());
                    assert(strings(r@) =~= rs.push(v@));
                }
            },
            None => {},
        }
        i += 1;
    }
    assert(pv.take(project_versions.len() as int) =~= pv);
    r
}

/// How a project PHP version gets its `php-cgi`.
pub struct CgiStart {
    /// The name the child is registered under.
    pub key: String,
    pub program: String,
    pub work_dir: String,
    pub args: Vec<String>,
}

/// The plan for the `php-cgi` of a PHP version.
pub struct CgiPlan {
    /// Prepare the version's ini first.
    pub ensure_ini: bool,
    /// Start this process, if anything.
    pub start: Option<CgiStart>,
    /// The line to log, if any.
    pub log: Option<String>,
}

pub struct CgiPlanView {
    pub ensure_ini: bool,
    pub start: Option<(Seq<char>, Seq<char>, Seq<char>, Seq<Seq<char>>)>,
    pub log: Option<Seq<char>>,
}

impl View for CgiPlan {
    type V = CgiPlanView;

    open spec fn view(&self) -> CgiPlanView {
        CgiPlanView {
            ensure_ini: self.ensure_ini,
            start: match self.start {
                Some(s) => Some((s.key@, s.program@, s.work_dir@, strings(s.args@))),
                None => None,
            },
            log: opt_seq(self.log),
        }
    }
}

/// The `php-cgi` of `version`: none when it runs already; skipped, with a
/// log line, when no working runtime with `php-cgi.exe` serves the version;
/// otherwise the ini is prepared, and it is started on the version's port
/// with that ini unless the port is taken.
pub open spec fn cgi_plan(
    root: Seq<char>,
    version: Seq<char>,
    running: bool,
    php_dir: Option<Seq<char>>,
    invalid: Option<Seq<char>>,
    has_cgi: bool,
    ini_version: Seq<char>,
    port_available: bool,
) -> CgiPlanView {
    let port = decimal(cgi_port(version) as nat);
    if running {
        CgiPlanView { ensure_ini: false, start: None, log: None }
    } else {
        match php_dir {
            None => CgiPlanView { ensure_ini: false, start: None, log: Some("PHP "@ + version + " not found for php-cgi"@) },
            Some(dir) => match invalid {
                Some(err) => CgiPlanView {
                    ensure_ini: false,
                    start: None,
                    log: Some("PHP "@ + version + " is invalid for php-cgi: "@ + err),
                },
                None => if !has_cgi {
                    CgiPlanView { ensure_ini: false, start: None, log: Some("php-cgi.exe missing at "@ + display(dir)) }
                } else if !port_available {
                    CgiPlanView {
                        ensure_ini: true,
                        start: None,
                        log: Some("php-cgi "@ + version + " already uses or found occupied port "@ + port),
                    }
                } else {
                    CgiPlanView {
                        ensure_ini: true,
                        start: Some((
                            "php-cgi-"@ + version,
                            path_join(dir, "php-cgi.exe"@),
                            dir,
                            seq!["-b"@, "127.0.0.1:"@ + port, "-c"@, display(crate::paths::php_ini(root, ini_version))],
                        )),
                        log: Some("php-cgi "@ + version + " started at 127.0.0.1:"@ + port),
                    }
                },
            },
        }
    }
}

pub open spec fn opt_str(o: Option<&str>) -> Option<Seq<char>> {
    match o {
        Some(s) => Some(s@),
        None => None,
    }
}

/// The plan for the `php-cgi` of `version` (see `cgi_plan`): `running`, a
/// child is registered for it; `php_dir`, the runtime that serves it;
/// `invalid`, why that runtime fails its check; `has_cgi`, it holds
/// `php-cgi.exe`; `ini_version`, the version the runtime reports (else
/// `version`); `port_available`, its port (`php_cgi_port`) is free.
pub fn php_cgi_plan(
    root: &str,
    version: &str,
    running: bool,
    php_dir: Option<&str>,
    invalid: Option<&str>,
    has_cgi: bool,
    ini_version: &str,
    port_available: bool,
) -> (r: CgiPlan)
    ensures
        r@ == cgi_plan(root@, version@, running, opt_str(php_dir), opt_str(invalid), has_cgi, ini_version@, port_available),
{
    if running {
        return CgiPlan { ensure_ini: false, start: None, log: None };
    }
    let dir = match php_dir {
        None => return CgiPlan { ensure_ini: false, start: None, log: Some(three("PHP ", version, " not found for php-cgi")) },
        Some(d) => d,
    };
    if let Some(err) = invalid {
        let mut m = chars_of("PHP ");
        push_str(&mut m, version);
        push_str(&mut m, " is invalid for php-cgi: ");
        push_str(&mut m, err);
        return CgiPlan { ensure_ini: false, start: None, log: Some(string_of(&m)) };
    }
    if !has_cgi {
        let shown = display_path(dir);
        return CgiPlan { ensure_ini: false, start: None, log: Some(prefixed("php-cgi.exe missing at ", shown.as_str())) };
    }
    let port = decimal_string(php_cgi_port(version));
    if !port_available {
        let mut m = chars_of("php-cgi ");
        push_str(&mut m, version);
        push_str(&mut m, " already uses or found occupied port ");
        push_str(&mut m, port.as_str());
        return CgiPlan { ensure_ini: true, start: None, log: Some(string_of(&m)) };
    }
    let ini = crate::paths::php_ini_path(root, ini_version);
    let mut args: Vec<String> = Vec::new();
    args.push("-b".to_owned());
    args.push(prefixed("127.0.0.1:", port.as_str()));
    args.push("-c".to_owned());
    args.push(display_path(ini.as_str()));
    let mut m = chars_of("php-cgi ");
    push_str(&mut m, version);
    push_str(&mut m, " started at 127.0.0.1:");
    push_str(&mut m, port.as_str());
    let start = CgiStart {
        key: prefixed("php-cgi-", version),
        program: join_path(dir, "php-cgi.exe"),
        work_dir: dir.to_owned(),
        args,
    };
    let r = CgiPlan { ensure_ini: true, start: Some(start), log: Some(string_of(&m)) };
    assert(r@.start == cgi_plan(root@, version@, running, opt_str(php_dir), opt_str(invalid), has_cgi, ini_version@, port_available).start);
    r
}

/// The registered children that are `php-cgi` processes (named `php-cgi-<version>`).
pub open spec fn cgi_keys(keys: Seq<Seq<char>>) -> Seq<Seq<char>>
    decreases keys.len(),
{
    if keys.len() == 0 {
        Seq::empty()
    } else if crate::text::starts_with(keys.last(), "php-cgi-"@) {
        cgi_keys(keys.drop_last()).push(keys.last())
    } else {
        cgi_keys(keys.drop_last())
    }
}

/// Of the names of the registered children, those of `php-cgi` processes.
pub fn php_cgi_keys(keys: &Vec<String>) -> (r: Vec<String>)
    ensures
        strings(r@) == cgi_keys(strings(keys@)),
{
    let ghost kv = strings(keys@);
    let mut r: Vec<String> = Vec::new();
    let mut i: usize = 0;
    while i < keys.len()
        invariant
            i <= keys.len(),
            kv == strings(keys@),
            strings(r@) == cgi_keys(kv.take(i as int)),
        decreases keys.len() - i,
    {
        proof {
            assert(kv.take(i + 1).drop_last() =~= kv.take(i as int));
            assert(kv.take(i + 1).last() == keys@[i as int]@);
        }
        if crate::text::starts_with_str(&chars_of(keys[i].as_str()), "php-cgi-") {
            let ghost before = strings(r@);
            r.push(keys[i].clone());
            assert(strings(r@) =~= before.push(keys@[i as int]@));
        }
        i += 1;
    }
    assert(kv.take(keys.len() as int) =~= kv);
    r
}


/// The services listed on the dashboard: Apache, then MySQL.
pub fn service_catalog(cfg: &AppConfig, runtimes: &RuntimeListing, apache: &ServiceProbe, mysql: &ServiceProbe) -> (r: Vec<ServiceInfo>)
    ensures
        r@.len() == 2,
        r@[0]@ == service_info_of(cfg@, apache_spec(cfg@, strings(runtimes.apache@)), *apache),
        r@[1]@ == service_info_of(cfg@, mysql_spec(cfg@, strings(runtimes.mysql@)), *mysql),
{
    let mut r: Vec<ServiceInfo> = Vec::new();
    proof {
        reveal_strlit("apache");
        reveal_strlit("mysql");
    }
    match service_spec(cfg, "apache", runtimes) {
        Some(a) => r.push(service_info(cfg, &a, apache)),
        None => {},
    }
    match service_spec(cfg, "mysql", runtimes) {
        Some(m) => r.push(service_info(cfg, &m, mysql)),
        None => {},
    }
    r
}

/// Each PHP version used by a project gets one `php-cgi`: the versions
/// listed are distinct, and a version is listed exactly when a project uses it.
pub proof fn law_php_cgi_versions_distinct(vs: Seq<Option<Seq<char>>>)
    ensures
        forall|i: int, j: int|
            0 <= i < j < distinct_versions(vs).len() ==> distinct_versions(vs)[i] != distinct_versions(vs)[j],
        forall|v: Seq<char>| distinct_versions(vs).contains(v) <==> vs.contains(Some(v)),
    decreases vs.len(),
{
    if vs.len() > 0 {
        law_php_cgi_versions_distinct(vs.drop_last());
        let rest = distinct_versions(vs.drop_last());
        let d = distinct_versions(vs);
        assert forall|v: Seq<char>| d.contains(v) <==> vs.contains(Some(v)) by {
            if vs.contains(Some(v)) {
                let k = choose|k: int| 0 <= k < vs.len() && vs[k] == Some(v);
                if k < vs.len() - 1 {
                    assert(vs.drop_last()[k] == Some(v));
                    assert(rest.contains(v));
                    let m = choose|m: int| 0 <= m < rest.len() && rest[m] == v;
                    assert(d[m] == v);
                } else if !rest.contains(v) {
                    assert(d[d.len() - 1] == v);
                }
            }
            if d.contains(v) {
                let m = choose|m: int| 0 <= m < d.len() && d[m] == v;
                if m < rest.len() {
                    assert(d[m] == rest[m]);
                    assert(rest.contains(v));
                    let k = choose|k: int| 0 <= k < vs.drop_last().len() && vs.drop_last()[k] == Some(v);
                    assert(vs[k] == Some(v));
                } else {
                    assert(vs[vs.len() - 1] == Some(v));
                }
            }
        }
        assert forall|i: int, j: int| 0 <= i < j < d.len() implies d[i] != d[j] by {
            if j < rest.len() {
                assert(d[i] == rest[i] && d[j] == rest[j]);
            } else {
                assert(d[i] == rest[i]);
                if d[i] == d[j] {
                    assert(rest.contains(d[j]));
                }
            }
        }
    }
}


/// What to do while waiting for a port to become busy.
#[derive(PartialEq, Eq, Structural, Clone, Copy)]
pub enum PortWait {
    /// Stop waiting: whether the port became busy.
    Done(bool),
    /// Look again after 200 ms.
    Sleep,
}

/// One look at a port while waiting for a service to take it: a busy port
/// ends the wait; so does the timeout; otherwise the wait goes on.
pub fn port_wait_step(busy: bool, elapsed_ms: u64, timeout_ms: u64) -> (r: PortWait)
    ensures
        busy ==> r == PortWait::Done(true),
        !busy && elapsed_ms >= timeout_ms ==> r == PortWait::Done(false),
        !busy && elapsed_ms < timeout_ms ==> r == PortWait::Sleep,
{
    if busy {
        PortWait::Done(true)
    } else if elapsed_ms >= timeout_ms {
        PortWait::Done(false)
    } else {
        PortWait::Sleep
    }
}

} // verus!
