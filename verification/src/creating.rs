//! Creating a project, from the request to the reply: the name becomes the
//! folder's slug, which must not exist; the PHP version is chosen against the
//! template and installed; the files are created and the project's settings
//! written; then, as asked, local SSL is prepared and the hosts entry added;
//! the Apache configuration is regenerated and Apache (re)started. The reply
//! joins the notes gathered on the way.
//!
//! The decisions are a step function: the caller does the outside work each
//! step asks for (reporting the progress the step carries) and hands back
//! what came of it.

use vstd::prelude::*;
use crate::text::{chars_of, join, push_str, string_of};
use crate::naming::slug;
use crate::paths::{display, join_path, path_join};
use crate::catalog::{SiteTemplate, SiteTemplateView};
use crate::config::{ActionResult, ActionResultView, plain_result};
use crate::project::{
    choose_project_php, created_message, hosts_not_updated_note, opt_seq, opt_str, php_choice, project_created_note,
    project_exists_error, project_name, ssl_note,
};

verus! {

/// What a new project is asked to be.
pub struct ProjectRequest {
    pub name: String,
    pub php_version: Option<String>,
    pub template: Option<String>,
    pub enable_ssl: bool,
    pub add_host: bool,
}

pub struct ProjectRequestView {
    pub name: Seq<char>,
    pub php_version: Option<Seq<char>>,
    pub template: Option<Seq<char>>,
    pub enable_ssl: bool,
    pub add_host: bool,
}

impl View for ProjectRequest {
    type V = ProjectRequestView;

    open spec fn view(&self) -> ProjectRequestView {
        ProjectRequestView {
            name: self.name@,
            php_version: opt_seq(self.php_version),
            template: opt_seq(self.template),
            enable_ssl: self.enable_ssl,
            add_host: self.add_host,
        }
    }
}

/// What the creation of a project waits for.
#[derive(PartialEq, Eq, Structural, Clone, Copy)]
pub enum CreateStage {
    /// The request.
    Start,
    /// Whether the folder exists, the template chosen and a compatible PHP.
    Probing,
    /// The PHP version to be installed.
    EnsuringPhp,
    /// The project's files to be created.
    CreatingFiles,
    /// The project's settings to be written.
    WritingConfig,
    /// Whether local HTTPS is enabled.
    ReadingHttps,
    /// The local SSL files to be prepared.
    EnablingSsl,
    /// The hosts entry to be added.
    AddingHost,
    /// The Apache configuration to be regenerated.
    Regenerating,
    /// Whether Apache is known and installed.
    ProbingApache,
    /// Whether Apache runs.
    CheckingApache,
    /// Apache to be started or restarted.
    StartingApache,
    /// Nothing: the reply was given.
    Done,
}

/// The creation so far.
pub struct CreateState {
    pub stage: CreateStage,
    /// The application's root folder.
    pub root: String,
    /// The project's name, the slug of the name asked for.
    pub name: String,
    /// The project's folder, `www/<name>` under the root.
    pub project_dir: String,
    /// The project's domain, `<name>.test`.
    pub domain: String,
    pub request: ProjectRequest,
    /// The template chosen, once probed.
    pub template: Option<SiteTemplate>,
    /// The PHP version of the project, once chosen.
    pub php: Option<String>,
    /// The note about the PHP version chosen for the user, if any.
    pub php_note: Option<String>,
    /// The notes of the reply.
    pub notes: Vec<String>,
}

pub struct CreateStateView {
    pub stage: CreateStage,
    pub root: Seq<char>,
    pub name: Seq<char>,
    pub project_dir: Seq<char>,
    pub domain: Seq<char>,
    pub request: ProjectRequestView,
    pub template: Option<SiteTemplateView>,
    pub php: Option<Seq<char>>,
    pub php_note: Option<Seq<char>>,
    pub notes: Seq<Seq<char>>,
}

pub open spec fn template_view(t: Option<SiteTemplate>) -> Option<SiteTemplateView> {
    match t {
        Some(x) => Some(x@),
        None => None,
    }
}

impl View for CreateState {
    type V = CreateStateView;

    open spec fn view(&self) -> CreateStateView {
        CreateStateView {
            stage: self.stage,
            root: self.root@,
            name: self.name@,
            project_dir: self.project_dir@,
            domain: self.domain@,
            request: self.request@,
            template: template_view(self.template),
            php: opt_seq(self.php),
            php_note: opt_seq(self.php_note),
            notes: self.notes@.map_values(|s: String| s@),
        }
    }
}

/// What came of the last action.
pub enum CreateEvent {
    /// A project is asked for under the root folder `root`.
    Begin { root: String, request: ProjectRequest },
    /// Whether the project's folder exists already, the template chosen by
    /// the name asked for (see `load_template_by_name`), and the compatible
    /// PHP version for its bounds, if one is installed or known.
    Probed { folder_exists: bool, template: Option<SiteTemplate>, compatible: Option<String> },
    /// The PHP version is installed.
    PhpReady,
    /// The project's files were created, or why not.
    FilesCreated(Result<(), String>),
    /// The project's settings were written.
    ConfigWritten,
    /// Whether local HTTPS is enabled (`true` when the settings cannot be read).
    HttpsRead(bool),
    /// The local SSL files are prepared.
    SslEnabled,
    /// The hosts entry was handled: the message of the reply, or why not.
    HostAdded(Result<String, String>),
    /// The Apache configuration was regenerated, or its failure ignored.
    Regenerated,
    /// Whether Apache is known (`None` when not) and its program exists.
    Apache(Option<bool>),
    /// Whether Apache runs.
    Running(bool),
    /// Apache was started or restarted: whether it started, and the message.
    ApacheStarted { ok: bool, message: String },
    /// The outside work failed with this error.
    Failed(String),
}

pub enum CreateEventView {
    Begin { root: Seq<char>, request: ProjectRequestView },
    Probed { folder_exists: bool, template: Option<SiteTemplateView>, compatible: Option<Seq<char>> },
    PhpReady,
    FilesCreated(Result<(), Seq<char>>),
    ConfigWritten,
    HttpsRead(bool),
    SslEnabled,
    HostAdded(Result<Seq<char>, Seq<char>>),
    Regenerated,
    Apache(Option<bool>),
    Running(bool),
    ApacheStarted { ok: bool, message: Seq<char> },
    Failed(Seq<char>),
}

impl View for CreateEvent {
    type V = CreateEventView;

    open spec fn view(&self) -> CreateEventView {
        match self {
            CreateEvent::Begin { root, request } => CreateEventView::Begin { root: root@, request: request@ },
            CreateEvent::Probed { folder_exists, template, compatible } => CreateEventView::Probed {
                folder_exists: *folder_exists,
                template: template_view(*template),
                compatible: opt_seq(*compatible),
            },
            CreateEvent::PhpReady => CreateEventView::PhpReady,
            CreateEvent::FilesCreated(r) => CreateEventView::FilesCreated(
                match r {
                    Ok(_) => Ok(()),
                    Err(e) => Err(e@),
                },
            ),
            CreateEvent::ConfigWritten => CreateEventView::ConfigWritten,
            CreateEvent::HttpsRead(h) => CreateEventView::HttpsRead(*h),
            CreateEvent::SslEnabled => CreateEventView::SslEnabled,
            CreateEvent::HostAdded(r) => CreateEventView::HostAdded(
                match r {
                    Ok(m) => Ok(m@),
                    Err(e) => Err(e@),
                },
            ),
            CreateEvent::Regenerated => CreateEventView::Regenerated,
            CreateEvent::Apache(a) => CreateEventView::Apache(*a),
            CreateEvent::Running(r) => CreateEventView::Running(*r),
            CreateEvent::ApacheStarted { ok, message } => CreateEventView::ApacheStarted { ok: *ok, message: message@ },
            CreateEvent::Failed(e) => CreateEventView::Failed(e@),
        }
    }
}

/// What to do next. Where an action holds a progress step and percentage,
/// it is reported first as running.
pub enum CreateAction {
    /// Find out whether the project's folder exists, choose the template by
    /// the name asked for, and find a compatible PHP version for it.
    Probe(Option<(String, u8)>),
    /// Install this PHP version, if it is not.
    EnsurePhp { version: String, progress: Option<(String, u8)> },
    /// Create the project's files from the template chosen, for its PHP.
    CreateFiles(Option<(String, u8)>),
    /// Write the project's settings: its PHP version and the template asked for.
    WriteConfig,
    /// Read whether local HTTPS is enabled.
    ReadHttps(Option<(String, u8)>),
    /// Prepare the local SSL files of the domain.
    EnableSsl,
    /// Add the domain to the hosts file.
    AddHost(Option<(String, u8)>),
    /// Regenerate the Apache configuration; a failure is ignored.
    Regenerate(Option<(String, u8)>),
    /// Find out whether Apache is known and installed.
    ProbeApache(Option<(String, u8)>),
    /// Find out whether Apache runs.
    CheckApache,
    /// Restart Apache, or start it.
    StartApache { restart: bool },
    /// Log the line, report the project created, and stop with this reply.
    Finish { log: String, result: ActionResult },
    /// Stop with this error, reporting the step as failed first, if any.
    Fail { error: String, progress: Option<(String, u8)> },
    /// Remove the project's folder if it is empty, report the step as failed,
    /// and stop with this error.
    Abandon { error: String, progress: Option<(String, u8)> },
}

pub enum CreateActionView {
    Probe(Option<(Seq<char>, u8)>),
    EnsurePhp { version: Seq<char>, progress: Option<(Seq<char>, u8)> },
    CreateFiles(Option<(Seq<char>, u8)>),
    WriteConfig,
    ReadHttps(Option<(Seq<char>, u8)>),
    EnableSsl,
    AddHost(Option<(Seq<char>, u8)>),
    Regenerate(Option<(Seq<char>, u8)>),
    ProbeApache(Option<(Seq<char>, u8)>),
    CheckApache,
    StartApache { restart: bool },
    Finish { log: Seq<char>, result: ActionResultView },
    Fail { error: Seq<char>, progress: Option<(Seq<char>, u8)> },
    Abandon { error: Seq<char>, progress: Option<(Seq<char>, u8)> },
}

pub open spec fn step_view(p: Option<(String, u8)>) -> Option<(Seq<char>, u8)> {
    match p {
        Some((s, n)) => Some((s@, n)),
        None => None,
    }
}

impl View for CreateAction {
    type V = CreateActionView;

    open spec fn view(&self) -> CreateActionView {
        match self {
            CreateAction::Probe(p) => CreateActionView::Probe(step_view(*p)),
            CreateAction::EnsurePhp { version, progress } => CreateActionView::EnsurePhp {
                version: version@,
                progress: step_view(*progress),
            },
            CreateAction::CreateFiles(p) => CreateActionView::CreateFiles(step_view(*p)),
            CreateAction::WriteConfig => CreateActionView::WriteConfig,
            CreateAction::ReadHttps(p) => CreateActionView::ReadHttps(step_view(*p)),
            CreateAction::EnableSsl => CreateActionView::EnableSsl,
            CreateAction::AddHost(p) => CreateActionView::AddHost(step_view(*p)),
            CreateAction::Regenerate(p) => CreateActionView::Regenerate(step_view(*p)),
            CreateAction::ProbeApache(p) => CreateActionView::ProbeApache(step_view(*p)),
            CreateAction::CheckApache => CreateActionView::CheckApache,
            CreateAction::StartApache { restart } => CreateActionView::StartApache { restart: *restart },
            CreateAction::Finish { log, result } => CreateActionView::Finish { log: log@, result: result@ },
            CreateAction::Fail { error, progress } => CreateActionView::Fail {
                error: error@,
                progress: step_view(*progress),
            },
            CreateAction::Abandon { error, progress } => CreateActionView::Abandon {
                error: error@,
                progress: step_view(*progress),
            },
        }
    }
}

/// A progress step at a percentage.
pub open spec fn step(text: Seq<char>, percent: u8) -> Option<(Seq<char>, u8)> {
    Some((text, percent))
}

/// The state at the given stage, otherwise unchanged.
pub open spec fn at(s: CreateStateView, stage: CreateStage) -> CreateStateView {
    CreateStateView { stage, ..s }
}

/// The state with one more note.
pub open spec fn noted(s: CreateStateView, note: Seq<char>) -> CreateStateView {
    CreateStateView { notes: s.notes.push(note), ..s }
}

/// After SSL: the hosts entry when asked for, then the Apache configuration.
pub open spec fn after_ssl(s: CreateStateView) -> (CreateStateView, CreateActionView) {
    if s.request.add_host {
        (at(s, CreateStage::AddingHost), CreateActionView::AddHost(step("Atualizando hosts"@, 82)))
    } else {
        (at(s, CreateStage::Regenerating), CreateActionView::Regenerate(step("Regenerando configurações"@, 92)))
    }
}

/// The end: the log line and the reply, the notes joined by `; `.
pub open spec fn finished(s: CreateStateView) -> (CreateStateView, CreateActionView) {
    (
        at(s, CreateStage::Done),
        CreateActionView::Finish {
            log: "Project '"@ + s.name + "' created"@,
            result: plain_result(true, join(s.notes, "; "@)),
        },
    )
}

/// The action a stage waits on, asked for again when an event does not
/// answer it.
pub open spec fn awaited(s: CreateStateView) -> CreateActionView {
    match s.stage {
        CreateStage::Probing => CreateActionView::Probe(None),
        CreateStage::EnsuringPhp => CreateActionView::EnsurePhp {
            version: match s.php {
                Some(v) => v,
                None => Seq::empty(),
            },
            progress: None,
        },
        CreateStage::CreatingFiles => CreateActionView::CreateFiles(None),
        CreateStage::WritingConfig => CreateActionView::WriteConfig,
        CreateStage::ReadingHttps => CreateActionView::ReadHttps(None),
        CreateStage::EnablingSsl => CreateActionView::EnableSsl,
        CreateStage::AddingHost => CreateActionView::AddHost(None),
        CreateStage::Regenerating => CreateActionView::Regenerate(None),
        CreateStage::ProbingApache => CreateActionView::ProbeApache(None),
        CreateStage::CheckingApache => CreateActionView::CheckApache,
        CreateStage::StartingApache => CreateActionView::StartApache { restart: false },
        CreateStage::Start | CreateStage::Done => CreateActionView::Fail {
            error: "Informe um nome de projeto valido."@,
            progress: None,
        },
    }
}

/// One step of creating a project: a name without slug is refused, and so
/// is a project whose folder exists; the PHP version is chosen by
/// `php_choice` and installed; files that cannot be created abandon the
/// project; after its settings are written, the notes begin with the folder
/// created and the PHP note; SSL is prepared when asked for and HTTPS is
/// enabled; the hosts entry is added when asked for, its failure noted; the
/// Apache configuration is regenerated; an installed Apache is restarted when
/// it runs and started otherwise, its failure ending the creation with its
/// message, its success noted; Apache not installed is noted. Failed outside
/// work ends the creation with its error.
pub open spec fn create_step(s: CreateStateView, e: CreateEventView) -> (CreateStateView, CreateActionView) {
    match e {
        CreateEventView::Failed(err) => if s.stage == CreateStage::Done {
            (s, awaited(s))
        } else {
            (at(s, CreateStage::Done), CreateActionView::Fail { error: err, progress: None })
        },
        _ => match (s.stage, e) {
            (CreateStage::Start, CreateEventView::Begin { root, request }) => {
                let name = slug(request.name);
                if name.len() == 0 {
                    (
                        at(s, CreateStage::Done),
                        CreateActionView::Fail { error: "Informe um nome de projeto valido."@, progress: None },
                    )
                } else {
                    (
                        CreateStateView {
                            stage: CreateStage::Probing,
                            root,
                            name,
                            project_dir: path_join(path_join(root, "www"@), name),
                            domain: name + ".test"@,
                            request,
                            template: None,
                            php: None,
                            php_note: None,
                            notes: Seq::empty(),
                        },
                        CreateActionView::Probe(step("Validando projeto"@, 5)),
                    )
                }
            },
            (CreateStage::Probing, CreateEventView::Probed { folder_exists, template, compatible }) => if folder_exists {
                (
                    at(s, CreateStage::Done),
                    CreateActionView::Fail {
                        error: "O projeto '"@ + s.name + "' ja existe."@,
                        progress: step("Projeto ja existe"@, 100),
                    },
                )
            } else {
                match php_choice(s.request.php_version, template, compatible) {
                    Err(err) => (at(s, CreateStage::Done), CreateActionView::Fail { error: err, progress: None }),
                    Ok((php, note)) => {
                        let t = CreateStateView { template, php, php_note: note, ..s };
                        match php {
                            Some(v) => (
                                at(t, CreateStage::EnsuringPhp),
                                CreateActionView::EnsurePhp { version: v, progress: step("Verificando PHP "@ + v, 15) },
                            ),
                            None => (
                                at(t, CreateStage::CreatingFiles),
                                CreateActionView::CreateFiles(step("Criando arquivos do projeto"@, 35)),
                            ),
                        }
                    },
                }
            },
            (CreateStage::EnsuringPhp, CreateEventView::PhpReady) => (
                at(s, CreateStage::CreatingFiles),
                CreateActionView::CreateFiles(step("Criando arquivos do projeto"@, 35)),
            ),
            (CreateStage::CreatingFiles, CreateEventView::FilesCreated(r)) => match r {
                Err(err) => (
                    at(s, CreateStage::Done),
                    CreateActionView::Abandon { error: err, progress: step("Falha ao criar projeto"@, 100) },
                ),
                Ok(_) => (at(s, CreateStage::WritingConfig), CreateActionView::WriteConfig),
            },
            (CreateStage::WritingConfig, CreateEventView::ConfigWritten) => {
                let created = noted(s, "Projeto criado em "@ + display(s.project_dir));
                let t = match s.php_note {
                    Some(n) => noted(created, n),
                    None => created,
                };
                if s.request.enable_ssl {
                    (at(t, CreateStage::ReadingHttps), CreateActionView::ReadHttps(step("Preparando SSL local"@, 70)))
                } else {
                    after_ssl(t)
                }
            },
            (CreateStage::ReadingHttps, CreateEventView::HttpsRead(https)) => if https {
                (at(s, CreateStage::EnablingSsl), CreateActionView::EnableSsl)
            } else {
                after_ssl(noted(s, "HTTPS local está desabilitado nas preferências"@))
            },
            (CreateStage::EnablingSsl, CreateEventView::SslEnabled) => after_ssl(
                noted(s, "arquivos SSL locais preparados"@),
            ),
            (CreateStage::AddingHost, CreateEventView::HostAdded(r)) => {
                let t = match r {
                    Ok(m) => noted(s, m),
                    Err(err) => noted(s, "hosts não atualizado: "@ + err),
                };
                (at(t, CreateStage::Regenerating), CreateActionView::Regenerate(step("Regenerando configurações"@, 92)))
            },
            (CreateStage::Regenerating, CreateEventView::Regenerated) => (
                at(s, CreateStage::ProbingApache),
                CreateActionView::ProbeApache(step("Iniciando Apache"@, 96)),
            ),
            (CreateStage::ProbingApache, CreateEventView::Apache(found)) => match found {
                None => finished(s),
                Some(installed) => if installed {
                    (at(s, CreateStage::CheckingApache), CreateActionView::CheckApache)
                } else {
                    finished(noted(s, "Apache ainda não está instalado"@))
                },
            },
            (CreateStage::CheckingApache, CreateEventView::Running(running)) => (
                at(s, CreateStage::StartingApache),
                CreateActionView::StartApache { restart: running },
            ),
            (CreateStage::StartingApache, CreateEventView::ApacheStarted { ok, message }) => if ok {
                finished(noted(s, message))
            } else {
                (
                    at(s, CreateStage::Done),
                    CreateActionView::Fail { error: message, progress: step("Apache não iniciou"@, 96) },
                )
            },
            _ => (s, awaited(s)),
        },
    }
}

/// How many steps at most are left before the creation is done.
pub open spec fn steps_left(stage: CreateStage) -> nat {
    match stage {
        CreateStage::Start => 12,
        CreateStage::Probing => 11,
        CreateStage::EnsuringPhp => 10,
        CreateStage::CreatingFiles => 9,
        CreateStage::WritingConfig => 8,
        CreateStage::ReadingHttps => 7,
        CreateStage::EnablingSsl => 6,
        CreateStage::AddingHost => 5,
        CreateStage::Regenerating => 4,
        CreateStage::ProbingApache => 3,
        CreateStage::CheckingApache => 2,
        CreateStage::StartingApache => 1,
        CreateStage::Done => 0,
    }
}

/// The creation never goes back: every step either leaves the state as it
/// was (an event that does not answer what it waits for) or moves it
/// strictly closer to the end, so it asks for at most twelve actions; once
/// done, it stays done.
pub proof fn law_create_steps_move_forward(s: CreateStateView, e: CreateEventView)
    ensures
        create_step(s, e).0 == s || steps_left(create_step(s, e).0.stage) < steps_left(s.stage),
        s.stage == CreateStage::Done ==> create_step(s, e).0 == s,
{
}

/// The notes of a created project never shrink: each step keeps the notes it
/// was given as the start of the notes it hands on, once the project's
/// settings are written.
pub proof fn law_create_notes_only_grow(s: CreateStateView, e: CreateEventView)
    requires
        s.stage != CreateStage::Start,
    ensures
        s.notes.is_prefix_of(create_step(s, e).0.notes),
{
    let n = create_step(s, e).0.notes;
    assert(n.len() >= s.notes.len());
    assert(n.subrange(0, s.notes.len() as int) =~= s.notes);
}

/// The state of a creation that has not begun: at `Start`, with every text
/// empty, no request options, no template, PHP or note chosen, and no notes.
pub open spec fn not_begun() -> CreateStateView {
    CreateStateView {
        stage: CreateStage::Start,
        root: Seq::empty(),
        name: Seq::empty(),
        project_dir: Seq::empty(),
        domain: Seq::empty(),
        request: ProjectRequestView {
            name: Seq::empty(),
            php_version: None,
            template: None,
            enable_ssl: false,
            add_host: false,
        },
        template: None,
        php: None,
        php_note: None,
        notes: Seq::empty(),
    }
}

/// A creation that has not begun.
pub fn create_begin() -> (r: CreateState)
    ensures
        r@ == not_begun(),
{
    let r = CreateState {
        stage: CreateStage::Start,
        root: String::new(),
        name: String::new(),
        project_dir: String::new(),
        domain: String::new(),
        request: ProjectRequest { name: String::new(), php_version: None, template: None, enable_ssl: false, add_host: false },
        template: None,
        php: None,
        php_note: None,
        notes: Vec::new(),
    };
    assert(r@.notes =~= Seq::<Seq<char>>::empty());
    r
}

fn concat(a: &str, b: &str) -> (r: String)
    ensures
        r@ == a@ + b@,
{
    let mut m = chars_of(a);
    push_str(&mut m, b);
    string_of(&m)
}

fn running_step(text: &str, percent: u8) -> (r: Option<(String, u8)>)
    ensures
        step_view(r) == step(text@, percent),
{
    Some((text.to_owned(), percent))
}

fn with_stage(s: CreateState, stage: CreateStage) -> (r: CreateState)
    ensures
        r@ == at(s@, stage),
{
    CreateState { stage, ..s }
}

fn push_note(s: CreateState, note: String) -> (r: CreateState)
    ensures
        r@ == noted(s@, note@),
{
    let mut notes = s.notes;
    let ghost before = notes@.map_values(|x: String| x@);
    notes.push(note);
    assert(notes@.map_values(|x: String| x@) =~= before.push(note@));
    CreateState { notes, ..s }
}

fn after_ssl_exec(s: CreateState) -> (r: (CreateState, CreateAction))
    ensures
        (r.0@, r.1@) == after_ssl(s@),
{
    if s.request.add_host {
        (with_stage(s, CreateStage::AddingHost), CreateAction::AddHost(running_step("Atualizando hosts", 82)))
    } else {
        (
            with_stage(s, CreateStage::Regenerating),
            CreateAction::Regenerate(running_step("Regenerando configurações", 92)),
        )
    }
}

fn finished_exec(s: CreateState) -> (r: (CreateState, CreateAction))
    ensures
        (r.0@, r.1@) == finished(s@),
{
    let mut m = chars_of("Project '");
    push_str(&mut m, s.name.as_str());
    push_str(&mut m, "' created");
    let log = string_of(&m);
    let result = created_message(&s.notes);
    (with_stage(s, CreateStage::Done), CreateAction::Finish { log, result })
}

fn awaited_exec(s: &CreateState) -> (r: CreateAction)
    ensures
        r@ == awaited(s@),
{
    match s.stage {
        CreateStage::Probing => CreateAction::Probe(None),
        CreateStage::EnsuringPhp => {
            let version = match &s.php {
                Some(v) => v.clone(),
                None => String::new(),
            };
            CreateAction::EnsurePhp { version, progress: None }
        },
        CreateStage::CreatingFiles => CreateAction::CreateFiles(None),
        CreateStage::WritingConfig => CreateAction::WriteConfig,
        CreateStage::ReadingHttps => CreateAction::ReadHttps(None),
        CreateStage::EnablingSsl => CreateAction::EnableSsl,
        CreateStage::AddingHost => CreateAction::AddHost(None),
        CreateStage::Regenerating => CreateAction::Regenerate(None),
        CreateStage::ProbingApache => CreateAction::ProbeApache(None),
        CreateStage::CheckingApache => CreateAction::CheckApache,
        CreateStage::StartingApache => CreateAction::StartApache { restart: false },
        CreateStage::Start | CreateStage::Done => CreateAction::Fail {
            error: "Informe um nome de projeto valido.".to_owned(),
            progress: None,
        },
    }
}

fn as_str_opt(o: &Option<String>) -> (r: Option<&str>)
    ensures
        opt_str(r) == opt_seq(*o),
{
    match o {
        Some(s) => Some(s.as_str()),
        None => None,
    }
}

fn probed(s: CreateState, template: Option<SiteTemplate>, compatible: Option<String>) -> (r: (CreateState, CreateAction))
    requires
        s.stage == CreateStage::Probing,
    ensures
        (r.0@, r.1@) == (match php_choice(s@.request.php_version, template_view(template), opt_seq(compatible)) {
            Err(err) => (at(s@, CreateStage::Done), CreateActionView::Fail { error: err, progress: None }),
            Ok((php, note)) => {
                let t = CreateStateView { template: template_view(template), php, php_note: note, ..s@ };
                match php {
                    Some(v) => (
                        at(t, CreateStage::EnsuringPhp),
                        CreateActionView::EnsurePhp { version: v, progress: step("Verificando PHP "@ + v, 15) },
                    ),
                    None => (
                        at(t, CreateStage::CreatingFiles),
                        CreateActionView::CreateFiles(step("Criando arquivos do projeto"@, 35)),
                    ),
                }
            },
        }),
{
    let choice = choose_project_php(as_str_opt(&s.request.php_version), template.as_ref(), compatible);
    proof {
        assert(match template {
            Some(t) => Some(t@),
            None => None,
        } == template_view(template));
    }
    match choice {
        Err(err) => (with_stage(s, CreateStage::Done), CreateAction::Fail { error: err, progress: None }),
        Ok((php, note)) => match php {
            Some(v) => {
                let text = concat("Verificando PHP ", v.as_str());
                let version = v.clone();
                let t = CreateState { stage: CreateStage::EnsuringPhp, template, php: Some(v), php_note: note, ..s };
                (t, CreateAction::EnsurePhp { version, progress: Some((text, 15u8)) })
            },
            None => {
                let t = CreateState { stage: CreateStage::CreatingFiles, template, php: None, php_note: note, ..s };
                (t, CreateAction::CreateFiles(running_step("Criando arquivos do projeto", 35)))
            },
        },
    }
}

fn config_written(s: CreateState) -> (r: (CreateState, CreateAction))
    ensures
        (r.0@, r.1@) == ({
            let created = noted(s@, "Projeto criado em "@ + display(s@.project_dir));
            let t = match s@.php_note {
                Some(n) => noted(created, n),
                None => created,
            };
            if s@.request.enable_ssl {
                (at(t, CreateStage::ReadingHttps), CreateActionView::ReadHttps(step("Preparando SSL local"@, 70)))
            } else {
                after_ssl(t)
            }
        }),
{
    let note = project_created_note(s.project_dir.as_str());
    let php_note = match &s.php_note {
        Some(n) => Some(n.clone()),
        None => None,
    };
    let created = push_note(s, note);
    let t = match php_note {
        Some(n) => push_note(created, n),
        None => created,
    };
    if t.request.enable_ssl {
        (with_stage(t, CreateStage::ReadingHttps), CreateAction::ReadHttps(running_step("Preparando SSL local", 70)))
    } else {
        after_ssl_exec(t)
    }
}

/// One step of creating a project (see `create_step`).
pub fn create_project_step(state: CreateState, event: CreateEvent) -> (r: (CreateState, CreateAction))
    ensures
        (r.0@, r.1@) == create_step(state@, event@),
{
    if let CreateEvent::Failed(err) = event {
        if state.stage == CreateStage::Done {
            let a = awaited_exec(&state);
            return (state, a);
        }
        return (with_stage(state, CreateStage::Done), CreateAction::Fail { error: err, progress: None });
    }
    match (state.stage, event) {
        (CreateStage::Start, CreateEvent::Begin { root, request }) => match project_name(request.name.as_str()) {
            Err(err) => (with_stage(state, CreateStage::Done), CreateAction::Fail { error: err, progress: None }),
            Ok(name) => {
                let www = join_path(root.as_str(), "www");
                let project_dir = join_path(www.as_str(), name.as_str());
                let domain = concat(name.as_str(), ".test");
                let notes: Vec<String> = Vec::new();
                proof {
                    assert(notes@.map_values(|x: String| x@) =~= Seq::<Seq<char>>::empty());
                }
                (
                    CreateState {
                        stage: CreateStage::Probing,
                        root,
                        name,
                        project_dir,
                        domain,
                        request,
                        template: None,
                        php: None,
                        php_note: None,
                        notes,
                    },
                    CreateAction::Probe(running_step("Validando projeto", 5)),
                )
            },
        },
        (CreateStage::Probing, CreateEvent::Probed { folder_exists, template, compatible }) => {
            if folder_exists {
                let error = project_exists_error(state.name.as_str());
                (
                    with_stage(state, CreateStage::Done),
                    CreateAction::Fail { error, progress: running_step("Projeto ja existe", 100) },
                )
            } else {
                probed(state, template, compatible)
            }
        },
        (CreateStage::EnsuringPhp, CreateEvent::PhpReady) => (
            with_stage(state, CreateStage::CreatingFiles),
            CreateAction::CreateFiles(running_step("Criando arquivos do projeto", 35)),
        ),
        (CreateStage::CreatingFiles, CreateEvent::FilesCreated(r)) => match r {
            Err(err) => (
                with_stage(state, CreateStage::Done),
                CreateAction::Abandon { error: err, progress: running_step("Falha ao criar projeto", 100) },
            ),
            Ok(_) => (with_stage(state, CreateStage::WritingConfig), CreateAction::WriteConfig),
        },
        (CreateStage::WritingConfig, CreateEvent::ConfigWritten) => config_written(state),
        (CreateStage::ReadingHttps, CreateEvent::HttpsRead(https)) => {
            if https {
                (with_stage(state, CreateStage::EnablingSsl), CreateAction::EnableSsl)
            } else {
                after_ssl_exec(push_note(state, ssl_note(false).to_owned()))
            }
        },
        (CreateStage::EnablingSsl, CreateEvent::SslEnabled) => after_ssl_exec(push_note(state, ssl_note(true).to_owned())),
        (CreateStage::AddingHost, CreateEvent::HostAdded(r)) => {
            let t = match r {
                Ok(m) => push_note(state, m),
                Err(err) => push_note(state, hosts_not_updated_note(err.as_str())),
            };
            (
                with_stage(t, CreateStage::Regenerating),
                CreateAction::Regenerate(running_step("Regenerando configurações", 92)),
            )
        },
        (CreateStage::Regenerating, CreateEvent::Regenerated) => (
            with_stage(state, CreateStage::ProbingApache),
            CreateAction::ProbeApache(running_step("Iniciando Apache", 96)),
        ),
        (CreateStage::ProbingApache, CreateEvent::Apache(found)) => match found {
            None => finished_exec(state),
            Some(installed) => {
                if installed {
                    (with_stage(state, CreateStage::CheckingApache), CreateAction::CheckApache)
                } else {
                    finished_exec(push_note(state, "Apache ainda não está instalado".to_owned()))
                }
            },
        },
        (CreateStage::CheckingApache, CreateEvent::Running(running)) => (
            with_stage(state, CreateStage::StartingApache),
            CreateAction::StartApache { restart: running },
        ),
        (CreateStage::StartingApache, CreateEvent::ApacheStarted { ok, message }) => {
            if ok {
                finished_exec(push_note(state, message))
            } else {
                (
                    with_stage(state, CreateStage::Done),
                    CreateAction::Fail { error: message, progress: running_step("Apache não iniciou", 96) },
                )
            }
        },
        _ => {
            let a = awaited_exec(&state);
            (state, a)
        },
    }
}

} // verus!
