//! Opening a project in the browser: its hosts entry is added when missing,
//! Apache is started (or its configuration regenerated when it runs), and
//! the project's address is handed to the browser.
//!
//! The decisions are a step function: the caller does the outside work each
//! step asks for and hands back what came of it.

use vstd::prelude::*;
use crate::text::join;
use crate::paths::display;
use crate::config::{ActionResult, ActionResultView, coded_result, plain_result};
use crate::project::{apache_missing_for_project, apache_start_failed, hosts_permission_required, opened_message};

verus! {

/// What the opening of a project waits for.
#[derive(PartialEq, Eq, Structural, Clone, Copy)]
pub enum OpenStage {
    /// The project to open.
    Start,
    /// The hosts entry to be added.
    AddingHost,
    /// The hosts text, read again after adding the entry.
    ReadingHosts,
    /// Apache's program, and whether it exists.
    ProbingApache,
    /// Whether Apache runs.
    CheckingApache,
    /// The Apache configuration to be regenerated.
    Regenerating,
    /// Apache to be started.
    StartingApache,
    /// The browser to be handed the address.
    OpeningUrl,
    /// Nothing: the reply was given.
    Done,
}

/// The opening so far: the stage, the project's domain and address, and the
/// notes gathered for the reply.
pub struct OpenState {
    pub stage: OpenStage,
    pub domain: String,
    pub url: String,
    pub notes: Vec<String>,
}

pub struct OpenStateView {
    pub stage: OpenStage,
    pub domain: Seq<char>,
    pub url: Seq<char>,
    pub notes: Seq<Seq<char>>,
}

impl View for OpenState {
    type V = OpenStateView;

    open spec fn view(&self) -> OpenStateView {
        OpenStateView {
            stage: self.stage,
            domain: self.domain@,
            url: self.url@,
            notes: self.notes@.map_values(|s: String| s@),
        }
    }
}

/// What came of the last action.
pub enum OpenEvent {
    /// The project was found: its domain, whether the hosts file points it at this machine,
    /// and the address it opens at (see `project_url`).
    Begin { domain: String, host_configured: bool, url: String },
    /// The hosts entry was handled; the message of the reply.
    HostAdded(String),
    /// The text of the hosts file, empty when it cannot be read.
    HostsRead(String),
    /// Apache's program, `None` when Apache is unknown, and whether it exists.
    Apache { executable: Option<String>, exists: bool },
    /// Whether Apache runs.
    Running(bool),
    /// The configuration was regenerated.
    Regenerated,
    /// Apache was asked to start: whether it started, and the message.
    Started { ok: bool, message: String },
    /// The browser was asked to open the address: whether that worked.
    UrlOpened(bool),
    /// The outside work failed with this error.
    Failed(String),
}

pub enum OpenEventView {
    Begin { domain: Seq<char>, host_configured: bool, url: Seq<char> },
    HostAdded(Seq<char>),
    HostsRead(Seq<char>),
    Apache { executable: Option<Seq<char>>, exists: bool },
    Running(bool),
    Regenerated,
    Started { ok: bool, message: Seq<char> },
    UrlOpened(bool),
    Failed(Seq<char>),
}

impl View for OpenEvent {
    type V = OpenEventView;

    open spec fn view(&self) -> OpenEventView {
        match self {
            OpenEvent::Begin { domain, host_configured, url } => OpenEventView::Begin {
                domain: domain@,
                host_configured: *host_configured,
                url: url@,
            },
            OpenEvent::HostAdded(m) => OpenEventView::HostAdded(m@),
            OpenEvent::HostsRead(t) => OpenEventView::HostsRead(t@),
            OpenEvent::Apache { executable, exists } => OpenEventView::Apache {
                executable: match executable {
                    Some(e) => Some(e@),
                    None => None,
                },
                exists: *exists,
            },
            OpenEvent::Running(r) => OpenEventView::Running(*r),
            OpenEvent::Regenerated => OpenEventView::Regenerated,
            OpenEvent::Started { ok, message } => OpenEventView::Started { ok: *ok, message: message@ },
            OpenEvent::UrlOpened(ok) => OpenEventView::UrlOpened(*ok),
            OpenEvent::Failed(e) => OpenEventView::Failed(e@),
        }
    }
}

/// What to do next.
pub enum OpenAction {
    /// Add the domain to the hosts file (see `add_host`).
    AddHost(String),
    /// Read the hosts file.
    ReadHosts,
    /// Find Apache's program.
    ProbeApache,
    /// Find out whether Apache runs.
    CheckApache,
    /// Regenerate the Apache configuration.
    Regenerate,
    /// Start Apache.
    StartApache,
    /// Hand the address to the browser.
    OpenUrl(String),
    /// Stop with this reply.
    Reply(ActionResult),
    /// Stop with this error.
    Fail(String),
}

pub enum OpenActionView {
    AddHost(Seq<char>),
    ReadHosts,
    ProbeApache,
    CheckApache,
    Regenerate,
    StartApache,
    OpenUrl(Seq<char>),
    Reply(ActionResultView),
    Fail(Seq<char>),
}

impl View for OpenAction {
    type V = OpenActionView;

    open spec fn view(&self) -> OpenActionView {
        match self {
            OpenAction::AddHost(d) => OpenActionView::AddHost(d@),
            OpenAction::ReadHosts => OpenActionView::ReadHosts,
            OpenAction::ProbeApache => OpenActionView::ProbeApache,
            OpenAction::CheckApache => OpenActionView::CheckApache,
            OpenAction::Regenerate => OpenActionView::Regenerate,
            OpenAction::StartApache => OpenActionView::StartApache,
            OpenAction::OpenUrl(u) => OpenActionView::OpenUrl(u@),
            OpenAction::Reply(r) => OpenActionView::Reply(r@),
            OpenAction::Fail(e) => OpenActionView::Fail(e@),
        }
    }
}

/// The note when Apache was running already.
pub open spec fn regenerated_note() -> Seq<char> {
    "Configurações regeneradas; Apache já estava em execução."@
}

/// The state at the given stage, otherwise unchanged.
pub open spec fn at(s: OpenStateView, stage: OpenStage) -> OpenStateView {
    OpenStateView { stage, ..s }
}

/// The state at the given stage, with one more note.
pub open spec fn noted(s: OpenStateView, stage: OpenStage, note: Seq<char>) -> OpenStateView {
    OpenStateView { stage, notes: s.notes.push(note), ..s }
}

/// The action a stage waits on, asked for again when an event does not answer it.
pub open spec fn awaited(s: OpenStateView) -> OpenActionView {
    match s.stage {
        OpenStage::AddingHost => OpenActionView::AddHost(s.domain),
        OpenStage::ReadingHosts => OpenActionView::ReadHosts,
        OpenStage::ProbingApache => OpenActionView::ProbeApache,
        OpenStage::CheckingApache => OpenActionView::CheckApache,
        OpenStage::Regenerating => OpenActionView::Regenerate,
        OpenStage::StartingApache => OpenActionView::StartApache,
        OpenStage::OpeningUrl => OpenActionView::OpenUrl(s.url),
        OpenStage::Start | OpenStage::Done => OpenActionView::Fail("Projeto não informado."@),
    }
}

/// One step of opening a project: a project without hosts entry gets one,
/// and unless the hosts file then points the domain at this machine the user is asked to
/// confirm the permission; an unknown Apache is an error and a missing one is
/// refused; a running Apache has its configuration regenerated, a stopped
/// one is started, and one that fails to start is reported; finally the
/// address is handed to the browser and the reply joins the notes gathered
/// (the hosts reply, the Apache note, the address) with spaces. Failed
/// outside work ends the opening with its error.
pub open spec fn open_step(s: OpenStateView, e: OpenEventView) -> (OpenStateView, OpenActionView) {
    match e {
        OpenEventView::Failed(err) => if s.stage == OpenStage::Done {
            (s, awaited(s))
        } else {
            (at(s, OpenStage::Done), OpenActionView::Fail(err))
        },
        _ => match (s.stage, e) {
            (OpenStage::Start, OpenEventView::Begin { domain, host_configured, url }) => {
                let t = OpenStateView { stage: OpenStage::Start, domain, url, notes: Seq::empty() };
                if host_configured {
                    (at(t, OpenStage::ProbingApache), OpenActionView::ProbeApache)
                } else {
                    (at(t, OpenStage::AddingHost), OpenActionView::AddHost(domain))
                }
            },
            (OpenStage::AddingHost, OpenEventView::HostAdded(message)) => (
                noted(s, OpenStage::ReadingHosts, message),
                OpenActionView::ReadHosts,
            ),
            (OpenStage::ReadingHosts, OpenEventView::HostsRead(hosts)) => if crate::hosts::hosted(hosts, s.domain) {
                (at(s, OpenStage::ProbingApache), OpenActionView::ProbeApache)
            } else {
                (
                    at(s, OpenStage::Done),
                    OpenActionView::Reply(
                        coded_result(
                            false,
                            "hosts.permissionRequired"@,
                            "Confirme a permissão para adicionar "@ + s.domain
                                + " ao hosts e tente abrir novamente."@,
                            seq![("domain"@, s.domain)],
                        ),
                    ),
                )
            },
            (OpenStage::ProbingApache, OpenEventView::Apache { executable, exists }) => match executable {
                None => (at(s, OpenStage::Done), OpenActionView::Fail("Servico Apache desconhecido."@)),
                Some(exe) => if exists {
                    (at(s, OpenStage::CheckingApache), OpenActionView::CheckApache)
                } else {
                    (
                        at(s, OpenStage::Done),
                        OpenActionView::Reply(
                            coded_result(
                                false,
                                "apache.missingForProject"@,
                                "Apache não encontrado em "@ + display(exe)
                                    + ". Instale o Apache pelo catálogo de pacotes antes de abrir "@ + s.domain + "."@,
                                seq![("path"@, display(exe)), ("domain"@, s.domain)],
                            ),
                        ),
                    )
                },
            },
            (OpenStage::CheckingApache, OpenEventView::Running(running)) => if running {
                (at(s, OpenStage::Regenerating), OpenActionView::Regenerate)
            } else {
                (at(s, OpenStage::StartingApache), OpenActionView::StartApache)
            },
            (OpenStage::Regenerating, OpenEventView::Regenerated) => (
                noted(s, OpenStage::OpeningUrl, regenerated_note()),
                OpenActionView::OpenUrl(s.url),
            ),
            (OpenStage::StartingApache, OpenEventView::Started { ok, message }) => if ok {
                (noted(s, OpenStage::OpeningUrl, message), OpenActionView::OpenUrl(s.url))
            } else {
                (
                    at(s, OpenStage::Done),
                    OpenActionView::Reply(
                        coded_result(
                            false,
                            "apache.startFailed"@,
                            "Não foi possível iniciar o Apache: "@ + message,
                            seq![("message"@, message)],
                        ),
                    ),
                )
            },
            (OpenStage::OpeningUrl, OpenEventView::UrlOpened(ok)) => {
                let t = noted(s, OpenStage::Done, "Abrindo "@ + s.url + "."@);
                (t, OpenActionView::Reply(plain_result(ok, join(t.notes, " "@))))
            },
            _ => (s, awaited(s)),
        },
    }
}

/// How many steps at most are left before the opening is done.
pub open spec fn steps_left(stage: OpenStage) -> nat {
    match stage {
        OpenStage::Start => 7,
        OpenStage::AddingHost => 6,
        OpenStage::ReadingHosts => 5,
        OpenStage::ProbingApache => 4,
        OpenStage::CheckingApache => 3,
        OpenStage::Regenerating | OpenStage::StartingApache => 2,
        OpenStage::OpeningUrl => 1,
        OpenStage::Done => 0,
    }
}

/// The opening never goes back: every step either leaves the state as it was
/// (an event that does not answer what it waits for) or moves it strictly
/// closer to the end, so it asks for at most seven actions; once done, it
/// stays done and its notes stay as they were.
pub proof fn law_open_steps_move_forward(s: OpenStateView, e: OpenEventView)
    ensures
        open_step(s, e).0 == s || steps_left(open_step(s, e).0.stage) < steps_left(s.stage),
        s.stage == OpenStage::Done ==> open_step(s, e).0 == s,
{
}

/// The state of an opening that has not begun: at `Start`, with no domain,
/// no address and no notes.
pub open spec fn not_begun() -> OpenStateView {
    OpenStateView { stage: OpenStage::Start, domain: Seq::empty(), url: Seq::empty(), notes: Seq::empty() }
}

/// An opening that has not begun.
pub fn open_start() -> (r: OpenState)
    ensures
        r@ == not_begun(),
{
    let r = OpenState { stage: OpenStage::Start, domain: String::new(), url: String::new(), notes: Vec::new() };
    assert(r@.notes =~= Seq::<Seq<char>>::empty());
    r
}

fn push_note(s: OpenState, stage: OpenStage, note: String) -> (r: OpenState)
    ensures
        r@ == noted(s@, stage, note@),
{
    let mut notes = s.notes;
    let ghost before = notes@.map_values(|x: String| x@);
    notes.push(note);
    assert(notes@.map_values(|x: String| x@) =~= before.push(note@));
    OpenState { stage, domain: s.domain, url: s.url, notes }
}

fn awaited_exec(s: &OpenState) -> (r: OpenAction)
    ensures
        r@ == awaited(s@),
{
    match s.stage {
        OpenStage::AddingHost => OpenAction::AddHost(s.domain.clone()),
        OpenStage::ReadingHosts => OpenAction::ReadHosts,
        OpenStage::ProbingApache => OpenAction::ProbeApache,
        OpenStage::CheckingApache => OpenAction::CheckApache,
        OpenStage::Regenerating => OpenAction::Regenerate,
        OpenStage::StartingApache => OpenAction::StartApache,
        OpenStage::OpeningUrl => OpenAction::OpenUrl(s.url.clone()),
        OpenStage::Start | OpenStage::Done => OpenAction::Fail("Projeto não informado.".to_owned()),
    }
}

/// One step of opening a project (see `open_step`).
pub fn open_project_step(state: OpenState, event: OpenEvent) -> (r: (OpenState, OpenAction))
    ensures
        (r.0@, r.1@) == open_step(state@, event@),
{
    if let OpenEvent::Failed(err) = event {
        if state.stage == OpenStage::Done {
            let a = awaited_exec(&state);
            return (state, a);
        }
        return (OpenState { stage: OpenStage::Done, ..state }, OpenAction::Fail(err));
    }
    match (state.stage, event) {
        (OpenStage::Start, OpenEvent::Begin { domain, host_configured, url }) => {
            let notes: Vec<String> = Vec::new();
            proof {
                assert(notes@.map_values(|x: String| x@) =~= Seq::<Seq<char>>::empty());
            }
            if host_configured {
                (OpenState { stage: OpenStage::ProbingApache, domain, url, notes }, OpenAction::ProbeApache)
            } else {
                let d = domain.clone();
                (OpenState { stage: OpenStage::AddingHost, domain, url, notes }, OpenAction::AddHost(d))
            }
        },
        (OpenStage::AddingHost, OpenEvent::HostAdded(message)) => (
            push_note(state, OpenStage::ReadingHosts, message),
            OpenAction::ReadHosts,
        ),
        (OpenStage::ReadingHosts, OpenEvent::HostsRead(hosts)) => {
            if crate::hosts::hosted_exec(hosts.as_str(), state.domain.as_str()) {
                (OpenState { stage: OpenStage::ProbingApache, ..state }, OpenAction::ProbeApache)
            } else {
                let reply = hosts_permission_required(state.domain.as_str());
                (OpenState { stage: OpenStage::Done, ..state }, OpenAction::Reply(reply))
            }
        },
        (OpenStage::ProbingApache, OpenEvent::Apache { executable, exists }) => match executable {
            None => (
                OpenState { stage: OpenStage::Done, ..state },
                OpenAction::Fail("Servico Apache desconhecido.".to_owned()),
            ),
            Some(exe) => {
                if exists {
                    (OpenState { stage: OpenStage::CheckingApache, ..state }, OpenAction::CheckApache)
                } else {
                    let reply = apache_missing_for_project(exe.as_str(), state.domain.as_str());
                    (OpenState { stage: OpenStage::Done, ..state }, OpenAction::Reply(reply))
                }
            },
        },
        (OpenStage::CheckingApache, OpenEvent::Running(running)) => {
            if running {
                (OpenState { stage: OpenStage::Regenerating, ..state }, OpenAction::Regenerate)
            } else {
                (OpenState { stage: OpenStage::StartingApache, ..state }, OpenAction::StartApache)
            }
        },
        (OpenStage::Regenerating, OpenEvent::Regenerated) => {
            let u = state.url.clone();
            (
                push_note(state, OpenStage::OpeningUrl, "Configurações regeneradas; Apache já estava em execução.".to_owned()),
                OpenAction::OpenUrl(u),
            )
        },
        (OpenStage::StartingApache, OpenEvent::Started { ok, message }) => {
            if ok {
                let u = state.url.clone();
                (push_note(state, OpenStage::OpeningUrl, message), OpenAction::OpenUrl(u))
            } else {
                let reply = apache_start_failed(message.as_str());
                (OpenState { stage: OpenStage::Done, ..state }, OpenAction::Reply(reply))
            }
        },
        (OpenStage::OpeningUrl, OpenEvent::UrlOpened(ok)) => {
            let note = crate::project::opening_note(state.url.as_str());
            let t = push_note(state, OpenStage::Done, note);
            let reply = opened_message(ok, &t.notes);
            (t, OpenAction::Reply(reply))
        },
        _ => {
            let a = awaited_exec(&state);
            (state, a)
        },
    }
}

} // verus!
