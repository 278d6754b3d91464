//! Starting a service, from the request to the reply: Apache has its
//! configuration regenerated first; the service is looked up and probed and
//! refused when it cannot start; MySQL has its data folder prepared, Apache
//! its stale processes stopped, the projects' `php-cgi` started and its
//! configuration tested; then the program is started and what became of it
//! decides the reply.
//!
//! The decisions are a step function: the caller does the outside work each
//! step asks for and hands back what came of it.

use vstd::prelude::*;
use crate::text::{chars_of, text_eq};
use crate::config::{ActionResult, ActionResultView, AppConfig, AppConfigView, plain_result};
use crate::services::{
    start_check, start_check_view, start_outcome, start_service_check, start_service_outcome, ServiceSpec,
    ServiceSpecView, StartCheck, StartCheckView, StartExit, StartExitView, StartProbe,
};

verus! {

/// What the start of a service waits for.
#[derive(PartialEq, Eq, Structural, Clone, Copy)]
pub enum StartStage {
    /// The service to start.
    Start,
    /// The Apache configuration to be regenerated.
    Regenerating,
    /// The configuration, the service's spec and what was found of it.
    Probing,
    /// The service's preparation: MySQL's data folder, or Apache's stale
    /// processes stopped and the projects' `php-cgi` started.
    Preparing,
    /// The test of the Apache configuration.
    Testing,
    /// The program to be started and watched.
    Spawning,
    /// Nothing: the reply was given.
    Done,
}

/// The start so far: the stage, the service asked for and, once looked up,
/// how it is started.
pub struct StartState {
    pub stage: StartStage,
    pub service: String,
    pub spec: Option<ServiceSpec>,
}

pub struct StartStateView {
    pub stage: StartStage,
    pub service: Seq<char>,
    pub spec: Option<ServiceSpecView>,
}

pub open spec fn spec_view(s: Option<ServiceSpec>) -> Option<ServiceSpecView> {
    match s {
        Some(x) => Some(x@),
        None => None,
    }
}

impl View for StartState {
    type V = StartStateView;

    open spec fn view(&self) -> StartStateView {
        StartStateView { stage: self.stage, service: self.service@, spec: spec_view(self.spec) }
    }
}

/// What came of the last action.
pub enum StartEvent {
    /// The service `0` is to be started.
    Begin(String),
    /// The Apache configuration was regenerated.
    Regenerated,
    /// The configuration, the service's spec (`None` for an unknown service,
    /// see `service_spec`) and what was found of it.
    Probed { cfg: AppConfig, spec: Option<ServiceSpec>, probe: StartProbe },
    /// The preparation asked for is done.
    Prepared,
    /// The Apache configuration was tested: the message of its failure, if it
    /// failed (see `apache_test_outcome`).
    Tested(Option<String>),
    /// The program was started: how it was found shortly after, and whether
    /// the service's port became busy within the wait.
    Observed { exit: StartExit, port_busy: bool },
    /// The outside work failed with this error.
    Failed(String),
}

pub enum StartEventView {
    Begin(Seq<char>),
    Regenerated,
    Probed { cfg: AppConfigView, spec: Option<ServiceSpecView>, probe: StartProbe },
    Prepared,
    Tested(Option<Seq<char>>),
    Observed { exit: StartExitView, port_busy: bool },
    Failed(Seq<char>),
}

impl View for StartEvent {
    type V = StartEventView;

    open spec fn view(&self) -> StartEventView {
        match self {
            StartEvent::Begin(s) => StartEventView::Begin(s@),
            StartEvent::Regenerated => StartEventView::Regenerated,
            StartEvent::Probed { cfg, spec, probe } => StartEventView::Probed {
                cfg: cfg@,
                spec: spec_view(*spec),
                probe: *probe,
            },
            StartEvent::Prepared => StartEventView::Prepared,
            StartEvent::Tested(m) => StartEventView::Tested(
                match m {
                    Some(x) => Some(x@),
                    None => None,
                },
            ),
            StartEvent::Observed { exit, port_busy } => StartEventView::Observed { exit: exit@, port_busy: *port_busy },
            StartEvent::Failed(e) => StartEventView::Failed(e@),
        }
    }
}

/// What to do next. Where an action holds a line, it is logged first.
pub enum StartAction {
    /// Regenerate the Apache configuration.
    Regenerate,
    /// Read the configuration, look the service up and probe it.
    Probe,
    /// Prepare MySQL: its data folder, then its stale processes stopped.
    PrepareMysql(Option<String>),
    /// Prepare Apache: its stale processes stopped, then the projects'
    /// `php-cgi` started.
    PrepareApache(Option<String>),
    /// Test the Apache configuration.
    TestApache,
    /// Start the program and watch it.
    Spawn(Option<String>),
    /// Stop with this reply; before it, stop the projects' `php-cgi` if
    /// `stop_cgi`, and keep the started program as the running service if
    /// `keep_child`.
    Finish { log: Option<String>, stop_cgi: bool, keep_child: bool, result: ActionResult },
    /// Stop with this error.
    Fail(String),
}

pub enum StartActionView {
    Regenerate,
    Probe,
    PrepareMysql(Option<Seq<char>>),
    PrepareApache(Option<Seq<char>>),
    TestApache,
    Spawn(Option<Seq<char>>),
    Finish { log: Option<Seq<char>>, stop_cgi: bool, keep_child: bool, result: ActionResultView },
    Fail(Seq<char>),
}

pub open spec fn line_view(l: Option<String>) -> Option<Seq<char>> {
    match l {
        Some(x) => Some(x@),
        None => None,
    }
}

impl View for StartAction {
    type V = StartActionView;

    open spec fn view(&self) -> StartActionView {
        match self {
            StartAction::Regenerate => StartActionView::Regenerate,
            StartAction::Probe => StartActionView::Probe,
            StartAction::PrepareMysql(l) => StartActionView::PrepareMysql(line_view(*l)),
            StartAction::PrepareApache(l) => StartActionView::PrepareApache(line_view(*l)),
            StartAction::TestApache => StartActionView::TestApache,
            StartAction::Spawn(l) => StartActionView::Spawn(line_view(*l)),
            StartAction::Finish { log, stop_cgi, keep_child, result } => StartActionView::Finish {
                log: line_view(*log),
                stop_cgi: *stop_cgi,
                keep_child: *keep_child,
                result: result@,
            },
            StartAction::Fail(e) => StartActionView::Fail(e@),
        }
    }
}

/// The state at the given stage, otherwise unchanged.
pub open spec fn moved(s: StartStateView, stage: StartStage) -> StartStateView {
    StartStateView { stage, ..s }
}

/// The action a stage waits on, asked for again when an event does not
/// answer it.
pub open spec fn awaited(s: StartStateView) -> StartActionView {
    match s.stage {
        StartStage::Regenerating => StartActionView::Regenerate,
        StartStage::Probing => StartActionView::Probe,
        StartStage::Preparing => if s.service == "mysql"@ {
            StartActionView::PrepareMysql(None)
        } else {
            StartActionView::PrepareApache(None)
        },
        StartStage::Testing => StartActionView::TestApache,
        StartStage::Spawning => StartActionView::Spawn(None),
        StartStage::Start | StartStage::Done => StartActionView::Fail("Servico desconhecido."@),
    }
}

/// What follows a service that may start, the warning `line` logged first:
/// MySQL and Apache are prepared, any other is started at once.
pub open spec fn after_check(s: StartStateView, line: Option<Seq<char>>) -> (StartStateView, StartActionView) {
    if s.service == "mysql"@ {
        (moved(s, StartStage::Preparing), StartActionView::PrepareMysql(line))
    } else if s.service == "apache"@ {
        (moved(s, StartStage::Preparing), StartActionView::PrepareApache(line))
    } else {
        (moved(s, StartStage::Spawning), StartActionView::Spawn(line))
    }
}

/// One step of starting a service: Apache's configuration is regenerated
/// first; an unknown service is an error; a service that `start_check`
/// refuses gets its reply; MySQL and Apache are prepared, and an Apache whose
/// configuration test fails is refused with the test's message, which is
/// logged; the started program's fate decides the reply (see
/// `start_outcome`). Failed outside work ends the start with its error.
pub open spec fn start_step(s: StartStateView, e: StartEventView) -> (StartStateView, StartActionView) {
    match e {
        StartEventView::Failed(err) => if s.stage == StartStage::Done {
            (s, awaited(s))
        } else {
            (moved(s, StartStage::Done), StartActionView::Fail(err))
        },
        _ => match (s.stage, e) {
            (StartStage::Start, StartEventView::Begin(service)) => {
                let t = StartStateView { stage: StartStage::Start, service, spec: None };
                if service == "apache"@ {
                    (moved(t, StartStage::Regenerating), StartActionView::Regenerate)
                } else {
                    (moved(t, StartStage::Probing), StartActionView::Probe)
                }
            },
            (StartStage::Regenerating, StartEventView::Regenerated) => (
                moved(s, StartStage::Probing),
                StartActionView::Probe,
            ),
            (StartStage::Probing, StartEventView::Probed { cfg, spec, probe }) => match spec {
                None => (moved(s, StartStage::Done), StartActionView::Fail("Servico desconhecido."@)),
                Some(sp) => {
                    let t = StartStateView { spec: Some(sp), ..s };
                    match start_check(cfg, s.service, sp, probe) {
                        StartCheckView::Reply(result, line) => (
                            moved(t, StartStage::Done),
                            StartActionView::Finish { log: line, stop_cgi: false, keep_child: false, result },
                        ),
                        StartCheckView::Proceed(line) => after_check(t, line),
                    }
                },
            },
            (StartStage::Preparing, StartEventView::Prepared) => if s.service == "apache"@ {
                (moved(s, StartStage::Testing), StartActionView::TestApache)
            } else {
                (moved(s, StartStage::Spawning), StartActionView::Spawn(None))
            },
            (StartStage::Testing, StartEventView::Tested(failure)) => match failure {
                None => (moved(s, StartStage::Spawning), StartActionView::Spawn(None)),
                Some(m) => (
                    moved(s, StartStage::Done),
                    StartActionView::Finish {
                        log: Some(m),
                        stop_cgi: false,
                        keep_child: false,
                        result: plain_result(false, m),
                    },
                ),
            },
            (StartStage::Spawning, StartEventView::Observed { exit, port_busy }) => match s.spec {
                Some(sp) => {
                    let o = start_outcome(s.service, sp, exit, port_busy);
                    (
                        moved(s, StartStage::Done),
                        StartActionView::Finish {
                            log: Some(o.log),
                            stop_cgi: o.stop_cgi,
                            keep_child: o.keep_child,
                            result: o.result,
                        },
                    )
                },
                None => (moved(s, StartStage::Done), StartActionView::Fail("Servico desconhecido."@)),
            },
            _ => (s, awaited(s)),
        },
    }
}

/// How many steps at most are left before the start is done.
pub open spec fn steps_left(stage: StartStage) -> nat {
    match stage {
        StartStage::Start => 6,
        StartStage::Regenerating => 5,
        StartStage::Probing => 4,
        StartStage::Preparing => 3,
        StartStage::Testing => 2,
        StartStage::Spawning => 1,
        StartStage::Done => 0,
    }
}

/// The start never goes back: every step either leaves the state as it was
/// (an event that does not answer what it waits for) or moves it strictly
/// closer to the end, so it asks for at most six actions, and starts the
/// program at most once; once done, it stays done.
pub proof fn law_start_steps_move_forward(s: StartStateView, e: StartEventView)
    ensures
        start_step(s, e).0 == s || steps_left(start_step(s, e).0.stage) < steps_left(s.stage),
        s.stage == StartStage::Done ==> start_step(s, e).0 == s,
{
}

/// A start that has not begun.
pub fn start_begin() -> (r: StartState)
    ensures
        r@.stage == StartStage::Start,
        r@.spec is None,
{
    StartState { stage: StartStage::Start, service: String::new(), spec: None }
}

fn is_named(s: &str, name: &str) -> (r: bool)
    ensures
        r == (s@ == name@),
{
    text_eq(&chars_of(s), &chars_of(name))
}

fn awaited_exec(s: &StartState) -> (r: StartAction)
    ensures
        r@ == awaited(s@),
{
    match s.stage {
        StartStage::Regenerating => StartAction::Regenerate,
        StartStage::Probing => StartAction::Probe,
        StartStage::Preparing => {
            if is_named(s.service.as_str(), "mysql") {
                StartAction::PrepareMysql(None)
            } else {
                StartAction::PrepareApache(None)
            }
        },
        StartStage::Testing => StartAction::TestApache,
        StartStage::Spawning => StartAction::Spawn(None),
        StartStage::Start | StartStage::Done => StartAction::Fail("Servico desconhecido.".to_owned()),
    }
}

fn after_check_exec(s: StartState, line: Option<String>) -> (r: (StartState, StartAction))
    ensures
        (r.0@, r.1@) == after_check(s@, line_view(line)),
{
    if is_named(s.service.as_str(), "mysql") {
        (StartState { stage: StartStage::Preparing, ..s }, StartAction::PrepareMysql(line))
    } else if is_named(s.service.as_str(), "apache") {
        (StartState { stage: StartStage::Preparing, ..s }, StartAction::PrepareApache(line))
    } else {
        (StartState { stage: StartStage::Spawning, ..s }, StartAction::Spawn(line))
    }
}

/// One step of starting a service (see `start_step`).
pub fn start_service_step(state: StartState, event: StartEvent) -> (r: (StartState, StartAction))
    ensures
        (r.0@, r.1@) == start_step(state@, event@),
{
    if let StartEvent::Failed(err) = event {
        if state.stage == StartStage::Done {
            let a = awaited_exec(&state);
            return (state, a);
        }
        return (StartState { stage: StartStage::Done, ..state }, StartAction::Fail(err));
    }
    match (state.stage, event) {
        (StartStage::Start, StartEvent::Begin(service)) => {
            if is_named(service.as_str(), "apache") {
                (StartState { stage: StartStage::Regenerating, service, spec: None }, StartAction::Regenerate)
            } else {
                (StartState { stage: StartStage::Probing, service, spec: None }, StartAction::Probe)
            }
        },
        (StartStage::Regenerating, StartEvent::Regenerated) => (
            StartState { stage: StartStage::Probing, ..state },
            StartAction::Probe,
        ),
        (StartStage::Probing, StartEvent::Probed { cfg, spec, probe }) => match spec {
            None => (StartState { stage: StartStage::Done, ..state }, StartAction::Fail("Servico desconhecido.".to_owned())),
            Some(sp) => {
                let check = start_service_check(&cfg, state.service.as_str(), &sp, &probe);
                let t = StartState { stage: state.stage, service: state.service, spec: Some(sp) };
                proof {
                    assert(start_check_view(check) == start_check(cfg@, t@.service, t@.spec->0, probe));
                }
                match check {
                    StartCheck::Reply(result, line) => (
                        StartState { stage: StartStage::Done, ..t },
                        StartAction::Finish { log: line, stop_cgi: false, keep_child: false, result },
                    ),
                    StartCheck::Proceed(line) => after_check_exec(t, line),
                }
            },
        },
        (StartStage::Preparing, StartEvent::Prepared) => {
            if is_named(state.service.as_str(), "apache") {
                (StartState { stage: StartStage::Testing, ..state }, StartAction::TestApache)
            } else {
                (StartState { stage: StartStage::Spawning, ..state }, StartAction::Spawn(None))
            }
        },
        (StartStage::Testing, StartEvent::Tested(failure)) => match failure {
            None => (StartState { stage: StartStage::Spawning, ..state }, StartAction::Spawn(None)),
            Some(m) => {
                let log = m.clone();
                (
                    StartState { stage: StartStage::Done, ..state },
                    StartAction::Finish {
                        log: Some(log),
                        stop_cgi: false,
                        keep_child: false,
                        result: ActionResult::message(false, m),
                    },
                )
            },
        },
        (StartStage::Spawning, StartEvent::Observed { exit, port_busy }) => {
            let StartState { stage: _, service, spec } = state;
            match spec {
                Some(sp) => {
                    let o = start_service_outcome(service.as_str(), &sp, exit, port_busy);
                    (
                        StartState { stage: StartStage::Done, service, spec: Some(sp) },
                        StartAction::Finish {
                            log: Some(o.log),
                            stop_cgi: o.stop_cgi,
                            keep_child: o.keep_child,
                            result: o.result,
                        },
                    )
                },
                None => (
                    StartState { stage: StartStage::Done, service, spec: None },
                    StartAction::Fail("Servico desconhecido.".to_owned()),
                ),
            }
        },
        _ => {
            let a = awaited_exec(&state);
            (state, a)
        },
    }
}

} // verus!
