//! Completing a freshly installed PHP runtime: the Visual C++ runtimes its
//! build needs are installed first, then the runtime is checked, and a check
//! that fails for want of the Visual C++ 2012 runtime installs it once more.
//!
//! The decisions are a step function: the caller probes the system, runs the
//! installers and checks the runtime as each step asks, and hands back what
//! came of it.

use vstd::prelude::*;
use crate::runtime::{
    detail_needs_vc2012, failure_needs_vc2012, needs_vc14plus, needs_vc14plus_runtime, needs_vc2012,
    needs_vc2012_runtime, unresolved_dependency_message, VC14PLUS_STILL_MISSING, VC2012_STILL_MISSING,
};

verus! {

/// A Visual C++ runtime Ipeenv can install.
#[derive(PartialEq, Eq, Structural, Clone, Copy)]
pub enum VcRuntime {
    /// Visual C++ 2012 (`msvcr110.dll`).
    Vc2012,
    /// Visual C++ 2015-2022 (`vcruntime140.dll`, `msvcp140.dll`).
    Vc14plus,
}

/// Where the completion of a runtime stands: what it waits for.
#[derive(PartialEq, Eq, Structural, Clone, Copy)]
pub enum DepState {
    /// Nothing asked yet.
    Start,
    /// Which runtimes exist, to tell whether the build needs Visual C++ 2012.
    TagVc2012,
    /// The Visual C++ 2012 installer, run for the build's tag.
    InstallingVc2012,
    /// Which runtimes exist, after that installer.
    RecheckVc2012,
    /// Which runtimes exist, to tell whether the build needs Visual C++ 2015-2022.
    TagVc14plus,
    /// The Visual C++ 2015-2022 installer.
    InstallingVc14plus,
    /// Which runtimes exist, after that installer.
    RecheckVc14plus,
    /// The check of the runtime.
    Checking,
    /// The Visual C++ 2012 installer, run because the check asked for it.
    InstallingForFailure,
    /// The check of the runtime after that installer.
    Rechecking,
    /// Nothing: the result was given.
    Done,
}

/// What came of the last action.
pub enum DepEvent {
    /// The completion is asked for.
    Begin,
    /// Which Visual C++ runtimes the system holds.
    Runtimes { has_vc110: bool, has_vc14plus: bool },
    /// The installer ran, or why it could not.
    Installed(Result<(), String>),
    /// The check of the runtime passed, or what it reported.
    Checked(Result<(), String>),
}

/// What to do next; each action first reports its progress, if it has one.
pub enum DepAction {
    /// Find out which Visual C++ runtimes the system holds.
    Probe { progress: Option<(&'static str, u8)> },
    /// Log the line, then run the installer of the runtime.
    Install { runtime: VcRuntime, progress: Option<(&'static str, u8)>, log: &'static str },
    /// Check that the runtime works.
    Check { progress: Option<(&'static str, u8)> },
    /// Stop with this result.
    Finish { progress: Option<(&'static str, u8)>, result: Result<(), String> },
}

pub enum DepEventView {
    Begin,
    Runtimes { has_vc110: bool, has_vc14plus: bool },
    Installed(Result<(), Seq<char>>),
    Checked(Result<(), Seq<char>>),
}

pub enum DepActionView {
    Probe { progress: Option<(Seq<char>, u8)> },
    Install { runtime: VcRuntime, progress: Option<(Seq<char>, u8)>, log: Seq<char> },
    Check { progress: Option<(Seq<char>, u8)> },
    Finish { progress: Option<(Seq<char>, u8)>, result: Result<(), Seq<char>> },
}

pub open spec fn unit_view(r: Result<(), String>) -> Result<(), Seq<char>> {
    match r {
        Ok(_) => Ok(()),
        Err(e) => Err(e@),
    }
}

pub open spec fn progress_view(p: Option<(&'static str, u8)>) -> Option<(Seq<char>, u8)> {
    match p {
        Some((s, n)) => Some((s@, n)),
        None => None,
    }
}

impl View for DepEvent {
    type V = DepEventView;

    open spec fn view(&self) -> DepEventView {
        match self {
            DepEvent::Begin => DepEventView::Begin,
            DepEvent::Runtimes { has_vc110, has_vc14plus } => DepEventView::Runtimes {
                has_vc110: *has_vc110,
                has_vc14plus: *has_vc14plus,
            },
            DepEvent::Installed(r) => DepEventView::Installed(unit_view(*r)),
            DepEvent::Checked(r) => DepEventView::Checked(unit_view(*r)),
        }
    }
}

impl View for DepAction {
    type V = DepActionView;

    open spec fn view(&self) -> DepActionView {
        match self {
            DepAction::Probe { progress } => DepActionView::Probe { progress: progress_view(*progress) },
            DepAction::Install { runtime, progress, log } => DepActionView::Install {
                runtime: *runtime,
                progress: progress_view(*progress),
                log: log@,
            },
            DepAction::Check { progress } => DepActionView::Check { progress: progress_view(*progress) },
            DepAction::Finish { progress, result } => DepActionView::Finish {
                progress: progress_view(*progress),
                result: unit_view(*result),
            },
        }
    }
}

/// The progress shown while a Visual C++ 2012 installer runs.
pub open spec fn installing_vc2012() -> Option<(Seq<char>, u8)> {
    Some(("Instalando dependencias VC++ 2012 (MSVCR110)"@, 82u8))
}

/// The progress shown once a Visual C++ runtime is in place.
pub open spec fn runtime_ready() -> Option<(Seq<char>, u8)> {
    Some(("Runtime VC++ pronto"@, 92u8))
}

/// What is asked for again, without its progress, when an event does not
/// answer the action a state waits for.
pub open spec fn awaited(s: DepState) -> DepActionView {
    match s {
        DepState::TagVc2012 | DepState::RecheckVc2012 | DepState::TagVc14plus | DepState::RecheckVc14plus => {
            DepActionView::Probe { progress: None }
        },
        DepState::Checking | DepState::Rechecking => DepActionView::Check { progress: None },
        DepState::InstallingVc2012 => DepActionView::Install {
            runtime: VcRuntime::Vc2012,
            progress: None,
            log: "Runtime VC11 detected without MSVCR110.dll. Installing Visual C++ 2012 Runtime..."@,
        },
        DepState::InstallingForFailure => DepActionView::Install {
            runtime: VcRuntime::Vc2012,
            progress: None,
            log: "MSVCR110.dll dependency detected. Trying to install Visual C++ 2012 Runtime..."@,
        },
        DepState::InstallingVc14plus => DepActionView::Install {
            runtime: VcRuntime::Vc14plus,
            progress: None,
            log: "Runtime VC14+/VS detected without vcruntime140. Installing Visual C++ 2015-2022 Runtime..."@,
        },
        DepState::Start => DepActionView::Probe { progress: None },
        DepState::Done => DepActionView::Finish { progress: None, result: Ok(()) },
    }
}

/// One step of completing the runtime whose build has the Visual C++ tag
/// `tag` (see `runtime_tag`): a build tagged `vc11` without `msvcr110.dll`
/// gets Visual C++ 2012, which must then be present; a build tagged `vc14`,
/// `vc15`, `vs16` or `vs17` without the 2015-2022 runtime gets it, which must
/// then be present; then the runtime is checked, and a check whose message
/// asks for `msvcr110.dll` or `vc11` installs Visual C++ 2012 and checks once
/// more, whose failure is then final. An installer that cannot be run ends
/// the completion with its error.
pub open spec fn dependency_step(tag: Seq<char>, s: DepState, e: DepEventView) -> (DepState, DepActionView) {
    match (s, e) {
        (DepState::Start, DepEventView::Begin) => (DepState::TagVc2012, DepActionView::Probe { progress: None }),
        (DepState::TagVc2012, DepEventView::Runtimes { has_vc110, .. }) => if needs_vc2012(tag, has_vc110) {
            (
                DepState::InstallingVc2012,
                DepActionView::Install {
                    runtime: VcRuntime::Vc2012,
                    progress: installing_vc2012(),
                    log: "Runtime VC11 detected without MSVCR110.dll. Installing Visual C++ 2012 Runtime..."@,
                },
            )
        } else {
            (DepState::TagVc14plus, DepActionView::Probe { progress: None })
        },
        (DepState::InstallingVc2012, DepEventView::Installed(r)) => match r {
            Err(err) => (DepState::Done, DepActionView::Finish { progress: None, result: Err(err) }),
            Ok(_) => (DepState::RecheckVc2012, DepActionView::Probe { progress: None }),
        },
        (DepState::RecheckVc2012, DepEventView::Runtimes { has_vc110, .. }) => if has_vc110 {
            (DepState::TagVc14plus, DepActionView::Probe { progress: runtime_ready() })
        } else {
            (DepState::Done, DepActionView::Finish { progress: None, result: Err(VC2012_STILL_MISSING@) })
        },
        (DepState::TagVc14plus, DepEventView::Runtimes { has_vc14plus, .. }) => if needs_vc14plus(tag, has_vc14plus) {
            (
                DepState::InstallingVc14plus,
                DepActionView::Install {
                    runtime: VcRuntime::Vc14plus,
                    progress: Some(("Instalando dependencias VC++ 2015-2022"@, 82u8)),
                    log: "Runtime VC14+/VS detected without vcruntime140. Installing Visual C++ 2015-2022 Runtime..."@,
                },
            )
        } else {
            (DepState::Checking, DepActionView::Check { progress: None })
        },
        (DepState::InstallingVc14plus, DepEventView::Installed(r)) => match r {
            Err(err) => (DepState::Done, DepActionView::Finish { progress: None, result: Err(err) }),
            Ok(_) => (DepState::RecheckVc14plus, DepActionView::Probe { progress: None }),
        },
        (DepState::RecheckVc14plus, DepEventView::Runtimes { has_vc14plus, .. }) => if has_vc14plus {
            (DepState::Checking, DepActionView::Check { progress: runtime_ready() })
        } else {
            (DepState::Done, DepActionView::Finish { progress: None, result: Err(VC14PLUS_STILL_MISSING@) })
        },
        (DepState::Checking, DepEventView::Checked(r)) => match r {
            Ok(_) => (DepState::Done, DepActionView::Finish { progress: None, result: Ok(()) }),
            Err(detail) => if detail_needs_vc2012(detail) {
                (
                    DepState::InstallingForFailure,
                    DepActionView::Install {
                        runtime: VcRuntime::Vc2012,
                        progress: installing_vc2012(),
                        log: "MSVCR110.dll dependency detected. Trying to install Visual C++ 2012 Runtime..."@,
                    },
                )
            } else {
                (DepState::Done, DepActionView::Finish { progress: None, result: Ok(()) })
            },
        },
        (DepState::InstallingForFailure, DepEventView::Installed(r)) => match r {
            Err(err) => (DepState::Done, DepActionView::Finish { progress: None, result: Err(err) }),
            Ok(_) => (DepState::Rechecking, DepActionView::Check { progress: None }),
        },
        (DepState::Rechecking, DepEventView::Checked(r)) => match r {
            Ok(_) => (DepState::Done, DepActionView::Finish { progress: runtime_ready(), result: Ok(()) }),
            Err(after) => (
                DepState::Done,
                DepActionView::Finish {
                    progress: None,
                    result: Err(
                        "Dependência do PHP não resolvida automaticamente. Instale o Visual C++ 2012 Redistributable (x64) e tente novamente. Detalhe: "@
                            + after,
                    ),
                },
            ),
        },
        (DepState::Done, _) => (DepState::Done, DepActionView::Finish { progress: None, result: Ok(()) }),
        _ => (s, awaited(s)),
    }
}

/// How many steps at most are left before the completion is done.
pub open spec fn steps_left(s: DepState) -> nat {
    match s {
        DepState::Start => 10,
        DepState::TagVc2012 => 9,
        DepState::InstallingVc2012 => 8,
        DepState::RecheckVc2012 => 7,
        DepState::TagVc14plus => 6,
        DepState::InstallingVc14plus => 5,
        DepState::RecheckVc14plus => 4,
        DepState::Checking => 3,
        DepState::InstallingForFailure => 2,
        DepState::Rechecking => 1,
        DepState::Done => 0,
    }
}

/// The completion never goes back: every step either leaves the state as it
/// was (an event that does not answer what it waits for) or moves it strictly
/// closer to the end, so it asks for at most ten actions; once done, it stays
/// done.
pub proof fn law_dependency_steps_move_forward(tag: Seq<char>, s: DepState, e: DepEventView)
    ensures
        dependency_step(tag, s, e).0 == s || steps_left(dependency_step(tag, s, e).0) < steps_left(s),
        s == DepState::Done ==> dependency_step(tag, s, e).0 == DepState::Done,
{
}

fn installing_vc2012_exec() -> (r: Option<(&'static str, u8)>)
    ensures
        progress_view(r) == installing_vc2012(),
{
    Some(("Instalando dependencias VC++ 2012 (MSVCR110)", 82u8))
}

fn runtime_ready_exec() -> (r: Option<(&'static str, u8)>)
    ensures
        progress_view(r) == runtime_ready(),
{
    Some(("Runtime VC++ pronto", 92u8))
}

fn awaited_exec(s: DepState) -> (r: DepAction)
    ensures
        r@ == awaited(s),
{
    match s {
        DepState::TagVc2012 | DepState::RecheckVc2012 | DepState::TagVc14plus | DepState::RecheckVc14plus => {
            DepAction::Probe { progress: None }
        },
        DepState::Checking | DepState::Rechecking => DepAction::Check { progress: None },
        DepState::InstallingVc2012 => DepAction::Install {
            runtime: VcRuntime::Vc2012,
            progress: None,
            log: "Runtime VC11 detected without MSVCR110.dll. Installing Visual C++ 2012 Runtime...",
        },
        DepState::InstallingForFailure => DepAction::Install {
            runtime: VcRuntime::Vc2012,
            progress: None,
            log: "MSVCR110.dll dependency detected. Trying to install Visual C++ 2012 Runtime...",
        },
        DepState::InstallingVc14plus => DepAction::Install {
            runtime: VcRuntime::Vc14plus,
            progress: None,
            log: "Runtime VC14+/VS detected without vcruntime140. Installing Visual C++ 2015-2022 Runtime...",
        },
        DepState::Start => DepAction::Probe { progress: None },
        DepState::Done => DepAction::Finish { progress: None, result: Ok(()) },
    }
}

fn finish_err(e: String) -> (r: DepAction)
    ensures
        r@ == (DepActionView::Finish { progress: None, result: Err(e@) }),
{
    DepAction::Finish { progress: None, result: Err(e) }
}

/// One step of completing a PHP runtime (see `dependency_step`).
pub fn php_dependency_step(tag: &str, state: DepState, event: DepEvent) -> (r: (DepState, DepAction))
    ensures
        (r.0, r.1@) == dependency_step(tag@, state, event@),
{
    match (state, event) {
        (DepState::Start, DepEvent::Begin) => (DepState::TagVc2012, DepAction::Probe { progress: None }),
        (DepState::TagVc2012, DepEvent::Runtimes { has_vc110, has_vc14plus }) => {
            if needs_vc2012_runtime(tag, has_vc110) {
                (
                    DepState::InstallingVc2012,
                    DepAction::Install {
                        runtime: VcRuntime::Vc2012,
                        progress: installing_vc2012_exec(),
                        log: "Runtime VC11 detected without MSVCR110.dll. Installing Visual C++ 2012 Runtime...",
                    },
                )
            } else {
                (DepState::TagVc14plus, DepAction::Probe { progress: None })
            }
        },
        (DepState::InstallingVc2012, DepEvent::Installed(r)) => match r {
            Err(err) => (DepState::Done, finish_err(err)),
            Ok(_) => (DepState::RecheckVc2012, DepAction::Probe { progress: None }),
        },
        (DepState::RecheckVc2012, DepEvent::Runtimes { has_vc110, has_vc14plus }) => {
            if has_vc110 {
                (DepState::TagVc14plus, DepAction::Probe { progress: runtime_ready_exec() })
            } else {
                (DepState::Done, finish_err(VC2012_STILL_MISSING.to_owned()))
            }
        },
        (DepState::TagVc14plus, DepEvent::Runtimes { has_vc110, has_vc14plus }) => {
            if needs_vc14plus_runtime(tag, has_vc14plus) {
                (
                    DepState::InstallingVc14plus,
                    DepAction::Install {
                        runtime: VcRuntime::Vc14plus,
                        progress: Some(("Instalando dependencias VC++ 2015-2022", 82u8)),
                        log: "Runtime VC14+/VS detected without vcruntime140. Installing Visual C++ 2015-2022 Runtime...",
                    },
                )
            } else {
                (DepState::Checking, DepAction::Check { progress: None })
            }
        },
        (DepState::InstallingVc14plus, DepEvent::Installed(r)) => match r {
            Err(err) => (DepState::Done, finish_err(err)),
            Ok(_) => (DepState::RecheckVc14plus, DepAction::Probe { progress: None }),
        },
        (DepState::RecheckVc14plus, DepEvent::Runtimes { has_vc110, has_vc14plus }) => {
            if has_vc14plus {
                (DepState::Checking, DepAction::Check { progress: runtime_ready_exec() })
            } else {
                (DepState::Done, finish_err(VC14PLUS_STILL_MISSING.to_owned()))
            }
        },
        (DepState::Checking, DepEvent::Checked(r)) => match r {
            Ok(_) => (DepState::Done, DepAction::Finish { progress: None, result: Ok(()) }),
            Err(detail) => {
                if failure_needs_vc2012(detail.as_str()) {
                    (
                        DepState::InstallingForFailure,
                        DepAction::Install {
                            runtime: VcRuntime::Vc2012,
                            progress: installing_vc2012_exec(),
                            log: "MSVCR110.dll dependency detected. Trying to install Visual C++ 2012 Runtime...",
                        },
                    )
                } else {
                    (DepState::Done, DepAction::Finish { progress: None, result: Ok(()) })
                }
            },
        },
        (DepState::InstallingForFailure, DepEvent::Installed(r)) => match r {
            Err(err) => (DepState::Done, finish_err(err)),
            Ok(_) => (DepState::Rechecking, DepAction::Check { progress: None }),
        },
        (DepState::Rechecking, DepEvent::Checked(r)) => match r {
            Ok(_) => (DepState::Done, DepAction::Finish { progress: runtime_ready_exec(), result: Ok(()) }),
            Err(after) => (DepState::Done, finish_err(unresolved_dependency_message(after.as_str()))),
        },
        (DepState::Done, _) => (DepState::Done, DepAction::Finish { progress: None, result: Ok(()) }),
        (s, _) => (s, awaited_exec(s)),
    }
}

} // verus!
