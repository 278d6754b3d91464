use ipeenv::dependencies::{php_dependency_step, DepAction, DepEvent, DepState, VcRuntime};
use ipeenv::runtime::{VC14PLUS_STILL_MISSING, VC2012_STILL_MISSING};

fn runtimes(has_vc110: bool, has_vc14plus: bool) -> DepEvent {
    DepEvent::Runtimes { has_vc110, has_vc14plus }
}

#[test]
fn current_build_with_runtime_is_checked_once() {
    let (s, a) = php_dependency_step("vs16", DepState::Start, DepEvent::Begin);
    assert!(s == DepState::TagVc2012);
    assert!(matches!(a, DepAction::Probe { progress: None }));
    let (s, a) = php_dependency_step("vs16", s, runtimes(false, true));
    assert!(s == DepState::TagVc14plus);
    assert!(matches!(a, DepAction::Probe { progress: None }));
    let (s, a) = php_dependency_step("vs16", s, runtimes(false, true));
    assert!(s == DepState::Checking);
    assert!(matches!(a, DepAction::Check { progress: None }));
    let (s, a) = php_dependency_step("vs16", s, DepEvent::Checked(Ok(())));
    assert!(s == DepState::Done);
    assert!(matches!(a, DepAction::Finish { progress: None, result: Ok(()) }));
}

#[test]
fn legacy_build_installs_vc2012_first() {
    let (s, a) = php_dependency_step("vc11", DepState::TagVc2012, runtimes(false, false));
    assert!(s == DepState::InstallingVc2012);
    match a {
        DepAction::Install { runtime, progress, log } => {
            assert!(runtime == VcRuntime::Vc2012);
            assert_eq!(progress, Some(("Instalando dependencias VC++ 2012 (MSVCR110)", 82)));
            assert_eq!(log, "Runtime VC11 detected without MSVCR110.dll. Installing Visual C++ 2012 Runtime...");
        }
        _ => panic!("expected an install"),
    }
    let (s, a) = php_dependency_step("vc11", s, DepEvent::Installed(Ok(())));
    assert!(s == DepState::RecheckVc2012);
    assert!(matches!(a, DepAction::Probe { progress: None }));
    let (s, a) = php_dependency_step("vc11", s, runtimes(true, false));
    assert!(s == DepState::TagVc14plus);
    assert!(matches!(a, DepAction::Probe { progress: Some(("Runtime VC++ pronto", 92)) }));
    let (s, _) = php_dependency_step("vc11", s, runtimes(true, false));
    assert!(s == DepState::Checking);
}

#[test]
fn runtime_still_missing_after_installers() {
    let (s, a) = php_dependency_step("vc11", DepState::RecheckVc2012, runtimes(false, true));
    assert!(s == DepState::Done);
    match a {
        DepAction::Finish { result: Err(e), .. } => assert_eq!(e, VC2012_STILL_MISSING),
        _ => panic!("expected a failure"),
    }
    let (s, a) = php_dependency_step("vs17", DepState::TagVc14plus, runtimes(true, false));
    assert!(s == DepState::InstallingVc14plus);
    match a {
        DepAction::Install { runtime, progress, .. } => {
            assert!(runtime == VcRuntime::Vc14plus);
            assert_eq!(progress, Some(("Instalando dependencias VC++ 2015-2022", 82)));
        }
        _ => panic!("expected an install"),
    }
    let (_, a) = php_dependency_step("vs17", DepState::RecheckVc14plus, runtimes(true, false));
    match a {
        DepAction::Finish { result: Err(e), .. } => assert_eq!(e, VC14PLUS_STILL_MISSING),
        _ => panic!("expected a failure"),
    }
}

#[test]
fn installer_error_ends_the_completion() {
    let (s, a) = php_dependency_step("vc11", DepState::InstallingVc2012, DepEvent::Installed(Err("sem instalador".to_string())));
    assert!(s == DepState::Done);
    match a {
        DepAction::Finish { progress: None, result: Err(e) } => assert_eq!(e, "sem instalador"),
        _ => panic!("expected a failure"),
    }
}

#[test]
fn failed_check_for_msvcr110_installs_and_rechecks() {
    let (s, a) = php_dependency_step(
        "",
        DepState::Checking,
        DepEvent::Checked(Err("The code execution cannot proceed because MSVCR110.dll was not found".to_string())),
    );
    assert!(s == DepState::InstallingForFailure);
    match a {
        DepAction::Install { runtime, log, .. } => {
            assert!(runtime == VcRuntime::Vc2012);
            assert_eq!(log, "MSVCR110.dll dependency detected. Trying to install Visual C++ 2012 Runtime...");
        }
        _ => panic!("expected an install"),
    }
    let (s, a) = php_dependency_step("", s, DepEvent::Installed(Ok(())));
    assert!(s == DepState::Rechecking);
    assert!(matches!(a, DepAction::Check { progress: None }));
    let (_, a) = php_dependency_step("", s, DepEvent::Checked(Err("still broken".to_string())));
    match a {
        DepAction::Finish { result: Err(e), .. } => assert_eq!(
            e,
            "Dependência do PHP não resolvida automaticamente. Instale o Visual C++ 2012 Redistributable (x64) e tente novamente. Detalhe: still broken"
        ),
        _ => panic!("expected a failure"),
    }
    let (_, a) = php_dependency_step("", DepState::Rechecking, DepEvent::Checked(Ok(())));
    assert!(matches!(a, DepAction::Finish { progress: Some(("Runtime VC++ pronto", 92)), result: Ok(()) }));
}

#[test]
fn other_check_failures_are_left_to_the_caller() {
    let (s, a) = php_dependency_step("vs16", DepState::Checking, DepEvent::Checked(Err("segfault".to_string())));
    assert!(s == DepState::Done);
    assert!(matches!(a, DepAction::Finish { progress: None, result: Ok(()) }));
}

#[test]
fn unexpected_events_repeat_the_awaited_action() {
    let (s, a) = php_dependency_step("vs16", DepState::Checking, runtimes(true, true));
    assert!(s == DepState::Checking);
    assert!(matches!(a, DepAction::Check { progress: None }));
    let (s, a) = php_dependency_step("vs16", DepState::TagVc14plus, DepEvent::Checked(Ok(())));
    assert!(s == DepState::TagVc14plus);
    assert!(matches!(a, DepAction::Probe { progress: None }));
    let (s, a) = php_dependency_step("vs16", DepState::Done, DepEvent::Begin);
    assert!(s == DepState::Done);
    assert!(matches!(a, DepAction::Finish { result: Ok(()), .. }));
}
