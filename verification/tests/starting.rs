use ipeenv::config::AppConfig;
use ipeenv::services::{service_spec, RuntimeListing, StartExit, StartProbe};
use ipeenv::starting::{start_begin, start_service_step, StartAction, StartEvent, StartStage, StartState};

fn cfg() -> AppConfig {
    AppConfig::default_for("C:/ipe".to_string())
}

fn listing() -> RuntimeListing {
    RuntimeListing { apache: vec!["httpd-2.4.62".to_string()], mysql: vec![] }
}

fn ready() -> StartProbe {
    StartProbe { already_running: false, executable_exists: true, port_available: true, https_port_available: true }
}

fn probed(service: &str, probe: StartProbe) -> StartEvent {
    let c = cfg();
    let spec = service_spec(&c, service, &listing());
    StartEvent::Probed { cfg: c, spec, probe }
}

fn begin(service: &str) -> (StartState, StartAction) {
    start_service_step(start_begin(), StartEvent::Begin(service.to_string()))
}

#[test]
fn mysql_start_runs_through() {
    let (s, a) = begin("mysql");
    assert!(s.stage == StartStage::Probing);
    assert!(matches!(a, StartAction::Probe));
    let (s, a) = start_service_step(s, probed("mysql", ready()));
    assert!(s.stage == StartStage::Preparing);
    assert!(matches!(a, StartAction::PrepareMysql(None)));
    let (s, a) = start_service_step(s, StartEvent::Prepared);
    assert!(s.stage == StartStage::Spawning);
    assert!(matches!(a, StartAction::Spawn(None)));
    let (s, a) = start_service_step(s, StartEvent::Observed { exit: StartExit::Running, port_busy: false });
    assert!(s.stage == StartStage::Done);
    match a {
        StartAction::Finish { log, stop_cgi, keep_child, result } => {
            assert_eq!(log.as_deref(), Some("MySQL started"));
            assert!(!stop_cgi && keep_child);
            assert!(result.ok);
            assert_eq!(result.message, "MySQL iniciado.");
            assert_eq!(result.code.as_deref(), Some("service.started"));
        }
        _ => panic!("expected the reply"),
    }
}

#[test]
fn apache_start_regenerates_prepares_and_tests() {
    let (s, a) = begin("apache");
    assert!(s.stage == StartStage::Regenerating);
    assert!(matches!(a, StartAction::Regenerate));
    let (s, a) = start_service_step(s, StartEvent::Regenerated);
    assert!(matches!(a, StartAction::Probe));
    let (s, a) = start_service_step(s, probed("apache", ready()));
    match a {
        StartAction::PrepareApache(line) => assert_eq!(
            line.as_deref(),
            Some("Warning: HTTPS port 443 requires administrator privileges on Windows.")
        ),
        _ => panic!("expected Apache to be prepared"),
    }
    let (s, a) = start_service_step(s, StartEvent::Prepared);
    assert!(s.stage == StartStage::Testing);
    assert!(matches!(a, StartAction::TestApache));
    let (s, a) = start_service_step(s, StartEvent::Tested(None));
    assert!(matches!(a, StartAction::Spawn(None)));
    let (_, a) = start_service_step(s, StartEvent::Observed { exit: StartExit::Running, port_busy: false });
    match a {
        StartAction::Finish { log, stop_cgi, keep_child, result } => {
            assert_eq!(log.as_deref(), Some("Apache did not confirm port listening after start (8s timeout)."));
            assert!(stop_cgi && !keep_child);
            assert_eq!(result.code.as_deref(), Some("service.startTimeout"));
        }
        _ => panic!("expected the reply"),
    }
}

#[test]
fn failed_apache_test_is_the_reply() {
    let (s, _) = begin("apache");
    let (s, _) = start_service_step(s, StartEvent::Regenerated);
    let (s, _) = start_service_step(s, probed("apache", ready()));
    let (s, _) = start_service_step(s, StartEvent::Prepared);
    let (s, a) = start_service_step(s, StartEvent::Tested(Some("Syntax error on line 3".to_string())));
    assert!(s.stage == StartStage::Done);
    match a {
        StartAction::Finish { log, stop_cgi, keep_child, result } => {
            assert_eq!(log.as_deref(), Some("Syntax error on line 3"));
            assert!(!stop_cgi && !keep_child);
            assert!(!result.ok);
            assert_eq!(result.message, "Syntax error on line 3");
            assert!(result.code.is_none());
        }
        _ => panic!("expected the reply"),
    }
}

#[test]
fn refused_start_replies_with_the_check() {
    let (s, _) = begin("mysql");
    let mut p = ready();
    p.port_available = false;
    let (s, a) = start_service_step(s, probed("mysql", p));
    assert!(s.stage == StartStage::Done);
    match a {
        StartAction::Finish { log, stop_cgi, keep_child, result } => {
            assert_eq!(log.as_deref(), Some("MySQL did not start: port 3306 was already in use."));
            assert!(!stop_cgi && !keep_child);
            assert_eq!(result.code.as_deref(), Some("service.portOccupied"));
        }
        _ => panic!("expected the reply"),
    }
}

#[test]
fn unknown_service_is_an_error() {
    let (s, a) = begin("redis");
    assert!(matches!(a, StartAction::Probe));
    let (s, a) = start_service_step(s, probed("redis", ready()));
    assert!(s.stage == StartStage::Done);
    match a {
        StartAction::Fail(e) => assert_eq!(e, "Servico desconhecido."),
        _ => panic!("expected a failure"),
    }
}

#[test]
fn failure_and_unexpected_events() {
    let (s, _) = begin("apache");
    let (s, a) = start_service_step(s, StartEvent::Prepared);
    assert!(s.stage == StartStage::Regenerating);
    assert!(matches!(a, StartAction::Regenerate));
    let (s, a) = start_service_step(s, StartEvent::Failed("sem permissão".to_string()));
    assert!(s.stage == StartStage::Done);
    match a {
        StartAction::Fail(e) => assert_eq!(e, "sem permissão"),
        _ => panic!("expected a failure"),
    }
}
