use ipeenv::opening::{open_project_step, open_start, OpenAction, OpenEvent, OpenStage, OpenState};

fn begin(host_configured: bool) -> OpenEvent {
    OpenEvent::Begin {
        domain: "loja.test".to_owned(),
        host_configured,
        url: "http://loja.test:8080".to_owned(),
    }
}

fn step(s: OpenState, e: OpenEvent) -> (OpenState, OpenAction) {
    open_project_step(s, e)
}

#[test]
fn configured_host_goes_straight_to_apache() {
    let (s, a) = step(open_start(), begin(true));
    assert!(s.stage == OpenStage::ProbingApache);
    assert!(matches!(a, OpenAction::ProbeApache));
    assert_eq!(s.domain, "loja.test");
    assert!(s.notes.is_empty());
}

#[test]
fn missing_host_is_added_and_checked() {
    let (s, a) = step(open_start(), begin(false));
    assert!(s.stage == OpenStage::AddingHost);
    match a {
        OpenAction::AddHost(d) => assert_eq!(d, "loja.test"),
        _ => panic!("expected the host to be added"),
    }
    let (s, a) = step(s, OpenEvent::HostAdded("Host adicionado.".to_owned()));
    assert!(s.stage == OpenStage::ReadingHosts);
    assert!(matches!(a, OpenAction::ReadHosts));
    assert_eq!(s.notes, vec!["Host adicionado.".to_owned()]);
    let (s, a) = step(s, OpenEvent::HostsRead("127.0.0.1 loja.test\n".to_owned()));
    assert!(s.stage == OpenStage::ProbingApache);
    assert!(matches!(a, OpenAction::ProbeApache));
}

#[test]
fn hosts_without_domain_asks_for_permission() {
    let (s, _) = step(open_start(), begin(false));
    let (s, _) = step(s, OpenEvent::HostAdded("Pedido enviado.".to_owned()));
    let (s, a) = step(s, OpenEvent::HostsRead(String::new()));
    assert!(s.stage == OpenStage::Done);
    match a {
        OpenAction::Reply(r) => {
            assert!(!r.ok);
            assert_eq!(r.code.as_deref(), Some("hosts.permissionRequired"));
            assert_eq!(
                r.message,
                "Confirme a permissão para adicionar loja.test ao hosts e tente abrir novamente."
            );
            assert_eq!(r.params, vec![("domain".to_owned(), "loja.test".to_owned())]);
        }
        _ => panic!("expected a reply"),
    }
}

#[test]
fn unknown_apache_is_an_error() {
    let (s, _) = step(open_start(), begin(true));
    let (s, a) = step(s, OpenEvent::Apache { executable: None, exists: false });
    assert!(s.stage == OpenStage::Done);
    match a {
        OpenAction::Fail(e) => assert_eq!(e, "Servico Apache desconhecido."),
        _ => panic!("expected a failure"),
    }
}

#[test]
fn missing_apache_is_refused() {
    let (s, _) = step(open_start(), begin(true));
    let (_, a) = step(
        s,
        OpenEvent::Apache { executable: Some("C:/ipeenv/apache/bin/httpd.exe".to_owned()), exists: false },
    );
    match a {
        OpenAction::Reply(r) => {
            assert!(!r.ok);
            assert_eq!(r.code.as_deref(), Some("apache.missingForProject"));
            assert!(r.message.starts_with("Apache não encontrado em "));
            assert!(r.message.ends_with(" antes de abrir loja.test."));
            assert_eq!(r.params.len(), 2);
            assert_eq!(r.params[1], ("domain".to_owned(), "loja.test".to_owned()));
        }
        _ => panic!("expected a reply"),
    }
}

#[test]
fn running_apache_is_regenerated_and_url_opened() {
    let (s, _) = step(open_start(), begin(true));
    let (s, _) = step(s, OpenEvent::Apache { executable: Some("httpd".to_owned()), exists: true });
    assert!(s.stage == OpenStage::CheckingApache);
    let (s, a) = step(s, OpenEvent::Running(true));
    assert!(matches!(a, OpenAction::Regenerate));
    let (s, a) = step(s, OpenEvent::Regenerated);
    match a {
        OpenAction::OpenUrl(u) => assert_eq!(u, "http://loja.test:8080"),
        _ => panic!("expected the address to be opened"),
    }
    let (s, a) = step(s, OpenEvent::UrlOpened(true));
    assert!(s.stage == OpenStage::Done);
    match a {
        OpenAction::Reply(r) => {
            assert!(r.ok);
            assert_eq!(r.code, None);
            assert_eq!(
                r.message,
                "Configurações regeneradas; Apache já estava em execução. Abrindo http://loja.test:8080."
            );
        }
        _ => panic!("expected a reply"),
    }
}

#[test]
fn stopped_apache_is_started() {
    let (s, _) = step(open_start(), begin(false));
    let (s, _) = step(s, OpenEvent::HostAdded("Host adicionado.".to_owned()));
    let (s, _) = step(s, OpenEvent::HostsRead("127.0.0.1 loja.test".to_owned()));
    let (s, _) = step(s, OpenEvent::Apache { executable: Some("httpd".to_owned()), exists: true });
    let (s, a) = step(s, OpenEvent::Running(false));
    assert!(matches!(a, OpenAction::StartApache));
    let (s, _) = step(s, OpenEvent::Started { ok: true, message: "Apache iniciado.".to_owned() });
    let (_, a) = step(s, OpenEvent::UrlOpened(false));
    match a {
        OpenAction::Reply(r) => {
            assert!(!r.ok);
            assert_eq!(r.message, "Host adicionado. Apache iniciado. Abrindo http://loja.test:8080.");
        }
        _ => panic!("expected a reply"),
    }
}

#[test]
fn apache_start_failure_is_reported() {
    let (s, _) = step(open_start(), begin(true));
    let (s, _) = step(s, OpenEvent::Apache { executable: Some("httpd".to_owned()), exists: true });
    let (s, _) = step(s, OpenEvent::Running(false));
    let (s, a) = step(s, OpenEvent::Started { ok: false, message: "porta ocupada".to_owned() });
    assert!(s.stage == OpenStage::Done);
    match a {
        OpenAction::Reply(r) => {
            assert!(!r.ok);
            assert_eq!(r.code.as_deref(), Some("apache.startFailed"));
            assert_eq!(r.message, "Não foi possível iniciar o Apache: porta ocupada");
            assert_eq!(r.params, vec![("message".to_owned(), "porta ocupada".to_owned())]);
        }
        _ => panic!("expected a reply"),
    }
}

#[test]
fn failed_outside_work_ends_opening() {
    let (s, _) = step(open_start(), begin(true));
    let (s, a) = step(s, OpenEvent::Failed("sem acesso".to_owned()));
    assert!(s.stage == OpenStage::Done);
    match a {
        OpenAction::Fail(e) => assert_eq!(e, "sem acesso"),
        _ => panic!("expected a failure"),
    }
}

#[test]
fn unexpected_event_repeats_awaited_action() {
    let (s, _) = step(open_start(), begin(true));
    let (s, a) = step(s, OpenEvent::Running(true));
    assert!(s.stage == OpenStage::ProbingApache);
    assert!(matches!(a, OpenAction::ProbeApache));
    let (_, a) = step(open_start(), OpenEvent::Regenerated);
    match a {
        OpenAction::Fail(e) => assert_eq!(e, "Projeto não informado."),
        _ => panic!("expected a failure"),
    }
}
