use ipeenv::config::AppConfig;
use ipeenv::naming::php_cgi_port;
use ipeenv::services::{
    active_runtime_dir, apache_test_args, apache_test_outcome, environment_diagnostics,
    mysql_init_args, mysql_init_outcome, php_cgi_keys, php_cgi_plan, php_cgi_versions,
    port_wait_step, service_catalog, service_info, service_is_running, service_spec,
    start_service_check, start_service_outcome, stop_service_result, PortWait, RuntimeListing,
    ServiceProbe, StartCheck, StartExit, StartProbe,
};

fn cfg() -> AppConfig {
    AppConfig::default_for("C:/ipe".to_string())
}

fn listing() -> RuntimeListing {
    RuntimeListing {
        apache: vec!["httpd-2.4.58".to_string(), "httpd-2.4.62".to_string()],
        mysql: vec![],
    }
}

fn ready() -> StartProbe {
    StartProbe {
        already_running: false,
        executable_exists: true,
        port_available: true,
        https_port_available: true,
    }
}

#[test]
fn active_runtime_is_the_last_name() {
    assert_eq!(
        active_runtime_dir("C:/ipe/bin/apache", &listing().apache).as_deref(),
        Some("C:/ipe/bin/apache\\httpd-2.4.62")
    );
    assert_eq!(active_runtime_dir("C:/ipe/bin/mysql", &Vec::new()), None);
}

#[test]
fn apache_and_mysql_specs() {
    let c = cfg();
    let a = service_spec(&c, "apache", &listing()).unwrap();
    assert_eq!(a.id, "apache");
    assert_eq!(a.name, "Apache");
    assert_eq!(a.executable, "C:/ipe\\bin\\apache\\httpd-2.4.62\\bin\\httpd.exe");
    assert_eq!(a.work_dir, "C:/ipe\\bin\\apache\\httpd-2.4.62");
    assert_eq!(a.args, vec!["-d", "C:/ipe\\bin\\apache\\httpd-2.4.62", "-f", "conf/ipeenv-httpd.conf"]);
    assert_eq!(a.port, Some(80));
    assert_eq!(a.version, "Apache 2.4.x");
    let m = service_spec(&c, "mysql", &listing()).unwrap();
    assert_eq!(m.executable, "C:/ipe\\bin\\mysql\\bin\\mysqld.exe");
    assert_eq!(m.work_dir, "C:/ipe\\bin\\mysql");
    assert_eq!(m.args, vec!["--defaults-file=C:/ipe/etc/mysql/my.ini", "--datadir=C:/ipe/data/mysql"]);
    assert_eq!(m.port, Some(3306));
    assert!(service_spec(&c, "nginx", &listing()).is_none());
}

#[test]
fn service_listing_and_diagnostics() {
    let mut c = cfg();
    c.enabled_services = vec!["mysql".to_string()];
    let a = service_spec(&c, "apache", &listing()).unwrap();
    let busy = ServiceProbe { pid: None, executable_exists: true, port_available: Some(false), started_here: true };
    let i = service_info(&c, &a, &busy);
    assert_eq!(i.status, "running");
    assert!(!i.enabled);
    assert_eq!(i.last_message, "Pronto para iniciar");
    let m = service_spec(&c, "mysql", &listing()).unwrap();
    let missing = ServiceProbe { pid: None, executable_exists: false, port_available: Some(false), started_here: false };
    let j = service_info(&c, &m, &missing);
    assert_eq!(j.status, "stopped");
    assert!(j.enabled);
    assert_eq!(j.last_message, "Binário ainda não empacotado");
    let d = environment_diagnostics(&vec![i, j]);
    assert_eq!(d.len(), 2);
    assert_eq!(d[0].level, "warn");
    assert_eq!(d[0].title, "MySQL não encontrado");
    assert_eq!(d[0].message, "Coloque o executavel esperado em C:/ipe/bin/mysql/bin/mysqld.exe");
    assert_eq!(d[1].level, "error");
    assert_eq!(d[1].title, "Porta ocupada: 3306");
    assert_eq!(d[1].message, "MySQL não pode iniciar enquanto essa porta estiver em uso.");
}

#[test]
fn catalog_lists_apache_then_mysql() {
    let c = cfg();
    let p = ServiceProbe { pid: Some(7), executable_exists: true, port_available: Some(true), started_here: true };
    let s = service_catalog(&c, &listing(), &p, &p);
    assert_eq!(s.len(), 2);
    assert_eq!(s[0].id, "apache");
    assert_eq!(s[1].id, "mysql");
    assert_eq!(s[1].status, "running");
    assert_eq!(s[1].pid, Some(7));
    assert!(s[0].enabled && s[1].enabled);
}

#[test]
fn start_checks() {
    let c = cfg();
    let m = service_spec(&c, "mysql", &listing()).unwrap();
    let mut p = ready();
    p.already_running = true;
    match start_service_check(&c, "mysql", &m, &p) {
        StartCheck::Reply(r, l) => {
            assert!(r.ok);
            assert_eq!(r.code.as_deref(), Some("service.alreadyRunning"));
            assert_eq!(r.message, "MySQL já está em execução.");
            assert!(l.is_none());
        }
        _ => panic!("expected a reply"),
    }
    let mut p = ready();
    p.executable_exists = false;
    match start_service_check(&c, "mysql", &m, &p) {
        StartCheck::Reply(r, l) => {
            assert!(!r.ok);
            assert_eq!(r.message, "MySQL não encontrado em C:/ipe/bin/mysql/bin/mysqld.exe.");
            assert_eq!(l.as_deref(), Some("MySQL not started: missing binary"));
        }
        _ => panic!("expected a reply"),
    }
    let mut p = ready();
    p.port_available = false;
    match start_service_check(&c, "mysql", &m, &p) {
        StartCheck::Reply(r, l) => {
            assert_eq!(r.code.as_deref(), Some("service.portOccupied"));
            assert_eq!(r.message, "Porta 3306 ocupada. Pare o processo externo ou altere a configuracao.");
            assert_eq!(r.params, vec![("port".to_string(), "3306".to_string())]);
            assert_eq!(l.as_deref(), Some("MySQL did not start: port 3306 was already in use."));
        }
        _ => panic!("expected a reply"),
    }
}

#[test]
fn apache_start_checks() {
    let c = cfg();
    let a = service_spec(&c, "apache", &listing()).unwrap();
    let mut p = ready();
    p.already_running = true;
    p.https_port_available = false;
    match start_service_check(&c, "apache", &a, &p) {
        StartCheck::Reply(r, l) => {
            assert_eq!(r.code.as_deref(), Some("service.httpsPortOccupied"));
            assert_eq!(r.message, "Porta HTTPS 443 ocupada. Outro processo está usando esta porta.");
            assert_eq!(l.as_deref(), Some("Apache did not start: HTTPS port 443 was already in use."));
        }
        _ => panic!("expected a reply"),
    }
    match start_service_check(&c, "apache", &a, &ready()) {
        StartCheck::Proceed(l) => assert_eq!(
            l.as_deref(),
            Some("Warning: HTTPS port 443 requires administrator privileges on Windows.")
        ),
        _ => panic!("expected to proceed"),
    }
    let mut high = cfg();
    high.https_port = 8443;
    match start_service_check(&high, "apache", &a, &ready()) {
        StartCheck::Proceed(l) => assert!(l.is_none()),
        _ => panic!("expected to proceed"),
    }
}

#[test]
fn start_outcomes() {
    let c = cfg();
    let a = service_spec(&c, "apache", &listing()).unwrap();
    let m = service_spec(&c, "mysql", &listing()).unwrap();
    let o = start_service_outcome("mysql", &m, StartExit::Running, false);
    assert!(o.result.ok);
    assert_eq!(o.result.message, "MySQL iniciado.");
    assert_eq!(o.log, "MySQL started");
    assert!(o.keep_child && !o.stop_cgi);
    let o = start_service_outcome(
        "mysql",
        &m,
        StartExit::Exited { status: "exit code: 1".to_string(), stderr: "  ".to_string() },
        false,
    );
    assert!(!o.result.ok);
    assert_eq!(o.result.message, "MySQL encerrou imediatamente com status exit code: 1.");
    assert!(o.result.code.is_none());
    let o = start_service_outcome(
        "apache",
        &a,
        StartExit::Exited { status: "1".to_string(), stderr: " bad conf \n".to_string() },
        false,
    );
    assert_eq!(o.result.message, "Apache não iniciou: bad conf");
    assert!(o.stop_cgi);
    let o = start_service_outcome(
        "apache",
        &a,
        StartExit::Exited { status: "0".to_string(), stderr: String::new() },
        true,
    );
    assert!(o.result.ok);
    assert_eq!(o.log, "Apache started in external mode (parent process exited, port is active).");
    let o = start_service_outcome("apache", &a, StartExit::Running, false);
    assert_eq!(o.result.code.as_deref(), Some("service.startTimeout"));
    assert_eq!(o.log, "Apache did not confirm port listening after start (8s timeout).");
    assert!(o.stop_cgi && !o.keep_child);
    let o = start_service_outcome("apache", &a, StartExit::Running, true);
    assert!(o.result.ok && !o.keep_child);
}

#[test]
fn apache_test_and_mysql_init() {
    let c = cfg();
    let a = service_spec(&c, "apache", &listing()).unwrap();
    let t = apache_test_args(&a);
    assert_eq!(t[0], "-t");
    assert_eq!(t.len(), 5);
    assert_eq!(t[4], "conf/ipeenv-httpd.conf");
    assert_eq!(apache_test_outcome(true, "x", "y"), None);
    assert_eq!(apache_test_outcome(false, "", "").as_deref(), Some("Apache não iniciou: falha sem detalhes"));
    assert_eq!(
        mysql_init_args("C:/ipe"),
        vec![
            "--defaults-file=C:/ipe/etc/mysql/my.ini",
            "--datadir=C:/ipe/data/mysql",
            "--initialize-insecure",
            "--console"
        ]
    );
    assert_eq!(mysql_init_outcome(true, true, "", ""), Ok(()));
    assert_eq!(
        mysql_init_outcome(true, false, "", "oops"),
        Err((
            "Failed to initialize MySQL data directory: oops".to_string(),
            "MySQL não pode inicializar datadir: oops".to_string()
        ))
    );
}

#[test]
fn stopping_and_running() {
    let (r, l) = stop_service_result("apache", false);
    assert_eq!(r.message, "apache parado.");
    assert_eq!(l.as_deref(), Some("apache stopped"));
    let (r, l) = stop_service_result("mysql", false);
    assert_eq!(r.code.as_deref(), Some("service.alreadyStopped"));
    assert_eq!(r.message, "Servico ja estava parado.");
    assert!(l.is_none());
    let (r, l) = stop_service_result("mysql", true);
    assert_eq!(r.message, "mysql parado.");
    assert_eq!(l.as_deref(), Some("mysql stopped"));
    assert!(service_is_running("apache", Some(false), false, true));
    assert!(!service_is_running("apache", Some(false), false, false));
    assert!(!service_is_running("apache", None, true, true));
    assert!(service_is_running("mysql", Some(true), true, false));
    assert!(!service_is_running("mysql", Some(false), false, true));
}

#[test]
fn cgi_versions_are_distinct_in_first_use_order() {
    let v = vec![
        Some("8.2".to_string()),
        None,
        Some("7.4".to_string()),
        Some("8.2".to_string()),
    ];
    assert_eq!(php_cgi_versions(&v), vec!["8.2".to_string(), "7.4".to_string()]);
    assert!(php_cgi_versions(&vec![None]).is_empty());
}

#[test]
fn cgi_plans() {
    let p = php_cgi_plan("C:/ipe", "8.2", true, Some("d"), None, true, "8.2", true);
    assert!(!p.ensure_ini && p.start.is_none() && p.log.is_none());
    let p = php_cgi_plan("C:/ipe", "8.2", false, None, None, true, "8.2", true);
    assert_eq!(p.log.as_deref(), Some("PHP 8.2 not found for php-cgi"));
    let p = php_cgi_plan("C:/ipe", "8.2", false, Some("d"), Some("boom"), true, "8.2", true);
    assert_eq!(p.log.as_deref(), Some("PHP 8.2 is invalid for php-cgi: boom"));
    let p = php_cgi_plan("C:/ipe", "8.2", false, Some("C:\\p"), None, false, "8.2", true);
    assert_eq!(p.log.as_deref(), Some("php-cgi.exe missing at C:/p"));
    let port = php_cgi_port("8.2");
    let p = php_cgi_plan("C:/ipe", "8.2", false, Some("C:/p"), None, true, "8.2.11", false);
    assert!(p.ensure_ini && p.start.is_none());
    assert_eq!(p.log, Some(format!("php-cgi 8.2 already uses or found occupied port {}", port)));
    let p = php_cgi_plan("C:/ipe", "8.2", false, Some("C:/p"), None, true, "8.2.11", true);
    let s = p.start.unwrap();
    assert_eq!(s.key, "php-cgi-8.2");
    assert_eq!(s.program, "C:/p\\php-cgi.exe");
    assert_eq!(s.work_dir, "C:/p");
    assert_eq!(
        s.args,
        vec![
            "-b".to_string(),
            format!("127.0.0.1:{}", port),
            "-c".to_string(),
            "C:/ipe/etc/php/php-8-2-11.ini".to_string()
        ]
    );
    assert_eq!(p.log, Some(format!("php-cgi 8.2 started at 127.0.0.1:{}", port)));
}

#[test]
fn cgi_keys_and_port_wait() {
    let k = vec!["apache".to_string(), "php-cgi-8.2".to_string(), "php-cgi-7.4".to_string()];
    assert_eq!(php_cgi_keys(&k), vec!["php-cgi-8.2".to_string(), "php-cgi-7.4".to_string()]);
    assert!(port_wait_step(true, 9000, 8000) == PortWait::Done(true));
    assert!(port_wait_step(false, 8000, 8000) == PortWait::Done(false));
    assert!(port_wait_step(false, 200, 8000) == PortWait::Sleep);
}

#[test]
fn port_held_by_another_program_is_a_conflict() {
    let c = cfg();
    let a = service_spec(&c, "apache", &listing()).unwrap();
    let iis = ServiceProbe { pid: None, executable_exists: true, port_available: Some(false), started_here: false };
    let i = service_info(&c, &a, &iis);
    assert_eq!(i.status, "stopped");
    let d = environment_diagnostics(&vec![i]);
    assert_eq!(d.len(), 1);
    assert_eq!(d[0].level, "error");
    assert_eq!(d[0].title, "Porta ocupada: 80");
    assert_eq!(d[0].message, "Apache não pode iniciar enquanto essa porta estiver em uso.");
}
