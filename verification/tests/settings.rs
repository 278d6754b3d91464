use ipeenv::config::{
    default_enabled_services, default_https_enabled, disable_service, enable_service,
    update_https, update_ports, validate_port, ActionResult, AppConfig, PortUpdate,
};

fn cfg() -> AppConfig {
    AppConfig::default_for("C:/ipe".to_string())
}

#[test]
fn defaults_of_a_new_root() {
    let c = cfg();
    assert_eq!(c.root_dir, "C:/ipe");
    assert_eq!((c.http_port, c.https_port, c.mysql_port), (80, 443, 3306));
    assert_eq!(c.php_version_hint, "PHP empacotado");
    assert!(c.https_enabled);
    assert_eq!(c.enabled_services, vec!["apache", "mysql"]);
    assert!(default_https_enabled());
    assert_eq!(default_enabled_services(), vec!["apache", "mysql"]);
}

#[test]
fn enabling_twice_changes_nothing_more() {
    let mut c = cfg();
    let (changed, r) = enable_service(&mut c, "nginx");
    assert!(changed);
    assert_eq!(r.message, "nginx habilitado");
    assert_eq!(c.enabled_services, vec!["apache", "mysql", "nginx"]);
    let (changed, _) = enable_service(&mut c, "nginx");
    assert!(!changed);
    assert_eq!(c.enabled_services, vec!["apache", "mysql", "nginx"]);
}

#[test]
fn disabling_undoes_enabling() {
    let mut c = cfg();
    let before = c.enabled_services.clone();
    enable_service(&mut c, "nginx");
    let (changed, r) = disable_service(&mut c, "nginx");
    assert!(changed);
    assert_eq!(r.message, "nginx desabilitado");
    assert_eq!(c.enabled_services, before);
    let (changed, _) = disable_service(&mut c, "nginx");
    assert!(!changed);
    c.enabled_services = vec!["a".to_string(), "b".to_string(), "a".to_string()];
    disable_service(&mut c, "a");
    assert_eq!(c.enabled_services, vec!["b", "a"]);
}

#[test]
fn port_validation() {
    assert_eq!(validate_port(80, "HTTP"), Ok(()));
    assert_eq!(validate_port(0, "HTTP"), Err("Porta HTTP invalida.".to_string()));
}

#[test]
fn port_updates() {
    let mut c = cfg();
    let r: ActionResult = update_ports(&mut c, PortUpdate { http_port: 8080, https_port: 8443, mysql_port: 3307 }).unwrap();
    assert_eq!((c.http_port, c.https_port, c.mysql_port), (8080, 8443, 3307));
    assert_eq!(r.code.as_deref(), Some("ports.updated"));
    assert_eq!(r.message, "Portas atualizadas. Reinicie os servicos para aplicar.");
    assert_eq!(
        r.params,
        vec![
            ("http".to_string(), "8080".to_string()),
            ("https".to_string(), "8443".to_string()),
            ("mysql".to_string(), "3307".to_string())
        ]
    );
    let e = update_ports(&mut c, PortUpdate { http_port: 80, https_port: 0, mysql_port: 0 });
    assert_eq!(e.err(), Some("Porta HTTPS invalida.".to_string()));
    let e = update_ports(&mut c, PortUpdate { http_port: 80, https_port: 443, mysql_port: 80 });
    assert_eq!(e.err(), Some("As portas dos servicos precisam ser diferentes.".to_string()));
    assert_eq!((c.http_port, c.https_port, c.mysql_port), (8080, 8443, 3307));
}

#[test]
fn https_switch() {
    let mut c = cfg();
    let r = update_https(&mut c, false);
    assert!(!c.https_enabled);
    assert_eq!(r.code.as_deref(), Some("https.disabled"));
    assert_eq!(r.message, "HTTPS local desabilitado. Reinicie o Apache para aplicar.");
    let r = update_https(&mut c, true);
    assert!(c.https_enabled);
    assert_eq!(r.code.as_deref(), Some("https.enabled"));
}

#[test]
fn coded_parameters_keep_one_value_per_key() {
    let r = ipeenv::config::ActionResult::coded(
        true,
        "x.done",
        "feito".to_string(),
        vec![("a", "1".to_string()), ("b", "2".to_string()), ("a", "3".to_string())],
    );
    assert_eq!(r.params, vec![("a".to_string(), "3".to_string()), ("b".to_string(), "2".to_string())]);
    assert_eq!(r.code.as_deref(), Some("x.done"));
}
