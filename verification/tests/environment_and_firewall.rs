use ipeenv::config::AppConfig;
use ipeenv::environment::{
    apache_config_generated, bundled_or_workspace_file, certificate_is_placeholder,
    certificate_ready, config_file_path, editor_opened, environment_info, file_opened,
    folder_infos, folder_missing, missing_file, mkcert_args, mkcert_failure,
    mkcert_install_outcome, mysql_config, path_opened, php_config, php_ini_opened,
    php_not_installed, reply_with, seed_copy_error, services_file, site_template_seed,
    ssl_prepared, url_opened, windows_path, TemplateSeed,
};
use ipeenv::firewall::{
    elevated_firewall_log, firewall_candidates, firewall_script_text, firewall_summary,
    netsh_failure, netsh_rule_args, rule_created_log, rule_names_program, rule_query_script,
    PhpDirProbe, RuleStatus,
};
use ipeenv::services::{service_catalog, RuntimeListing, ServiceProbe};

fn php_dir(name: &str, is_dir: bool, has_cgi: bool, has_php: bool) -> PhpDirProbe {
    PhpDirProbe { name: name.to_string(), is_dir, has_cgi, has_php }
}

#[test]
fn folders_of_a_root() {
    let f = folder_infos("C:\\ipe", &vec![true, false]);
    assert_eq!(f.len(), 19);
    assert_eq!(f[0].name, "bin/apache");
    assert_eq!(f[0].path, "C:/ipe/bin/apache");
    assert!(f[0].exists);
    assert!(!f[1].exists);
    assert!(!f[18].exists);
    assert_eq!(f[18].name, "backup");
    assert_eq!(f[7].path, "C:/ipe/etc/apache/vhosts");
}

#[test]
fn dashboard_summary() {
    let cfg = AppConfig::default_for("C:/ipe".to_string());
    let l = RuntimeListing { apache: vec![], mysql: vec![] };
    let missing = ServiceProbe { pid: None, executable_exists: false, port_available: Some(true), started_here: false };
    let services = service_catalog(&cfg, &l, &missing, &missing);
    let e = environment_info("0.1.0", "C:\\ipe", &cfg, folder_infos("C:/ipe", &Vec::new()), services);
    assert_eq!(e.app_version, "0.1.0");
    assert_eq!(e.root_dir, "C:/ipe");
    assert_eq!((e.http_port, e.https_port, e.mysql_port), (80, 443, 3306));
    assert!(e.https_enabled);
    assert_eq!(e.folders.len(), 19);
    assert_eq!(e.services.len(), 2);
    assert_eq!(e.diagnostics.len(), 2);
    assert_eq!(e.diagnostics[0].title, "Apache não encontrado");
    assert_eq!(e.diagnostics[1].title, "MySQL não encontrado");
}

#[test]
fn startup_files() {
    assert_eq!(config_file_path("C:/ipe"), "C:/ipe\\config\\app.json");
    let (p, t) = services_file("C:/ipe");
    assert_eq!(p, "C:/ipe\\config\\services.json");
    assert_eq!(t, "{\n  \"apache\": { \"autostart\": false },\n  \"mysql\": { \"autostart\": false }\n}\n");
    let (p, t) = mysql_config("C:\\ipe", Some(3307));
    assert_eq!(p, "C:\\ipe\\etc\\mysql\\my.ini");
    assert_eq!(t, "[mysqld]\nport=3307\ndatadir=C:/ipe/data/mysql\nlog-error=C:/ipe/logs/mysql/mysql.log\n");
    let (_, t) = mysql_config("C:/ipe", None);
    assert!(t.starts_with("[mysqld]\nport=3306\n"));
    let (p, t) = php_config("C:/ipe");
    assert_eq!(p, "C:/ipe\\etc\\php\\php.ini");
    assert_eq!(t, "display_errors=On\nerror_log=C:/ipe/logs/php/php.log\ndate.timezone=America/Sao_Paulo\n");
}

#[test]
fn certificates() {
    assert!(certificate_is_placeholder(Some("-- IPEENV LOCAL CERT PLACEHOLDER --")));
    assert!(!certificate_is_placeholder(Some("-----BEGIN CERTIFICATE-----")));
    assert!(!certificate_is_placeholder(None));
    assert!(certificate_ready(true, true, false));
    assert!(!certificate_ready(true, true, true));
    assert!(!certificate_ready(true, false, false));
    assert_eq!(
        mkcert_args("c.crt", "c.key", "a.test"),
        vec!["-cert-file", "c.crt", "-key-file", "c.key", "a.test"]
    );
    assert_eq!(
        mkcert_failure("a.test", " bad \n", " out "),
        "mkcert não conseguiu gerar certificado para a.test: bad out"
    );
    assert_eq!(mkcert_install_outcome(true, "", ""), Ok(()));
    assert_eq!(
        mkcert_install_outcome(false, "The local CA is already installed in the system trust store! 👍", ""),
        Ok(())
    );
    assert_eq!(
        mkcert_install_outcome(false, "", " denied "),
        Err("mkcert -install falhou: denied".to_string())
    );
}

#[test]
fn shipped_files_and_seeds() {
    assert_eq!(bundled_or_workspace_file("p.conf", Some("E"), true, Some("R"), true, "W"), "E\\p.conf");
    assert_eq!(bundled_or_workspace_file("p.conf", Some("E"), false, Some("R"), true, "W"), "R\\p.conf");
    assert_eq!(bundled_or_workspace_file("p.conf", None, true, Some("R"), false, "W"), "W\\p.conf");
    assert!(site_template_seed(true, true, true) == TemplateSeed::Keep);
    assert!(site_template_seed(false, true, true) == TemplateSeed::CopyLegacy);
    assert!(site_template_seed(false, false, true) == TemplateSeed::CopyShipped);
    assert!(site_template_seed(false, false, false) == TemplateSeed::WriteDefault);
    assert_eq!(
        seed_copy_error("sites", "C:\\x\\sites.conf", "denied"),
        "Não foi possível preparar catálogo de sites a partir de C:/x/sites.conf: denied"
    );
}

#[test]
fn open_replies() {
    let r = reply_with(false, "c", "m".to_string(), "k", "v".to_string());
    assert!(!r.ok);
    assert_eq!(r.params, vec![("k".to_string(), "v".to_string())]);
    let r = path_opened(true, "C:\\www");
    assert_eq!(r.message, "Pasta aberta: C:/www.");
    assert_eq!(r.code.as_deref(), Some("path.opened"));
    assert_eq!(folder_missing("C:\\nope"), "Pasta não encontrada: C:/nope");
    assert_eq!(windows_path("C:/ipe/www"), "C:\\ipe\\www");
    let r = url_opened(true, "http://a.test");
    assert_eq!(r.message, "URL solicitada ao navegador padrão.");
    assert_eq!(r.params[0].1, "http://a.test");
    let r = file_opened("hosts.opened", "Hosts aberto: ", "C:\\h");
    assert_eq!(r.message, "Hosts aberto: C:/h.");
    let r = editor_opened("x.opened", "Aberto.", "C:\\h");
    assert_eq!(r.message, "Aberto.");
    assert_eq!(r.params[0].1, "C:/h");
    assert_eq!(missing_file("Arquivo não encontrado: ", "C:\\f"), "Arquivo não encontrado: C:/f");
    let r = php_ini_opened("8.2");
    assert_eq!(r.message, "php.ini do PHP 8.2 aberto no editor.");
    assert_eq!(php_not_installed("8.2"), "PHP 8.2 não está instalado.");
    let (r, l) = ssl_prepared("a.test");
    assert_eq!(r.message, "SSL local preparado para a.test.");
    assert_eq!(l, "SSL prepared for a.test");
    let r = apache_config_generated();
    assert_eq!(r.message, "Configuracao do Apache regenerada.");
    assert!(r.params.is_empty());
}

#[test]
fn firewall_programs() {
    let l = RuntimeListing { apache: vec!["httpd-2.4.62".to_string()], mysql: vec![] };
    let dirs = vec![
        php_dir("php-8.2", true, true, true),
        php_dir("notes.txt", false, true, true),
        php_dir("php-7.4", true, false, true),
    ];
    let c = firewall_candidates("C:/ipe", &l, &dirs);
    assert_eq!(
        c,
        vec![
            ("Ipeenv Apache".to_string(), "C:/ipe\\bin\\apache\\httpd-2.4.62\\bin\\httpd.exe".to_string()),
            ("Ipeenv MySQL".to_string(), "C:/ipe\\bin\\mysql\\bin\\mysqld.exe".to_string()),
            ("Ipeenv PHP-CGI php-8.2".to_string(), "C:/ipe\\bin\\php\\php-8.2\\php-cgi.exe".to_string()),
            ("Ipeenv PHP php-8.2".to_string(), "C:/ipe\\bin\\php\\php-8.2\\php.exe".to_string()),
            ("Ipeenv PHP php-7.4".to_string(), "C:/ipe\\bin\\php\\php-7.4\\php.exe".to_string()),
        ]
    );
}

#[test]
fn firewall_rules() {
    assert!(rule_names_program("C:\\IPE\\bin\\php.exe\r\nother\n", "c:/ipe/bin/php.exe"));
    assert!(!rule_names_program("C:/ipe/bin/php-cgi.exe", "C:/ipe/bin/php.exe"));
    assert_eq!(
        rule_query_script("Ipeenv PHP o'k"),
        "$rules = Get-NetFirewallRule -DisplayName 'Ipeenv PHP o''k' -ErrorAction SilentlyContinue; if (-not $rules) { exit 1 }; foreach ($rule in $rules) { Get-NetFirewallApplicationFilter -AssociatedNetFirewallRule $rule | Select-Object -ExpandProperty Program }"
    );
    assert_eq!(
        netsh_rule_args("Ipeenv Apache", "C:/a.exe"),
        vec![
            "advfirewall", "firewall", "add", "rule", "name=Ipeenv Apache", "dir=in", "action=allow",
            "program=C:/a.exe", "enable=yes", "profile=any"
        ]
    );
    assert_eq!(netsh_failure("  ", " out "), "out");
    assert_eq!(netsh_failure(" err ", "out"), "err");
    assert_eq!(rule_created_log("Ipeenv MySQL"), "Firewall: rule created for Ipeenv MySQL");
}

#[test]
fn firewall_summaries() {
    let names = vec!["A".to_string(), "B".to_string(), "C".to_string(), "D".to_string()];
    let (elevate, r) = firewall_summary(
        &names,
        &vec![RuleStatus::Created, RuleStatus::Existing, RuleStatus::Missing, RuleStatus::Created],
    );
    assert!(!elevate);
    assert!(r.ok);
    assert_eq!(r.message, "Regras criadas: A, D | Ja existiam: B | Ignorados: C (não instalado)");
    let (elevate, r) = firewall_summary(
        &names,
        &vec![RuleStatus::Created, RuleStatus::Failed("x".to_string()), RuleStatus::Missing, RuleStatus::Missing],
    );
    assert!(elevate);
    assert_eq!(r.code.as_deref(), Some("firewall.elevationRequested"));
    let (elevate, r) = firewall_summary(&Vec::new(), &Vec::new());
    assert!(!elevate);
    assert_eq!(r.message, "Nenhum executavel encontrado para liberar.");
}

#[test]
fn elevated_firewall_script() {
    let c = vec![
        ("Ipeenv Apache".to_string(), "C:/a/httpd.exe".to_string()),
        ("Ipeenv O'Brien".to_string(), "C:/o.exe".to_string()),
    ];
    let s = firewall_script_text(&c, &vec![false, true], "C:/r.txt");
    assert_eq!(
        s,
        "$ErrorActionPreference = 'Stop'\n$created = @()\n$existing = Get-NetFirewallRule -DisplayName 'Ipeenv O''Brien' -ErrorAction SilentlyContinue\nif ($existing) { $existing | Remove-NetFirewallRule }\nNew-NetFirewallRule -DisplayName 'Ipeenv O''Brien' -Direction Inbound -Action Allow -Program 'C:/o.exe' -Profile Any -Enabled True | Out-Null\n$created += 'Ipeenv O''Brien'\n'OK: ' + ($created -join ', ') | Set-Content -LiteralPath 'C:/r.txt' -Encoding UTF8\n"
    );
    assert_eq!(elevated_firewall_log(Some(" OK: A \n")), "Elevated firewall: OK: A");
    assert_eq!(
        elevated_firewall_log(None),
        "Elevated firewall requested, but no result was written. Permission may have been canceled or the script failed."
    );
}
