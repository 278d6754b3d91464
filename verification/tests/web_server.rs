use ipeenv::apache::{
    apache_httpd_conf, apache_load_modules, apache_module_paths, detect_framework,
    framework_docroot, project_vhost_conf, vhost_file_path, FrameworkProbe,
};
use ipeenv::config::AppConfig;
use ipeenv::hosts::{
    add_host, add_host_reply, elevated_script_command, hosts_script_path, hosts_script_text,
    is_permission_error, remove_host, remove_host_reply, HostPlan, HostWrite, IoErrorKind,
};
use ipeenv::naming::php_cgi_port;

fn cfg() -> AppConfig {
    AppConfig::default_for("C:/ipe".to_string())
}

fn nothing() -> FrameworkProbe {
    FrameworkProbe {
        artisan: false,
        wp_config: false,
        wp_content: false,
        webroot_index: false,
        config_app: false,
        webroot: false,
        composer: false,
    }
}

#[test]
fn module_paths_and_lines() {
    let p = apache_module_paths("C:/a");
    assert_eq!(p.len(), 17);
    assert_eq!(p[0], "C:/a\\modules\\mod_access_compat.so");
    assert_eq!(p[16], "C:/a\\modules\\mod_proxy_fcgi.so");
    assert_eq!(
        apache_load_modules("C:\\a", &vec![true, false, true]),
        "LoadModule access_compat_module \"C:/a/modules/mod_access_compat.so\"\nLoadModule alias_module \"C:/a/modules/mod_alias.so\""
    );
    assert_eq!(apache_load_modules("C:/a", &Vec::new()), "");
}

#[test]
fn httpd_conf_text() {
    let c = cfg();
    let t = apache_httpd_conf("C:/ipe", &c, "C:/ipe/bin/apache/httpd", "LoadModule a \"x\"", true);
    assert_eq!(
        t,
        "ServerRoot \"C:/ipe/bin/apache/httpd\"\nLoadModule a \"x\"\nListen 80\nListen 443\nServerName localhost\nDocumentRoot \"C:/ipe/www\"\nDirectoryIndex index.php index.html\nTypesConfig \"C:/ipe/bin/apache/httpd/conf/mime.types\"\n\nErrorLog \"C:/ipe/logs/apache/error.log\"\nLogFormat \"%h %l %u %t \\\"%r\\\" %>s %b\" common\nCustomLog \"C:/ipe/logs/apache/access.log\" common\nIncludeOptional \"C:/ipe/etc/apache/vhosts/*.conf\"\n"
    );
    let mut plain = cfg();
    plain.https_enabled = false;
    let t = apache_httpd_conf("C:/ipe", &plain, "C:/h", "", false);
    assert!(!t.contains("Listen 443"));
    assert!(!t.contains("TypesConfig"));
}

#[test]
fn document_root_by_framework() {
    assert_eq!(framework_docroot("C:/www/app", "Laravel"), "C:/www/app/public");
    assert_eq!(framework_docroot("C:/www/app", "CakePHP"), "C:/www/app/webroot");
    assert_eq!(framework_docroot("C:/www/app", "WordPress"), "C:/www/app");
    let mut p = nothing();
    assert_eq!(detect_framework(&p), "Projeto");
    p.composer = true;
    assert_eq!(detect_framework(&p), "PHP");
    p.config_app = true;
    assert_eq!(detect_framework(&p), "PHP");
    p.webroot = true;
    assert_eq!(detect_framework(&p), "CakePHP");
    p.wp_content = true;
    assert_eq!(detect_framework(&p), "WordPress");
    p.artisan = true;
    assert_eq!(detect_framework(&p), "Laravel");
}

#[test]
fn vhost_for_plain_http() {
    let mut c = cfg();
    c.https_enabled = false;
    let t = project_vhost_conf("C:/ipe", &c, "app.test", "C:/www/app", "Laravel", None);
    assert_eq!(
        t,
        "<VirtualHost *:80>\n  ServerName app.test\n  DocumentRoot \"C:/www/app/public\"\n  <Directory \"C:/www/app\">\n    AllowOverride None\n    Options -Indexes +FollowSymLinks\n    Require all granted\n  </Directory>\n  <Directory \"C:/www/app/public\">\n    AllowOverride All\n    Options -Indexes +FollowSymLinks\n    Require all granted\n  </Directory>\n</VirtualHost>\n"
    );
    let t = project_vhost_conf("C:/ipe", &c, "s.test", "C:/www/s", "Projeto", None);
    assert!(!t.contains("AllowOverride None"));
}

#[test]
fn vhost_with_https_and_php_cgi() {
    let t = project_vhost_conf("C:\\ipe", &cfg(), "app.test", "C:/www/app", "Projeto", Some("8.2"));
    assert_eq!(t.matches("<VirtualHost").count(), 2);
    assert!(t.starts_with("<VirtualHost *:80>\n"));
    assert!(t.contains("\n<VirtualHost *:443>\n"));
    let handler = format!("SetHandler \"proxy:fcgi://127.0.0.1:{}/\"", php_cgi_port("8.2"));
    assert_eq!(t.matches(handler.as_str()).count(), 2);
    assert!(t.contains("  SSLEngine on\n  SSLCertificateFile \"C:/ipe/etc/ssl/certs/app.test.crt\"\n  SSLCertificateKeyFile \"C:/ipe/etc/ssl/certs/app.test.key\"\n</VirtualHost>\n"));
    assert_eq!(vhost_file_path("C:/ipe", "app.test"), "C:/ipe\\etc\\apache\\vhosts\\app.test.conf");
}

#[test]
fn add_host_appends_or_answers() {
    match add_host("Loja", "127.0.0.1 localhost\n").unwrap() {
        HostPlan::Append { domain, text } => {
            assert_eq!(domain, "loja.test");
            assert_eq!(text, "\n# Ipeenv\n127.0.0.1 loja.test\n");
        }
        _ => panic!("expected an append"),
    }
    match add_host("loja.test", "127.0.0.1 loja.test\r\n").unwrap() {
        HostPlan::Present(a) => {
            assert!(a.ok);
            assert_eq!(a.code.as_deref(), Some("hosts.alreadyExists"));
            assert_eq!(a.message, "loja.test ja existe no hosts.");
        }
        _ => panic!("expected present"),
    }
    assert_eq!(add_host("!!!", "").err(), Some("Dominio invalido.".to_string()));
}

#[test]
fn added_host_is_then_present() {
    let hosts = "127.0.0.1 localhost".to_string();
    let text = match add_host("Meu Site", &hosts).unwrap() {
        HostPlan::Append { text, .. } => text,
        _ => panic!("expected an append"),
    };
    let after = hosts + &text;
    assert!(matches!(add_host("meu-site.test", &after).unwrap(), HostPlan::Present(_)));
    let (d, removed) = remove_host("Meu Site", &after).unwrap();
    assert_eq!(d, "meu-site.test");
    assert!(!removed.contains("meu-site.test"));
    assert!(matches!(add_host("meu-site", &removed).unwrap(), HostPlan::Append { .. }));
}

#[test]
fn remove_host_keeps_other_lines() {
    let (d, t) = remove_host("Loja.test", "a\r\n127.0.0.1 loja.test\nb\n").unwrap();
    assert_eq!(d, "loja.test");
    assert_eq!(t, "a\nb");
    assert_eq!(remove_host("  ", "x").err(), Some("Dominio invalido.".to_string()));
}

#[test]
fn host_replies() {
    let (a, l) = add_host_reply("loja.test", "C:/h", HostWrite::Written).unwrap();
    assert_eq!(a.message, "loja.test adicionado ao hosts.");
    assert_eq!(a.code.as_deref(), Some("hosts.added"));
    assert_eq!(l, "Host added: loja.test");
    let (a, l) = add_host_reply("loja.test", "C:/h", HostWrite::Elevated).unwrap();
    assert_eq!(
        a.message,
        "Permissão elevada solicitada para adicionar loja.test ao hosts. Confirme o UAC e recarregue o navegador."
    );
    assert_eq!(l, "Elevation requested to add host: loja.test");
    assert_eq!(
        add_host_reply("loja.test", "C:\\Windows\\hosts", HostWrite::Failed("denied".to_string())).err(),
        Some("Não foi possível editar C:/Windows/hosts: denied".to_string())
    );
    let (a, l) = remove_host_reply("loja.test", HostWrite::Written).unwrap();
    assert_eq!(a.message, "loja.test removido do hosts.");
    assert_eq!(l, "Host removed: loja.test");
    let (a, _) = remove_host_reply("loja.test", HostWrite::Elevated).unwrap();
    assert_eq!(a.code.as_deref(), Some("hosts.removeElevationRequested"));
    assert_eq!(
        remove_host_reply("loja.test", HostWrite::Failed("x".to_string())).err(),
        Some("Não foi possível editar hosts: x".to_string())
    );
}

#[test]
fn elevated_hosts_script() {
    assert!(is_permission_error(IoErrorKind::PermissionDenied));
    assert!(!is_permission_error(IoErrorKind::Other));
    assert_eq!(hosts_script_path("C:/ipe", "loja.test", true), "C:/ipe\\tmp\\elevated\\add-host-loja-test.ps1");
    assert_eq!(hosts_script_path("C:/ipe", "loja.test", false), "C:/ipe\\tmp\\elevated\\remove-host-loja-test.ps1");
    let s = hosts_script_text("o'k.test", false);
    assert!(s.starts_with("$hosts = Join-Path $env:SystemRoot 'System32\\drivers\\etc\\hosts'\n$domain = 'o''k.test'\n$entry = '^\\s*127\\.0\\.0\\.1\\s+' + [regex]::Escape($domain) + '\\s*$'\n$lines"));
    let s = hosts_script_text("a.test", true);
    assert!(s.contains("Add-Content -LiteralPath $hosts"));
    assert!(s.ends_with("ipconfig /flushdns | Out-Null\n"));
    assert!(elevated_script_command("C:/a\"b.ps1").ends_with("-File \"C:/a\\\"b.ps1\"'"));
}

#[test]
fn only_exact_entries_count() {
    let hosts = "127.0.0.1 myshop.test\n# 127.0.0.1 shop.test\n10.0.0.5 shop.test\n";
    match add_host("shop.test", hosts).unwrap() {
        HostPlan::Append { domain, text } => {
            assert_eq!(domain, "shop.test");
            assert_eq!(text, "\n# Ipeenv\n127.0.0.1 shop.test\n");
        }
        _ => panic!("a longer name, a comment or another address is no entry"),
    }
    assert!(matches!(add_host("shop", "  127.0.0.1\tshop.test  \r\n").unwrap(), HostPlan::Present(_)));
    let (_, kept) = remove_host("shop.test", "127.0.0.1 myshop.test\n127.0.0.1   shop.test\n# shop.test\n").unwrap();
    assert_eq!(kept, "127.0.0.1 myshop.test\n# shop.test");
}
