use ipeenv::catalog::{PackageEntry, SiteTemplate};
use ipeenv::naming::php_cgi_port;
use ipeenv::project::{
    apache_missing_for_project, apache_start_failed, blank_project_index, choose_project_php,
    composer_command_args, composer_download_percent, composer_path, composer_retry_command,
    created_message, find_project, hosts_not_updated_note, hosts_permission_required,
    is_composer_command, is_composer_security_block_error, load_template_by_name, log_file,
    missing_log_message, opened_message, opening_note, php_extension_infos,
    php_extension_name, php_extension_switched, prepare_site_command, project_cert_path, project_created_note,
    project_exists_error, project_info, project_name, project_template_kind, project_url,
    site_command_dir, site_command_error, site_command_next, sort_projects, ssl_note, tail_file, SiteCommandNext,
    TemplateKind,
};
use ipeenv::tools::{
    bundled_tool_log, dependency_root, find_tool, install_heidisql_isolated, launch_tool_check,
    lookup_url, text_editor, tool_executable, tool_info, tool_install_plan,
    tool_installed_result, tool_source_urls, tool_specs, tool_update_error, ToolMethod,
};

fn template(name: &str, source: &str, min: Option<&str>, max: Option<&str>) -> SiteTemplate {
    SiteTemplate {
        name: name.to_string(),
        framework: "X".to_string(),
        version: "1".to_string(),
        source: source.to_string(),
        category: "Sites".to_string(),
        php_min: min.map(|s| s.to_string()),
        php_max: max.map(|s| s.to_string()),
        preferred: false,
    }
}

fn entry(name: &str, url: &str) -> PackageEntry {
    PackageEntry {
        name: name.to_string(),
        url: url.to_string(),
        category: "Tools".to_string(),
        preferred: false,
        install_dir: String::new(),
        installed: false,
    }
}

#[test]
fn project_names() {
    assert_eq!(project_name("Meu Site!"), Ok("meu-site".to_string()));
    assert_eq!(project_name("  "), Err("Informe um nome de projeto valido.".to_string()));
    assert_eq!(project_exists_error("loja"), "O projeto 'loja' ja existe.");
}

#[test]
fn php_choice_for_templates() {
    let t = template("Laravel 12", "composer create-project x", Some("8.2"), None);
    assert_eq!(
        choose_project_php(Some(" 8.1 "), Some(&t), None),
        Err("PHP 8.1 não atende o template selecionado (mínimo requerido: 8.2).".to_string())
    );
    assert_eq!(choose_project_php(Some("8.3"), Some(&t), None), Ok((Some("8.3".to_string()), None)));
    let old = template("CakePHP 3.10", "c", Some("5.6"), Some("8.0"));
    assert_eq!(
        choose_project_php(Some("8.1"), Some(&old), None),
        Err("PHP 8.1 não atende o template selecionado (máximo permitido: 8.0).".to_string())
    );
    assert_eq!(
        choose_project_php(None, Some(&t), Some("8.3".to_string())),
        Ok((
            Some("8.3".to_string()),
            Some("Nenhum PHP selecionado; Ipeenv usou PHP 8.3 compatível.".to_string())
        ))
    );
    assert_eq!(
        choose_project_php(Some(""), Some(&t), None),
        Err("Não foi possível determinar um PHP compatível para o template.".to_string())
    );
    assert_eq!(choose_project_php(Some("  "), None, None), Ok((None, None)));
    assert_eq!(choose_project_php(Some("7.4"), None, None), Ok((Some("7.4".to_string()), None)));
}

#[test]
fn templates_by_name_and_kind() {
    let ts = vec![
        template("Blank", "", None, None),
        template("Laravel 12", "composer create-project laravel/laravel:^12.0 {name}", None, None),
        template("WordPress 6.8", "https://wordpress.org/latest.zip", None, None),
    ];
    assert_eq!(load_template_by_name(&ts, "laravel 12"), Some(1));
    assert_eq!(load_template_by_name(&ts, "  "), None);
    assert_eq!(load_template_by_name(&ts, "Drupal"), None);
    match project_template_kind("C:/ipe", Some(&ts[2])) {
        TemplateKind::Download { url, archive, is_zip } => {
            assert_eq!(url, "https://wordpress.org/latest.zip");
            assert_eq!(archive, "C:/ipe\\tmp\\downloads\\site-wordpress-6-8.zip");
            assert!(is_zip);
        }
        _ => panic!("expected a download"),
    }
    assert!(matches!(project_template_kind("C:/ipe", Some(&ts[0])), TemplateKind::Blank));
    assert!(matches!(project_template_kind("C:/ipe", None), TemplateKind::Blank));
    let inline = template("Inline", "inline:php", None, None);
    assert!(matches!(project_template_kind("C:/ipe", Some(&inline)), TemplateKind::Blank));
    match project_template_kind("C:/ipe", Some(&ts[1])) {
        TemplateKind::Command(c) => assert_eq!(c, "composer create-project laravel/laravel:^12.0 {name}"),
        _ => panic!("expected a command"),
    }
}

#[test]
fn blank_index_and_messages() {
    assert_eq!(
        blank_project_index("Loja"),
        "<?php\nhttp_response_code(200);\necho '<h1>Loja</h1><p>Ipeenv está servindo este projeto.</p>';\n"
    );
    let r = created_message(&vec!["a".to_string(), "b".to_string()]);
    assert!(r.ok);
    assert_eq!(r.message, "a; b");
    assert!(r.code.is_none());
    assert_eq!(project_created_note("C:\\www\\loja"), "Projeto criado em C:/www/loja");
    assert_eq!(ssl_note(true), "arquivos SSL locais preparados");
    assert_eq!(ssl_note(false), "HTTPS local está desabilitado nas preferências");
    assert_eq!(hosts_not_updated_note("x"), "hosts não atualizado: x");
    assert_eq!(opening_note("http://a.test"), "Abrindo http://a.test.");
    let o = opened_message(false, &vec!["Abrindo x.".to_string(), "y".to_string()]);
    assert!(!o.ok);
    assert_eq!(o.message, "Abrindo x. y");
}

#[test]
fn template_commands() {
    assert_eq!(
        prepare_site_command("composer create-project x {name} --dir={path} {project}", "loja", "C:\\ipe\\www\\loja"),
        "composer create-project x loja --dir=C:/ipe/www/loja loja"
    );
    assert!(is_composer_command("  Composer create-project x"));
    assert!(!is_composer_command("npm i"));
    assert_eq!(
        composer_command_args("composer create-project laravel/laravel:^12.0 loja"),
        vec!["create-project", "laravel/laravel:^12.0", "loja"]
    );
    assert_eq!(composer_command_args("php x.php"), vec!["php", "x.php"]);
    assert!(is_composer_security_block_error(b"Your requirements could not be resolved: found Security Advisories"));
    assert!(is_composer_security_block_error(b"use --no-security-blocking"));
    assert!(!is_composer_security_block_error(b"\xff\xfe network error"));
    assert_eq!(composer_retry_command("  composer x  "), "composer x --no-security-blocking --no-audit");
    assert_eq!(
        site_command_error("cmd", "line1\nerr last\n \n"),
        "Comando do catálogo de modelos falhou: cmd (err last)"
    );
    assert_eq!(site_command_error("cmd", ""), "Comando do catálogo de modelos falhou: cmd (sem detalhes no stderr)");
}

#[test]
fn composer_progress_and_paths() {
    assert_eq!(composer_download_percent(0), 46);
    assert_eq!(composer_download_percent(20), 46);
    assert_eq!(composer_download_percent(40), 50);
    assert_eq!(composer_download_percent(60), 54);
    assert_eq!(composer_download_percent(255), 54);
    assert_eq!(composer_path("C:/ipe", "C:\\php", "X"), "C:/php;C:/ipe/bin/composer;X");
    assert_eq!(site_command_dir("C:/ipe", "C:/ipe/www/loja"), "C:/ipe/www");
    assert_eq!(site_command_dir("C:/ipe", ""), "C:/ipe\\www");
}

#[test]
fn project_listing() {
    let p = project_info(
        "C:/ipe",
        "Meu Site",
        "C:\\ipe\\www\\Meu Site",
        Some("8.2".to_string()),
        "127.0.0.1 meu-site.test",
        true,
        "PHP",
        "2024-01-01",
    );
    assert_eq!(p.domain, "meu-site.test");
    assert_eq!(p.path, "C:/ipe/www/Meu Site");
    assert_eq!(p.vhost_path, "C:/ipe/etc/apache/vhosts/meu-site.test.conf");
    assert_eq!(p.http_url, "http://meu-site.test");
    assert_eq!(p.https_url, "https://meu-site.test");
    assert_eq!(p.php_cgi_port, Some(php_cgi_port("8.2")));
    assert!(p.host_configured && p.ssl_enabled);
    assert_eq!(project_url(true, &p), "https://meu-site.test");
    assert_eq!(project_url(false, &p), "http://meu-site.test");
    let q = project_info("C:/ipe", "alpha", "C:/ipe/www/alpha", None, "", false, "Projeto", "t");
    assert_eq!(q.php_cgi_port, None);
    assert!(!q.host_configured);
    assert_eq!(project_url(true, &q), "http://alpha.test");
    assert_eq!(project_cert_path("C:/ipe", "Meu Site"), "C:/ipe\\etc\\ssl\\certs\\meu-site.test.crt");
}

#[test]
fn projects_sorted_and_found() {
    let mk = |n: &str| project_info("C:/ipe", n, "p", None, "", false, "Projeto", "t");
    let s = sort_projects(&vec![mk("beta"), mk("Alpha"), mk("alpha")]);
    let names: Vec<&str> = s.iter().map(|p| p.name.as_str()).collect();
    assert_eq!(names, vec!["Alpha", "alpha", "beta"]);
    assert_eq!(find_project(&s, "beta.test"), Ok(2));
    assert_eq!(find_project(&s, "x.test"), Err("Projeto x.test não encontrado.".to_string()));
}

#[test]
fn project_replies() {
    let r = hosts_permission_required("a.test");
    assert!(!r.ok);
    assert_eq!(r.code.as_deref(), Some("hosts.permissionRequired"));
    assert_eq!(r.message, "Confirme a permissão para adicionar a.test ao hosts e tente abrir novamente.");
    let r = apache_missing_for_project("C:\\a\\httpd.exe", "a.test");
    assert_eq!(
        r.message,
        "Apache não encontrado em C:/a/httpd.exe. Instale o Apache pelo catálogo de pacotes antes de abrir a.test."
    );
    assert_eq!(r.params[0], ("path".to_string(), "C:/a/httpd.exe".to_string()));
    let r = apache_start_failed("boom");
    assert_eq!(r.message, "Não foi possível iniciar o Apache: boom");
    assert_eq!(r.code.as_deref(), Some("apache.startFailed"));
}

#[test]
fn logs_and_tails() {
    assert_eq!(log_file("C:/ipe", "mysql"), ("mysql".to_string(), "C:/ipe\\logs\\mysql\\mysql.log".to_string()));
    assert_eq!(log_file("C:/ipe", "../x"), ("app".to_string(), "C:/ipe\\logs\\app\\app.log".to_string()));
    assert_eq!(missing_log_message("C:\\l"), "Nenhum log encontrado em C:/l");
    assert_eq!(tail_file("a\nb\nc\n", 2), "b\nc");
    assert_eq!(tail_file("a\r\nb", 5), "a\nb");
    assert_eq!(tail_file("a\nb", 0), "");
    let long: String = (0..500).map(|i| format!("line {}\n", i)).collect();
    assert_eq!(tail_file(&long, 300).lines().count(), 300);
}

#[test]
fn extensions_listed_by_name() {
    let files = vec![
        "php_gd.dll".to_string(),
        "readme".to_string(),
        "php_curl.dll".to_string(),
        "PHP_ZIP.DLL".to_string(),
    ];
    let l = php_extension_infos("extension=curl\n;extension=gd\n", &files);
    let names: Vec<&str> = l.iter().map(|e| e.name.as_str()).collect();
    assert_eq!(names, vec!["PHP_ZIP.DLL", "curl", "gd"]);
    assert!(l[1].enabled);
    assert_eq!(l[1].dll, "php_curl.dll");
    assert!(!l[2].enabled);
    assert_eq!(php_extension_name("php_pdo_mysql.dll"), "pdo_mysql");
    assert_eq!(php_extension_name("PHP_ZIP.DLL"), "PHP_ZIP.DLL");
    let (r, log) = php_extension_switched("8.2", "php_curl.dll", true);
    assert_eq!(r.message, "Extensão curl habilitada no PHP 8.2. Reinicie o Apache para aplicar.");
    assert_eq!(r.code.as_deref(), Some("php.extensionEnabled"));
    assert_eq!(log, "PHP 8.2 extension curl enabled");
    let (r, log) = php_extension_switched("8.2", "php_gd.dll", false);
    assert_eq!(r.message, "Extensão gd desabilitada no PHP 8.2. Reinicie o Apache para aplicar.");
    assert_eq!(log, "PHP 8.2 extension gd disabled");
}

#[test]
fn tool_sources_and_specs() {
    let entries = vec![
        entry("Cmder", "u1"),
        entry("Notepad++", "u2"),
        entry("HeidiSQL", "u3"),
        entry("Cmder", "u4"),
    ];
    let pairs = tool_source_urls(&entries);
    assert_eq!(pairs[1], ("notepad".to_string(), "u2".to_string()));
    assert_eq!(lookup_url(&pairs, "cmder").as_deref(), Some("u4"));
    assert_eq!(lookup_url(&pairs, "ngrok"), None);
    let specs = tool_specs("C:/ipe", &pairs);
    assert_eq!(specs.len(), 4);
    assert_eq!(specs[0].source_path, "C:/ipe\\dependencias\\cmder.zip");
    assert_eq!(specs[0].source_url.as_deref(), Some("u4"));
    assert_eq!(specs[0].install_path, "C:/ipe\\bin\\cmder");
    assert_eq!(specs[0].executable_path, "C:/ipe\\bin\\cmder\\Cmder.exe");
    assert_eq!(specs[1].source_url.as_deref(), Some("u2"));
    assert_eq!(specs[3].id, "ngrok");
    assert_eq!(specs[3].source_url, None);
    assert_eq!(find_tool(&specs, "ngrok"), Ok(3));
    assert_eq!(find_tool(&specs, "vim"), Err("Ferramenta desconhecida.".to_string()));
}

#[test]
fn dependency_folder_choice() {
    assert_eq!(dependency_root("C:/ipe", "W", Some("R"), true, true), "C:/ipe\\dependencias");
    assert_eq!(dependency_root("C:/ipe", "W", Some("R"), false, true), "R\\dependencias");
    assert_eq!(dependency_root("C:/ipe", "W", Some("R"), false, false), "W\\dependencias");
    assert_eq!(dependency_root("C:/ipe", "W", None, false, true), "W\\dependencias");
}

#[test]
fn tool_programs_and_plans() {
    assert_eq!(
        tool_executable("C:/ipe", "notepadpp", &vec![false, true]).as_deref(),
        Some("C:/ipe\\bin\\notepadpp\\notepad++.exe")
    );
    assert_eq!(tool_executable("C:/ipe", "notepadpp", &vec![true, false]), None);
    let specs = tool_specs("C:/ipe", &vec![("cmder".to_string(), "u".to_string())]);
    let p = tool_install_plan(&specs[0], false, true).unwrap();
    assert_eq!(p.download.as_deref(), Some("u"));
    assert!(p.reinstall);
    assert!(p.method == ToolMethod::Zip);
    let p = tool_install_plan(&specs[2], true, false).unwrap();
    assert!(p.download.is_none() && !p.reinstall);
    assert!(p.method == ToolMethod::Heidisql);
    assert_eq!(
        tool_install_plan(&specs[3], false, false).err(),
        Some("Dependência não encontrada: C:/ipe/dependencias/ngrok-v3-stable-windows-amd64.zip".to_string())
    );
    let mut copy = tool_specs("C:/ipe", &Vec::new()).remove(1);
    copy.source_path = "C:/d/npp.exe".to_string();
    assert!(tool_install_plan(&copy, true, false).unwrap().method == ToolMethod::Copy);
}

#[test]
fn heidisql_needs_its_portable_zip() {
    let specs = tool_specs("C:/ipe", &Vec::new());
    assert_eq!(
        install_heidisql_isolated(&specs[2], false),
        Err("Dependência não encontrada: C:/ipe/dependencias/HeidiSQL_12.17_64_Portable.zip".to_string())
    );
    assert_eq!(install_heidisql_isolated(&specs[2], true), Ok(()));
    let mut other = tool_specs("C:/ipe", &Vec::new()).remove(2);
    other.source_path = "C:/d/HeidiSQL_setup.exe".to_string();
    assert_eq!(
        install_heidisql_isolated(&other, true),
        Err("Use a versão portable do HeidiSQL em dependencias para manter isolamento.".to_string())
    );
}

#[test]
fn tool_replies_and_listing() {
    let specs = tool_specs("C:\\ipe", &Vec::new());
    assert_eq!(
        tool_update_error("Cmder", "busy"),
        "Não foi possível atualizar Cmder. Feche a ferramenta se ela estiver aberta: busy"
    );
    let r = tool_installed_result(&specs[0]);
    assert_eq!(r.message, "Cmder instalado em C:/ipe/bin/cmder.");
    assert_eq!(r.code.as_deref(), Some("tool.installed"));
    assert_eq!(
        launch_tool_check(&specs[0], false).err(),
        Some("Cmder ainda não está instalado. Use instalar primeiro.".to_string())
    );
    let r = launch_tool_check(&specs[0], true).unwrap();
    assert_eq!(r.message, "Cmder aberto.");
    let i = tool_info(&specs[3], false, false);
    assert!(!i.installed && !i.available_source);
    assert_eq!(i.install_path, "C:/ipe/bin/ngrok");
    let i = tool_info(&specs[0], true, true);
    assert!(i.installed && i.available_source);
    assert_eq!(bundled_tool_log("Cmder", &Ok(())), "Tool prepared in bin: Cmder");
    assert_eq!(bundled_tool_log("Cmder", &Err("x".to_string())), "Failed to prepare Cmder: x");
    assert_eq!(text_editor(Some("C:/n++.exe".to_string())), "C:/n++.exe");
    assert_eq!(text_editor(None), "notepad");
}

#[test]
fn template_command_retry_and_result() {
    let blocked = b"found Security Advisories affecting packages";
    match site_command_next("  composer create-project x loja ", false, blocked, false, false) {
        SiteCommandNext::Retry(cmd) => assert_eq!(cmd, "composer create-project x loja --no-security-blocking --no-audit"),
        _ => panic!("expected a retry"),
    }
    match site_command_next("composer create-project x loja", false, blocked, false, true) {
        SiteCommandNext::Failed(e) => assert_eq!(
            e,
            "Comando do catálogo de modelos falhou: composer create-project x loja (found Security Advisories affecting packages)"
        ),
        _ => panic!("a retried run is not retried again"),
    }
    match site_command_next("npm create x", false, blocked, false, false) {
        SiteCommandNext::Failed(_) => {}
        _ => panic!("only Composer commands are retried"),
    }
    assert!(matches!(site_command_next("composer x", true, b"", true, false), SiteCommandNext::Fetched));
    match site_command_next("composer x", true, b"", false, true) {
        SiteCommandNext::Failed(e) => assert_eq!(e, "Comando do catálogo de modelos falhou: composer x (sem detalhes no stderr)"),
        _ => panic!("a missing folder is a failure"),
    }
}

#[test]
fn host_configured_needs_an_entry_for_the_domain() {
    let p = project_info("C:/ipe", "shop", "C:/ipe/www/shop", None, "127.0.0.1 myshop.test\n# 127.0.0.1 shop.test\n", false, "PHP", "t");
    assert!(!p.host_configured);
    let q = project_info("C:/ipe", "shop", "C:/ipe/www/shop", None, "127.0.0.1\tshop.test\r\n", false, "PHP", "t");
    assert!(q.host_configured);
}
