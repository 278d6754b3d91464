use ipeenv::naming::{normalize_domain, php_cgi_port, php_version_from_name, slugify};
use ipeenv::paths::{
    apache_runtime_config_path, display_path, first_present_exec, is_ephemeral_resource_dir,
    join_path, mkcert_ca_root, mkcert_candidates, mkcert_path, native_path, package_catalog_path,
    path_extension, path_file_name, path_parent, php_ini_path, project_config_path,
    required_folders, site_template_catalog_path, windows_hosts_path,
};

#[test]
fn slugify_lowercases_and_dashes() {
    assert_eq!(slugify("Meu Projeto!"), "meu-projeto");
    assert_eq!(slugify("  Loja__Virtual  "), "loja-virtual");
    assert_eq!(slugify("ABC"), "abc");
    assert_eq!(slugify("---"), "");
    assert_eq!(slugify(""), "");
    assert_eq!(slugify("PHP 8.2"), "php-8-2");
}

#[test]
fn slugify_turns_non_ascii_into_dashes() {
    assert_eq!(slugify("Café Ãgil"), "caf-gil");
}

#[test]
fn slugify_is_idempotent_on_examples() {
    for input in ["Meu Projeto!", "a--b", "  X  ", "php-8.2"] {
        let once = slugify(input);
        assert_eq!(slugify(&once), once);
    }
}

#[test]
fn normalize_domain_adds_test_suffix() {
    assert_eq!(normalize_domain("Loja").unwrap(), "loja.test");
    assert_eq!(normalize_domain("Loja.test").unwrap(), "loja.test");
    assert_eq!(normalize_domain("  blog.test.test ").unwrap(), "blog.test");
    assert_eq!(normalize_domain("Meu Site").unwrap(), "meu-site.test");
}

#[test]
fn normalize_domain_rejects_empty_slug() {
    assert_eq!(normalize_domain("").unwrap_err(), "Dominio invalido.");
    assert_eq!(normalize_domain(".test").unwrap_err(), "Dominio invalido.");
    assert_eq!(normalize_domain("!!!").unwrap_err(), "Dominio invalido.");
}

#[test]
fn normalize_domain_is_idempotent() {
    let d = normalize_domain("Minha Loja").unwrap();
    assert_eq!(normalize_domain(&d).unwrap(), d);
}

#[test]
fn php_version_from_folder_names() {
    assert_eq!(php_version_from_name("php-8.2.12-Win32-vs16-x64"), "8.2.12");
    assert_eq!(php_version_from_name("php-5.6.40-nts-Win32-VC11-x64"), "5.6.40");
    assert_eq!(php_version_from_name("php-runtime"), "php-runtime");
    assert_eq!(php_version_from_name("7.4"), "7.4");
}

#[test]
fn php_cgi_port_is_a_hash_in_range() {
    // hash of "8.2": ((56*31)+46)*31+50 = 55292, and 55292 % 500 = 292
    assert_eq!(php_cgi_port("8.2"), 9392);
    assert_eq!(php_cgi_port(""), 9100);
    let p = php_cgi_port("7.4.33");
    assert!((9100..9600).contains(&p));
    assert_eq!(php_cgi_port("7.4.33"), p);
}

#[test]
fn join_path_inserts_one_separator() {
    assert_eq!(join_path("C:/ipeenv", "www"), "C:/ipeenv\\www");
    assert_eq!(join_path("C:/ipeenv/", "www"), "C:/ipeenv/www");
    assert_eq!(join_path("C:\\ipeenv\\", "www"), "C:\\ipeenv\\www");
    assert_eq!(join_path("", "www"), "www");
}

#[test]
fn display_path_uses_forward_slashes() {
    assert_eq!(display_path("C:\\ipeenv\\www"), "C:/ipeenv/www");
    assert_eq!(display_path("/srv/x"), "/srv/x");
    let once = display_path("a\\b/c");
    assert_eq!(display_path(&once), once);
    assert_eq!(native_path("C:\\x"), "C:\\x");
}

#[test]
fn path_components() {
    assert_eq!(path_file_name("C:/ipeenv/bin/php/php-8.2").as_deref(), Some("php-8.2"));
    assert_eq!(path_file_name("C:/ipeenv/_up_/").as_deref(), Some("_up_"));
    assert_eq!(path_file_name("a/.."), None);
    assert_eq!(path_parent("C:/ipeenv/_up_").as_deref(), Some("C:/ipeenv"));
    assert_eq!(path_parent("name").as_deref(), Some(""));
    assert_eq!(path_parent(""), None);
    assert_eq!(path_extension("deps/cmder.ZIP").as_deref(), Some("ZIP"));
    assert_eq!(path_extension("deps/.hidden"), None);
    assert_eq!(path_extension("deps/noext"), None);
}

#[test]
fn root_locations() {
    assert_eq!(apache_runtime_config_path("C:/r/bin/apache/httpd-2.4"), "C:/r/bin/apache/httpd-2.4\\conf\\ipeenv-httpd.conf");
    assert_eq!(php_ini_path("C:/r", "8.2.12"), "C:/r\\etc\\php\\php-8-2-12.ini");
    assert_eq!(project_config_path("C:/r/www/loja"), "C:/r/www/loja\\.ipeenv.json");
    assert_eq!(package_catalog_path("C:/r"), "C:/r\\config/component-catalog.conf");
    assert_eq!(site_template_catalog_path("C:/r"), "C:/r\\config/project-templates.conf");
    assert_eq!(windows_hosts_path(), "C:\\Windows\\System32\\drivers\\etc\\hosts");
    assert_eq!(mkcert_ca_root("C:/r"), "C:/r\\etc\\ssl\\mkcert");
}

#[test]
fn mkcert_path_takes_first_present_candidate() {
    let c = mkcert_candidates("C:/r", "D:/ws");
    assert_eq!(c, vec![
        "C:/r\\bin\\mkcert\\mkcert.exe".to_string(),
        "C:/r\\dependencias\\mkcert.exe".to_string(),
        "D:/ws\\dependencias\\mkcert.exe".to_string(),
    ]);
    assert_eq!(mkcert_path("C:/r", "D:/ws", &vec![false, true, true]).unwrap(), "C:/r\\dependencias\\mkcert.exe");
    assert_eq!(
        mkcert_path("C:/r", "D:/ws", &vec![false, false, false]).unwrap_err(),
        "mkcert.exe não encontrado. Coloque-o em dependencias/mkcert.exe."
    );
    assert!(mkcert_path("C:/r", "D:/ws", &vec![]).is_err());
}

#[test]
fn first_present_skips_absent_items() {
    let items = vec!["a".to_string(), "b".to_string()];
    assert_eq!(first_present_exec(&items, &vec![false, true]).as_deref(), Some("b"));
    assert_eq!(first_present_exec(&items, &vec![false]), None);
}

#[test]
fn ephemeral_resource_dir_is_up_folder_of_root() {
    assert!(is_ephemeral_resource_dir("C:/r", "C:/r/_up_"));
    assert!(is_ephemeral_resource_dir("C:/r/", "C:/r/_up_/"));
    assert!(!is_ephemeral_resource_dir("C:/r", "C:/other/_up_"));
    assert!(!is_ephemeral_resource_dir("C:/r", "C:/r/resources"));
}

#[test]
fn required_folders_are_listed_in_order() {
    let f = required_folders();
    assert_eq!(f.len(), 19);
    assert_eq!(f[0], "bin/apache");
    assert_eq!(f[7], "etc/apache/vhosts");
    assert_eq!(f[18], "backup");
}

#[test]
fn slug_shape_on_unicode_input() {
    assert_eq!(slugify("ÀÉÎ"), "");
    assert_eq!(slugify("Straße Nº 5"), "stra-e-n-5");
    let s = slugify("  Ünïcödé -- Tëst  ");
    assert!(!s.starts_with('-') && !s.ends_with('-') && !s.contains("--"));
    assert_eq!(slugify(&s), s);
    assert_eq!(normalize_domain("Café.test").unwrap(), "caf.test");
    assert_eq!(normalize_domain("caf.test").unwrap(), "caf.test");
}
