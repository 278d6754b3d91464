use ipeenv::catalog::{
    default_site_template_catalog, parse_package_catalog, parse_site_template_catalog,
    parse_site_template_left, split_template_name, split_template_source,
};
use ipeenv::ini::{
    default_php_extensions, normalize_php_extension_dll, php_extension_enabled,
    php_extension_line_matches, set_ini_directive, set_php_extension_line,
};

#[test]
fn package_catalog_tracks_categories_and_preferred() {
    let raw = "# Runtimes\n*PHP-8.2=https://x/php-8.2.zip\nPHP-7.4 = https://x/php-7.4.zip \n---\n# https://ignored\nnot an entry\n\n# After download, unzip\nApache=https://x/httpd.zip\n# Tools\nCmder=";
    let e = parse_package_catalog(raw);
    assert_eq!(e.len(), 4);
    assert_eq!(e[0].name, "PHP-8.2");
    assert!(e[0].preferred);
    assert_eq!(e[0].category, "Runtimes");
    assert_eq!(e[1].name, "PHP-7.4");
    assert_eq!(e[1].url, "https://x/php-7.4.zip");
    assert!(!e[1].preferred);
    assert_eq!(e[2].name, "Apache");
    assert_eq!(e[2].category, "Runtimes");
    assert_eq!(e[3].name, "Cmder");
    assert_eq!(e[3].url, "");
    assert_eq!(e[3].category, "Tools");
    assert_eq!(e[3].install_dir, "");
    assert!(!e[3].installed);
}

#[test]
fn package_catalog_defaults_to_general_category() {
    let e = parse_package_catalog("Node=https://x/node.zip");
    assert_eq!(e.len(), 1);
    assert_eq!(e[0].category, "Geral");
    assert!(parse_package_catalog("").is_empty());
}

#[test]
fn default_template_catalog_parses() {
    let t = parse_site_template_catalog(default_site_template_catalog());
    assert_eq!(t.len(), 14);
    assert_eq!(t[0].name, "Blank");
    assert_eq!(t[0].framework, "Blank");
    assert_eq!(t[0].version, "Padrão");
    assert_eq!(t[0].source, "");
    assert_eq!(t[0].php_min.as_deref(), Some("5.6"));
    assert_eq!(t[0].category, "Sites");
    assert_eq!(t[1].source, "inline:php");
    assert_eq!(t[2].name, "Laravel 12");
    assert_eq!(t[2].source, "composer create-project laravel/laravel:^12.0 {name}");
    assert_eq!(t[2].php_min.as_deref(), Some("8.2"));
    assert_eq!(t[2].category, "Frameworks");
    let cake = &t[12];
    assert_eq!(cake.name, "CakePHP 3.10");
    assert_eq!(cake.php_min.as_deref(), Some("5.6"));
    assert_eq!(cake.php_max.as_deref(), Some("8.0"));
    assert_eq!(t[13].name, "WordPress 6.8");
    assert_eq!(t[13].source, "https://wordpress.org/latest.zip");
    assert_eq!(t[13].category, "CMS");
}

#[test]
fn empty_template_catalog_falls_back_to_default() {
    let t = parse_site_template_catalog("# nothing here\n---\n");
    assert_eq!(t.len(), 14);
    assert_eq!(t[0].name, "Blank");
}

#[test]
fn template_left_reads_metadata() {
    let (name, fw, ver, min, max) = parse_site_template_left("Laravel 10|framework=Laravel|version=10.x|php>=8.1|php<=8.3");
    assert_eq!(name, "Laravel 10");
    assert_eq!(fw.as_deref(), Some("Laravel"));
    assert_eq!(ver.as_deref(), Some("10.x"));
    assert_eq!(min.as_deref(), Some("8.1"));
    assert_eq!(max.as_deref(), Some("8.3"));
    let (name, fw, _, _, max) = parse_site_template_left(" Solo |php<8.0");
    assert_eq!(name, "Solo");
    assert_eq!(fw, None);
    assert_eq!(max.as_deref(), Some("8.0"));
}

#[test]
fn template_name_and_source_split() {
    assert_eq!(split_template_name("laravel-11"), ("laravel".to_string(), "11".to_string()));
    assert_eq!(split_template_name("wordpress"), ("wordpress".to_string(), "Padrão".to_string()));
    assert_eq!(split_template_name("a-b"), ("a-b".to_string(), "Padrão".to_string()));
    let (cmd, min, max) = split_template_source(" composer x | php>=7.4 | php<8.1 ");
    assert_eq!(cmd, "composer x");
    assert_eq!(min.as_deref(), Some("7.4"));
    assert_eq!(max.as_deref(), Some("8.1"));
}

#[test]
fn set_ini_directive_replaces_commented_lines() {
    let raw = "; date.timezone = UTC\nmemory_limit=128M";
    assert_eq!(set_ini_directive(raw, "date.timezone", "America/Sao_Paulo"), "date.timezone=America/Sao_Paulo\nmemory_limit=128M\n");
}

#[test]
fn set_ini_directive_appends_when_missing() {
    assert_eq!(set_ini_directive("a=1", "b", "2"), "a=1\nb=2\n");
    assert_eq!(set_ini_directive("", "b", "2"), "b=2\n");
    assert_eq!(set_ini_directive("date.timezones=x", "date.timezone", "y"), "date.timezones=x\ndate.timezone=y\n");
}

#[test]
fn set_ini_directive_reads_back() {
    let out = set_ini_directive("x=1\r\n;error_log = a\r\n", "error_log", "C:/logs/php.log");
    assert!(out.lines().any(|l| l == "error_log=C:/logs/php.log"));
}

#[test]
fn extension_lines() {
    assert!(php_extension_line_matches("extension=php_curl.dll", "php_curl.dll", "curl"));
    assert!(php_extension_line_matches("extension=\"ext\\php_curl.dll\"", "php_curl.dll", "curl"));
    assert!(php_extension_line_matches("extension=CURL", "php_curl.dll", "curl"));
    assert!(!php_extension_line_matches(";extension=curl", "php_curl.dll", "curl"));
    assert!(!php_extension_line_matches("extension=curl2", "php_curl.dll", "curl"));
    assert!(php_extension_enabled("  extension=curl  \n", "php_curl.dll", "curl"));
    assert!(!php_extension_enabled(";extension=curl\n", "php_curl.dll", "curl"));
    assert!(!php_extension_enabled("", "php_curl.dll", "curl"));
}

#[test]
fn switching_an_extension_reads_back() {
    let on = set_php_extension_line(";extension=curl\nx=1", "php_curl.dll", "curl", true);
    assert_eq!(on, "extension=curl\nx=1\n");
    assert!(php_extension_enabled(&on, "php_curl.dll", "curl"));
    let off = set_php_extension_line(&on, "php_curl.dll", "curl", false);
    assert_eq!(off, ";extension=curl\nx=1\n");
    assert!(!php_extension_enabled(&off, "php_curl.dll", "curl"));
    let added = set_php_extension_line("x=1", "php_gd.dll", "gd", true);
    assert_eq!(added, "x=1\nextension=gd\n");
}

#[test]
fn extension_dll_names() {
    assert_eq!(normalize_php_extension_dll("curl"), "php_curl.dll");
    assert_eq!(normalize_php_extension_dll(" ;extension=\"gd\" "), "php_gd.dll");
    assert_eq!(normalize_php_extension_dll("PHP_Intl.DLL"), "PHP_Intl.DLL");
    assert_eq!(normalize_php_extension_dll("php_zip"), "php_zip.dll");
}

#[test]
fn default_extensions_list() {
    assert_eq!(default_php_extensions(), vec!["openssl", "curl", "fileinfo", "intl", "mbstring", "mysqli", "pdo_mysql", "zip", "gd"]);
}

#[test]
fn catalog_without_entries_is_the_builtin_one() {
    let t = parse_site_template_catalog("# only comments\n---\nno equals");
    assert_eq!(t.len(), 14);
    assert_eq!(t[13].name, "WordPress 6.8");
}
