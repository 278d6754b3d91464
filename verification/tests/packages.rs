use ipeenv::catalog::PackageEntry;
use ipeenv::packages::{
    flatten_named_child, flatten_single_directory, highest_version, install_package_plan,
    package_extension, package_folder_name, package_installed_result, package_is_installed,
    package_listing, package_target_dir, php_install_broken, php_install_not_found, php_options,
    php_package_for_version, resolve_compatible_php_version_range, InstallProbe, PackageStep,
};

fn entry(name: &str, url: &str) -> PackageEntry {
    PackageEntry {
        name: name.to_string(),
        url: url.to_string(),
        category: "Runtimes".to_string(),
        preferred: false,
        install_dir: String::new(),
        installed: false,
    }
}

fn probe() -> InstallProbe {
    InstallProbe {
        target_exists: true,
        php_exe: false,
        bin_httpd: false,
        httpd: false,
        bin_mysqld: false,
        mysqld: false,
        has_entries: false,
    }
}

#[test]
fn extension_follows_the_url() {
    assert_eq!(package_extension("https://x/PHP-8.2.ZIP"), ".zip");
    assert_eq!(package_extension("https://x/node.tar.xz"), ".tar.xz");
    assert_eq!(package_extension("https://x/setup.exe"), ".exe");
    assert_eq!(package_extension("https://x/file"), ".download");
}

#[test]
fn folder_name_drops_archive_extensions() {
    assert_eq!(
        package_folder_name("PHP-8.2", "https://x/php-8.2.11-Win32-vs16-x64.zip"),
        "php-8.2.11-Win32-vs16-x64"
    );
    assert_eq!(package_folder_name("My Tool", "https://x/"), "my-tool");
    assert_eq!(package_folder_name("Node", "node-v20.tar.xz"), "node-v20");
}

#[test]
fn target_dir_by_kind() {
    assert_eq!(
        package_target_dir("C:/ipe", "PHP-8.2", "Runtimes", "https://x/php-8.2.zip"),
        "C:/ipe\\bin\\php\\php-8.2"
    );
    assert_eq!(
        package_target_dir("C:/ipe", "Apache 2.4", "Runtimes", "https://x/httpd-2.4.62.zip"),
        "C:/ipe\\bin\\apache\\httpd-2.4.62"
    );
    assert_eq!(
        package_target_dir("C:/ipe", "phpMyAdmin", "Tools", "https://x/pma.zip"),
        "C:/ipe\\www\\phpmyadmin"
    );
    assert_eq!(
        package_target_dir("C:/ipe", "Cmder Mini", "Tools", "https://x/cmder.zip"),
        "C:/ipe\\bin\\cmder-mini\\cmder"
    );
}

#[test]
fn installed_needs_the_main_program() {
    let mut p = probe();
    assert!(!package_is_installed("PHP-8.2", &p));
    p.php_exe = true;
    assert!(package_is_installed("PHP-8.2", &p));
    p.target_exists = false;
    assert!(!package_is_installed("PHP-8.2", &p));
    let mut a = probe();
    a.httpd = true;
    assert!(package_is_installed("Apache 2.4", &a));
    let mut m = probe();
    m.bin_mysqld = true;
    assert!(package_is_installed("MySQL 8", &m));
    let mut o = probe();
    assert!(!package_is_installed("Cmder", &o));
    o.has_entries = true;
    assert!(package_is_installed("Cmder", &o));
}

#[test]
fn install_plan_refuses_names_without_slug() {
    match install_package_plan("C:/ipe", "!!!", "https://x/a.zip", "Tools", false) {
        Err(e) => assert_eq!(e, "Pacote invalido."),
        Ok(_) => panic!("expected an error"),
    }
}

#[test]
fn install_plan_when_installed_answers_at_once() {
    match install_package_plan("C:\\ipe", "PHP-8.2", "https://x/php-8.2.zip", "Runtimes", true) {
        Ok(PackageStep::AlreadyInstalled(a)) => {
            assert!(a.ok);
            assert_eq!(a.code.as_deref(), Some("package.alreadyInstalled"));
            assert_eq!(a.message, "PHP-8.2 já está instalado em C:/ipe/bin/php/php-8.2.");
            assert_eq!(a.params.len(), 2);
            assert_eq!(a.params[1].1, "C:/ipe/bin/php/php-8.2");
        }
        _ => panic!("expected already installed"),
    }
}

#[test]
fn install_plan_describes_download() {
    match install_package_plan("C:/ipe", "Apache 2.4", "https://x/httpd-2.4.62.zip", "Runtimes", false) {
        Ok(PackageStep::Install(p)) => {
            assert_eq!(p.target_dir, "C:/ipe\\bin\\apache\\httpd-2.4.62");
            assert_eq!(p.archive, "C:/ipe\\tmp\\downloads\\apache-2-4.zip");
            assert!(p.is_zip);
            assert!(p.flatten_apache);
        }
        _ => panic!("expected an install"),
    }
    match install_package_plan("C:/ipe", "Tool", "https://x/setup.exe", "Tools", false) {
        Ok(PackageStep::Install(p)) => {
            assert_eq!(p.archive, "C:/ipe\\tmp\\downloads\\tool.exe");
            assert!(!p.is_zip);
            assert!(!p.flatten_apache);
        }
        _ => panic!("expected an install"),
    }
}

#[test]
fn installed_result_message() {
    let r = package_installed_result("Node", "C:\\ipe\\bin\\node\\n");
    assert!(r.ok);
    assert_eq!(r.code.as_deref(), Some("package.installed"));
    assert_eq!(r.message, "Node instalado em C:/ipe/bin/node/n.");
}

#[test]
fn php_options_highest_first() {
    let mut e = vec![
        entry("PHP-7.4", "https://x/7.4.zip"),
        entry("Node", "https://x/node.zip"),
        entry("PHP-8.2", " "),
        entry("php-8.10", "https://x/8.10.zip"),
    ];
    e[0].installed = true;
    let o = php_options(&e);
    assert_eq!(o.len(), 3);
    assert_eq!(o[0].label, "PHP-8.2");
    assert_eq!(o[0].version, "8.2");
    assert!(!o[0].installable);
    assert_eq!(o[1].version, "7.4");
    assert!(o[1].installed);
    assert!(o[1].installable);
    // only an upper-case `PHP-` prefix is dropped from the version
    assert_eq!(o[2].label, "php-8.10");
    assert_eq!(o[2].version, "php-8.10");
}

#[test]
fn highest_version_compares_numerically() {
    let v = vec!["8.1.2".to_string(), "8.10.0".to_string(), "8.2".to_string()];
    assert_eq!(highest_version(&v).as_deref(), Some("8.10.0"));
    assert_eq!(highest_version(&Vec::new()), None);
}

#[test]
fn compatible_php_prefers_installed() {
    let installed = vec!["7.4.33".to_string(), "8.2.1".to_string(), "8.1.0".to_string()];
    let r = resolve_compatible_php_version_range(&installed, &None, Some("8.0"), None);
    assert_eq!(r.as_deref(), Some("8.2.1"));
    let r = resolve_compatible_php_version_range(&installed, &None, None, Some("8.0"));
    assert_eq!(r.as_deref(), Some("7.4.33"));
}

#[test]
fn compatible_php_falls_back_to_catalog() {
    let installed = vec!["7.4.33".to_string()];
    let catalog = Some(vec![
        entry("PHP-8.3", "https://x/8.3.zip"),
        entry("PHP-8.4", "https://x/8.4.zip"),
        entry("PHP-8.5", ""),
    ]);
    let r = resolve_compatible_php_version_range(&installed, &catalog, Some("8.3"), None);
    assert_eq!(r.as_deref(), Some("8.4"));
    let r = resolve_compatible_php_version_range(&installed, &catalog, Some("9.0"), None);
    assert_eq!(r, None);
    let r = resolve_compatible_php_version_range(&installed, &None, Some("8.3"), None);
    assert_eq!(r, None);
}

#[test]
fn php_package_lookup() {
    let e = vec![entry("Node", "n"), entry("PHP-8.2.11", "a"), entry("PHP-8.2.12", "b")];
    assert_eq!(php_package_for_version(&e, "8.2"), Ok(1));
    assert_eq!(
        php_package_for_version(&e, "7.4"),
        Err("PHP 7.4 não está no catálogo de pacotes.".to_string())
    );
}

#[test]
fn listing_fills_install_dir_and_state() {
    let entries = vec![entry("PHP-8.2", "https://x/php-8.2.zip"), entry("Cmder", "https://x/cmder.zip")];
    let mut p = probe();
    p.php_exe = true;
    let l = package_listing("C:\\ipe", entries, &vec![p]);
    assert_eq!(l.len(), 2);
    assert_eq!(l[0].install_dir, "C:/ipe/bin/php/php-8.2");
    assert!(l[0].installed);
    assert_eq!(l[1].install_dir, "C:/ipe/bin/cmder/cmder");
    assert!(!l[1].installed);
    assert_eq!(l[1].name, "Cmder");
}

#[test]
fn flatten_only_a_single_folder() {
    let one = vec![("Apache24".to_string(), true)];
    assert_eq!(
        flatten_single_directory("C:/t", &one),
        Some(("C:/t\\Apache24".to_string(), "C:/t".to_string()))
    );
    let file = vec![("readme".to_string(), false)];
    assert_eq!(flatten_single_directory("C:/t", &file), None);
    let two = vec![("a".to_string(), true), ("b".to_string(), true)];
    assert_eq!(flatten_single_directory("C:/t", &two), None);
    assert_eq!(
        flatten_named_child("C:/t", "Apache24", true),
        Some(("C:/t\\Apache24".to_string(), "C:/t".to_string()))
    );
    assert_eq!(flatten_named_child("C:/t", "Apache24", false), None);
}

#[test]
fn php_install_errors() {
    assert_eq!(php_install_not_found("8.2"), "PHP 8.2 foi instalado, mas não foi localizado em bin/php.");
    assert_eq!(php_install_broken("8.2", "boom"), "PHP 8.2 foi instalado, mas não executa: boom");
}
