use ipeenv::runtime::{
    active_php_runtime_dir, default_extension_paths, detect_php_runtime_tag,
    elevated_launcher_command, failure_needs_vc2012, greatest_name_exec, install_vc14plus_runtime,
    install_vc2012_runtime, installed_vc_runtimes, installer_script_text, legacy_runtime_rename,
    migrate_flat_runtime_dir, migrate_flat_runtime_dirs, needs_vc14plus_runtime,
    needs_vc2012_runtime, php_check_outcome, php_ini_content, php_ini_source, php_missing_in,
    php_runtime_dir_for_version, php_runtime_info, php_runtime_version, php_version_installed,
    process_failure_detail, recommended_dependency_paths, resolve_php_runtime_for_command,
    run_elevated_installer_outcome, runtime_folder_name, runtime_requires_vc110,
    sort_php_runtimes, system_runtime_paths, unresolved_dependency_message,
    validate_php_runtime, vc14plus_installer_candidates, vc2012_installer_candidates,
    warn_missing_legacy_php_runtime_dependency, IniSource, PhpRuntimeInfo, RuntimeCandidate,
    RuntimeKind, MISSING_VC14PLUS_NOTICE, MISSING_VC2012_NOTICE,
};

fn cand(name: &str, usable: bool) -> RuntimeCandidate {
    RuntimeCandidate { name: name.to_string(), is_dir: true, has_php: true, valid: usable }
}

fn info(version: &str) -> PhpRuntimeInfo {
    PhpRuntimeInfo {
        name: format!("php-{}", version),
        version: version.to_string(),
        path: String::new(),
        ini_path: String::new(),
        extension_count: 0,
    }
}

#[test]
fn runtime_tag_from_folder_name() {
    assert_eq!(detect_php_runtime_tag("C:/ipe/bin/php/php-5.6.40-Win32-VC11-x64"), "vc11");
    assert_eq!(detect_php_runtime_tag("C:\\ipe\\bin\\php\\php-8.2.11-nts-Win32-vs16-x64"), "vs16");
    assert_eq!(detect_php_runtime_tag("C:/ipe/bin/php/php"), "");
    assert!(runtime_requires_vc110("x/php-5.6-VC11"));
    assert!(!runtime_requires_vc110("x/php-7.4-vc15"));
}

#[test]
fn visual_cpp_needs() {
    assert!(needs_vc2012_runtime("vc11", false));
    assert!(!needs_vc2012_runtime("vc11", true));
    assert!(!needs_vc2012_runtime("vs16", false));
    assert!(needs_vc14plus_runtime("vs17", false));
    assert!(needs_vc14plus_runtime("vc14", false));
    assert!(!needs_vc14plus_runtime("vc11", false));
    assert!(!needs_vc14plus_runtime("vs16", true));
    assert!(failure_needs_vc2012("The program can't start because MSVCR110.dll is missing"));
    assert!(!failure_needs_vc2012("segfault"));
}

#[test]
fn folder_names_from_version_output() {
    let php = "PHP 8.2.11 (cli) (built: Sep 26 2023) (NTS Visual C++ 2019 x64)";
    assert_eq!(runtime_folder_name(Some(php), RuntimeKind::Php), "php-8.2.11-nts-Win32-x64");
    assert_eq!(
        runtime_folder_name(Some("PHP 7.4.33 (cli) (ZTS)"), RuntimeKind::Php),
        "php-7.4.33-Win32-x64"
    );
    let mysql = "C:\\x\\mysqld.exe  Ver 8.4.5, for Win64 on x86_64";
    assert_eq!(runtime_folder_name(Some(mysql), RuntimeKind::Mysql), "mysql-8.4.5-winx64");
    let httpd = "Server version: Apache/2.4.62 (Win64)\nServer built: today";
    assert_eq!(runtime_folder_name(Some(httpd), RuntimeKind::Apache), "httpd-2.4.62-win64");
    assert_eq!(runtime_folder_name(None, RuntimeKind::Php), "php-runtime");
    assert_eq!(runtime_folder_name(Some("PHP"), RuntimeKind::Php), "php-runtime");
    assert_eq!(runtime_folder_name(Some("no version"), RuntimeKind::Mysql), "mysql-runtime");
    assert_eq!(runtime_folder_name(Some("httpd"), RuntimeKind::Apache), "apache-runtime");
}

#[test]
fn flat_runtime_folders() {
    let f = migrate_flat_runtime_dirs("C:/ipe");
    assert_eq!(f.len(), 3);
    assert_eq!(f[0].parent, "C:/ipe\\bin\\php");
    assert_eq!(f[0].marker, "C:/ipe\\bin\\php\\php.exe");
    assert!(f[0].kind == RuntimeKind::Php);
    assert_eq!(f[1].marker, "C:/ipe\\bin\\mysql\\bin\\mysqld.exe");
    assert_eq!(f[1].legacy, "C:/ipe\\bin\\mysql\\mysql-migrated");
    assert_eq!(f[2].marker, "C:/ipe\\bin\\apache\\bin\\httpd.exe");
    assert_eq!(f[2].legacy, "C:/ipe\\bin\\apache\\apache-migrated");
}

#[test]
fn flat_runtime_moves_skip_the_new_folder() {
    let entries = vec!["php.exe".to_string(), "php-8.2".to_string(), "ext".to_string()];
    let m = migrate_flat_runtime_dir("C:/ipe/bin/php", "php-8.2", &entries);
    assert_eq!(
        m,
        vec![
            ("C:/ipe/bin/php\\php.exe".to_string(), "C:/ipe/bin/php\\php-8.2\\php.exe".to_string()),
            ("C:/ipe/bin/php\\ext".to_string(), "C:/ipe/bin/php\\php-8.2\\ext".to_string()),
        ]
    );
}

#[test]
fn legacy_folder_rename() {
    assert_eq!(
        legacy_runtime_rename("P", RuntimeKind::Php, "php-8.2", false),
        Some(("P\\php-migrated".to_string(), "P\\php-8.2".to_string()))
    );
    assert_eq!(legacy_runtime_rename("P", RuntimeKind::Php, "php-8.2", true), None);
    assert_eq!(legacy_runtime_rename("P", RuntimeKind::Mysql, "mysql-migrated", false), None);
}

#[test]
fn php_folder_for_version() {
    let c = vec![
        cand("php-8.2.1-broken", false),
        cand("php-8.2.11-Win32-vs16-x64", true),
        cand("php-8.2.12-Win32-vs16-x64", true),
    ];
    assert_eq!(
        php_runtime_dir_for_version("C:/ipe", "8.2", &c).as_deref(),
        Some("C:/ipe\\bin\\php\\php-8.2.11-Win32-vs16-x64")
    );
    assert!(php_version_installed("C:/ipe", "8.2.12", &c));
    assert!(!php_version_installed("C:/ipe", "7.4", &c));
    let mut file = cand("php-7.4", true);
    file.is_dir = false;
    assert!(!php_version_installed("C:/ipe", "7.4", &vec![file]));
}

#[test]
fn active_php_is_the_last_name() {
    let names = vec!["php-8.2".to_string(), "php-8.10".to_string(), "php-7.4".to_string()];
    assert_eq!(greatest_name_exec(&names).as_deref(), Some("php-8.2"));
    assert_eq!(greatest_name_exec(&Vec::new()), None);
    let c = vec![cand("php-7.4", true), cand("php-8.3", false), cand("php-8.1", true)];
    assert_eq!(active_php_runtime_dir("C:/ipe", &c).as_deref(), Some("C:/ipe\\bin\\php\\php-8.1"));
    assert_eq!(active_php_runtime_dir("C:/ipe", &vec![cand("php-8.3", false)]), None);
}

#[test]
fn command_runtime_or_error() {
    let c = vec![cand("php-8.1", true)];
    assert_eq!(
        resolve_php_runtime_for_command("C:/ipe", Some("8.1"), &c),
        Ok("C:/ipe\\bin\\php\\php-8.1".to_string())
    );
    assert_eq!(
        resolve_php_runtime_for_command("C:/ipe", Some("7.4"), &c),
        Err("PHP 7.4 foi solicitado, mas não está instalado/válido para execução.".to_string())
    );
    assert_eq!(resolve_php_runtime_for_command("C:/ipe", None, &c), Ok("C:/ipe\\bin\\php\\php-8.1".to_string()));
    assert_eq!(
        resolve_php_runtime_for_command("C:/ipe", None, &Vec::new()),
        Err("Nenhuma versão de PHP instalada para executar Composer.".to_string())
    );
}

#[test]
fn installer_candidates_in_order() {
    let a = vc2012_installer_candidates("C:/ipe", "D:/w");
    assert_eq!(a.len(), 6);
    assert_eq!(a[0], "C:/ipe\\dependencias\\vcredist_x64_2012.exe");
    assert_eq!(a[3], "D:/w\\dependencias\\vcredist_x64.exe");
    assert_eq!(a[4], "C:/ipe\\_up_\\dependencias\\vcredist_x64_2012.exe");
    let b = vc14plus_installer_candidates("C:/ipe", "D:/w");
    assert_eq!(b.len(), 9);
    assert_eq!(b[0], "C:/ipe\\dependencias\\VC_redist.x64.exe");
    assert_eq!(b[8], "C:/ipe\\_up_\\dependencias\\vcredist_x64_2019.exe");
}

#[test]
fn installer_is_the_first_present() {
    assert_eq!(
        install_vc2012_runtime("C:/ipe", "D:/w", &vec![false, false, true, true]),
        Ok("D:/w\\dependencias\\vcredist_x64_2012.exe".to_string())
    );
    assert_eq!(
        install_vc2012_runtime("C:/ipe", "D:/w", &vec![false]),
        Err("Instalador VC++ 2012 não encontrado. Coloque vcredist_x64_2012.exe em dependencias para concluir o PHP 5.6.".to_string())
    );
    assert_eq!(
        install_vc14plus_runtime("C:/ipe", "D:/w", &Vec::new()),
        Err("Instalador VC++ 2015-2022 não encontrado. Coloque VC_redist.x64.exe em dependencias.".to_string())
    );
    assert_eq!(
        install_vc14plus_runtime("C:/ipe", "D:/w", &vec![true]),
        Ok("C:/ipe\\dependencias\\VC_redist.x64.exe".to_string())
    );
}

#[test]
fn recommended_dependencies_and_notices() {
    let (a, b) = recommended_dependency_paths("C:/ipe", "D:/w");
    assert_eq!(a.len(), 4);
    assert_eq!(a[0], "D:/w\\dependencias\\vcredist_x64_2012.exe");
    assert_eq!(a[3], "C:/ipe\\dependencias\\vcredist_x64.exe");
    assert_eq!(b.len(), 6);
    assert_eq!(b[5], "C:/ipe\\dependencias\\vcredist_x64_2019.exe");
    assert_eq!(
        warn_missing_legacy_php_runtime_dependency(&vec![false, false], &vec![false, true]),
        vec![MISSING_VC2012_NOTICE]
    );
    assert_eq!(
        warn_missing_legacy_php_runtime_dependency(&Vec::new(), &Vec::new()),
        vec![MISSING_VC2012_NOTICE, MISSING_VC14PLUS_NOTICE]
    );
    assert!(warn_missing_legacy_php_runtime_dependency(&vec![true], &vec![true]).is_empty());
}

#[test]
fn installer_script_quotes_paths() {
    let s = installer_script_text("C:\\it's\\vc.exe", "C:\\r.txt", "/quiet /norestart");
    assert_eq!(
        s,
        "$ErrorActionPreference = 'Stop'\n$exe = 'C:/it''s/vc.exe'\nif (-not (Test-Path -LiteralPath $exe)) { 'MISSING' | Set-Content -LiteralPath 'C:/r.txt' ; exit 3 }\n$p = Start-Process -FilePath $exe -ArgumentList '/quiet /norestart' -Wait -PassThru -WindowStyle Hidden\n$p.ExitCode | Set-Content -LiteralPath 'C:/r.txt'\nif ($p.ExitCode -ne 0) { exit $p.ExitCode }\n"
    );
    assert_eq!(
        elevated_launcher_command("C:/s.ps1"),
        "Start-Process -FilePath powershell.exe -Verb RunAs -Wait -WindowStyle Hidden -ArgumentList '-NoProfile -ExecutionPolicy Bypass -WindowStyle Hidden -File \"C:/s.ps1\"'"
    );
}

#[test]
fn elevated_installer_outcomes() {
    assert_eq!(
        run_elevated_installer_outcome(false, Some("0")),
        Err("Não foi possível solicitar elevação para instalar runtime VC++.".to_string())
    );
    assert_eq!(
        run_elevated_installer_outcome(true, None),
        Err("Instalação do runtime VC++ não confirmou resultado (UAC cancelado?).".to_string())
    );
    assert_eq!(run_elevated_installer_outcome(true, Some(" 0\r\n")), Ok(()));
    assert_eq!(run_elevated_installer_outcome(true, Some("1638")), Ok(()));
    assert_eq!(
        run_elevated_installer_outcome(true, Some("5")),
        Err("Instalador do runtime VC++ retornou codigo 5.".to_string())
    );
    assert_eq!(
        run_elevated_installer_outcome(true, Some("MISSING")),
        Err("Instalador do runtime VC++ retornou codigo -1.".to_string())
    );
}

#[test]
fn php_checks() {
    assert_eq!(process_failure_detail("  ", " out ", "fb"), "out");
    assert_eq!(process_failure_detail(" err ", "out", "fb"), "err");
    assert_eq!(process_failure_detail("", "", "fb"), "fb");
    assert_eq!(validate_php_runtime("x/php-5.6-VC11-x64", false, true), Err("php.exe ausente".to_string()));
    assert_eq!(
        validate_php_runtime("x/php-5.6-VC11-x64", true, false),
        Err("MSVCR110.dll ausente (Visual C++ 2012 x64 runtime não encontrado)".to_string())
    );
    assert_eq!(validate_php_runtime("x/php-5.6-VC11-x64", true, true), Ok(()));
    assert_eq!(validate_php_runtime("x/php-8.2-vs16", true, false), Ok(()));
    assert_eq!(php_check_outcome(true, "e", "o"), Ok(()));
    assert_eq!(
        php_check_outcome(false, "", ""),
        Err("dependencias do runtime ausentes (ex.: VC++/MSVCR)".to_string())
    );
    assert_eq!(
        unresolved_dependency_message("x"),
        "Dependência do PHP não resolvida automaticamente. Instale o Visual C++ 2012 Redistributable (x64) e tente novamente. Detalhe: x"
    );
}

#[test]
fn ini_source_and_content() {
    assert!(php_ini_source(true, true, true, true) == IniSource::Existing);
    assert!(php_ini_source(false, false, true, true) == IniSource::Production);
    assert!(php_ini_source(false, false, false, true) == IniSource::Shared);
    assert!(php_ini_source(false, false, false, false) == IniSource::Empty);
    let p = default_extension_paths("C:/php");
    assert_eq!(p.len(), 9);
    assert_eq!(p[0], "C:/php\\ext\\php_openssl.dll");
    assert_eq!(p[8], "C:/php\\ext\\php_gd.dll");
    let ini = php_ini_content("", "C:/ipe", "8.2", "C:\\ipe\\bin\\php\\p", &vec![true, false]);
    assert_eq!(
        ini,
        "date.timezone=America/Sao_Paulo\nextension_dir=\"C:/ipe/bin/php/p/ext\"\nerror_log=C:/ipe/logs/php/php-8-2.log\nallow_url_fopen=On\nextension=openssl\n"
    );
    let again = php_ini_content(&ini, "C:/ipe", "8.2", "C:\\ipe\\bin\\php\\p", &vec![true, false]);
    assert_eq!(again, ini);
}

#[test]
fn runtime_listing() {
    assert_eq!(php_runtime_version(true, " 8.2.11\n").as_deref(), Some("8.2.11"));
    assert_eq!(php_runtime_version(false, "8.2.11"), None);
    assert_eq!(php_runtime_version(true, "  "), None);
    let ext = vec!["php_curl.dll".to_string(), "PHP_gd.dll".to_string(), "readme.txt".to_string()];
    let i = php_runtime_info("C:/ipe", "C:\\ipe\\bin\\php\\php-8.2.11-Win32-vs16-x64", None, &ext);
    assert_eq!(i.name, "php-8.2.11-Win32-vs16-x64");
    assert_eq!(i.version, "8.2.11");
    assert_eq!(i.path, "C:/ipe/bin/php/php-8.2.11-Win32-vs16-x64");
    assert_eq!(i.ini_path, "C:/ipe/etc/php/php-8-2-11.ini");
    assert_eq!(i.extension_count, 2);
    let j = php_runtime_info("C:/ipe", "C:/ipe/bin/php/x", Some("8.3.0"), &Vec::new());
    assert_eq!(j.version, "8.3.0");
    assert_eq!(j.extension_count, 0);
}

#[test]
fn runtimes_sorted_highest_first() {
    let s = sort_php_runtimes(&vec![info("7.4"), info("8.10"), info("8.2")]);
    let v: Vec<&str> = s.iter().map(|r| r.version.as_str()).collect();
    assert_eq!(v, vec!["8.10", "8.2", "7.4"]);
}

#[test]
fn system_libraries() {
    let p = system_runtime_paths(None);
    assert_eq!(p.len(), 6);
    assert_eq!(p[0], "C:\\Windows\\System32\\msvcr110.dll");
    assert_eq!(system_runtime_paths(Some("D:\\Win\\"))[5], "D:\\Win\\SysWOW64\\msvcp140.dll");
    assert_eq!(installed_vc_runtimes(&vec![false, true, true, false, true, true]), (true, true));
    assert_eq!(installed_vc_runtimes(&vec![false, false, true, false, false, true]), (false, false));
    assert_eq!(installed_vc_runtimes(&Vec::new()), (false, false));
    assert_eq!(php_missing_in("C:\\p"), "php.exe não encontrado em C:/p.");
}
