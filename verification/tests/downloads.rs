use std::io::{Cursor, Write};

use ipeenv::archive::{expand_zip, expand_zip_with_progress, extract_zip, extract_zip_with_progress};
use ipeenv::download::{
    download_file, download_percent, mysql_download_fallback, DownloadAction, DownloadEvent,
    DownloadState,
};
use zip::write::SimpleFileOptions;

const MYSQL: &str = "https://dev.mysql.com/get/Downloads/MySQL-8.4/mysql-8.4.5-winx64.zip";

fn sample_zip() -> Vec<u8> {
    let mut w = zip::ZipWriter::new(Cursor::new(Vec::new()));
    let o = SimpleFileOptions::default();
    w.add_directory("site/", o).unwrap();
    w.start_file("site/index.php", o).unwrap();
    w.write_all(b"hi").unwrap();
    w.start_file("../evil.txt", o).unwrap();
    w.write_all(b"x").unwrap();
    w.finish().unwrap().into_inner()
}

#[test]
fn mysql_fallback_points_to_archives() {
    assert_eq!(
        mysql_download_fallback(MYSQL).as_deref(),
        Some("https://cdn.mysql.com/archives/mysql-8.4/mysql-8.4.5-winx64.zip")
    );
    assert_eq!(
        mysql_download_fallback("https://cdn.mysql.com//downloads/MySQL-8.0/m.zip").as_deref(),
        Some("https://cdn.mysql.com/archives/mysql-8.0/m.zip")
    );
    assert_eq!(mysql_download_fallback("https://example.com/Downloads/MySQL-8.4/m.zip"), None);
    assert_eq!(mysql_download_fallback("https://dev.mysql.com/get/Other/MySQL-8.4/m.zip"), None);
    assert_eq!(mysql_download_fallback("https://dev.mysql.com/get/Downloads/m.zip"), None);
}

#[test]
fn download_refuses_blank_url() {
    let (s, a) = download_file("  ", DownloadState::Primary, DownloadEvent::Begin);
    assert!(matches!(s, DownloadState::Primary));
    match a {
        DownloadAction::Fail(m) => assert_eq!(m, "URL do pacote está vazia no catálogo de pacotes."),
        _ => panic!("expected a failure"),
    }
}

#[test]
fn download_saves_successful_answer() {
    let (s, a) = download_file("https://x/a.zip", DownloadState::Primary, DownloadEvent::Begin);
    match a {
        DownloadAction::Request(u) => assert_eq!(u, "https://x/a.zip"),
        _ => panic!("expected a request"),
    }
    let (_, a) = download_file(
        "https://x/a.zip",
        s,
        DownloadEvent::Replied { success: true, status: "200 OK".to_string() },
    );
    match a {
        DownloadAction::Save(u) => assert_eq!(u, "https://x/a.zip"),
        _ => panic!("expected a save"),
    }
}

#[test]
fn download_reports_send_failure_and_status() {
    let (_, a) = download_file(
        "https://x/a.zip",
        DownloadState::Primary,
        DownloadEvent::SendFailed("timeout".to_string()),
    );
    match a {
        DownloadAction::Fail(m) => assert_eq!(m, "Falha ao baixar https://x/a.zip: timeout"),
        _ => panic!("expected a failure"),
    }
    let (_, a) = download_file(
        "https://x/a.zip",
        DownloadState::Primary,
        DownloadEvent::Replied { success: false, status: "404 Not Found".to_string() },
    );
    match a {
        DownloadAction::Fail(m) => {
            assert_eq!(m, "Download retornou status 404 Not Found para https://x/a.zip")
        }
        _ => panic!("expected a failure"),
    }
}

#[test]
fn mysql_download_retries_once_on_the_mirror() {
    let (s, a) = download_file(
        MYSQL,
        DownloadState::Primary,
        DownloadEvent::Replied { success: false, status: "403 Forbidden".to_string() },
    );
    let mirror = "https://cdn.mysql.com/archives/mysql-8.4/mysql-8.4.5-winx64.zip";
    match a {
        DownloadAction::Request(u) => assert_eq!(u, mirror),
        _ => panic!("expected a retry"),
    }
    let (_, a) = download_file(
        MYSQL,
        s,
        DownloadEvent::Replied { success: false, status: "404 Not Found".to_string() },
    );
    match a {
        DownloadAction::Fail(m) => {
            assert_eq!(m, format!("Download retornou status 404 Not Found para {}", mirror))
        }
        _ => panic!("expected a failure"),
    }
    let (_, a) = download_file(
        MYSQL,
        DownloadState::Fallback(mirror.to_string()),
        DownloadEvent::Replied { success: true, status: "200 OK".to_string() },
    );
    match a {
        DownloadAction::Save(u) => assert_eq!(u, mirror),
        _ => panic!("expected a save"),
    }
}

#[test]
fn download_percent_runs_from_20_to_60() {
    assert_eq!(download_percent(0, Some(100)), Some(20));
    assert_eq!(download_percent(50, Some(100)), Some(40));
    assert_eq!(download_percent(100, Some(100)), Some(60));
    assert_eq!(download_percent(500, Some(100)), Some(60));
    assert_eq!(download_percent(5, None), None);
    assert_eq!(download_percent(5, Some(0)), None);
    assert_eq!(download_percent(u64::MAX, Some(u64::MAX)), Some(21));
}

#[test]
fn download_percent_never_goes_back() {
    let mut last = 0u8;
    for d in (0..=1000u64).step_by(37) {
        let p = download_percent(d, Some(1000)).unwrap();
        assert!((20..=60).contains(&p));
        assert!(p >= last);
        last = p;
    }
}

#[test]
fn zip_extraction_skips_escaping_entries() {
    let x = extract_zip_with_progress(sample_zip(), "C:/t").unwrap();
    assert!(x.error.is_none());
    assert_eq!(x.outputs.len(), 2);
    assert_eq!(x.outputs[0].path, "C:/t\\site");
    assert!(x.outputs[0].is_dir);
    assert_eq!(x.outputs[0].percent, Some(70));
    assert_eq!(x.outputs[1].path, "C:/t\\site\\index.php");
    assert!(!x.outputs[1].is_dir);
    assert_eq!(x.outputs[1].data, b"hi".to_vec());
    assert_eq!(x.outputs[1].percent, Some(79));
}

#[test]
fn zip_extraction_variants_agree() {
    let a = extract_zip(sample_zip(), "out").unwrap();
    let b = expand_zip(sample_zip(), "out").unwrap();
    assert_eq!(a.outputs.len(), b.outputs.len());
    assert_eq!(a.outputs[1].path, "out\\site\\index.php");
    assert_eq!(b.outputs[1].path, "out\\site\\index.php");
    let c = expand_zip_with_progress(sample_zip(), "out").unwrap();
    assert_eq!(c.outputs.len(), 2);
    assert_eq!(c.outputs[1].data, b"hi".to_vec());
    assert_eq!(c.outputs[1].percent, Some(79));
}

#[test]
fn zip_extraction_refuses_other_bytes() {
    assert!(extract_zip(b"not a zip".to_vec(), "out").is_err());
}
