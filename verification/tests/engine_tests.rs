use aiav_core::ai::{AiPrediction, ClassifierScript};
use aiav_core::crypto::sha256_hex;
use aiav_core::disk::Disk;
use aiav_core::engine::{extension_of, has_unique_id_prefix, Engine};
use aiav_core::scanner::Scanner;
use aiav_core::settings::{Settings, WebSecuritySettings};

const QDIR: &str = "/var/lib/aiav/quarantine";

fn settings(excluded: &[&str]) -> Settings {
    Settings {
        signature_db: "config/signatures/hashes.txt".to_string(),
        quarantine_dir: QDIR.to_string(),
        ai_endpoint: "http://127.0.0.1:8800".to_string(),
        scan_threads: 1,
        watch_dir: "/watch".to_string(),
        excluded_extensions: excluded.iter().map(|e| e.to_string()).collect(),
        web_security: WebSecuritySettings {
            blocklist_urls: Vec::new(),
            user_whitelist: Vec::new(),
            user_blacklist: Vec::new(),
            enable_tracker_protection: false,
            enable_malware_protection: false,
        },
    }
}

fn engine_with(excluded: &[&str], db: &str) -> Engine {
    let scanner = Scanner::new(db, "").unwrap();
    Engine::new(settings(excluded), scanner).unwrap()
}

fn disk_with(files: &[(&str, &[u8])]) -> Disk {
    let mut disk = Disk::new();
    for (path, data) in files {
        disk.write(path, data.to_vec());
    }
    disk
}

#[test]
fn excluded_extension_is_never_scanned() {
    let mut engine = engine_with(&["tmp"], "");
    let mut disk = disk_with(&[("/watch/a.TMP", b"whatever")]);
    let mut script = ClassifierScript::new(vec![Some(AiPrediction {
        malicious: true,
        confidence_bp: 9999,
        sha256: None,
    })]);
    engine.scan_and_handle(&mut disk, "/watch/a.TMP", &mut script);
    assert_eq!(engine.files_scanned, 0);
    assert_eq!(engine.threats_found, 0);
    assert_eq!(script.consumed(), 0);
    assert!(disk.contains("/watch/a.TMP"));
}

#[test]
fn exclusion_entries_may_carry_a_leading_dot() {
    let mut engine = engine_with(&[".LOG"], "");
    let mut disk = disk_with(&[("/watch/notes.log", b"text")]);
    let mut script = ClassifierScript::unavailable();
    engine.scan_and_handle(&mut disk, "/watch/notes.log", &mut script);
    assert_eq!(engine.files_scanned, 0);
}

#[test]
fn unique_id_prefixed_file_is_skipped() {
    let mut engine = engine_with(&[], "");
    let name = "/watch/123e4567-e89b-12d3-a456-426614174000-x.exe";
    let mut disk = disk_with(&[(name, b"already isolated")]);
    let mut script = ClassifierScript::unavailable();
    engine.scan_and_handle(&mut disk, name, &mut script);
    assert_eq!(engine.files_scanned, 0);
    assert_eq!(script.consumed(), 0);
}

#[test]
fn eligible_clean_file_counts_once() {
    let mut engine = engine_with(&["tmp"], "");
    let mut disk = disk_with(&[("/watch/a.txt", b"clean content")]);
    let mut script = ClassifierScript::unavailable();
    engine.scan_and_handle(&mut disk, "/watch/a.txt", &mut script);
    assert_eq!(engine.files_scanned, 1);
    assert_eq!(engine.threats_found, 0);
    assert!(disk.contains("/watch/a.txt"));
}

#[test]
fn threat_is_counted_and_quarantined() {
    let digest = sha256_hex(b"malicious bytes");
    let db = format!("{}:Known-Bad", digest);
    let mut engine = engine_with(&[], db.as_str());
    let mut disk = disk_with(&[("/watch/evil.bin", b"malicious bytes")]);
    let mut script = ClassifierScript::unavailable();
    engine.scan_and_handle(&mut disk, "/watch/evil.bin", &mut script);
    assert_eq!(engine.files_scanned, 1);
    assert_eq!(engine.threats_found, 1);
    assert!(!disk.contains("/watch/evil.bin"));
    let stats = engine.get_quarantine_stats(&disk).unwrap();
    assert_eq!(stats.count, 1);
    assert_eq!(stats.files[0].original_path, "/watch/evil.bin");
    assert_eq!(stats.files[0].signature, "Known-Bad");
    assert!(has_unique_id_prefix(stats.files[0].quarantined_name.as_str()));
}

#[test]
fn path_scan_progress_reaches_the_exact_total() {
    let mut engine = engine_with(&["tmp"], "");
    let mut disk = disk_with(&[
        ("/watch/one.txt", b"1"),
        ("/watch/sub/two.txt", b"2"),
        ("/watch/three.tmp", b"3"),
        ("/elsewhere/ignored.txt", b"x"),
    ]);
    let mut script = ClassifierScript::unavailable();
    engine.run_path_scan(&mut disk, "/watch", &mut script).unwrap();
    assert!(!engine.scan_progress.is_running);
    assert_eq!(engine.scan_progress.total_files, 3);
    assert_eq!(engine.scan_progress.scanned_files, 3);
    // the excluded .tmp file counts for progress but is never scanned
    assert_eq!(engine.files_scanned, 2);
}

#[test]
fn scan_rooted_in_quarantine_directory_is_refused() {
    let mut engine = engine_with(&[], "");
    let inside = format!("{}/leftover.bin", QDIR);
    let mut disk = disk_with(&[(inside.as_str(), b"data")]);
    let mut script = ClassifierScript::unavailable();
    engine.run_path_scan(&mut disk, QDIR, &mut script).unwrap();
    assert_eq!(engine.files_scanned, 0);
    assert!(!engine.scan_progress.is_running);
    assert_eq!(engine.scan_progress.total_files, 0);
}

#[test]
fn quick_scan_covers_the_priority_paths() {
    let digest = sha256_hex(b"bad");
    let db = format!("{}:Planted", digest);
    let mut engine = engine_with(&[], db.as_str());
    let mut disk = disk_with(&[
        ("C:\\AIAV_Test\\TempA/bad.bin", b"bad"),
        ("C:\\AIAV_Test\\TempB/good.bin", b"good"),
    ]);
    let mut script = ClassifierScript::unavailable();
    engine.run_quick_scan(&mut disk, &mut script).unwrap();
    assert!(!engine.is_scanning);
    assert_eq!(engine.files_scanned, 2);
    assert_eq!(engine.threats_found, 1);
}

#[test]
fn status_reflects_counters_and_quarantine() {
    let digest = sha256_hex(b"caught");
    let db = format!("{}:Caught", digest);
    let mut engine = engine_with(&[], db.as_str());
    let mut disk = disk_with(&[("/watch/caught.bin", b"caught")]);
    let mut script = ClassifierScript::unavailable();
    engine.run_path_scan(&mut disk, "/watch", &mut script).unwrap();
    let status = engine.get_current_status(&disk).unwrap();
    assert!(!status.is_scanning);
    assert_eq!(status.files_scanned, 1);
    assert_eq!(status.threats_found, 1);
    assert_eq!(status.quarantined_count, 1);
    assert!(!status.is_web_protection_active);
}

#[test]
fn restore_through_the_engine_round_trips() {
    let digest = sha256_hex(b"bytes");
    let db = format!("{}:Sig", digest);
    let mut engine = engine_with(&[], db.as_str());
    let mut disk = disk_with(&[("/watch/f.bin", b"bytes")]);
    let mut script = ClassifierScript::unavailable();
    engine.run_path_scan(&mut disk, "/watch", &mut script).unwrap();
    let stats = engine.get_quarantine_stats(&disk).unwrap();
    let name = stats.files[0].quarantined_name.clone();
    engine.restore_quarantined_file(&mut disk, name.as_str()).unwrap();
    assert_eq!(disk.read("/watch/f.bin").unwrap(), b"bytes".to_vec());
    assert_eq!(engine.get_quarantine_stats(&disk).unwrap().count, 0);
}

#[test]
fn delete_through_the_engine_is_idempotent() {
    let digest = sha256_hex(b"gone");
    let db = format!("{}:Sig", digest);
    let mut engine = engine_with(&[], db.as_str());
    let mut disk = disk_with(&[("/watch/g.bin", b"gone")]);
    let mut script = ClassifierScript::unavailable();
    engine.run_path_scan(&mut disk, "/watch", &mut script).unwrap();
    let stats = engine.get_quarantine_stats(&disk).unwrap();
    let name = stats.files[0].quarantined_name.clone();
    assert!(engine.delete_quarantined_file(&mut disk, name.as_str()).is_ok());
    assert!(engine.delete_quarantined_file(&mut disk, name.as_str()).is_ok());
    assert_eq!(engine.get_quarantine_stats(&disk).unwrap().count, 0);
}

#[test]
fn settings_update_toggles_web_protection() {
    let mut engine = engine_with(&[], "");
    assert!(!engine.is_web_protection_active());
    let mut with_protection = settings(&[]);
    with_protection.web_security.enable_malware_protection = true;
    engine.update_and_save_settings(with_protection).unwrap();
    assert!(engine.is_web_protection_active());
    engine.update_and_save_settings(settings(&[])).unwrap();
    assert!(!engine.is_web_protection_active());
}

#[test]
fn extension_extraction_follows_the_final_component() {
    assert_eq!(extension_of("archive.tar.gz").unwrap(), "gz");
    assert_eq!(extension_of("report.TXT").unwrap(), "TXT");
    assert!(extension_of("Makefile").is_none());
    assert!(extension_of(".gitignore").is_none());
}

#[test]
fn unique_id_prefix_needs_the_exact_shape() {
    assert!(has_unique_id_prefix("123e4567-e89b-12d3-a456-426614174000-x.exe"));
    assert!(has_unique_id_prefix("123E4567-E89B-12D3-A456-426614174000"));
    assert!(!has_unique_id_prefix("123e4567-e89b-12d3-a456-42661417400g-x.exe"));
    assert!(!has_unique_id_prefix("short-name.txt"));
    assert!(!has_unique_id_prefix("123e4567ze89bz12d3za456z426614174000-x.exe"));
}
