use aiav_core::disk::Disk;
use aiav_core::errors::AvError;
use aiav_core::quarantine::{meta_content, parse_meta, QuarantineManager};

const QDIR: &str = "/var/lib/aiav/quarantine";

fn disk_with(files: &[(&str, &[u8])]) -> Disk {
    let mut disk = Disk::new();
    for (path, data) in files {
        disk.write(path, data.to_vec());
    }
    disk
}

#[test]
fn quarantine_moves_file_and_writes_metadata() {
    let mut disk = disk_with(&[("/home/user/evil.exe", b"payload")]);
    let qm = QuarantineManager::new();
    let name = qm.quarantine_file(&mut disk, "/home/user/evil.exe", "BadSig", QDIR).unwrap();
    assert!(name.ends_with("-evil.exe"));
    assert_eq!(name.len(), 36 + 1 + "evil.exe".len());
    assert!(!disk.contains("/home/user/evil.exe"));
    let (file_path, meta_path) = qm.get_quarantine_paths(QDIR, name.as_str());
    assert_eq!(disk.read(file_path.as_str()).unwrap(), b"payload".to_vec());
    let meta_text = String::from_utf8(disk.read(meta_path.as_str()).unwrap()).unwrap();
    assert_eq!(
        meta_text,
        "[Threat Info]\nsignature = \"BadSig\"\noriginal_path = \"/home/user/evil.exe\""
    );
}

#[test]
fn quarantine_then_restore_round_trips_byte_identical() {
    let content: &[u8] = &[0u8, 159, 146, 150, 7];
    let mut disk = disk_with(&[("/home/user/evil.bin", content)]);
    let qm = QuarantineManager::new();
    let name = qm.quarantine_file(&mut disk, "/home/user/evil.bin", "X", QDIR).unwrap();
    qm.restore_file(&mut disk, name.as_str(), QDIR).unwrap();
    assert_eq!(disk.read("/home/user/evil.bin").unwrap(), content.to_vec());
    let (file_path, meta_path) = qm.get_quarantine_paths(QDIR, name.as_str());
    assert!(!disk.contains(file_path.as_str()));
    assert!(!disk.contains(meta_path.as_str()));
}

#[test]
fn restore_conflict_leaves_quarantine_entry_intact() {
    let mut disk = disk_with(&[("/home/user/evil.bin", b"original")]);
    let qm = QuarantineManager::new();
    let name = qm.quarantine_file(&mut disk, "/home/user/evil.bin", "X", QDIR).unwrap();
    disk.write("/home/user/evil.bin", b"newcomer".to_vec());
    let result = qm.restore_file(&mut disk, name.as_str(), QDIR);
    assert!(matches!(result, Err(AvError::Conflict(_))));
    let (file_path, meta_path) = qm.get_quarantine_paths(QDIR, name.as_str());
    assert_eq!(disk.read(file_path.as_str()).unwrap(), b"original".to_vec());
    assert!(disk.contains(meta_path.as_str()));
    assert_eq!(disk.read("/home/user/evil.bin").unwrap(), b"newcomer".to_vec());
}

#[test]
fn delete_twice_succeeds_both_times() {
    let mut disk = disk_with(&[("/home/user/evil.bin", b"payload")]);
    let qm = QuarantineManager::new();
    let name = qm.quarantine_file(&mut disk, "/home/user/evil.bin", "X", QDIR).unwrap();
    assert!(qm.delete_file(&mut disk, name.as_str(), QDIR).is_ok());
    assert!(qm.delete_file(&mut disk, name.as_str(), QDIR).is_ok());
    let (file_path, meta_path) = qm.get_quarantine_paths(QDIR, name.as_str());
    assert!(!disk.contains(file_path.as_str()));
    assert!(!disk.contains(meta_path.as_str()));
}

#[test]
fn restore_of_unknown_name_fails_without_changes() {
    let mut disk = disk_with(&[("/keep/me.txt", b"k")]);
    let qm = QuarantineManager::new();
    let result = qm.restore_file(&mut disk, "nonexistent-name", QDIR);
    assert!(result.is_err());
    assert!(!matches!(result, Err(AvError::Conflict(_))));
    assert_eq!(disk.read("/keep/me.txt").unwrap(), b"k".to_vec());
}

#[test]
fn quarantine_of_missing_file_fails() {
    let mut disk = Disk::new();
    let qm = QuarantineManager::new();
    let result = qm.quarantine_file(&mut disk, "/no/such/file.txt", "X", QDIR);
    assert!(matches!(result, Err(AvError::Io(_))));
}

#[test]
fn quarantine_of_path_without_file_name_fails() {
    let mut disk = disk_with(&[("/dir/ending/", b"odd")]);
    let qm = QuarantineManager::new();
    let result = qm.quarantine_file(&mut disk, "/dir/ending/", "X", QDIR);
    assert!(matches!(result, Err(AvError::Other(_))));
}

#[test]
fn list_reports_one_record_per_metadata_file() {
    let mut disk = disk_with(&[("/a/one.txt", b"1"), ("/b/two.txt", b"2")]);
    let qm = QuarantineManager::new();
    let n1 = qm.quarantine_file(&mut disk, "/a/one.txt", "SigOne", QDIR).unwrap();
    let n2 = qm.quarantine_file(&mut disk, "/b/two.txt", "SigTwo", QDIR).unwrap();
    let stats = qm.get_stats(&disk, QDIR).unwrap();
    assert_eq!(stats.count, 2);
    assert_eq!(stats.files.len(), 2);
    assert_eq!(stats.files[0].quarantined_name, n1);
    assert_eq!(stats.files[0].original_path, "/a/one.txt");
    assert_eq!(stats.files[0].signature, "SigOne");
    assert_eq!(stats.files[0].quarantined_at, "N/A");
    assert_eq!(stats.files[1].quarantined_name, n2);
    assert_eq!(stats.files[1].signature, "SigTwo");
}

#[test]
fn list_excludes_orphaned_data_files() {
    let mut disk = Disk::new();
    disk.write("/var/lib/aiav/quarantine/orphan-data.bin", b"data".to_vec());
    let qm = QuarantineManager::new();
    let stats = qm.get_stats(&disk, QDIR).unwrap();
    assert_eq!(stats.count, 0);
}

#[test]
fn list_ignores_files_outside_the_quarantine_directory() {
    let mut disk = Disk::new();
    disk.write("/elsewhere/entry.meta", b"signature = \"x\"".to_vec());
    let qm = QuarantineManager::new();
    let stats = qm.get_stats(&disk, QDIR).unwrap();
    assert_eq!(stats.count, 0);
}

#[test]
fn meta_content_and_parse_round_trip() {
    let text = meta_content("Sig-123", "/home/user/some file.txt");
    let (signature, original_path) = parse_meta(text.as_str());
    assert_eq!(signature.as_str(), "Sig-123");
    assert_eq!(original_path.as_str(), "/home/user/some file.txt");
}

#[test]
fn parse_meta_takes_last_value_and_defaults_empty() {
    let (signature, original_path) = parse_meta("signature = \"a\"\nsignature = \"b\"");
    assert_eq!(signature.as_str(), "b");
    assert_eq!(original_path.as_str(), "");
}
