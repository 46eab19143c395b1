use rrn_station::backup::{
    backup_name, create_backup, default_backup_path, is_suspicious, restore_backup, restore_plan,
    restore_with_secret, BackupBundle, BackupFile, RestoreError, BACKUP_EXTENSION, BUNDLE_VERSION,
    CONFIG_FILE, DB_FILE, PAIRED_FILE, WALLET_FILE,
};

fn file(name: &str, bytes: &[u8]) -> BackupFile {
    BackupFile { name: name.into(), bytes: bytes.to_vec() }
}

fn whole() -> Vec<u8> {
    create_backup(
        "/data/station.db",
        Some(b"rows".to_vec()),
        b"sealed".to_vec(),
        Some(b"{\"mobiles\":[]}".to_vec()),
        Some(b"# config\n".to_vec()),
    )
    .unwrap()
}

#[test]
fn backup_then_restore_round_trips() {
    let plan = restore_backup(&whole(), false, false, false);
    assert_eq!(plan.error, None);
    assert_eq!(
        plan.writes,
        vec![
            file(CONFIG_FILE, b"# config\n"),
            file(PAIRED_FILE, b"{\"mobiles\":[]}"),
            file(DB_FILE, b"rows"),
            file(WALLET_FILE, b"sealed"),
        ]
    );
}

#[test]
fn a_backup_of_a_bare_station_holds_two_files() {
    let bytes = create_backup("db", Some(vec![1]), vec![2], None, None).unwrap();
    let plan = restore_backup(&bytes, false, false, false);
    assert_eq!(plan.writes, vec![file(DB_FILE, &[1]), file(WALLET_FILE, &[2])]);
}

#[test]
fn a_directory_without_a_database_is_not_backed_up() {
    assert_eq!(
        create_backup("/data/station.db", None, vec![], None, None),
        Err("no database at /data/station.db — not a station data dir".to_string())
    );
}

#[test]
fn restore_refuses_to_clobber_without_force() {
    for (wallet, db) in [(true, false), (false, true), (true, true)] {
        let plan = restore_backup(&whole(), wallet, db, false);
        assert!(plan.writes.is_empty());
        assert_eq!(plan.error, Some(RestoreError::Occupied));
        let forced = restore_backup(&whole(), wallet, db, true);
        assert_eq!(forced.writes.len(), 4);
        assert_eq!(forced.error, None);
    }
    assert_eq!(
        RestoreError::Occupied.message("/data"),
        "/data already contains a station (wallet or database present); pass --force to overwrite"
    );
}

#[test]
fn a_recovery_leaves_the_stored_wallet_out() {
    let plan = restore_with_secret(&whole(), false, false, false);
    assert_eq!(plan.error, None);
    let names: Vec<&str> = plan.writes.iter().map(|f| f.name.as_str()).collect();
    assert_eq!(names, vec!["config.toml", "paired_mobiles.json", "station.db"]);
}

#[test]
fn a_restore_stops_at_a_suspicious_name() {
    let bundle = BackupBundle {
        version: BUNDLE_VERSION,
        files: vec![file("z", &[3]), file("../escape", &[2]), file("-early", &[1])],
    };
    let plan = restore_plan(bundle, false, false, false, false);
    assert_eq!(plan.writes, vec![file("-early", &[1])]);
    let error = plan.error.unwrap();
    assert_eq!(error, RestoreError::Suspicious { name: "../escape".into() });
    assert_eq!(
        error.message("/data"),
        "refusing to restore suspicious filename \"../escape\""
    );
}

#[test]
fn separators_and_double_dots_are_suspicious() {
    assert!(is_suspicious("a/b"));
    assert!(is_suspicious("a\\b"));
    assert!(is_suspicious(".."));
    assert!(is_suspicious("a..b"));
    assert!(!is_suspicious("a.b.c"));
    assert!(!is_suspicious(""));
    assert!(!is_suspicious("."));
}

#[test]
fn another_version_is_refused() {
    let bytes = BackupBundle { version: 2, files: vec![] }.to_bytes();
    assert_eq!(BackupBundle::open(&bytes), Err(RestoreError::Unsupported { version: 2 }));
    assert_eq!(
        RestoreError::Unsupported { version: 2 }.message(""),
        "unsupported backup bundle version 2 (this build supports 1)"
    );
    assert!(restore_backup(&bytes, false, false, true).writes.is_empty());
}

#[test]
fn bytes_that_are_no_bundle_are_unreadable() {
    for bytes in [&b""[..], &b"\x01"[..], &b"\xa0"[..], &b"\xff\xff"[..]] {
        match BackupBundle::open(bytes) {
            Err(RestoreError::Unreadable { reason }) => assert!(!reason.is_empty()),
            other => panic!("{other:?}"),
        }
    }
    assert_eq!(
        BackupBundle::open(&vec![0xd8; 1_000_000]),
        Err(RestoreError::Unreadable { reason: "nested too deeply".into() })
    );
    assert_eq!(
        RestoreError::Unreadable { reason: "x".into() }.message(""),
        "parse decrypted backup bundle"
    );
}

#[test]
fn a_bundle_is_a_canonical_map() {
    let bundle = BackupBundle { version: 1, files: vec![file("a", &[0xff])] };
    // {"v": 1, "files": {"a": h'ff'}}, shorter keys first.
    assert_eq!(bundle.to_bytes(), b"\xa2\x61v\x01\x65files\xa1\x61a\x41\xff".to_vec());
    assert_eq!(BackupBundle::open(&bundle.to_bytes()), Ok(bundle));
}

#[test]
fn archives_are_named_after_the_time() {
    assert_eq!(backup_name(Some(1_700_000_000)), "station-backup-1700000000.rrnbak");
    assert_eq!(backup_name(None), "station-backup-0.rrnbak");
    assert_eq!(BACKUP_EXTENSION, "rrnbak");
    let path = default_backup_path();
    assert!(path.starts_with("station-backup-1") || path.starts_with("station-backup-2"));
    assert!(path.ends_with(".rrnbak"));
}
