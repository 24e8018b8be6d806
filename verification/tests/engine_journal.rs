use animus_patch_loader::error::LoaderError;
use animus_patch_loader::models::{
    Action, ActionType, Archive, BackupRule, ChangeKind, ChangeRecord, Detection, Game, Integrity,
    Manifest, Patch, Verification,
};
use animus_patch_loader::patch::engine::{
    assert_not_running, available_space, check_action_result, check_copy_source,
    check_move_source, dry_run, ensure_disk_space, handler_for, install_percent,
    is_managed_ps_game, nested_path, preflight, validate_manifest, DiskInfo, Handler, TargetProbe,
};
use animus_patch_loader::hashing::{digest, Sha256State};
use animus_patch_loader::patch::journal::{
    backup_deleted, copy_one, directory_record, move_record, restore_previous, rollback_plan,
    uninstall, verify_records, PreviousAction, RollbackStep,
};

/// A hasher fed `bytes`.
fn fed(bytes: &[u8]) -> Sha256State {
    let mut h = Sha256State::new();
    h.update(bytes);
    h
}

fn action(kind: ActionType, source: Option<&str>, destination: &str) -> Action {
    Action {
        id: "3f1c2a4e-8b7d-4c6a-9e21-5d4f3b2a1c0e".into(),
        kind,
        source: source.map(|s| s.to_string()),
        destination: destination.into(),
        backup: true,
        expected_sha256: None,
        options: vec![],
    }
}

fn manifest(actions: Vec<Action>) -> Manifest {
    Manifest {
        schema_version: 1,
        game: Game { id: 7, slug: "demo".into(), name: "Demo".into() },
        detection: Detection {
            steam_app_id: None,
            epic_catalog_id: None,
            executable: "Demo.exe".into(),
            process_name: Some("Demo.exe".into()),
            required_files: vec!["Demo.exe".into()],
            optional_files: vec!["Data/extra.pak".into()],
        },
        patch: Patch {
            id: 3,
            version: "1.0.0".into(),
            game_version: None,
            minimum_loader_version: "0.2.0".into(),
            mandatory: false,
            channel: "stable".into(),
        },
        archive: Archive {
            download_token_url: "https://example.com".into(),
            sha256: "AbCdEf0123456789".repeat(4),
            size: 10,
        },
        install_actions: actions,
        integrity: Integrity { verify_after_install: true, conflict_policy: "abort".into() },
        backup: BackupRule { automatic: true, retain_until_uninstall: true },
    }
}

fn copy_manifest() -> Manifest {
    manifest(vec![action(ActionType::CopyFile, Some("files/a"), "Data/a")])
}

fn manifest_message(m: &Manifest) -> String {
    match validate_manifest(m) {
        Err(LoaderError::Manifest(t)) => t,
        other => panic!("{:?}", other.map(|_| ())),
    }
}

#[test]
fn manifest_checks_come_in_order() {
    let mut m = copy_manifest();
    m.patch.version = "   ".into();
    assert_eq!(manifest_message(&m), "Game/patch kimliği eksik");
    let mut m = copy_manifest();
    m.archive.sha256 = "g".repeat(64);
    assert_eq!(manifest_message(&m), "Archive bütünlük bilgisi geçersiz");
    let mut m = copy_manifest();
    m.integrity.conflict_policy = "overwrite".into();
    assert_eq!(manifest_message(&m), "Güvensiz backup/conflict politikası");
    let mut m = copy_manifest();
    m.install_actions.clear();
    assert_eq!(manifest_message(&m), "Install action listesi boş");
    let mut m = copy_manifest();
    m.schema_version = 27;
    m.install_actions.clear();
    assert_eq!(manifest_message(&m), "Desteklenmeyen schema version: 27");
}

#[test]
fn unsafe_detection_path_is_named() {
    let mut m = copy_manifest();
    m.detection.optional_files = vec!["ok.pak".into(), "../escape.pak".into()];
    match validate_manifest(&m) {
        Err(LoaderError::UnsafePath(p)) => assert_eq!(p, "../escape.pak"),
        other => panic!("{:?}", other.map(|_| ())),
    }
}

#[test]
fn managed_playstation_titles_skip_blank_detection_paths() {
    let mut m = copy_manifest();
    m.detection.executable = "  ".into();
    m.detection.required_files = vec!["".into()];
    assert!(matches!(validate_manifest(&m), Err(LoaderError::UnsafePath(_))));
    m.game.slug = "silent-hill-1".into();
    assert!(is_managed_ps_game(&m));
    assert!(validate_manifest(&m).is_ok());
}

#[test]
fn action_uuid_source_and_destination_are_checked() {
    let mut bad_id = action(ActionType::CopyFile, Some("a"), "b");
    bad_id.id = "not-a-uuid".into();
    assert_eq!(manifest_message(&manifest(vec![bad_id])), "Action UUID geçersiz: not-a-uuid");
    let no_source = action(ActionType::MoveFile, None, "b");
    let id = no_source.id.clone();
    assert_eq!(manifest_message(&manifest(vec![no_source])), format!("Action source eksik: {id}"));
    let bad_source = action(ActionType::CopyDirectory, Some("../x"), "b");
    match validate_manifest(&manifest(vec![bad_source])) {
        Err(LoaderError::UnsafePath(p)) => assert_eq!(p, "../x"),
        other => panic!("{:?}", other.map(|_| ())),
    }
    let delete = action(ActionType::DeleteFile, None, "old.dat");
    assert!(validate_manifest(&manifest(vec![delete])).is_ok());
}

#[test]
fn dry_run_counts_each_action() {
    let m = manifest(vec![
        action(ActionType::ReplaceFile, Some("f/a"), "a"),
        action(ActionType::CopyFile, Some("f/b"), "b"),
        action(ActionType::CopyDirectory, Some("f/d"), "d"),
        action(ActionType::DeleteFile, None, "c"),
        action(ActionType::DeleteDirectory, None, "old"),
        action(ActionType::CreateDirectory, None, "new"),
        action(ActionType::MoveFile, Some("x"), "y"),
    ]);
    let probes = vec![
        TargetProbe { exists: true, files: 0 },
        TargetProbe { exists: false, files: 0 },
        TargetProbe { exists: false, files: 0 },
        TargetProbe { exists: true, files: 0 },
        TargetProbe { exists: true, files: 5 },
        TargetProbe { exists: false, files: 0 },
        TargetProbe { exists: true, files: 0 },
    ];
    let d = dry_run(&m, &probes).unwrap();
    assert_eq!(d.created_files, 3);
    assert_eq!(d.changed_files, 2);
    assert_eq!(d.deleted_files, 6);
    assert_eq!(d.backup_files, 8);
    assert_eq!(d.download_bytes, 10);
    assert_eq!(d.estimated_disk_bytes, 20 + 8 * 4 * 1024 * 1024);
    assert_eq!(d.warnings.len(), 1);
}

#[test]
fn replaced_file_and_deleted_folder_are_all_backed_up() {
    let m = manifest(vec![
        action(ActionType::ReplaceFile, Some("f/a"), "Data/a"),
        action(ActionType::DeleteDirectory, None, "Old"),
    ]);
    let probes = vec![TargetProbe { exists: true, files: 0 }, TargetProbe { exists: true, files: 2 }];
    let d = dry_run(&m, &probes).unwrap();
    assert_eq!(d.changed_files, 1);
    assert_eq!(d.deleted_files, 2);
    assert_eq!(d.backup_files, 3);
    assert_eq!(d.estimated_disk_bytes, 20 + 3 * 4 * 1024 * 1024);
}

#[test]
fn dry_run_estimate_saturates() {
    let mut m = copy_manifest();
    m.archive.size = u64::MAX / 2 + 1;
    let d = dry_run(&m, &vec![TargetProbe { exists: true, files: 0 }]).unwrap();
    assert_eq!(d.estimated_disk_bytes, u64::MAX);
}

#[test]
fn preflight_applies_the_version_gate() {
    let m = copy_manifest();
    assert!(preflight(&m, "0.2.0").is_ok());
    assert!(matches!(preflight(&m, "0.1.9"), Err(LoaderError::Manifest(_))));
    let mut m = copy_manifest();
    m.patch.minimum_loader_version = " 1.2.0 ".into();
    assert_eq!(
        manifest_message_of(preflight(&m, "1.1.9")),
        "Bu yama en az 1.2.0 sürümünde loader gerektiriyor (kurulu: 1.1.9). Önce loader'ı güncelleyin."
    );
}

fn manifest_message_of(r: Result<(), LoaderError>) -> String {
    match r {
        Err(LoaderError::Manifest(t)) => t,
        other => panic!("{:?}", other),
    }
}

#[test]
fn progress_spans_60_to_95() {
    assert_eq!(install_percent(0, 1), 95);
    assert_eq!(install_percent(0, 4), 68);
    assert_eq!(install_percent(3, 4), 95);
    assert_eq!(install_percent(0, 35), 61);
}

#[test]
fn result_hash_checked_only_where_a_file_remains() {
    let h = Some("ABCDEF".to_string());
    assert!(check_action_result(ActionType::CopyFile, "Data/a.pak", &h, &Some("abcdef".into())).is_ok());
    assert!(matches!(
        check_action_result(ActionType::CopyFile, "Data/a.pak", &h, &Some("abcde0".into())),
        Err(LoaderError::Integrity(_))
    ));
    match check_action_result(ActionType::CopyFile, "Data/a.pak", &h, &None) {
        Err(LoaderError::Integrity(m)) => assert_eq!(m, "Action sonucu doğrulanamadı: Data/a.pak"),
        other => panic!("{:?}", other.map(|_| ())),
    }
    assert!(check_action_result(ActionType::DeleteFile, "Data/a.pak", &h, &None).is_ok());
    assert!(check_action_result(ActionType::CopyFile, "Data/a.pak", &None, &None).is_ok());
}

#[test]
fn handlers_cover_every_action() {
    assert_eq!(handler_for(ActionType::CopyDirectory), Handler::Copy);
    assert_eq!(handler_for(ActionType::DeleteDirectory), Handler::Delete);
    assert_eq!(handler_for(ActionType::CreateDirectory), Handler::Directory);
    assert_eq!(handler_for(ActionType::RenameFile), Handler::Move);
    assert_eq!(handler_for(ActionType::AppendFatDat), Handler::FatDat);
}

#[test]
fn nested_destinations_use_forward_slashes() {
    assert_eq!(nested_path("Data\\Paks", "sub\\file.pak"), "Data/Paks/sub/file.pak");
    assert_eq!(nested_path("Data/", "x"), "Data/x");
    assert_eq!(nested_path("", "x"), "x");
}

#[test]
fn running_game_blocks_install() {
    let names = vec!["explorer.exe".to_string(), "DEMO.EXE".to_string()];
    match assert_not_running(&Some("demo.exe".into()), &names) {
        Err(LoaderError::GameRunning(n)) => assert_eq!(n, "demo.exe"),
        other => panic!("{:?}", other.map(|_| ())),
    }
    assert!(assert_not_running(&Some("other.exe".into()), &names).is_ok());
    assert!(assert_not_running(&None, &names).is_ok());
}

#[test]
fn deepest_mount_decides_free_space() {
    let disks = vec![
        DiskInfo { mount_point: "/".into(), available: 100 },
        DiskInfo { mount_point: "/games".into(), available: 5 },
        DiskInfo { mount_point: "/other".into(), available: 1 },
    ];
    assert_eq!(available_space(&disks, "/games/demo"), 5);
    assert_eq!(available_space(&disks, "/home/user"), 100);
    assert_eq!(available_space(&vec![], "/x"), u64::MAX);
    assert!(ensure_disk_space(5, 5).is_ok());
    assert!(matches!(ensure_disk_space(4, 5), Err(LoaderError::Other(_))));
    match ensure_disk_space(0, 3 * 1048576 + 5) {
        Err(LoaderError::Other(m)) => assert_eq!(m, "Yetersiz disk alanı. Gerekli: 3 MB"),
        other => panic!("{:?}", other.map(|_| ())),
    }
}

#[test]
fn handler_source_checks() {
    assert!(check_copy_source(ActionType::CopyDirectory, "Data", true, false).is_ok());
    match check_copy_source(ActionType::CopyDirectory, "Data", false, true) {
        Err(LoaderError::Manifest(m)) => assert_eq!(m, "Archive source directory yok: Data"),
        other => panic!("{:?}", other.map(|_| ())),
    }
    assert!(check_copy_source(ActionType::CopyFile, "a.txt", false, true).is_ok());
    match check_copy_source(ActionType::ReplaceFile, "a.txt", true, false) {
        Err(LoaderError::Manifest(m)) => assert_eq!(m, "Archive source file yok: a.txt"),
        other => panic!("{:?}", other.map(|_| ())),
    }
    assert!(check_move_source("a.pak", true).is_ok());
    match check_move_source("a.pak", false) {
        Err(LoaderError::Manifest(m)) => assert_eq!(m, "Taşınacak dosya yok: a.pak"),
        other => panic!("{:?}", other.map(|_| ())),
    }
}

fn record(kind: ChangeKind, path: &str, installed: Option<&str>) -> ChangeRecord {
    ChangeRecord {
        kind,
        path: path.into(),
        secondary_path: None,
        backup_path: None,
        original_sha256: None,
        installed_sha256: installed.map(|s| s.to_string()),
    }
}

#[test]
fn modified_file_is_a_conflict() {
    let changes = vec![
        record(ChangeKind::ReplacedFile, "Data/original.txt", Some("aa11")),
        record(ChangeKind::CreatedFile, "Data/turkish.txt", Some("bb22")),
        record(ChangeKind::CreatedDirectory, "Data/new", None),
    ];
    let ok = verify_records(&changes, &vec![Some("AA11".into()), Some("bb22".into()), None]);
    assert!(ok.valid);
    assert_eq!(ok.checked, 2);
    let changed = verify_records(&changes, &vec![Some("ffff".into()), Some("bb22".into()), None]);
    assert!(!changed.valid);
    assert_eq!(changed.conflicts, vec!["Data/original.txt"]);
    let gone = verify_records(&changes, &vec![None, None, None]);
    assert_eq!(gone.conflicts, vec!["Data/original.txt", "Data/turkish.txt"]);
}

#[test]
fn rollback_runs_newest_first() {
    let mut moved = record(ChangeKind::MovedFile, "b", None);
    moved.secondary_path = Some("a".into());
    let mut replaced = record(ChangeKind::ReplacedFile, "r", None);
    replaced.backup_path = Some("files/1".into());
    let changes = vec![record(ChangeKind::CreatedFile, "c", None), replaced, moved];
    let plan = rollback_plan(&changes);
    assert_eq!(plan.len(), 3);
    assert!(matches!(&plan[0], RollbackStep::MoveBack { path, source, backup: None } if path == "b" && source == "a"));
    assert!(matches!(&plan[1], RollbackStep::RestoreFile { path, backup: Some(b) } if path == "r" && b == "files/1"));
    assert!(matches!(&plan[2], RollbackStep::RemoveFile { path } if path == "c"));
    let broken = vec![record(ChangeKind::MovedFile, "x", None)];
    assert!(matches!(rollback_plan(&broken)[0], RollbackStep::Broken));
}

fn verification(valid: bool) -> Verification {
    Verification {
        valid,
        checked: 1,
        conflicts: if valid { vec![] } else { vec!["a".into()] },
    }
}

#[test]
fn update_restores_previous_install_first() {
    assert!(matches!(restore_previous(true, "D:/Games/Demo", true, &verification(true), false), Ok(PreviousAction::RollbackAndClose)));
    match restore_previous(false, "D:/Games/Demo", true, &verification(true), true) {
        Err(LoaderError::Conflict(m)) => {
            assert_eq!(m, "Bu oyunun yaması başka bir klasörde kurulu: D:/Games/Demo. Önce oradan kaldırın.")
        }
        other => panic!("{:?}", other.map(|_| ())),
    }
    assert!(matches!(restore_previous(true, "D:/Games/Demo", false, &verification(true), false), Err(LoaderError::Conflict(_))));
    assert!(matches!(restore_previous(true, "D:/Games/Demo", false, &verification(true), true), Ok(PreviousAction::CloseOnly)));
    match restore_previous(true, "D:/Games/Demo", true, &verification(false), false) {
        Err(LoaderError::Conflict(m)) => assert_eq!(
            m,
            "Önceki yamanın dosyaları değişmiş: a. Önce 'Yamayı Kaldır' çalıştırın veya güncellemeyi zorlayın."
        ),
        other => panic!("{:?}", other.map(|_| ())),
    }
    assert!(matches!(restore_previous(true, "D:/Games/Demo", true, &verification(false), true), Ok(PreviousAction::RollbackAndClose)));
}

#[test]
fn uninstall_needs_force_for_changed_files() {
    match uninstall(true, verification(false), Ok(true), false, 2) {
        Err(LoaderError::Conflict(m)) => assert_eq!(m, "Dosyalar kurulumdan sonra değişmiş: a"),
        other => panic!("{:?}", other.map(|_| ())),
    }
    let two = Verification { valid: false, checked: 2, conflicts: vec!["a".into(), "b/c".into()] };
    match uninstall(true, two, Ok(true), false, 2) {
        Err(LoaderError::Conflict(m)) => assert_eq!(m, "Dosyalar kurulumdan sonra değişmiş: a, b/c"),
        other => panic!("{:?}", other.map(|_| ())),
    }
    let r = uninstall(true, verification(false), Ok(true), true, 2).unwrap();
    assert_eq!(r.restored, 2);
    assert!(r.forced);
    assert_eq!(r.conflicts, vec!["a"]);
    let r = uninstall(true, verification(true), Ok(true), false, 1).unwrap();
    assert!(!r.forced);
    assert!(uninstall(false, verification(true), Ok(true), true, 1).is_err());
    assert!(uninstall(true, verification(true), Ok(false), false, 1).is_err());
    assert!(uninstall(true, verification(true), Ok(false), true, 1).is_ok());
}

#[test]
fn uninstall_refused_backup_stands_under_force() {
    let refusal = LoaderError::Conflict("Kurulumun yedeği ve kurtarma kopyası bulunamadı".into());
    match uninstall(true, verification(true), Err(refusal), true, 1) {
        Err(LoaderError::Conflict(m)) => assert_eq!(m, "Kurulumun yedeği ve kurtarma kopyası bulunamadı"),
        other => panic!("{:?}", other.map(|_| ())),
    }
    let unsafe_id = LoaderError::UnsafePath("../x".into());
    assert!(matches!(uninstall(true, verification(false), Err(unsafe_id), true, 1), Err(LoaderError::UnsafePath(_))));
    match uninstall(true, verification(true), Ok(false), false, 1) {
        Err(LoaderError::Conflict(m)) => {
            assert_eq!(m, "Kurulumun yedeği bulunamadı; orijinal dosyalar geri yüklenemez.")
        }
        other => panic!("{:?}", other.map(|_| ())),
    }
}

#[test]
fn handler_records() {
    let c = copy_one("Data/a", Some(("files/1".into(), fed(b"ORIGINAL"))), fed(b"TURKISH PATCH"));
    assert_eq!(c.kind, ChangeKind::ReplacedFile);
    assert_eq!(c.backup_path.as_deref(), Some("files/1"));
    assert_eq!(c.original_sha256, Some(digest(b"ORIGINAL")));
    assert_eq!(c.installed_sha256, Some(digest(b"TURKISH PATCH")));
    let c = copy_one("Data/a", None, fed(b"TURKISH FILE"));
    assert_eq!(c.kind, ChangeKind::CreatedFile);
    assert_eq!(c.installed_sha256, Some(digest(b"TURKISH FILE")));
    let d = backup_deleted("x", "files/2".into(), fed(b"OLD"));
    assert_eq!(d.kind, ChangeKind::DeletedFile);
    assert_eq!(d.original_sha256, Some(digest(b"OLD")));
    assert_eq!(directory_record("d").kind, ChangeKind::CreatedDirectory);
    let m = move_record("to", "from", None, fed(b"MOVED"));
    assert_eq!(m.secondary_path.as_deref(), Some("from"));
    assert_eq!(m.installed_sha256, Some(digest(b"MOVED")));
    let mut pieces = Sha256State::new();
    pieces.update(b"TURKISH ");
    pieces.update(b"PATCH");
    assert_eq!(pieces.finish_hex(), digest(b"TURKISH PATCH"));
    assert_eq!(Sha256State::new().finish_hex(), "e3b0c44298fc1c149afbf4c8996fb92427ae41e4649b934ca495991b7852b855");
    let mut abc = fed(b"a");
    let fork = abc.fork();
    abc.update(b"bc");
    assert_eq!(abc.finish_hex(), "ba7816bf8f01cfea414140de5dae2223b00361a396177a9cb410ff61f20015ad");
    assert_eq!(fork.finish_hex(), digest(b"a"));
}

/// Carries out one rollback step on a model of the game's files.
fn carry_out(
    files: &mut std::collections::BTreeMap<String, String>,
    saved: &std::collections::BTreeMap<String, String>,
    step: RollbackStep,
) {
    match step {
        RollbackStep::RemoveFile { path } => {
            files.remove(&path);
        }
        RollbackStep::RestoreFile { path, backup } => {
            files.remove(&path);
            if let Some(b) = backup {
                files.insert(path, saved[&b].clone());
            }
        }
        RollbackStep::MoveBack { path, source, backup } => {
            if let Some(content) = files.remove(&path) {
                files.insert(source, content);
            }
            if let Some(b) = backup {
                files.insert(path, saved[&b].clone());
            }
        }
        _ => {}
    }
}

#[test]
fn rollback_plan_restores_the_files() {
    let mut files = std::collections::BTreeMap::new();
    files.insert("Data/text.dat".to_string(), "VANILLA".to_string());
    files.insert("Data/old.bin".to_string(), "OLD".to_string());
    files.insert("Data/a.pak".to_string(), "A".to_string());
    let before = files.clone();
    let mut saved = std::collections::BTreeMap::new();
    let mut journal = vec![];
    // replace text.dat, create new.txt, delete old.bin, move a.pak over text.dat
    saved.insert("files/1".to_string(), "VANILLA".to_string());
    files.insert("Data/text.dat".into(), "PATCH".into());
    journal.push(copy_one("Data/text.dat", Some(("files/1".into(), fed(b"VANILLA"))), fed(b"PATCH")));
    files.insert("Data/new.txt".into(), "NEW".into());
    journal.push(copy_one("Data/new.txt", None, fed(b"NEW")));
    saved.insert("files/2".to_string(), "OLD".to_string());
    files.remove("Data/old.bin");
    journal.push(backup_deleted("Data/old.bin", "files/2".into(), fed(b"OLD")));
    saved.insert("files/3".to_string(), "PATCH".to_string());
    let moved = files.remove("Data/a.pak").unwrap();
    files.insert("Data/text.dat".into(), moved);
    journal.push(move_record("Data/text.dat", "Data/a.pak", Some(("files/3".into(), fed(b"PATCH"))), fed(b"A")));
    journal.push(directory_record("Data/extra"));
    assert_ne!(files, before);
    for step in rollback_plan(&journal) {
        carry_out(&mut files, &saved, step);
    }
    assert_eq!(files, before);
}

#[test]
fn install_record_starts_active_and_empty() {
    let m = copy_manifest();
    let r = animus_patch_loader::patch::install::start_installation(
        &m,
        "D:/Games/Demo",
        "7b0f5e0e-1c2d-4e3f-8a9b-0c1d2e3f4a5b".into(),
        "2024-01-01T00:00:00+00:00".into(),
    );
    assert_eq!(r.schema_version, 1);
    assert_eq!(r.game_id, m.game.id);
    assert_eq!(r.game_name, m.game.name);
    assert_eq!(r.patch_id, m.patch.id);
    assert_eq!(r.patch_version, m.patch.version);
    assert_eq!(r.game_root, "D:/Games/Demo");
    assert_eq!(r.backup_id, "7b0f5e0e-1c2d-4e3f-8a9b-0c1d2e3f4a5b");
    assert!(r.active);
    assert!(r.changes.is_empty());
}

#[test]
fn observed_hash_is_the_digest_of_what_was_read() {
    assert_eq!(animus_patch_loader::patch::journal::observed_hash(Some(fed(b"PATCH"))), Some(digest(b"PATCH")));
    assert_eq!(animus_patch_loader::patch::journal::observed_hash(None), None);
}
