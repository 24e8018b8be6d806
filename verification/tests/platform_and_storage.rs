use animus_patch_loader::order::{newest_first, text_less};
use animus_patch_loader::backup::{
    backup_root, clean, close_installation, find_installation, installation_path,
    installation_references_backup, prune, prune_targets, list, list_installations, data_root, installations_dir, directory_size, clear_cache, raw_backup_root,
    recovery_backup_root, require_recovery_tree, require_unreferenced, restore_tree_entry, summarize, valid_backup_id,
    BackupSource, TreeStep,
};
use animus_patch_loader::credential::{save, token_outcome, StoredToken};
use animus_patch_loader::emulator::{
    choose_emulator, emulator_candidates, emulator_executable_valid, find_installed_ps_game_image,
    installed_launch_args, launch_args, open_external, prepare_ps_game_root, validate_install_root,
    emulator_config_directory, saved_emulator_path,
    validate_ps_game_file, EmulatorChoice, PsPlatform, WalkEntry,
};
use animus_patch_loader::error::LoaderError;
use animus_patch_loader::game_detection::{
    app_manifest_name, library_path, quoted_values, steam_game_root, validate_root, FileProbe,
};
use animus_patch_loader::hashing::digest;
use animus_patch_loader::logging::{clean as clean_log, event, normalize_level};
use animus_patch_loader::models::{ChangeKind, ChangeRecord, Installation};
use animus_patch_loader::security::archive::{check_count, check_entry};
use animus_patch_loader::security::path::resolve_inside;
use animus_patch_loader::storage::{copy_file, recovery_path_for_backup};

#[test]
fn platforms_by_name() {
    assert_eq!(PsPlatform::parse(" PSX ").unwrap(), PsPlatform::Ps1);
    assert_eq!(PsPlatform::parse("PlayStation2").unwrap(), PsPlatform::Ps2);
    assert!(matches!(PsPlatform::parse("ps3"), Err(LoaderError::Other(_))));
    assert_eq!(PsPlatform::Ps1.label(), "PlayStation 1");
    assert_eq!(PsPlatform::Ps2.emulator_name(), "PCSX2");
    assert_eq!(PsPlatform::Ps1.env_variable(), "ANIMUS_DUCKSTATION_PATH");
    assert_eq!(PsPlatform::Ps2.config_file(), "pcsx2.path");
    assert_eq!(PsPlatform::Ps2.allowed_extensions(), vec!["iso", "chd", "cso", "bin", "cue"]);
}

#[test]
fn game_files_by_extension() {
    assert!(validate_ps_game_file(PsPlatform::Ps1, true, true, &Some("Game.CUE".into())).is_ok());
    match validate_ps_game_file(PsPlatform::Ps2, true, true, &Some("Game.PBP".into())) {
        Err(LoaderError::Other(m)) => assert_eq!(
            m,
            "PlayStation 2 için desteklenmeyen oyun dosyası: .pbp\n\nDesteklenen formatlar: iso, chd, cso, bin, cue"
        ),
        other => panic!("{:?}", other.map(|_| ())),
    }
    match validate_ps_game_file(PsPlatform::Ps1, false, false, &None) {
        Err(LoaderError::Other(m)) => assert_eq!(m, "Seçilen oyun dosyası bulunamadı."),
        other => panic!("{:?}", other.map(|_| ())),
    }
    assert!(validate_ps_game_file(PsPlatform::Ps1, false, false, &Some("a.cue".into())).is_err());
    assert!(validate_ps_game_file(PsPlatform::Ps1, true, false, &Some("a.cue".into())).is_err());
    assert!(validate_ps_game_file(PsPlatform::Ps1, true, true, &Some(".cue".into())).is_err());
    assert!(validate_ps_game_file(PsPlatform::Ps1, true, true, &None).is_err());
}

#[test]
fn emulator_executables_by_name() {
    assert!(emulator_executable_valid(PsPlatform::Ps1, true, &Some("DuckStation-qt.exe".into())));
    assert!(!emulator_executable_valid(PsPlatform::Ps1, false, &Some("duckstation.exe".into())));
    assert!(emulator_executable_valid(PsPlatform::Ps2, true, &Some("pcsx2-qt.exe".into())));
    assert!(!emulator_executable_valid(PsPlatform::Ps2, true, &Some("duckstation.exe".into())));
}

#[test]
fn emulator_search_order() {
    let c = emulator_candidates(
        PsPlatform::Ps2,
        Some("D:\\pcsx2.exe".into()),
        Some("C:\\Animus".into()),
        None,
        Some("C:\\Program Files".into()),
        Some("C:\\Program Files (x86)\\".into()),
    );
    assert_eq!(
        c,
        vec![
            "D:\\pcsx2.exe",
            "C:\\Animus\\emulators\\pcsx2\\pcsx2-qt.exe",
            "C:\\Animus\\emulators\\pcsx2\\pcsx2-qtx64-avx2.exe",
            "C:\\Animus\\emulators\\pcsx2\\pcsx2.exe",
            "C:\\Animus\\emulators\\ps2\\pcsx2-qt.exe",
            "C:\\Animus\\PCSX2\\pcsx2-qt.exe",
            "C:\\Program Files\\PCSX2\\pcsx2-qt.exe",
            "C:\\Program Files\\PCSX2\\pcsx2-qtx64-avx2.exe",
            "C:\\Program Files\\PCSX2\\pcsx2.exe",
            "C:\\Program Files (x86)\\PCSX2\\pcsx2-qt.exe",
            "C:\\Program Files (x86)\\PCSX2\\pcsx2.exe",
        ]
    );
    let local = emulator_candidates(PsPlatform::Ps1, None, None, Some("C:\\Local".into()), None, None);
    assert_eq!(local.len(), 4);
    assert_eq!(local[0], "C:\\Local\\Programs\\DuckStation\\duckstation-qt-x64-ReleaseLTCG.exe");
}

#[test]
fn emulator_choice_and_arguments() {
    assert!(matches!(choose_emulator(true, &vec![true]), EmulatorChoice::Saved));
    assert!(matches!(choose_emulator(false, &vec![false, true, true]), EmulatorChoice::Found(1)));
    assert!(matches!(choose_emulator(false, &vec![false]), EmulatorChoice::AskUser));
    assert_eq!(launch_args("g.cue"), vec!["-batch", "-fullscreen", "--", "g.cue"]);
    assert_eq!(installed_launch_args("g.iso"), vec!["-batch", "-fullscreen", "g.iso"]);
    let local = Some("C:\\L".to_string());
    assert_eq!(prepare_ps_game_root(&local, 42).unwrap(), "C:\\L\\AnimusPatchLoader\\emulated-games\\game-42");
    assert!(prepare_ps_game_root(&local, 0).is_err());
    assert!(prepare_ps_game_root(&None, 1).is_err());
    assert!(validate_install_root(&Some("C:/L/x".into()), &Some("C:\\L\\x".into())).is_ok());
    assert!(validate_install_root(&Some("C:/L/y".into()), &Some("C:/L/x".into())).is_err());
    assert!(validate_install_root(&None, &Some("C:/L/x".into())).is_err());
    assert_eq!(emulator_config_directory(&local).unwrap(), "C:\\L\\AnimusPatchLoader\\emulators");
    assert_eq!(saved_emulator_path("  D:\\pcsx2.exe\r\n"), "D:\\pcsx2.exe");
}

fn entry(name: &str, canonical: Option<&str>) -> WalkEntry {
    WalkEntry { is_file: true, name: Some(name.into()), canonical: canonical.map(|s| s.to_string()) }
}

#[test]
fn installed_image_by_preference() {
    let entries = vec![
        entry("game.bin", Some("C:/g/game.bin")),
        entry("game.CUE", Some("C:/g/game.CUE")),
        WalkEntry { is_file: false, name: Some("x.cue".into()), canonical: None },
    ];
    assert_eq!(find_installed_ps_game_image(PsPlatform::Ps1, "C:/g", &entries).unwrap(), "C:/g/game.CUE");
    let escaped = vec![entry("a.iso", Some("D:/else/a.iso")), entry("b.chd", Some("C:/g/b.chd"))];
    assert_eq!(find_installed_ps_game_image(PsPlatform::Ps2, "C:/g", &escaped).unwrap(), "C:/g/b.chd");
    assert!(find_installed_ps_game_image(PsPlatform::Ps2, "C:/g", &vec![entry("a.iso", None)]).is_err());
    assert!(find_installed_ps_game_image(PsPlatform::Ps2, "C:/g", &vec![]).is_err());
}

#[test]
fn external_links_must_be_https() {
    assert_eq!(open_external("https://discord.gg/abc").unwrap(), "https://discord.gg/abc");
    assert!(open_external("http://example.com").is_err());
    assert!(open_external("javascript:alert(1)").is_err());
    assert!(open_external("nonsense").is_err());
}

#[test]
fn steam_manifests() {
    let acf = "\"AppState\"\n{\n\t\"appid\"\t\t\"10\"\n\t\"InstallDir\"\t\t\"Demo Game\"\r\n}";
    assert_eq!(quoted_values(acf, "installdir"), vec!["Demo Game"]);
    assert_eq!(steam_game_root("D:\\Lib", acf).unwrap(), "D:\\Lib\\steamapps/common\\Demo Game");
    assert_eq!(steam_game_root("D:\\Lib", "nothing"), None);
    assert_eq!(library_path("D:\\\\SteamLibrary"), "D:\\SteamLibrary");
    assert_eq!(app_manifest_name("10"), "appmanifest_10.acf");
}

#[test]
fn game_root_needs_its_files() {
    let required = vec!["Demo.exe".to_string()];
    let inside = FileProbe {
        ancestor_real: Some("C:/Games/Demo/Demo.exe".into()),
        candidate_real: Some("C:/Games/Demo/Demo.exe".into()),
        is_file: true,
    };
    assert!(validate_root(true, "C:/Games/Demo", &required, &vec![inside]).is_ok());
    let missing = FileProbe { ancestor_real: Some("C:/Games/Demo".into()), candidate_real: None, is_file: false };
    match validate_root(true, "C:/Games/Demo", &required, &vec![missing]) {
        Err(LoaderError::Manifest(m)) => assert_eq!(m, "Zorunlu oyun dosyası eksik: Demo.exe"),
        other => panic!("{:?}", other.map(|_| ())),
    }
    let escaping = FileProbe { ancestor_real: Some("C:/Games/Demo".into()), candidate_real: Some("C:/Windows/x".into()), is_file: true };
    assert!(matches!(validate_root(true, "C:/Games/Demo", &required, &vec![escaping]), Err(LoaderError::UnsafePath(_))));
    assert!(matches!(validate_root(false, "C:/Games/Demo", &vec![], &vec![]), Err(LoaderError::Manifest(_))));
}

#[test]
fn resolution_stays_inside() {
    assert_eq!(resolve_inside("C:/g", "Data/a", Some("C:/g/Data"), None).unwrap(), "Data/a");
    assert!(resolve_inside("C:/g", "Data/a", Some("C:/other"), None).is_err());
    assert!(resolve_inside("C:/g", "Data/a", None, None).is_err());
    assert!(resolve_inside("C:/g", "../a", Some("C:/g"), None).is_err());
}

#[test]
fn log_lines_hide_tokens() {
    assert_eq!(clean_log("auth Bearer abc"), "auth Bearer [REDACTED] abc");
    let long = "x".repeat(1500);
    assert_eq!(clean_log(&long).chars().count(), 1200);
    assert_eq!(normalize_level("warning"), "warning");
    assert_eq!(normalize_level("trace"), "info");
    let line = event("t", "info", "c", "Bearer q");
    assert_eq!(line.message, "Bearer [REDACTED] q");
}

fn install() -> Installation {
    Installation {
        schema_version: 1,
        game_id: 4,
        game_name: "Demo".into(),
        patch_id: 2,
        patch_version: "1.0".into(),
        game_root: "C:/g".into(),
        backup_id: "abc-123".into(),
        created_at: "2026-01-01".into(),
        active: true,
        changes: vec![ChangeRecord {
            kind: ChangeKind::CreatedFile,
            path: "a".into(),
            secondary_path: None,
            backup_path: None,
            original_sha256: None,
            installed_sha256: Some("h".into()),
        }],
    }
}

#[test]
fn backup_ids_and_places() {
    assert!(valid_backup_id("abc-123"));
    assert!(!valid_backup_id(""));
    assert!(!valid_backup_id("../x"));
    assert_eq!(raw_backup_root("C:\\Data", "abc").unwrap(), "C:\\Data\\backups\\abc");
    assert_eq!(recovery_backup_root("C:\\Data", "abc").unwrap(), "C:\\Data\\recovery\\backups\\abc");
    assert!(matches!(raw_backup_root("C:\\Data", "a/b"), Err(LoaderError::UnsafePath(p)) if p == "a/b"));
    assert_eq!(installation_path("C:\\Data", 17), "C:\\Data\\installations\\17.json");
}

#[test]
fn backup_decisions() {
    assert_eq!(backup_root("abc", true, true).unwrap(), BackupSource::Primary);
    assert_eq!(backup_root("abc", false, true).unwrap(), BackupSource::Recovery);
    assert_eq!(backup_root("abc", false, false).unwrap(), BackupSource::Unreferenced);
    assert!(backup_root("a b", true, true).is_err());
    assert!(require_unreferenced(true).is_err());
    match restore_tree_entry("rec/files/x", true, false, true) {
        Err(LoaderError::UnsafePath(p)) => assert_eq!(p, "rec/files/x"),
        other => panic!("{:?}", other.map(|_| ())),
    }
    assert_eq!(restore_tree_entry("d", false, true, false).unwrap(), TreeStep::Descend);
    assert_eq!(restore_tree_entry("f", false, false, true).unwrap(), TreeStep::Copy);
    assert_eq!(restore_tree_entry("o", false, false, false).unwrap(), TreeStep::Skip);
    assert!(require_recovery_tree("rec", true).is_ok());
    match require_recovery_tree("rec", false) {
        Err(LoaderError::Conflict(m)) => assert_eq!(m, "Kurtarma yedeği bulunamadı: rec"),
        other => panic!("{:?}", other.map(|_| ())),
    }
    assert!(installation_references_backup(&vec!["x".into(), "abc".into()], "abc"));
    assert!(!installation_references_backup(&vec!["x".into()], "abc"));
    match clean("abc", true, None) {
        Err(LoaderError::Conflict(m)) => assert_eq!(m, "Aktif kurulumun zorunlu backup/kurtarma kopyası silinemez"),
        other => panic!("{:?}", other.map(|_| ())),
    }
    assert!(matches!(clean("abc", false, Some(true)), Err(LoaderError::Conflict(_))));
    assert!(clean("abc", false, Some(false)).is_ok());
    assert!(matches!(clean("../abc", false, None), Err(LoaderError::UnsafePath(_))));
}

#[test]
fn closing_and_listing_installations() {
    let i = install();
    let closed = close_installation(&i, true).unwrap();
    assert!(!closed.active);
    assert_eq!(closed.changes.len(), 1);
    assert!(close_installation(&i, false).is_none());
    assert!(find_installation(false, Ok(install())).is_none());
    assert!(find_installation(true, Err(LoaderError::Json("bad".into()))).is_none());
    assert_eq!(find_installation(true, Ok(install())).unwrap().game_id, 4);
    let s = summarize(&i, true, false);
    assert_eq!(s.change_count, 1);
    assert_eq!(s.backup_id, "abc-123");
}

#[test]
fn prune_keeps_active_backups() {
    let t = prune_targets(&vec!["a".into()], &vec!["a".into(), "b".into(), "".into()]);
    assert_eq!(t, vec![false, true, true]);
    let r = prune(&vec![(true, 10), (false, 99), (true, 5)], 7);
    assert_eq!(r.removed_backups, 2);
    assert_eq!(r.freed_bytes, 15);
    assert_eq!(r.cache_bytes, 7);
}

#[test]
fn recovery_mirror_paths() {
    assert_eq!(
        recovery_path_for_backup("C:\\D\\backups", "C:\\D\\recovery\\backups", "C:\\D\\backups\\id\\files\\x").unwrap(),
        "C:\\D\\recovery\\backups\\id\\files\\x"
    );
    assert_eq!(recovery_path_for_backup("C:\\D\\backups", "C:\\R", "C:\\D\\backups"), None);
    assert_eq!(recovery_path_for_backup("C:\\D\\backups", "C:\\R", "C:\\Games\\x"), None);
    assert_eq!(recovery_path_for_backup("C:\\D\\backups", "C:\\R", "C:\\D\\backups\\..\\x"), None);
    assert_eq!(recovery_path_for_backup("/d/backups", "/r", "/d/backups/./id/f").unwrap(), "/r\\id\\f");
}

#[test]
fn copy_falls_back_to_recovery() {
    let p = copy_file("src", true, None, false, None).unwrap();
    assert_eq!(p.from, "src");
    assert_eq!(p.mirror, None);
    let p = copy_file("src", false, Some("rec".into()), true, Some("mirror".into())).unwrap();
    assert_eq!(p.from, "rec");
    assert_eq!(p.mirror.as_deref(), Some("mirror"));
    match copy_file("src", false, Some("rec".into()), false, None) {
        Err(LoaderError::Conflict(m)) => {
            assert_eq!(m, "Geri yükleme yedeği bulunamadı: src. Kurtarma kopyası da mevcut değil.")
        }
        other => panic!("{:?}", other.map(|p| p.from)),
    }
    match copy_file("src", false, None, false, None) {
        Err(LoaderError::Other(m)) => assert_eq!(m, "Kaynak dosya bulunamadı: src"),
        other => panic!("{:?}", other.map(|p| p.from)),
    }
    let same = copy_file("src", false, Some("C:/r/x".into()), true, Some("C:\\r\\x".into())).unwrap();
    assert_eq!(same.mirror, None);
}

#[test]
fn zip_entries_stay_inside() {
    assert!(check_count(100_000).is_ok());
    assert!(check_count(100_001).is_err());
    let (p, t) = check_entry("dir\\file.txt", None, 10, 5).unwrap();
    assert_eq!(p, "dir/file.txt");
    assert_eq!(t, 15);
    assert_eq!(check_entry("dir/", Some(0o040755), 0, 0).unwrap().0, "dir");
    assert!(matches!(check_entry("../outside.txt", None, 1, 0), Err(LoaderError::UnsafePath(_))));
    assert!(matches!(check_entry("link", Some(0o120777), 1, 0), Err(LoaderError::UnsafePath(_))));
    assert!(matches!(check_entry("big", None, 1, 20 * 1024 * 1024 * 1024), Err(LoaderError::Manifest(_))));
    assert!(matches!(check_entry("huge", None, u64::MAX, 1), Err(LoaderError::Manifest(_))));
}

#[test]
fn short_tokens_never_reach_the_store() {
    assert!(matches!(save("short"), Err(LoaderError::Other(_))));
    assert!(matches!(save(&"x".repeat(513)), Err(LoaderError::Other(_))));
}

#[test]
fn sha256_hex_of_known_input() {
    assert_eq!(digest(b"abc"), "ba7816bf8f01cfea414140de5dae2223b00361a396177a9cb410ff61f20015ad");
}

fn info(id: &str, created: &str) -> animus_patch_loader::models::BackupInfo {
    animus_patch_loader::models::BackupInfo {
        id: id.into(),
        game_name: "g".into(),
        version: "1".into(),
        created_at: created.into(),
        size_bytes: 0,
        active: false,
    }
}

#[test]
fn backups_are_listed_newest_first() {
    let found = vec![
        info("a", "2026-01-02"),
        info("b", "2026-03-01"),
        info("c", "2026-01-02"),
        info("d", "2025-12-31"),
    ];
    let ids: Vec<String> = list(&found).into_iter().map(|b| b.id).collect();
    assert_eq!(ids, vec!["b", "a", "c", "d"]);
    assert!(list(&vec![]).is_empty());
    let i = install();
    let mut newer = summarize(&i, true, true);
    newer.created_at = "2027".into();
    let older = summarize(&i, true, true);
    let l = list_installations(&vec![older, newer]);
    assert_eq!(l[0].created_at, "2027");
}

#[test]
fn order_of_time_stamps() {
    assert!(text_less("2026-01-01", "2026-01-02"));
    assert!(text_less("abc", "abcd"));
    assert!(!text_less("b", "abc"));
    assert!(!text_less("x", "x"));
    let keys = vec!["1".to_string(), "3".to_string(), "2".to_string(), "3".to_string()];
    assert_eq!(newest_first(&keys), vec![1, 3, 2, 0]);
}

#[test]
fn storage_places_and_sizes() {
    assert_eq!(data_root(&Some("C:\\Users\\u\\AppData\\Local".into())).unwrap(), "C:\\Users\\u\\AppData\\Local\\AnimusPatchLoader");
    assert!(matches!(data_root(&None), Err(LoaderError::Other(_))));
    assert_eq!(installations_dir("C:\\D"), "C:\\D\\installations");
    assert_eq!(directory_size(&vec![1, 2, 3]), 6);
    assert_eq!(directory_size(&vec![u64::MAX, 1]), u64::MAX);
    assert_eq!(clear_cache(&vec![(true, u64::MAX), (true, 2)]), u64::MAX);
    assert_eq!(prune(&vec![(true, u64::MAX - 1), (false, 9), (true, 5)], 0).freed_bytes, u64::MAX);
    assert_eq!(clear_cache(&vec![(true, 4), (false, 5)]), 4);
}

#[test]
fn token_reads_answer_what_the_store_gave() {
    assert_eq!(token_outcome(Some(StoredToken::Found("abc".into()))).unwrap(), Some("abc".to_string()));
    assert_eq!(token_outcome(Some(StoredToken::Missing)).unwrap(), None);
    match token_outcome(Some(StoredToken::Unreadable)) {
        Err(LoaderError::Other(m)) => assert_eq!(m, "Access token güvenli depodan okunamadı."),
        other => panic!("{:?}", other),
    }
    match token_outcome(None) {
        Err(LoaderError::Other(m)) => assert_eq!(m, "Windows Credential Manager açılamadı."),
        other => panic!("{:?}", other),
    }
}
