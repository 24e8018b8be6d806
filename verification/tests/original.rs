use animus_patch_loader::error::LoaderError;
use animus_patch_loader::game_detection::quoted_values;
use animus_patch_loader::models::{
    Action, ActionOption, ActionType, Archive, BackupRule, Detection, Game, Integrity, Manifest,
    OptionValue, Patch,
};
use animus_patch_loader::patch::engine::{ensure_loader_version, validate_manifest, version_at_least};
use animus_patch_loader::patch::fat_dat::options;
use animus_patch_loader::security::path::validate_relative;

fn manifest() -> Manifest {
    Manifest {
        schema_version: 1,
        game: Game { id: 1, slug: "demo".into(), name: "Demo".into() },
        detection: Detection {
            steam_app_id: None,
            epic_catalog_id: None,
            executable: "Demo.exe".into(),
            process_name: None,
            required_files: vec!["Demo.exe".into()],
            optional_files: vec![],
        },
        patch: Patch {
            id: 1,
            version: "1.0.0".into(),
            game_version: None,
            minimum_loader_version: "0.1.0".into(),
            mandatory: false,
            channel: "stable".into(),
        },
        archive: Archive {
            download_token_url: "https://example.com".into(),
            sha256: "0".repeat(64),
            size: 1,
        },
        install_actions: vec![Action {
            id: uuid::Uuid::new_v4().to_string(),
            kind: ActionType::CopyFile,
            source: Some("files/a".into()),
            destination: "Data/a".into(),
            backup: true,
            expected_sha256: None,
            options: vec![],
        }],
        integrity: Integrity { verify_after_install: true, conflict_policy: "abort".into() },
        backup: BackupRule { automatic: true, retain_until_uninstall: true },
    }
}

#[test]
fn parses_vdf() {
    let v = "\"path\" \"D:\\\\SteamLibrary\"\n\"installdir\" \"Demo\"";
    assert_eq!(quoted_values(v, "path")[0], "D:\\\\SteamLibrary");
}

#[test]
fn version_gate_blocks_old_loader() {
    let mut m = manifest();
    m.patch.minimum_loader_version = "1.2.0".into();
    assert!(ensure_loader_version(&m, "1.1.9").is_err());
    assert!(ensure_loader_version(&m, "1.2.0").is_ok());
    assert!(ensure_loader_version(&m, "1.2.1").is_ok());
    assert!(ensure_loader_version(&m, "2.0.0").is_ok());
}

#[test]
fn version_compare_handles_shapes() {
    assert!(version_at_least("1.0.0", "1.0"));
    assert!(version_at_least("0.2.0-beta.1", "0.2.0"));
    assert!(!version_at_least("0.9.9", "1.0.0"));
    assert!(version_at_least("10.0.0", "9.9.9"));
}

#[test]
fn valid_manifest() {
    assert!(validate_manifest(&manifest()).is_ok())
}

#[test]
fn unknown_schema_fails() {
    let mut m = manifest();
    m.schema_version = 9;
    assert!(validate_manifest(&m).is_err())
}

#[test]
fn rejects_escape() {
    assert!(validate_relative("../Windows").is_err());
    assert!(validate_relative("C:\\Windows").is_err());
    assert!(validate_relative("\\\\server\\share").is_err());
}

#[test]
fn accepts_nested() {
    assert!(validate_relative("Content/Paks/file.pak").is_ok());
}

fn text(key: &str, value: &str) -> ActionOption {
    ActionOption { key: key.into(), value: OptionValue::Text(value.into()) }
}

fn fat_action() -> Action {
    Action {
        id: uuid::Uuid::new_v4().to_string(),
        kind: ActionType::AppendFatDat,
        source: Some("ceviri.bin".into()),
        destination: "patch.dat".into(),
        backup: true,
        expected_sha256: None,
        options: vec![
            text("fat_path", "patch.fat"),
            text("fat_entry_hash", "000000000000007B"),
            text("base_dat_sha256", &"a".repeat(64)),
            text("base_fat_sha256", &"b".repeat(64)),
            text("payload_sha256", &"c".repeat(64)),
            ActionOption { key: "alignment".into(), value: OptionValue::Unsigned(8) },
            text("compression", "none"),
        ],
    }
}

#[test]
fn paths_and_options_fail_closed() {
    assert!(options(&fat_action()).is_ok());
    for path in ["../patch.fat", "C:/patch.fat", "/patch.fat", "x/../patch.fat", "x\\patch.fat", "x./patch.fat"] {
        let mut a = fat_action();
        a.options[0] = text("fat_path", path);
        assert!(options(&a).is_err());
    }
    let mut a = fat_action();
    a.options.push(text("execute", "evil.exe"));
    assert!(matches!(options(&a), Err(LoaderError::Json(_))));
}
