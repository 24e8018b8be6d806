use animus_patch_loader::hashing::{digest, Sha256State};
use animus_patch_loader::patch::archive_order::{
    append_start, fat_dat_restore_step, fat_dat_step, restore_start, ArchiveStep, RestoreEvent,
    RestoreStep, StepOutcome,
};
use animus_patch_loader::models::{Action, ActionOption, ActionType, OptionValue};
use animus_patch_loader::patch::fat_dat::{
    check_base_fat, check_payload, disk_bytes, make_undo, need, options, parse, patched_record,
    plan_append, put, restore_check, zero_bytes, MAX_PAYLOAD,
    restore_suffix_check, restore_verified, u32_at, verify, Undo,
};
use animus_patch_loader::download::cache_path;
use animus_patch_loader::packer::signing_key_directory;
use animus_patch_loader::storage::same_path;

fn fed(bytes: &[u8]) -> Sha256State {
    let mut h = Sha256State::new();
    h.update(bytes);
    h
}

fn fixture() -> (Vec<u8>, Vec<u8>, Vec<u8>) {
    let dat: Vec<u8> = (0..73).collect();
    let payload = "ÇEVİRMENLER:\nINTELPOL — ANİMUS ÇEVİRİ".as_bytes().to_vec();
    let mut fat = vec![0u8; 72];
    put(&mut fat, 0, 0x46415432);
    put(&mut fat, 4, 10);
    put(&mut fat, 20, 2);
    fat[24..32].copy_from_slice(&123u64.to_le_bytes());
    put(&mut fat, 32, 16 << 2);
    put(&mut fat, 36, 0);
    put(&mut fat, 40, 16);
    fat[44..52].copy_from_slice(&456u64.to_le_bytes());
    put(&mut fat, 52, 12 << 2 | 1);
    put(&mut fat, 56, 2);
    put(&mut fat, 60, 8);
    (dat, fat, payload)
}

fn text(key: &str, value: &str) -> ActionOption {
    ActionOption { key: key.into(), value: OptionValue::Text(value.into()) }
}

fn action(dat: &[u8], fat: &[u8], payload: &[u8]) -> Action {
    Action {
        id: "3f1c2a4e-8b7d-4c6a-9e21-5d4f3b2a1c0e".into(),
        kind: ActionType::AppendFatDat,
        source: Some("ceviri.bin".into()),
        destination: "patch.dat".into(),
        backup: true,
        expected_sha256: None,
        options: vec![
            text("fat_path", "patch.fat"),
            text("fat_entry_hash", "000000000000007B"),
            text("base_dat_sha256", &digest(dat)),
            text("base_fat_sha256", &digest(fat)),
            text("payload_sha256", &digest(payload)),
            ActionOption { key: "alignment".into(), value: OptionValue::Unsigned(8) },
            text("compression", "none"),
        ],
    }
}

#[test]
fn append_points_the_record_at_the_payload() {
    let (dat, fat, payload) = fixture();
    let a = action(&dat, &fat, &payload);
    let o = options(&a).unwrap();
    let plan = plan_append(&o, &payload, &fat, dat.len() as u64, fed(&dat)).unwrap();
    assert_eq!(plan.offset, 80);
    assert_eq!(plan.pad_len, 7);
    assert_eq!(plan.record, 24);
    let f = &plan.updated_fat;
    assert_eq!(u32_at(f, 36) as u64 * 8 + (u32_at(f, 40) >> 29) as u64, 80);
    assert_eq!((u32_at(f, 32) >> 2) as usize, payload.len());
    assert_eq!(&f[..32], &fat[..32]);
    assert_eq!(&f[44..], &fat[44..]);
}

#[test]
fn wrong_base_dat_is_refused() {
    let (dat, fat, payload) = fixture();
    let a = action(&dat, &fat, &payload);
    let o = options(&a).unwrap();
    assert!(plan_append(&o, &payload, &fat, dat.len() as u64, fed(b"other dat")).is_err());
}

#[test]
fn unknown_record_is_refused() {
    let (dat, fat, payload) = fixture();
    let mut a = action(&dat, &fat, &payload);
    a.options[1] = text("fat_entry_hash", "00000000000001C9");
    let o = options(&a).unwrap();
    assert!(plan_append(&o, &payload, &fat, dat.len() as u64, fed(&dat)).is_err());
}

#[test]
fn need_carries_its_message() {
    assert!(need(true, "m").is_ok());
    match need(false, "m") {
        Err(animus_patch_loader::error::LoaderError::Integrity(t)) => assert_eq!(t, "m"),
        other => panic!("{:?}", other),
    }
}

#[test]
fn distinct_hashes_distinct_cache_files() {
    let a = cache_path(&"ab".repeat(32)).unwrap();
    let b = cache_path(&"AB".repeat(32)).unwrap();
    let c = cache_path(&"ac".repeat(32)).unwrap();
    assert_eq!(a, b);
    assert_ne!(a, c);
}

#[test]
fn key_folder_and_path_equality() {
    assert_eq!(signing_key_directory(&Some("C:\\L".into())).unwrap(), "C:\\L\\AnimusPatchLoader\\packer-keys");
    assert!(signing_key_directory(&None).is_none());
    assert!(same_path("C:/a/./b", "C:\\a\\b"));
    assert!(!same_path("C:/a/b", "C:/a/c"));
}

fn set_text(a: &mut Action, key: &str, value: &str) {
    for o in a.options.iter_mut() {
        if o.key == key {
            o.value = OptionValue::Text(value.into());
        }
    }
}

/// The checks an append makes before it writes anything.
fn checks(a: &Action, dat: &[u8], fat: &[u8], payload: &[u8]) -> bool {
    let Ok(o) = options(a) else { return false };
    check_payload(&o, payload).is_ok()
        && check_base_fat(&o, fat).is_ok()
        && plan_append(&o, payload, fat, dat.len() as u64, fed(dat)).is_ok()
}

#[test]
fn wrong_base_or_payload_never_changes_game() {
    for key in ["base_dat_sha256", "base_fat_sha256", "payload_sha256"] {
        let (dat, fat, payload) = fixture();
        let mut a = action(&dat, &fat, &payload);
        set_text(&mut a, key, &"0".repeat(64));
        assert!(!checks(&a, &dat, &fat, &payload));
    }
    let (dat, fat, payload) = fixture();
    assert!(checks(&action(&dat, &fat, &payload), &dat, &fat, &payload));
}

#[test]
fn malformed_fat_rejected() {
    for mode in 0..4 {
        let (dat, mut fat, payload) = fixture();
        match mode {
            0 => put(&mut fat, 20, 1),
            1 => put(&mut fat, 36, 100),
            2 => fat[44..52].copy_from_slice(&123u64.to_le_bytes()),
            _ => put(&mut fat, 4, 11),
        }
        let a = action(&dat, &fat, &payload);
        assert!(!checks(&a, &dat, &fat, &payload));
    }
}

/// A completed append: its undo record, the grown DAT and the updated FAT.
fn installed() -> (Undo, Vec<u8>, Vec<u8>, Vec<u8>, Vec<u8>) {
    let (dat, fat, payload) = fixture();
    let a = action(&dat, &fat, &payload);
    let o = options(&a).unwrap();
    let plan = plan_append(&o, &payload, &fat, dat.len() as u64, fed(&dat)).unwrap();
    let mut grown = dat.clone();
    grown.extend(std::iter::repeat(0u8).take(plan.pad_len as usize));
    grown.extend_from_slice(&payload);
    assert_eq!(plan.final_dat_hash, digest(&grown));
    let u = make_undo(&a, &o, &plan, dat.len() as u64, None);
    assert_eq!(u.final_dat_hash, digest(&grown));
    let record = patched_record(&a, &o, &plan);
    assert_eq!(record.installed_sha256, Some(digest(&grown)));
    (u, grown, plan.updated_fat, fat, payload)
}

#[test]
fn install_extract_verify_and_restore() {
    let (u, grown, updated, fat, payload) = installed();
    assert_eq!(&grown[..73], &fixture().0[..]);
    assert_eq!(&grown[73..80], &[0u8; 7]);
    let offset = u32_at(&updated, 36) as usize * 8 + (u32_at(&updated, 40) >> 29) as usize;
    let size = (u32_at(&updated, 32) >> 2) as usize;
    assert_eq!(&grown[offset..offset + size], &payload[..]);
    assert!(verify(&u, fed(&grown), fed(&updated)));
    assert!(matches!(restore_check(&u, &fat, &payload, fed(&updated), grown.len() as u64), Ok(true)));
    assert!(restore_suffix_check(&u, &payload, fed(&grown[..73]), &grown[73..]).is_ok());
    assert!(restore_verified(&u, fed(&fat), fed(&grown[..73])).is_ok());
}

#[test]
fn interrupted_appends_and_fat_swap_are_recoverable() {
    for length in [73usize, 76, 80, 85] {
        let (u, grown, _, fat, payload) = installed();
        assert!(matches!(restore_check(&u, &fat, &payload, fed(&fat), length as u64), Ok(false)));
        assert!(restore_suffix_check(&u, &payload, fed(&grown[..73]), &grown[73..length]).is_ok());
    }
}

#[test]
fn modified_game_or_corrupt_backup_is_preserved() {
    let (u, grown, updated, fat, payload) = installed();
    let mut changed = grown.clone();
    changed[0] = b'X';
    assert!(restore_suffix_check(&u, &payload, fed(&changed[..73]), &changed[73..]).is_err());
    assert!(restore_check(&u, &fat, &payload, fed(&updated), grown.len() as u64 + 4).is_err());
    assert!(restore_check(&u, &fat, &payload, fed(b"USER FAT"), grown.len() as u64).is_err());
    assert!(restore_check(&u, b"BAD BACKUP", &payload, fed(&updated), grown.len() as u64).is_err());
}

#[test]
fn restore_round_trip_gives_back_the_original_dat() {
    let (u, grown, _, fat, payload) = installed();
    let original = &grown[..u.original_len as usize];
    assert_eq!(original, &fixture().0[..]);
    assert!(restore_suffix_check(&u, &payload, fed(original), &grown[73..]).is_ok());
    // A second undo finds the original DAT with no tail and accepts it.
    assert!(matches!(restore_check(&u, &fat, &payload, fed(&fat), original.len() as u64), Ok(false)));
    assert!(restore_suffix_check(&u, &payload, fed(original), &[]).is_ok());
    assert!(restore_verified(&u, fed(&fat), fed(original)).is_ok());
}

#[test]
fn plan_checks_record_id_and_payload_size() {
    let (dat, fat, payload) = fixture();
    let a = action(&dat, &fat, &payload);
    let mut o = options(&a).unwrap();
    o.fat_entry_hash = "xyz".into();
    assert_eq!(
        integrity_message(plan_append(&o, &payload, &fat, dat.len() as u64, fed(&dat))),
        "FAT/DAT SHA-256 veya kayıt kimliği geçersiz"
    );
    let o = options(&a).unwrap();
    let big = vec![0u8; MAX_PAYLOAD as usize + 1];
    assert_eq!(
        integrity_message(plan_append(&o, &big, &fat, dat.len() as u64, fed(&dat))),
        "FAT/DAT dosya boyutu sınırı aşıldı"
    );
    assert_eq!(zero_bytes(3), vec![0u8; 3]);
    assert_eq!(disk_bytes(10), MAX_PAYLOAD * 2 + 30 + 1048576);
    assert_eq!(disk_bytes(u64::MAX / 2), u64::MAX);
}

#[test]
fn append_writes_the_game_only_after_the_records() {
    let (mut s, first) = append_start();
    assert_eq!(first, ArchiveStep::SaveUndo);
    let mut steps = vec![first];
    loop {
        let (n, step) = fat_dat_step(s, StepOutcome::Succeeded);
        s = n;
        steps.push(step);
        if step == ArchiveStep::Done {
            break;
        }
    }
    assert_eq!(
        steps,
        vec![
            ArchiveStep::SaveUndo,
            ArchiveStep::WriteJournal,
            ArchiveStep::WriteMetadata,
            ArchiveStep::WriteRegistration,
            ArchiveStep::AppendDat,
            ArchiveStep::CheckDat,
            ArchiveStep::CheckFat,
            ArchiveStep::ReplaceFat,
            ArchiveStep::CheckFinalFat,
            ArchiveStep::Done,
        ]
    );
    // The registration cannot be written: the append aborts with the game untouched.
    let (mut s, _) = append_start();
    for _ in 0..3 {
        s = fat_dat_step(s, StepOutcome::Succeeded).0;
    }
    let (s, end) = fat_dat_step(s, StepOutcome::Failed);
    assert_eq!(end, ArchiveStep::Abort);
    assert!(!s.game_touched);
    // A failed DAT check after the append is a failure for the rollback.
    let (mut s, _) = append_start();
    for _ in 0..5 {
        s = fat_dat_step(s, StepOutcome::Succeeded).0;
    }
    assert_eq!(fat_dat_step(s, StepOutcome::Failed).1, ArchiveStep::Fail);
}

#[test]
fn restore_puts_the_fat_back_before_cutting_the_dat() {
    let (s, first) = restore_start();
    assert_eq!(first, RestoreStep::Check);
    let (s, step) = fat_dat_restore_step(s, RestoreEvent::Checked { fat_back: true });
    assert_eq!(step, RestoreStep::RestoreFat);
    let (s, step) = fat_dat_restore_step(s, RestoreEvent::Succeeded);
    assert_eq!(step, RestoreStep::TruncateDat);
    let (s, step) = fat_dat_restore_step(s, RestoreEvent::Succeeded);
    assert_eq!(step, RestoreStep::Verify);
    assert_eq!(fat_dat_restore_step(s, RestoreEvent::Succeeded).1, RestoreStep::Done);
    let (s, _) = restore_start();
    assert_eq!(fat_dat_restore_step(s, RestoreEvent::Checked { fat_back: false }).1, RestoreStep::TruncateDat);
    let (s, _) = restore_start();
    let (s, step) = fat_dat_restore_step(s, RestoreEvent::Failed);
    assert_eq!(step, RestoreStep::Abort);
    assert!(!s.game_touched);
}

#[test]
fn fat_only_tampering_fails_verification() {
    let (u, grown, _, fat, _) = installed();
    assert!(!verify(&u, fed(&grown), fed(&fat)));
}

fn integrity_message<T>(r: Result<T, animus_patch_loader::error::LoaderError>) -> String {
    match r {
        Err(animus_patch_loader::error::LoaderError::Integrity(m)) => m,
        Err(other) => panic!("{:?}", other),
        Ok(_) => panic!("accepted"),
    }
}

#[test]
fn table_refusals_name_the_first_problem() {
    let expected = [
        "Tam FAT arşivi gerekli; mini FAT kabul edilmez",
        "FAT/DAT kayıt sınırı hatası",
        "FAT hedef kaydı birden fazla",
        "FAT2 v10 gerekli",
    ];
    for mode in 0..4 {
        let (dat, mut fat, _) = fixture();
        match mode {
            0 => put(&mut fat, 20, 1),
            1 => put(&mut fat, 36, 100),
            2 => fat[44..52].copy_from_slice(&123u64.to_le_bytes()),
            _ => put(&mut fat, 4, 11),
        }
        assert_eq!(integrity_message(parse(&fat, dat.len() as u64, 123)), expected[mode]);
    }
    let (dat, fat, _) = fixture();
    assert_eq!(parse(&fat, dat.len() as u64, 123).unwrap(), 24);
    assert_eq!(integrity_message(parse(&fat, dat.len() as u64, 999)), "FAT hedef kaydı bulunamadı");
}

#[test]
fn restore_refusals_say_why() {
    let (u, grown, updated, fat, payload) = installed();
    assert_eq!(
        integrity_message(restore_check(&u, b"BAD BACKUP", &payload, fed(&updated), grown.len() as u64)),
        "FAT/DAT yedeği bozuk"
    );
    assert_eq!(
        integrity_message(restore_check(&u, &fat, &payload, fed(b"USER FAT"), grown.len() as u64)),
        "FAT sonradan değişmiş; geri alma durduruldu"
    );
    assert_eq!(
        integrity_message(restore_check(&u, &fat, &payload, fed(&updated), grown.len() as u64 + 4)),
        "DAT uzunluğu sonradan değişmiş"
    );
    let mut changed = grown.clone();
    changed[0] = b'X';
    assert_eq!(
        integrity_message(restore_suffix_check(&u, &payload, fed(&changed[..73]), &changed[73..])),
        "Orijinal DAT bölgesi değişmiş; geri alma durduruldu"
    );
    let mut tail = grown.clone();
    tail[78] = 1;
    assert_eq!(
        integrity_message(restore_suffix_check(&u, &payload, fed(&tail[..73]), &tail[73..])),
        "DAT sonuna farklı veri eklenmiş; geri alma durduruldu"
    );
}
