use animus_patch_loader::credential::{
    clear_outcome, save_outcome, store_request, token_entry_names,
};
use animus_patch_loader::emulator::{find_installed_ps_game_image, PsPlatform, WalkEntry};
use animus_patch_loader::error::LoaderError;
use animus_patch_loader::game_detection::choose_steam_root;
use animus_patch_loader::patch::install::{
    install_start, install_step, InstallEvent, InstallPhase, InstallState, InstallStep,
};

/// Runs the install order with the given outcomes and returns its steps.
fn steps(mut s: InstallState, outcomes: &[bool]) -> Vec<InstallStep> {
    let mut out = vec![];
    let mut e = InstallEvent::Succeeded;
    for ok in outcomes.iter().copied().chain(std::iter::repeat(true)).take(40) {
        let (next, step) = install_step(s, e);
        s = next;
        out.push(step);
        if step == InstallStep::Done || step == InstallStep::Fail {
            break;
        }
        e = if ok { InstallEvent::Succeeded } else { InstallEvent::Failed };
    }
    out
}

#[test]
fn update_undoes_the_previous_patch_first() {
    let s = install_start(2, true, true);
    assert_eq!(s.phase, InstallPhase::Start);
    assert_eq!(
        steps(s, &[]),
        vec![
            InstallStep::RestorePrevious,
            InstallStep::Apply(0),
            InstallStep::WriteJournal,
            InstallStep::Apply(1),
            InstallStep::WriteJournal,
            InstallStep::Verify,
            InstallStep::WriteRecords,
            InstallStep::Done,
        ]
    );
}

#[test]
fn fresh_install_without_verification() {
    assert_eq!(
        steps(install_start(1, false, false), &[]),
        vec![InstallStep::Apply(0), InstallStep::WriteJournal, InstallStep::WriteRecords, InstallStep::Done]
    );
}

#[test]
fn failed_action_rolls_back_then_stops() {
    // outcomes: Apply(0) ok, journal ok, Apply(1) fails
    assert_eq!(
        steps(install_start(3, false, false), &[true, true, false]),
        vec![
            InstallStep::Apply(0),
            InstallStep::WriteJournal,
            InstallStep::Apply(1),
            InstallStep::RollBack,
            InstallStep::Fail,
        ]
    );
    // a failed verification rolls back too
    assert_eq!(
        steps(install_start(1, false, true), &[true, true, false]),
        vec![
            InstallStep::Apply(0),
            InstallStep::WriteJournal,
            InstallStep::Verify,
            InstallStep::RollBack,
            InstallStep::Fail,
        ]
    );
    // a failed undo of the previous patch stops before any action
    assert_eq!(steps(install_start(2, true, false), &[false]), vec![InstallStep::RestorePrevious, InstallStep::Fail]);
}

#[test]
fn token_store_is_asked_the_right_things() {
    assert_eq!(token_entry_names(), ("com.animus.patchloader", "api-access-token"));
    let token = "t".repeat(40);
    assert_eq!(store_request(&token), Some(token.clone()));
    assert_eq!(store_request("short"), None);
    assert_eq!(store_request(&"x".repeat(513)), None);
    assert!(save_outcome(true, true).is_ok());
    match save_outcome(true, false) {
        Err(LoaderError::Other(m)) => assert_eq!(m, "Access token güvenli depoya kaydedilemedi."),
        other => panic!("{:?}", other),
    }
    match save_outcome(false, false) {
        Err(LoaderError::Other(m)) => assert_eq!(m, "Windows Credential Manager açılamadı."),
        other => panic!("{:?}", other),
    }
    assert!(clear_outcome(true).is_ok());
    assert!(clear_outcome(false).is_err());
}

#[test]
fn first_valid_steam_library_wins() {
    assert_eq!(choose_steam_root(&vec![false, true, true]), Some(1));
    assert_eq!(choose_steam_root(&vec![false, false]), None);
}

#[test]
fn missing_image_names_the_formats_searched() {
    let entries = vec![WalkEntry { is_file: true, name: Some("readme.txt".into()), canonical: Some("C:/g/readme.txt".into()) }];
    match find_installed_ps_game_image(PsPlatform::Ps2, "C:/g", &entries) {
        Err(LoaderError::Other(m)) => {
            assert_eq!(m, "Kurulan paketin içinde PS2 oyun dosyası bulunamadı. ISO/CHD/CSO/CUE/BIN aranmıştır.")
        }
        other => panic!("{:?}", other),
    }
}
