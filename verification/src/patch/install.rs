//! The order of an install as a state machine: undo the installed patch
//! first, apply each action and write the journal after it, verify where
//! the manifest asks, write the records last, and answer any failure after
//! the first change with a rollback. The caller carries out each step and
//! reports whether it succeeded.
use crate::models::{ChangeRecord, Installation, Manifest};
use crate::patch::journal::{journaled, law_rollback_restores_files, undo_plan, undone_all, RollbackStep};
use vstd::prelude::*;

verus! {

/// Where an install stands.
#[derive(Clone, Copy, Debug, PartialEq, Eq, Structural)]
pub enum InstallPhase {
    /// Archive fetched and unpacked; nothing in the game changed yet.
    Start,
    /// Undoing the patch installed before.
    RestoringPrevious,
    /// Carrying out action `index`.
    Applying,
    /// Writing the journal after action `index`.
    Journaling,
    /// Verifying the installed files.
    Verifying,
    /// Writing the backup metadata and the installation record.
    WritingRecords,
    /// Undoing what this install changed.
    RollingBack,
    /// Installed.
    Finished,
    /// Stopped with an error.
    Failed,
}

/// What the step just carried out came to.
#[derive(Clone, Copy, Debug, PartialEq, Eq, Structural)]
pub enum InstallEvent {
    Succeeded,
    Failed,
}

/// The next step to carry out.
#[derive(Clone, Copy, Debug, PartialEq, Eq, Structural)]
pub enum InstallStep {
    /// Undo the installed patch of this game.
    RestorePrevious,
    /// Carry out action `i` and check its result.
    Apply(usize),
    /// Write the journal of what was done so far.
    WriteJournal,
    /// Undo this install's journal.
    RollBack,
    /// Verify the installed files against the journal.
    Verify,
    /// Write the backup metadata and the installation record.
    WriteRecords,
    /// The install is complete.
    Done,
    /// The install stops with its error.
    Fail,
}

/// The state of an install of `total` actions: the current action, how
/// many actions have their journal written, whether a previous patch had to
/// be and was undone, and whether verification was asked for and passed.
#[derive(Clone, Copy, Debug, PartialEq, Eq, Structural)]
pub struct InstallState {
    pub phase: InstallPhase,
    pub index: usize,
    pub total: usize,
    pub journaled: usize,
    pub has_previous: bool,
    pub restored: bool,
    pub verify: bool,
    pub verified: bool,
}

/// `s` with the fields that move replaced.
pub open spec fn moved(
    s: InstallState,
    phase: InstallPhase,
    index: usize,
    journaled: usize,
    restored: bool,
    verified: bool,
) -> InstallState {
    InstallState {
        phase,
        index,
        total: s.total,
        journaled,
        has_previous: s.has_previous,
        restored,
        verify: s.verify,
        verified,
    }
}

/// After the last action's journal: verify where asked, else write records.
pub open spec fn after_actions(s: InstallState) -> (InstallState, InstallStep) {
    if s.verify {
        (moved(s, InstallPhase::Verifying, s.index, s.total, s.restored, s.verified), InstallStep::Verify)
    } else {
        (
            moved(s, InstallPhase::WritingRecords, s.index, s.total, s.restored, s.verified),
            InstallStep::WriteRecords,
        )
    }
}

/// The first action, or what follows the actions where there are none.
pub open spec fn begin_actions(s: InstallState) -> (InstallState, InstallStep) {
    if s.total > 0 {
        (moved(s, InstallPhase::Applying, 0, 0, s.restored, s.verified), InstallStep::Apply(0))
    } else {
        after_actions(s)
    }
}

/// A failure after the game may have changed: roll back.
pub open spec fn roll_back(s: InstallState) -> (InstallState, InstallStep) {
    (moved(s, InstallPhase::RollingBack, s.index, s.journaled, s.restored, s.verified), InstallStep::RollBack)
}

/// Stop with the error.
pub open spec fn stop(s: InstallState) -> (InstallState, InstallStep) {
    (moved(s, InstallPhase::Failed, s.index, s.journaled, s.restored, s.verified), InstallStep::Fail)
}

/// The next state and step of an install in state `s` whose last step came
/// to `e`.
pub open spec fn install_next(s: InstallState, e: InstallEvent) -> (InstallState, InstallStep) {
    let ok = e == InstallEvent::Succeeded;
    match s.phase {
        InstallPhase::Start => if !ok {
            stop(s)
        } else if s.has_previous {
            (moved(s, InstallPhase::RestoringPrevious, 0, 0, false, false), InstallStep::RestorePrevious)
        } else {
            begin_actions(moved(s, InstallPhase::Start, 0, 0, false, false))
        },
        InstallPhase::RestoringPrevious => if ok {
            begin_actions(moved(s, InstallPhase::RestoringPrevious, 0, 0, true, false))
        } else {
            stop(s)
        },
        InstallPhase::Applying => if ok {
            (
                moved(s, InstallPhase::Journaling, s.index, s.journaled, s.restored, s.verified),
                InstallStep::WriteJournal,
            )
        } else {
            roll_back(s)
        },
        InstallPhase::Journaling => if !ok {
            roll_back(s)
        } else if s.index + 1 < s.total {
            (
                moved(
                    s,
                    InstallPhase::Applying,
                    (s.index + 1) as usize,
                    (s.index + 1) as usize,
                    s.restored,
                    s.verified,
                ),
                InstallStep::Apply((s.index + 1) as usize),
            )
        } else {
            after_actions(s)
        },
        InstallPhase::Verifying => if ok {
            (
                moved(s, InstallPhase::WritingRecords, s.index, s.journaled, s.restored, true),
                InstallStep::WriteRecords,
            )
        } else {
            roll_back(s)
        },
        InstallPhase::WritingRecords => if ok {
            (moved(s, InstallPhase::Finished, s.index, s.journaled, s.restored, s.verified), InstallStep::Done)
        } else {
            roll_back(s)
        },
        InstallPhase::RollingBack => stop(s),
        InstallPhase::Finished => (s, InstallStep::Done),
        InstallPhase::Failed => (s, InstallStep::Fail),
    }
}

/// The states an install can reach from `install_start`.
pub open spec fn install_ok(s: InstallState) -> bool {
    &&& s.index <= s.total
    &&& s.journaled <= s.total
    &&& match s.phase {
        InstallPhase::Start => s.journaled == 0 && !s.restored && !s.verified,
        InstallPhase::RestoringPrevious => s.has_previous && s.journaled == 0 && !s.restored
            && !s.verified,
        InstallPhase::Applying | InstallPhase::Journaling => s.index < s.total && s.journaled
            == s.index && (s.has_previous ==> s.restored) && !s.verified,
        InstallPhase::Verifying => s.verify && s.journaled == s.total && (s.has_previous
            ==> s.restored) && !s.verified,
        InstallPhase::WritingRecords | InstallPhase::Finished => s.journaled == s.total && (
        s.has_previous ==> s.restored) && (s.verify ==> s.verified),
        InstallPhase::RollingBack | InstallPhase::Failed => true,
    }
}

/// An install of `total` actions, with a previous patch to undo first
/// (`has_previous`) and a verification at the end (`verify`).
pub fn install_start(total: usize, has_previous: bool, verify: bool) -> (s: InstallState)
    ensures
        s == (InstallState {
            phase: InstallPhase::Start,
            index: 0,
            total,
            journaled: 0,
            has_previous,
            restored: false,
            verify,
            verified: false,
        }),
        install_ok(s),
{
    InstallState {
        phase: InstallPhase::Start,
        index: 0,
        total,
        journaled: 0,
        has_previous,
        restored: false,
        verify,
        verified: false,
    }
}

/// The step after `e` in state `s` (see `install_next`). From a reachable
/// state: a previous patch is undone before the first action; each action
/// is followed by its journal before the next; a failure once the game may
/// have changed is answered by a rollback and then the stop; the records
/// are written only after every action's journal and, where asked, a
/// passed verification.
pub fn install_step(s: InstallState, e: InstallEvent) -> (r: (InstallState, InstallStep))
    ensures
        r == install_next(s, e),
        install_ok(s) ==> install_ok(r.0),
        r.0.total == s.total && r.0.has_previous == s.has_previous && r.0.verify == s.verify,
        r.1 == InstallStep::RestorePrevious ==> s.phase == InstallPhase::Start && s.has_previous,
        match r.1 {
            InstallStep::Apply(i) => (install_ok(s) ==> i < s.total && r.0.journaled == i && (
            s.has_previous ==> r.0.restored)) && (i > 0 ==> s.phase == InstallPhase::Journaling
                && e == InstallEvent::Succeeded && s.index + 1 == i),
            _ => true,
        },
        r.0.restored && !s.restored ==> s.phase == InstallPhase::RestoringPrevious && e
            == InstallEvent::Succeeded,
        s.phase == InstallPhase::Applying && e == InstallEvent::Succeeded ==> r.1
            == InstallStep::WriteJournal,
        (s.phase == InstallPhase::Applying || s.phase == InstallPhase::Journaling || s.phase
            == InstallPhase::Verifying || s.phase == InstallPhase::WritingRecords) && e
            == InstallEvent::Failed ==> r.1 == InstallStep::RollBack && r.0.phase
            == InstallPhase::RollingBack,
        s.phase == InstallPhase::RollingBack ==> r.1 == InstallStep::Fail && r.0.phase
            == InstallPhase::Failed,
        install_ok(s) && r.1 == InstallStep::WriteRecords ==> r.0.journaled == s.total && (s.verify
            ==> s.phase == InstallPhase::Verifying && e == InstallEvent::Succeeded),
        r.1 == InstallStep::Done ==> (s.phase == InstallPhase::WritingRecords && e
            == InstallEvent::Succeeded) || s.phase == InstallPhase::Finished,
{
    let ok = match e {
        InstallEvent::Succeeded => true,
        InstallEvent::Failed => false,
    };
    let roll = InstallState { phase: InstallPhase::RollingBack, ..s };
    let failed = InstallState { phase: InstallPhase::Failed, ..s };
    let after = if s.verify {
        (InstallState { phase: InstallPhase::Verifying, journaled: s.total, ..s }, InstallStep::Verify)
    } else {
        (
            InstallState { phase: InstallPhase::WritingRecords, journaled: s.total, ..s },
            InstallStep::WriteRecords,
        )
    };
    match s.phase {
        InstallPhase::Start => {
            if !ok {
                (failed, InstallStep::Fail)
            } else if s.has_previous {
                (
                    InstallState {
                        phase: InstallPhase::RestoringPrevious,
                        index: 0,
                        journaled: 0,
                        restored: false,
                        verified: false,
                        ..s
                    },
                    InstallStep::RestorePrevious,
                )
            } else {
                let b = InstallState {
                    index: 0,
                    journaled: 0,
                    restored: false,
                    verified: false,
                    ..s
                };
                begin_exec(b)
            }
        },
        InstallPhase::RestoringPrevious => {
            if ok {
                let b = InstallState {
                    index: 0,
                    journaled: 0,
                    restored: true,
                    verified: false,
                    ..s
                };
                begin_exec(b)
            } else {
                (failed, InstallStep::Fail)
            }
        },
        InstallPhase::Applying => {
            if ok {
                (InstallState { phase: InstallPhase::Journaling, ..s }, InstallStep::WriteJournal)
            } else {
                (roll, InstallStep::RollBack)
            }
        },
        InstallPhase::Journaling => {
            if !ok {
                (roll, InstallStep::RollBack)
            } else if s.total > 0 && s.index < s.total - 1 {
                let next = s.index + 1;
                (
                    InstallState { phase: InstallPhase::Applying, index: next, journaled: next, ..s },
                    InstallStep::Apply(next),
                )
            } else {
                after
            }
        },
        InstallPhase::Verifying => {
            if ok {
                (
                    InstallState { phase: InstallPhase::WritingRecords, verified: true, ..s },
                    InstallStep::WriteRecords,
                )
            } else {
                (roll, InstallStep::RollBack)
            }
        },
        InstallPhase::WritingRecords => {
            if ok {
                (InstallState { phase: InstallPhase::Finished, ..s }, InstallStep::Done)
            } else {
                (roll, InstallStep::RollBack)
            }
        },
        InstallPhase::RollingBack => (failed, InstallStep::Fail),
        InstallPhase::Finished => (s, InstallStep::Done),
        InstallPhase::Failed => (s, InstallStep::Fail),
    }
}

/// See `begin_actions`.
fn begin_exec(s: InstallState) -> (r: (InstallState, InstallStep))
    ensures
        r == begin_actions(s),
{
    if s.total > 0 {
        (InstallState { phase: InstallPhase::Applying, index: 0, journaled: 0, ..s }, InstallStep::Apply(0))
    } else if s.verify {
        (InstallState { phase: InstallPhase::Verifying, journaled: s.total, ..s }, InstallStep::Verify)
    } else {
        (
            InstallState { phase: InstallPhase::WritingRecords, journaled: s.total, ..s },
            InstallStep::WriteRecords,
        )
    }
}

/// The state after the events `es`, one after the other, from `s`.
pub open spec fn run_state(s: InstallState, es: Seq<InstallEvent>) -> InstallState
    decreases es.len(),
{
    if es.len() == 0 {
        s
    } else {
        run_state(install_next(s, es[0]).0, es.drop_first())
    }
}

/// Law: whatever the steps come to, an install started by `install_start`
/// stays in a reachable state; in particular it finishes only with every
/// action's journal written and, where verification was asked for, passed,
/// and only after the previous patch was undone where there was one.
pub proof fn law_install_order_holds(s: InstallState, es: Seq<InstallEvent>)
    requires
        install_ok(s),
    ensures
        install_ok(run_state(s, es)),
        run_state(s, es).phase == InstallPhase::Finished ==> run_state(s, es).journaled
            == s.total && (s.verify ==> run_state(s, es).verified) && (s.has_previous
            ==> run_state(s, es).restored),
    decreases es.len(),
{
    if es.len() > 0 {
        lemma_next_keeps(s, es[0]);
        law_install_order_holds(install_next(s, es[0]).0, es.drop_first());
    }
}

proof fn lemma_next_keeps(s: InstallState, e: InstallEvent)
    requires
        install_ok(s),
    ensures
        install_ok(install_next(s, e).0),
        install_next(s, e).0.total == s.total,
        install_next(s, e).0.verify == s.verify,
        install_next(s, e).0.has_previous == s.has_previous,
{
}

/// Law: once an action has been started, a failure is answered by a
/// rollback and then the stop, whatever the rollback comes to.
pub proof fn law_failure_rolls_back(s: InstallState, after: InstallEvent)
    requires
        s.phase == InstallPhase::Applying || s.phase == InstallPhase::Journaling || s.phase
            == InstallPhase::Verifying || s.phase == InstallPhase::WritingRecords,
    ensures
        install_next(s, InstallEvent::Failed).1 == InstallStep::RollBack,
        install_next(install_next(s, InstallEvent::Failed).0, after).1 == InstallStep::Fail,
{
}


/// Law: a failure once the install may have changed the game is answered by
/// a rollback, and carrying out the rollback plan of the journal written so
/// far (`states` the game's files before and after each record, `saved` the
/// backup) gives back the files the game had before the install.
pub proof fn law_failed_install_restores_files(
    s: InstallState,
    states: Seq<Map<Seq<char>, Seq<u8>>>,
    cs: Seq<ChangeRecord>,
    saved: Map<Seq<char>, Seq<u8>>,
    plan: Seq<RollbackStep>,
)
    requires
        s.phase == InstallPhase::Applying || s.phase == InstallPhase::Journaling || s.phase
            == InstallPhase::Verifying || s.phase == InstallPhase::WritingRecords,
        journaled(states, cs, saved),
        undo_plan(cs, plan),
    ensures
        install_next(s, InstallEvent::Failed).1 == InstallStep::RollBack,
        undone_all(states.last(), plan, saved) == states[0],
{
    law_rollback_restores_files(states, cs, saved, plan);
}


/// The record an install starts with, before any change: schema 1, the
/// manifest's game and patch, the game folder, the new backup's id and the
/// time it began, active, with no changes yet.
pub fn start_installation(manifest: &Manifest, game_root: &str, backup_id: String, created_at: String)
    -> (r: Installation)
    ensures
        r.schema_version == 1,
        r.game_id == manifest.game.id,
        r.game_name@ == manifest.game.name@,
        r.patch_id == manifest.patch.id,
        r.patch_version@ == manifest.patch.version@,
        r.game_root@ == game_root@,
        r.backup_id == backup_id,
        r.created_at == created_at,
        r.active,
        r.changes@ == Seq::<ChangeRecord>::empty(),
{
    Installation {
        schema_version: 1,
        game_id: manifest.game.id,
        game_name: manifest.game.name.clone(),
        patch_id: manifest.patch.id,
        patch_version: manifest.patch.version.clone(),
        game_root: game_root.to_owned(),
        backup_id,
        created_at,
        active: true,
        changes: Vec::new(),
    }
}

} // verus!
