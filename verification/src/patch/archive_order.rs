//! The order of a FAT/DAT append and of its undo, as state machines. An
//! append first saves its undo files and writes the journal, the backup's
//! metadata and the registration; only then is the DAT grown and, after
//! checks, the FAT replaced. An undo puts the FAT back first and only then
//! cuts the DAT. The caller carries out each step and reports whether it
//! succeeded.
use vstd::prelude::*;

verus! {

/// A step of the append, or how it ended.
#[derive(Clone, Copy, Debug, PartialEq, Eq, Structural)]
pub enum ArchiveStep {
    /// Save the original FAT, the payload and the undo record to the backup.
    SaveUndo,
    /// Write the journal with the new record.
    WriteJournal,
    /// Write the backup's metadata.
    WriteMetadata,
    /// Write the installation's registration.
    WriteRegistration,
    /// Append the padding and the payload to the DAT.
    AppendDat,
    /// Read the payload back and check the grown DAT's hash.
    CheckDat,
    /// Check that the FAT is still the one the plan was made from.
    CheckFat,
    /// Replace the FAT with the planned one.
    ReplaceFat,
    /// Read the FAT back and compare it with the plan.
    CheckFinalFat,
    /// The append is complete.
    Done,
    /// Stopped before any game file was written.
    Abort,
    /// Stopped after the DAT was written; the journal's rollback undoes it.
    Fail,
}

/// What became of the step last handed out.
#[derive(Clone, Copy, Debug, PartialEq, Eq, Structural)]
pub enum StepOutcome {
    Succeeded,
    Failed,
}

/// Where an append stands: the step last handed out and which of the
/// record steps have succeeded.
#[derive(Clone, Copy, Debug, PartialEq, Eq, Structural)]
pub struct ArchiveInstall {
    pub last: ArchiveStep,
    pub undo_saved: bool,
    pub journal_written: bool,
    pub metadata_written: bool,
    pub registered: bool,
    /// Whether a step that writes the game's files has been handed out.
    pub game_touched: bool,
}

/// The steps that end an append.
pub open spec fn is_final(step: ArchiveStep) -> bool {
    step == ArchiveStep::Done || step == ArchiveStep::Abort || step == ArchiveStep::Fail
}

/// The steps before the DAT is written.
pub open spec fn before_append(step: ArchiveStep) -> bool {
    step == ArchiveStep::SaveUndo || step == ArchiveStep::WriteJournal || step
        == ArchiveStep::WriteMetadata || step == ArchiveStep::WriteRegistration
}

/// The step after `step` when it succeeded.
pub open spec fn successor(step: ArchiveStep) -> ArchiveStep {
    match step {
        ArchiveStep::SaveUndo => ArchiveStep::WriteJournal,
        ArchiveStep::WriteJournal => ArchiveStep::WriteMetadata,
        ArchiveStep::WriteMetadata => ArchiveStep::WriteRegistration,
        ArchiveStep::WriteRegistration => ArchiveStep::AppendDat,
        ArchiveStep::AppendDat => ArchiveStep::CheckDat,
        ArchiveStep::CheckDat => ArchiveStep::CheckFat,
        ArchiveStep::CheckFat => ArchiveStep::ReplaceFat,
        ArchiveStep::ReplaceFat => ArchiveStep::CheckFinalFat,
        ArchiveStep::CheckFinalFat => ArchiveStep::Done,
        other => other,
    }
}

/// All four records hold the installation.
pub open spec fn records_written(s: ArchiveInstall) -> bool {
    s.undo_saved && s.journal_written && s.metadata_written && s.registered
}

/// The next state and step after `e` answers the step last handed out: a
/// success records what it achieved and moves on; a failure before the DAT
/// is written aborts, one after it fails; an ended append stays ended.
pub open spec fn append_next(s: ArchiveInstall, e: StepOutcome) -> (ArchiveInstall, ArchiveStep) {
    if is_final(s.last) {
        (s, s.last)
    } else if e == StepOutcome::Failed {
        let end = if before_append(s.last) {
            ArchiveStep::Abort
        } else {
            ArchiveStep::Fail
        };
        (ArchiveInstall { last: end, ..s }, end)
    } else {
        let next = successor(s.last);
        (
            ArchiveInstall {
                last: next,
                undo_saved: s.undo_saved || s.last == ArchiveStep::SaveUndo,
                journal_written: s.journal_written || s.last == ArchiveStep::WriteJournal,
                metadata_written: s.metadata_written || s.last == ArchiveStep::WriteMetadata,
                registered: s.registered || s.last == ArchiveStep::WriteRegistration,
                game_touched: s.game_touched || next == ArchiveStep::AppendDat,
            },
            next,
        )
    }
}

/// The states an append started by `append_start` can reach: each record
/// step has succeeded exactly when the sequence has passed it; the game is
/// touched only once all four have succeeded, and an abort leaves it
/// untouched.
pub open spec fn append_ok(s: ArchiveInstall) -> bool {
    &&& s.undo_saved == !(s.last == ArchiveStep::SaveUndo || (s.last == ArchiveStep::Abort
        && !s.undo_saved))
    &&& (s.last == ArchiveStep::WriteJournal ==> s.undo_saved && !s.journal_written
        && !s.metadata_written && !s.registered)
    &&& (s.last == ArchiveStep::WriteMetadata ==> s.undo_saved && s.journal_written
        && !s.metadata_written && !s.registered)
    &&& (s.last == ArchiveStep::WriteRegistration ==> s.undo_saved && s.journal_written
        && s.metadata_written && !s.registered)
    &&& (s.last == ArchiveStep::SaveUndo ==> !s.journal_written && !s.metadata_written
        && !s.registered)
    &&& (before_append(s.last) || s.last == ArchiveStep::Abort) == !s.game_touched
    &&& (s.game_touched ==> records_written(s))
    &&& (s.journal_written ==> s.undo_saved)
    &&& (s.metadata_written ==> s.journal_written)
    &&& (s.registered ==> s.metadata_written)
}

/// The first step of an append, with nothing recorded yet.
pub fn append_start() -> (r: (ArchiveInstall, ArchiveStep))
    ensures
        r.1 == ArchiveStep::SaveUndo,
        r.0.last == ArchiveStep::SaveUndo,
        append_ok(r.0),
        !r.0.game_touched,
{
    (
        ArchiveInstall {
            last: ArchiveStep::SaveUndo,
            undo_saved: false,
            journal_written: false,
            metadata_written: false,
            registered: false,
            game_touched: false,
        },
        ArchiveStep::SaveUndo,
    )
}

/// The next state and step of an append once the step last handed out has
/// come to `e`: no DAT or FAT byte is written before the undo files, the
/// journal, the metadata and the registration have each succeeded, and a
/// failure before the DAT is written ends in `Abort` with the game untouched.
pub fn fat_dat_step(s: ArchiveInstall, e: StepOutcome) -> (r: (ArchiveInstall, ArchiveStep))
    requires
        append_ok(s),
    ensures
        r == append_next(s, e),
        append_ok(r.0),
        r.1 == r.0.last,
        (r.1 == ArchiveStep::AppendDat || r.1 == ArchiveStep::ReplaceFat) ==> records_written(r.0),
        r.1 == ArchiveStep::Abort ==> !r.0.game_touched,
        !s.game_touched && e == StepOutcome::Failed && !is_final(s.last) ==> r.1
            == ArchiveStep::Abort,
{
    if s.last == ArchiveStep::Done || s.last == ArchiveStep::Abort || s.last == ArchiveStep::Fail {
        return (s, s.last);
    }
    let early = s.last == ArchiveStep::SaveUndo || s.last == ArchiveStep::WriteJournal || s.last
        == ArchiveStep::WriteMetadata || s.last == ArchiveStep::WriteRegistration;
    match e {
        StepOutcome::Failed => {
            let end = if early {
                ArchiveStep::Abort
            } else {
                ArchiveStep::Fail
            };
            (ArchiveInstall { last: end, ..s }, end)
        },
        StepOutcome::Succeeded => {
            let next = match s.last {
                ArchiveStep::SaveUndo => ArchiveStep::WriteJournal,
                ArchiveStep::WriteJournal => ArchiveStep::WriteMetadata,
                ArchiveStep::WriteMetadata => ArchiveStep::WriteRegistration,
                ArchiveStep::WriteRegistration => ArchiveStep::AppendDat,
                ArchiveStep::AppendDat => ArchiveStep::CheckDat,
                ArchiveStep::CheckDat => ArchiveStep::CheckFat,
                ArchiveStep::CheckFat => ArchiveStep::ReplaceFat,
                ArchiveStep::ReplaceFat => ArchiveStep::CheckFinalFat,
                ArchiveStep::CheckFinalFat => ArchiveStep::Done,
                other => other,
            };
            (
                ArchiveInstall {
                    last: next,
                    undo_saved: s.undo_saved || s.last == ArchiveStep::SaveUndo,
                    journal_written: s.journal_written || s.last == ArchiveStep::WriteJournal,
                    metadata_written: s.metadata_written || s.last == ArchiveStep::WriteMetadata,
                    registered: s.registered || s.last == ArchiveStep::WriteRegistration,
                    game_touched: s.game_touched || next == ArchiveStep::AppendDat,
                },
                next,
            )
        },
    }
}

/// The states and steps handed out while the events `es` answer an append,
/// one after the other, from `s`: the steps in order.
pub open spec fn append_steps(s: ArchiveInstall, es: Seq<StepOutcome>) -> Seq<ArchiveStep>
    decreases es.len(),
{
    if es.len() == 0 {
        Seq::empty()
    } else {
        seq![append_next(s, es[0]).1] + append_steps(append_next(s, es[0]).0, es.drop_first())
    }
}

/// The state after the events `es` from `s`.
pub open spec fn append_run(s: ArchiveInstall, es: Seq<StepOutcome>) -> ArchiveInstall
    decreases es.len(),
{
    if es.len() == 0 {
        s
    } else {
        append_run(append_next(s, es[0]).0, es.drop_first())
    }
}

/// Law: whatever the steps of an append come to, every `AppendDat` or
/// `ReplaceFat` handed out comes after the undo files, the journal, the
/// metadata and the registration have each succeeded, and an append that
/// aborts has written no game file.
pub proof fn law_append_order_holds(s: ArchiveInstall, es: Seq<StepOutcome>)
    requires
        append_ok(s),
    ensures
        append_ok(append_run(s, es)),
        forall|k: int|
            0 <= k < es.len() && (#[trigger] append_steps(s, es)[k]
                == ArchiveStep::AppendDat || append_steps(s, es)[k] == ArchiveStep::ReplaceFat)
                ==> records_written(append_run(s, es.take(k + 1))),
        append_run(s, es).last == ArchiveStep::Abort ==> !append_run(s, es).game_touched,
    decreases es.len(),
{
    if es.len() > 0 {
        let n = append_next(s, es[0]).0;
        lemma_append_keeps(s, es[0]);
        lemma_append_steps_len(n, es.drop_first());
        law_append_order_holds(n, es.drop_first());
        assert forall|k: int|
            0 <= k < es.len() && (#[trigger] append_steps(s, es)[k]
                == ArchiveStep::AppendDat || append_steps(s, es)[k] == ArchiveStep::ReplaceFat)
                implies records_written(append_run(s, es.take(k + 1))) by {
            if k == 0 {
                let t = es.take(1);
                assert(t.drop_first() =~= Seq::<StepOutcome>::empty());
                assert(append_run(s, t) == append_run(n, t.drop_first()));
            } else {
                let t = es.take(k + 1);
                assert(t.drop_first() =~= es.drop_first().take(k));
                assert(append_steps(s, es)[k] == append_steps(n, es.drop_first())[k - 1]);
                assert(append_run(s, t) == append_run(n, t.drop_first()));
            }
        }
    }
}

proof fn lemma_append_keeps(s: ArchiveInstall, e: StepOutcome)
    requires
        append_ok(s),
    ensures
        append_ok(append_next(s, e).0),
        append_next(s, e).1 == append_next(s, e).0.last,
{
}

/// A step of the undo of an append, or how it ended.
#[derive(Clone, Copy, Debug, PartialEq, Eq, Structural)]
pub enum RestoreStep {
    /// Load the undo record and check the backups, the FAT and the DAT.
    Check,
    /// Put the original FAT back.
    RestoreFat,
    /// Cut the DAT to its original length.
    TruncateDat,
    /// Check the FAT and the DAT's original region.
    Verify,
    /// The undo is complete.
    Done,
    /// Stopped before any game file was written.
    Abort,
    /// Stopped after a game file was written.
    Fail,
}

/// What became of the step last handed out; a passed check says whether
/// the FAT must be put back.
#[derive(Clone, Copy, Debug, PartialEq, Eq, Structural)]
pub enum RestoreEvent {
    Checked { fat_back: bool },
    Succeeded,
    Failed,
}

/// Where an undo stands.
#[derive(Clone, Copy, Debug, PartialEq, Eq, Structural)]
pub struct ArchiveRestore {
    pub last: RestoreStep,
    /// Whether the FAT must be put back (known once checked).
    pub fat_back: bool,
    pub fat_restored: bool,
    /// Whether a step that writes the game's files has been handed out.
    pub game_touched: bool,
}

/// The next state and step of an undo: a passed check leads to putting the
/// FAT back where it must be, else straight to cutting the DAT; the cut
/// comes only after the FAT is back; a failure before any write aborts.
pub open spec fn restore_next(s: ArchiveRestore, e: RestoreEvent) -> (ArchiveRestore, RestoreStep) {
    match s.last {
        RestoreStep::Done | RestoreStep::Abort | RestoreStep::Fail => (s, s.last),
        RestoreStep::Check => match e {
            RestoreEvent::Checked { fat_back } => if fat_back {
                (
                    ArchiveRestore { last: RestoreStep::RestoreFat, fat_back, game_touched: true, ..s },
                    RestoreStep::RestoreFat,
                )
            } else {
                (
                    ArchiveRestore { last: RestoreStep::TruncateDat, fat_back, game_touched: true, ..s },
                    RestoreStep::TruncateDat,
                )
            },
            _ => (ArchiveRestore { last: RestoreStep::Abort, ..s }, RestoreStep::Abort),
        },
        RestoreStep::RestoreFat => match e {
            RestoreEvent::Succeeded => (
                ArchiveRestore { last: RestoreStep::TruncateDat, fat_restored: true, ..s },
                RestoreStep::TruncateDat,
            ),
            _ => (ArchiveRestore { last: RestoreStep::Fail, ..s }, RestoreStep::Fail),
        },
        RestoreStep::TruncateDat => match e {
            RestoreEvent::Succeeded => (ArchiveRestore { last: RestoreStep::Verify, ..s }, RestoreStep::Verify),
            _ => (ArchiveRestore { last: RestoreStep::Fail, ..s }, RestoreStep::Fail),
        },
        RestoreStep::Verify => match e {
            RestoreEvent::Succeeded => (ArchiveRestore { last: RestoreStep::Done, ..s }, RestoreStep::Done),
            _ => (ArchiveRestore { last: RestoreStep::Fail, ..s }, RestoreStep::Fail),
        },
    }
}

/// The states an undo started by `restore_start` can reach: the DAT is cut
/// only once the FAT is back where it had to be, and an abort has written
/// nothing.
pub open spec fn restore_ok(s: ArchiveRestore) -> bool {
    &&& (s.last == RestoreStep::Check || s.last == RestoreStep::Abort) ==> !s.game_touched
        && !s.fat_restored
    &&& (s.last == RestoreStep::RestoreFat ==> s.fat_back && !s.fat_restored && s.game_touched)
    &&& ((s.last == RestoreStep::TruncateDat || s.last == RestoreStep::Verify || s.last
        == RestoreStep::Done) ==> s.game_touched && (s.fat_back ==> s.fat_restored))
    &&& (s.last == RestoreStep::Fail ==> s.game_touched)
}

/// The first step of an undo.
pub fn restore_start() -> (r: (ArchiveRestore, RestoreStep))
    ensures
        r.1 == RestoreStep::Check,
        r.0.last == RestoreStep::Check,
        restore_ok(r.0),
{
    (
        ArchiveRestore { last: RestoreStep::Check, fat_back: false, fat_restored: false, game_touched: false },
        RestoreStep::Check,
    )
}

/// The next state and step of an undo once the step last handed out has
/// come to `e`: the FAT is put back before the DAT is cut, and a failed
/// check ends in `Abort` with the game untouched.
pub fn fat_dat_restore_step(s: ArchiveRestore, e: RestoreEvent) -> (r: (ArchiveRestore, RestoreStep))
    requires
        restore_ok(s),
    ensures
        r == restore_next(s, e),
        restore_ok(r.0),
        r.1 == r.0.last,
        r.1 == RestoreStep::TruncateDat ==> (r.0.fat_back ==> r.0.fat_restored),
        r.1 == RestoreStep::Abort ==> !r.0.game_touched,
{
    match s.last {
        RestoreStep::Done | RestoreStep::Abort | RestoreStep::Fail => (s, s.last),
        RestoreStep::Check => match e {
            RestoreEvent::Checked { fat_back } => if fat_back {
                (
                    ArchiveRestore { last: RestoreStep::RestoreFat, fat_back, game_touched: true, ..s },
                    RestoreStep::RestoreFat,
                )
            } else {
                (
                    ArchiveRestore { last: RestoreStep::TruncateDat, fat_back, game_touched: true, ..s },
                    RestoreStep::TruncateDat,
                )
            },
            _ => (ArchiveRestore { last: RestoreStep::Abort, ..s }, RestoreStep::Abort),
        },
        RestoreStep::RestoreFat => match e {
            RestoreEvent::Succeeded => (
                ArchiveRestore { last: RestoreStep::TruncateDat, fat_restored: true, ..s },
                RestoreStep::TruncateDat,
            ),
            _ => (ArchiveRestore { last: RestoreStep::Fail, ..s }, RestoreStep::Fail),
        },
        RestoreStep::TruncateDat => match e {
            RestoreEvent::Succeeded => (ArchiveRestore { last: RestoreStep::Verify, ..s }, RestoreStep::Verify),
            _ => (ArchiveRestore { last: RestoreStep::Fail, ..s }, RestoreStep::Fail),
        },
        RestoreStep::Verify => match e {
            RestoreEvent::Succeeded => (ArchiveRestore { last: RestoreStep::Done, ..s }, RestoreStep::Done),
            _ => (ArchiveRestore { last: RestoreStep::Fail, ..s }, RestoreStep::Fail),
        },
    }
}

/// The steps handed out while the events `es` answer an undo from `s`.
pub open spec fn restore_steps(s: ArchiveRestore, es: Seq<RestoreEvent>) -> Seq<RestoreStep>
    decreases es.len(),
{
    if es.len() == 0 {
        Seq::empty()
    } else {
        seq![restore_next(s, es[0]).1] + restore_steps(restore_next(s, es[0]).0, es.drop_first())
    }
}

/// The state after the events `es` from `s`.
pub open spec fn restore_run(s: ArchiveRestore, es: Seq<RestoreEvent>) -> ArchiveRestore
    decreases es.len(),
{
    if es.len() == 0 {
        s
    } else {
        restore_run(restore_next(s, es[0]).0, es.drop_first())
    }
}

/// Law: whatever the steps of an undo come to, the DAT is cut only after
/// the FAT was put back where it had to be, and an undo that aborts has
/// written no game file.
pub proof fn law_restore_order_holds(s: ArchiveRestore, es: Seq<RestoreEvent>)
    requires
        restore_ok(s),
    ensures
        restore_ok(restore_run(s, es)),
        forall|k: int|
            0 <= k < es.len() && #[trigger] restore_steps(s, es)[k]
                == RestoreStep::TruncateDat ==> {
                let t = restore_run(s, es.take(k + 1));
                t.fat_back ==> t.fat_restored
            },
        restore_run(s, es).last == RestoreStep::Abort ==> !restore_run(s, es).game_touched,
    decreases es.len(),
{
    if es.len() > 0 {
        let n = restore_next(s, es[0]).0;
        lemma_restore_keeps(s, es[0]);
        lemma_restore_steps_len(n, es.drop_first());
        law_restore_order_holds(n, es.drop_first());
        assert forall|k: int|
            0 <= k < es.len() && #[trigger] restore_steps(s, es)[k]
                == RestoreStep::TruncateDat implies {
                let t = restore_run(s, es.take(k + 1));
                t.fat_back ==> t.fat_restored
            } by {
            let t = es.take(k + 1);
            if k == 0 {
                assert(t.drop_first() =~= Seq::<RestoreEvent>::empty());
            } else {
                assert(t.drop_first() =~= es.drop_first().take(k));
                assert(restore_steps(s, es)[k] == restore_steps(n, es.drop_first())[k - 1]);
            }
            assert(restore_run(s, t) == restore_run(n, t.drop_first()));
        }
    }
}

proof fn lemma_restore_keeps(s: ArchiveRestore, e: RestoreEvent)
    requires
        restore_ok(s),
    ensures
        restore_ok(restore_next(s, e).0),
        restore_next(s, e).1 == restore_next(s, e).0.last,
{
}

proof fn lemma_append_steps_len(s: ArchiveInstall, es: Seq<StepOutcome>)
    ensures
        append_steps(s, es).len() == es.len(),
    decreases es.len(),
{
    if es.len() > 0 {
        lemma_append_steps_len(append_next(s, es[0]).0, es.drop_first());
    }
}

proof fn lemma_restore_steps_len(s: ArchiveRestore, es: Seq<RestoreEvent>)
    ensures
        restore_steps(s, es).len() == es.len(),
    decreases es.len(),
{
    if es.len() > 0 {
        lemma_restore_steps_len(restore_next(s, es[0]).0, es.drop_first());
    }
}

} // verus!
