//! The install journal: the records the handlers write, their verification
//! against the files on disk, and the plans that undo them.
use crate::error::LoaderError;
use crate::hashing::{digest_hex, Sha256State};
use crate::models::{ChangeKind, ChangeRecord, UninstallReport, Verification};
use crate::text::{eq_ignore_case, join_str, join_with, joined, str_eq_ignore_case, string_views};
use vstd::prelude::*;

verus! {

/// Whether the hash found on disk (`None` where the path is no regular file)
/// matches the recorded one, ignoring ASCII case.
pub open spec fn hash_agrees(observed: Option<String>, expected: Seq<char>) -> bool {
    match observed {
        Some(h) => eq_ignore_case(h@, expected),
        None => false,
    }
}

/// Record `c` is checked (it recorded an installed hash) and the file on disk
/// no longer has it.
pub open spec fn record_conflicts(c: ChangeRecord, observed: Option<String>) -> bool {
    match c.installed_sha256 {
        Some(h) => !hash_agrees(observed, h@),
        None => false,
    }
}

/// The number of records among the first `n` that carry an installed hash.
pub open spec fn checked_count(cs: Seq<ChangeRecord>, n: int) -> int
    decreases n,
{
    if n <= 0 {
        0
    } else {
        checked_count(cs, n - 1) + if cs[n - 1].installed_sha256 is Some {
            1int
        } else {
            0int
        }
    }
}

/// The paths of the conflicting records among the first `n`, in order.
pub open spec fn conflict_paths(cs: Seq<ChangeRecord>, obs: Seq<Option<String>>, n: int) -> Seq<
    Seq<char>,
>
    decreases n,
{
    if n <= 0 {
        Seq::empty()
    } else {
        let before = conflict_paths(cs, obs, n - 1);
        if record_conflicts(cs[n - 1], obs[n - 1]) {
            before.push(cs[n - 1].path@)
        } else {
            before
        }
    }
}

proof fn lemma_checked_bound(cs: Seq<ChangeRecord>, n: int)
    requires
        0 <= n,
    ensures
        0 <= checked_count(cs, n) <= n,
    decreases n,
{
    if n > 0 {
        lemma_checked_bound(cs, n - 1);
    }
}

/// What verification compares for one record: the hexadecimal SHA-256 of
/// the file found at its path (`found`, a hasher fed the file's bytes), or
/// nothing where no regular file is there.
pub fn observed_hash(found: Option<Sha256State>) -> (r: Option<String>)
    ensures
        match found {
            Some(h) => r matches Some(s) && s@ == digest_hex(h.fed()),
            None => r is None,
        },
{
    match found {
        Some(h) => Some(h.finish_hex()),
        None => None,
    }
}

/// Compares each record that carries an installed hash with what is on disk
/// now: `observed[i]` is the hash of the file at record `i`'s path, `None`
/// where that is no regular file. Conflicts are listed in journal order.
pub fn verify_records(changes: &Vec<ChangeRecord>, observed: &Vec<Option<String>>) -> (r:
    Verification)
    requires
        observed@.len() == changes@.len(),
    ensures
        r.checked == checked_count(changes@, changes@.len() as int),
        r.conflicts@.len() == conflict_paths(changes@, observed@, changes@.len() as int).len(),
        forall|i: int|
            0 <= i < r.conflicts@.len() ==> #[trigger] r.conflicts@[i]@ == conflict_paths(
                changes@,
                observed@,
                changes@.len() as int,
            )[i],
        r.valid == (r.conflicts@.len() == 0),
{
    let mut conflicts: Vec<String> = Vec::new();
    let mut checked: u64 = 0;
    let mut i: usize = 0;
    while i < changes.len()
        invariant
            i <= changes@.len(),
            observed@.len() == changes@.len(),
            checked == checked_count(changes@, i as int),
            conflicts@.len() == conflict_paths(changes@, observed@, i as int).len(),
            forall|k: int|
                0 <= k < conflicts@.len() ==> #[trigger] conflicts@[k]@ == conflict_paths(
                    changes@,
                    observed@,
                    i as int,
                )[k],
        decreases changes@.len() - i,
    {
        let c = &changes[i];
        proof {
            lemma_checked_bound(changes@, i as int);
        }
        match &c.installed_sha256 {
            Some(expected) => {
                checked = checked + 1;
                let agrees = match &observed[i] {
                    Some(h) => str_eq_ignore_case(h.as_str(), expected.as_str()),
                    None => false,
                };
                if !agrees {
                    conflicts.push(c.path.clone());
                }
            },
            None => {},
        }
        i = i + 1;
    }
    Verification { valid: conflicts.len() == 0, checked, conflicts }
}

/// One step that undoes a journal record.
pub enum RollbackStep {
    /// Remove the created file at `path` if it is a regular file.
    RemoveFile { path: String },
    /// Remove the regular file at `path` if there is one, then copy the
    /// backup (if any) back to it.
    RestoreFile { path: String, backup: Option<String> },
    /// Remove the folder at `path` if it is an empty folder.
    RemoveEmptyDirectory { path: String },
    /// Move `path` back to `source` if it exists, then copy the backup (if
    /// any) back to `path`.
    MoveBack { path: String, source: String, backup: Option<String> },
    /// Undo an in-place FAT2/DAT append recorded at `path`.
    UndoArchive { path: String },
    /// Stop: a move record without its source.
    Broken,
}

/// The step that undoes record `c`.
pub open spec fn step_for(c: ChangeRecord, s: RollbackStep) -> bool {
    match c.kind {
        ChangeKind::CreatedFile => s matches RollbackStep::RemoveFile { path } && path@ == c.path@,
        ChangeKind::ReplacedFile | ChangeKind::DeletedFile => s matches RollbackStep::RestoreFile {
            path,
            backup,
        } && path@ == c.path@ && backup == c.backup_path,
        ChangeKind::CreatedDirectory => s matches RollbackStep::RemoveEmptyDirectory { path }
            && path@ == c.path@,
        ChangeKind::MovedFile => match c.secondary_path {
            Some(src) => s matches RollbackStep::MoveBack { path, source, backup } && path@
                == c.path@ && source@ == src@ && backup == c.backup_path,
            None => s is Broken,
        },
        ChangeKind::PatchedArchive => s matches RollbackStep::UndoArchive { path } && path@
            == c.path@,
    }
}

fn clone_opt(s: &Option<String>) -> (r: Option<String>)
    ensures
        r == *s,
{
    match s {
        Some(x) => {
            let y = x.clone();
            proof {
                assert(y@ == x@);
            }
            Some(y)
        },
        None => None,
    }
}

/// The undo step of one record.
pub fn undo_step(c: &ChangeRecord) -> (s: RollbackStep)
    ensures
        step_for(*c, s),
{
    match c.kind {
        ChangeKind::CreatedFile => RollbackStep::RemoveFile { path: c.path.clone() },
        ChangeKind::ReplacedFile | ChangeKind::DeletedFile => RollbackStep::RestoreFile {
            path: c.path.clone(),
            backup: clone_opt(&c.backup_path),
        },
        ChangeKind::CreatedDirectory => RollbackStep::RemoveEmptyDirectory {
            path: c.path.clone(),
        },
        ChangeKind::MovedFile => match &c.secondary_path {
            Some(src) => RollbackStep::MoveBack {
                path: c.path.clone(),
                source: src.clone(),
                backup: clone_opt(&c.backup_path),
            },
            None => RollbackStep::Broken,
        },
        ChangeKind::PatchedArchive => RollbackStep::UndoArchive { path: c.path.clone() },
    }
}

/// `steps` undoes the journal `cs`: one step per record, last record first.
pub open spec fn undo_plan(cs: Seq<ChangeRecord>, steps: Seq<RollbackStep>) -> bool {
    &&& steps.len() == cs.len()
    &&& forall|i: int| 0 <= i < steps.len() ==> step_for(cs[cs.len() - 1 - i], #[trigger] steps[i])
}

/// The plan that undoes a journal (see `undo_plan`).
/// Whoever carries it out stops at the first step that fails or is `Broken`.
pub fn rollback_plan(changes: &Vec<ChangeRecord>) -> (r: Vec<RollbackStep>)
    ensures
        undo_plan(changes@, r@),
{
    let mut out: Vec<RollbackStep> = Vec::new();
    let n = changes.len();
    let mut k: usize = 0;
    while k < n
        invariant
            n == changes@.len(),
            k <= n,
            out@.len() == k,
            forall|i: int| 0 <= i < k ==> step_for(changes@[n - 1 - i], #[trigger] out@[i]),
        decreases n - k,
    {
        let s = undo_step(&changes[n - 1 - k]);
        out.push(s);
        k = k + 1;
    }
    out
}

/// What a new install does with the installation it replaces.
pub enum PreviousAction {
    /// Its backup is gone and the user forced the update: only close it.
    CloseOnly,
    /// Undo its journal (see `rollback_plan`), then close it.
    RollbackAndClose,
}

/// The message of a refused update over changed files.
pub open spec fn changed_previous_text(conflicts: Seq<String>) -> Seq<char> {
    "Önceki yamanın dosyaları değişmiş: "@ + joined(string_views(conflicts), ", "@)
        + ". Önce 'Yamayı Kaldır' çalıştırın veya güncellemeyi zorlayın."@
}

/// The decision of `restore_previous`: the previous patch (installed in
/// `previous_root`) must have been installed in the same folder; without its
/// backup only a forced update goes on (closing it); with changed files only
/// a forced update rolls back. Each refusal is a `Conflict` with its message.
pub fn restore_previous(
    same_root: bool,
    previous_root: &str,
    backup_present: bool,
    check: &Verification,
    force: bool,
) -> (r: Result<PreviousAction, LoaderError>)
    ensures
        !same_root ==> (r matches Err(LoaderError::Conflict(m)) && m@
            == "Bu oyunun yaması başka bir klasörde kurulu: "@ + previous_root@
            + ". Önce oradan kaldırın."@),
        same_root && !backup_present ==> if force {
            r matches Ok(PreviousAction::CloseOnly)
        } else {
            r matches Err(LoaderError::Conflict(m)) && m@
                == "Önceki kurulumun yedeği bulunamadı. Zorla devam etmek dosyaları kalıcı değiştirebilir."@
        },
        same_root && backup_present ==> if check.valid || force {
            r matches Ok(PreviousAction::RollbackAndClose)
        } else {
            r matches Err(LoaderError::Conflict(m)) && m@ == changed_previous_text(check.conflicts@)
        },
{
    proof {
        reveal_strlit("Bu oyunun yaması başka bir klasörde kurulu: ");
        reveal_strlit(". Önce oradan kaldırın.");
        reveal_strlit("Önceki yamanın dosyaları değişmiş: ");
        reveal_strlit(", ");
        reveal_strlit(". Önce 'Yamayı Kaldır' çalıştırın veya güncellemeyi zorlayın.");
    }
    if !same_root {
        let head = join_str("Bu oyunun yaması başka bir klasörde kurulu: ", previous_root);
        return Err(LoaderError::Conflict(join_str(head.as_str(), ". Önce oradan kaldırın.")));
    }
    if !backup_present {
        if !force {
            return Err(
                LoaderError::Conflict(
                    "Önceki kurulumun yedeği bulunamadı. Zorla devam etmek dosyaları kalıcı değiştirebilir.".to_owned(),
                ),
            );
        }
        return Ok(PreviousAction::CloseOnly);
    }
    if !check.valid && !force {
        let list = join_with(&check.conflicts, ", ");
        let head = join_str("Önceki yamanın dosyaları değişmiş: ", list.as_str());
        let text = join_str(
            head.as_str(),
            ". Önce 'Yamayı Kaldır' çalıştırın veya güncellemeyi zorlayın.",
        );
        return Err(LoaderError::Conflict(text));
    }
    Ok(PreviousAction::RollbackAndClose)
}

/// The decision of `uninstall` before anything is undone: the recorded game
/// folder must be the given one, and changed files need `force`; then the
/// backup is located (`backup`: `Ok` with whether its metadata is present, or
/// the refusal of locating it, which stands even under `force`), and a
/// missing backup needs `force`. Each refusal of its own is a `Conflict`
/// with its message. On success the report it will return: every record
/// restored, `forced` where changed files were overridden, and the conflicts
/// found.
pub fn uninstall(
    same_root: bool,
    check: Verification,
    backup: Result<bool, LoaderError>,
    force: bool,
    records: usize,
) -> (r: Result<UninstallReport, LoaderError>)
    ensures
        !same_root ==> (r matches Err(LoaderError::Conflict(m)) && m@
            == "Kurulum manifestindeki oyun kökü farklı"@),
        same_root && !check.valid && !force ==> (r matches Err(LoaderError::Conflict(m)) && m@
            == "Dosyalar kurulumdan sonra değişmiş: "@ + joined(string_views(check.conflicts@), ", "@)),
        same_root && (check.valid || force) ==> (backup matches Err(e) ==> r == Err::<
            UninstallReport,
            LoaderError,
        >(e)),
        same_root && (check.valid || force) && backup == Ok::<bool, LoaderError>(false) && !force
            ==> (r matches Err(LoaderError::Conflict(m)) && m@
            == "Kurulumun yedeği bulunamadı; orijinal dosyalar geri yüklenemez."@),
        r is Ok <==> same_root && (check.valid || force) && (backup == Ok::<bool, LoaderError>(true)
            || (backup is Ok && force)),
        r matches Ok(rep) ==> rep.restored == records && rep.forced == (force && !check.valid)
            && rep.conflicts@ == check.conflicts@,
{
    proof {
        reveal_strlit("Dosyalar kurulumdan sonra değişmiş: ");
        reveal_strlit(", ");
    }
    if !same_root {
        return Err(LoaderError::Conflict("Kurulum manifestindeki oyun kökü farklı".to_owned()));
    }
    if !check.valid && !force {
        let list = join_with(&check.conflicts, ", ");
        return Err(LoaderError::Conflict(join_str("Dosyalar kurulumdan sonra değişmiş: ", list.as_str())));
    }
    let present = match backup {
        Ok(p) => p,
        Err(e) => {
            return Err(e);
        },
    };
    if !present && !force {
        return Err(
            LoaderError::Conflict(
                "Kurulumun yedeği bulunamadı; orijinal dosyalar geri yüklenemez.".to_owned(),
            ),
        );
    }
    Ok(
        UninstallReport {
            restored: records as u64,
            forced: force && !check.valid,
            conflicts: check.conflicts,
        },
    )
}

/// A journal record with only a kind and a path set.
pub open spec fn bare(c: ChangeRecord, kind: ChangeKind, path: Seq<char>) -> bool {
    c.kind == kind && c.path@ == path
}

/// The record of a file copied into the game: `ReplacedFile` with the saved
/// copy and the hash of the original where something was there (`saved`: the
/// copy's path and a hasher fed the original's bytes), else `CreatedFile`;
/// with the hash of the installed file (`installed`, fed its bytes).
pub fn copy_one(destination: &str, saved: Option<(String, Sha256State)>, installed: Sha256State) -> (c:
    ChangeRecord)
    ensures
        c.path@ == destination@,
        c.secondary_path is None,
        c.installed_sha256 matches Some(h) && h@ == digest_hex(installed.fed()),
        match saved {
            Some((p, h)) => c.kind == ChangeKind::ReplacedFile && c.backup_path == Some(p)
                && (c.original_sha256 matches Some(o) && o@ == digest_hex(h.fed())),
            None => c.kind == ChangeKind::CreatedFile && c.backup_path is None
                && c.original_sha256 is None,
        },
{
    let path = destination.to_owned();
    let installed = installed.finish_hex();
    match saved {
        Some((p, h)) => ChangeRecord {
            kind: ChangeKind::ReplacedFile,
            path,
            secondary_path: None,
            backup_path: Some(p),
            original_sha256: Some(h.finish_hex()),
            installed_sha256: Some(installed),
        },
        None => ChangeRecord {
            kind: ChangeKind::CreatedFile,
            path,
            secondary_path: None,
            backup_path: None,
            original_sha256: None,
            installed_sha256: Some(installed),
        },
    }
}

/// The record of a file deleted from the game after it was saved to
/// `saved`; `original` was fed the file's bytes.
pub fn backup_deleted(relative: &str, saved: String, original: Sha256State) -> (c: ChangeRecord)
    ensures
        c.kind == ChangeKind::DeletedFile,
        c.path@ == relative@,
        c.secondary_path is None,
        c.backup_path == Some(saved),
        c.original_sha256 matches Some(o) && o@ == digest_hex(original.fed()),
        c.installed_sha256 is None,
{
    ChangeRecord {
        kind: ChangeKind::DeletedFile,
        path: relative.to_owned(),
        secondary_path: None,
        backup_path: Some(saved),
        original_sha256: Some(original.finish_hex()),
        installed_sha256: None,
    }
}

/// The record of a folder the install created.
pub fn directory_record(destination: &str) -> (c: ChangeRecord)
    ensures
        c.kind == ChangeKind::CreatedDirectory,
        c.path@ == destination@,
        c.secondary_path is None,
        c.backup_path is None,
        c.original_sha256 is None,
        c.installed_sha256 is None,
{
    ChangeRecord {
        kind: ChangeKind::CreatedDirectory,
        path: destination.to_owned(),
        secondary_path: None,
        backup_path: None,
        original_sha256: None,
        installed_sha256: None,
    }
}

/// The record of a file moved inside the game from `source` to
/// `destination`, with the saved copy of what it replaced (if anything, and
/// a hasher fed its bytes); `installed` was fed the moved file's bytes.
pub fn move_record(destination: &str, source: &str, saved: Option<(String, Sha256State)>, installed: Sha256State)
    -> (c: ChangeRecord)
    ensures
        c.kind == ChangeKind::MovedFile,
        c.path@ == destination@,
        c.secondary_path matches Some(s) && s@ == source@,
        c.installed_sha256 matches Some(h) && h@ == digest_hex(installed.fed()),
        match saved {
            Some((p, h)) => c.backup_path == Some(p) && (c.original_sha256 matches Some(o)
                && o@ == digest_hex(h.fed())),
            None => c.backup_path is None && c.original_sha256 is None,
        },
{
    let (backup_path, original_sha256) = match saved {
        Some((p, h)) => (Some(p), Some(h.finish_hex())),
        None => (None, None),
    };
    ChangeRecord {
        kind: ChangeKind::MovedFile,
        path: destination.to_owned(),
        secondary_path: Some(source.to_owned()),
        backup_path,
        original_sha256,
        installed_sha256: Some(installed.finish_hex()),
    }
}

/// Law: a journal made only of records whose files still carry their
/// installed hashes verifies as valid, and every such record is counted.
pub proof fn law_untouched_journal_verifies(cs: Seq<ChangeRecord>, obs: Seq<Option<String>>)
    requires
        obs.len() == cs.len(),
        forall|i: int|
            0 <= i < cs.len() ==> !record_conflicts(#[trigger] cs[i], obs[i]),
    ensures
        conflict_paths(cs, obs, cs.len() as int).len() == 0,
{
    lemma_no_conflicts(cs, obs, cs.len() as int);
}

proof fn lemma_no_conflicts(cs: Seq<ChangeRecord>, obs: Seq<Option<String>>, n: int)
    requires
        0 <= n <= cs.len(),
        obs.len() == cs.len(),
        forall|i: int| 0 <= i < cs.len() ==> !record_conflicts(#[trigger] cs[i], obs[i]),
    ensures
        conflict_paths(cs, obs, n).len() == 0,
    decreases n,
{
    if n > 0 {
        assert(!record_conflicts(cs[n - 1], obs[n - 1]));
        lemma_no_conflicts(cs, obs, n - 1);
    }
}

/// Law: a record whose file was changed after the install is reported, by
/// its path.
pub proof fn law_changed_file_reported(cs: Seq<ChangeRecord>, obs: Seq<Option<String>>, k: int)
    requires
        obs.len() == cs.len(),
        0 <= k < cs.len(),
        record_conflicts(cs[k], obs[k]),
    ensures
        conflict_paths(cs, obs, cs.len() as int).contains(cs[k].path@),
{
    lemma_conflict_kept(cs, obs, k, cs.len() as int);
}

proof fn lemma_conflict_kept(cs: Seq<ChangeRecord>, obs: Seq<Option<String>>, k: int, n: int)
    requires
        obs.len() == cs.len(),
        0 <= k < n <= cs.len(),
        record_conflicts(cs[k], obs[k]),
    ensures
        conflict_paths(cs, obs, n).contains(cs[k].path@),
    decreases n,
{
    if n - 1 == k {
        let p = conflict_paths(cs, obs, n);
        assert(p[p.len() - 1] == cs[k].path@);
    } else {
        lemma_conflict_kept(cs, obs, k, n - 1);
        let q = conflict_paths(cs, obs, n - 1);
        let j = choose|j: int| 0 <= j < q.len() && q[j] == cs[k].path@;
        if record_conflicts(cs[n - 1], obs[n - 1]) {
            assert(q.push(cs[n - 1].path@)[j] == cs[k].path@);
        }
    }
}


/// The backup copy named by `backup` holds `content`.
pub open spec fn saved_copy(backup: Option<String>, saved: Map<Seq<char>, Seq<u8>>, content: Seq<u8>) -> bool {
    match backup {
        Some(b) => saved.contains_key(b@) && saved[b@] == content,
        None => false,
    }
}

/// What installing record `c` did to the game's files (relative path to
/// contents) `before`, leaving `after`; `saved` holds the backup files
/// (relative path in the backup folder to contents). A created file was not
/// there; a replaced or deleted file was saved first; a folder leaves the
/// files as they were; a moved file leaves its source, and what it replaced
/// was saved first. Archive appends are described in `fat_dat`.
pub open spec fn applied(
    before: Map<Seq<char>, Seq<u8>>,
    after: Map<Seq<char>, Seq<u8>>,
    c: ChangeRecord,
    saved: Map<Seq<char>, Seq<u8>>,
) -> bool {
    let p = c.path@;
    match c.kind {
        ChangeKind::CreatedFile => !before.contains_key(p) && after.contains_key(p) && after.remove(p)
            == before,
        ChangeKind::ReplacedFile => before.contains_key(p) && after.contains_key(p) && after.remove(p)
            == before.remove(p) && saved_copy(c.backup_path, saved, before[p]),
        ChangeKind::DeletedFile => before.contains_key(p) && after == before.remove(p) && saved_copy(
            c.backup_path,
            saved,
            before[p],
        ),
        ChangeKind::CreatedDirectory => after == before,
        ChangeKind::MovedFile => match c.secondary_path {
            Some(src) => src@ != p && before.contains_key(src@) && after == before.remove(src@).insert(
                p,
                before[src@],
            ) && match c.backup_path {
                Some(_) => before.contains_key(p) && saved_copy(c.backup_path, saved, before[p]),
                None => !before.contains_key(p),
            },
            None => false,
        },
        ChangeKind::PatchedArchive => false,
    }
}

/// `states[i + 1]` is what record `i` of the journal left of `states[i]`.
pub open spec fn journaled(
    states: Seq<Map<Seq<char>, Seq<u8>>>,
    cs: Seq<ChangeRecord>,
    saved: Map<Seq<char>, Seq<u8>>,
) -> bool {
    &&& states.len() == cs.len() + 1
    &&& forall|i: int| 0 <= i < cs.len() ==> applied(states[i], states[i + 1], #[trigger] cs[i], saved)
}

/// The files after the backup `backup` (if any) is copied to `path`.
pub open spec fn restored(
    files: Map<Seq<char>, Seq<u8>>,
    path: Seq<char>,
    backup: Option<String>,
    saved: Map<Seq<char>, Seq<u8>>,
) -> Map<Seq<char>, Seq<u8>> {
    match backup {
        Some(b) => files.insert(path, saved[b@]),
        None => files,
    }
}

/// The game's files after one rollback step is carried out as its
/// description says (folders and archives aside: they leave the files).
pub open spec fn undone(
    files: Map<Seq<char>, Seq<u8>>,
    s: RollbackStep,
    saved: Map<Seq<char>, Seq<u8>>,
) -> Map<Seq<char>, Seq<u8>> {
    match s {
        RollbackStep::RemoveFile { path } => files.remove(path@),
        RollbackStep::RestoreFile { path, backup } => restored(files.remove(path@), path@, backup, saved),
        RollbackStep::MoveBack { path, source, backup } => {
            let moved = if files.contains_key(path@) {
                files.remove(path@).insert(source@, files[path@])
            } else {
                files
            };
            restored(moved, path@, backup, saved)
        },
        _ => files,
    }
}

/// The files after every step of `steps`, first to last.
pub open spec fn undone_all(
    files: Map<Seq<char>, Seq<u8>>,
    steps: Seq<RollbackStep>,
    saved: Map<Seq<char>, Seq<u8>>,
) -> Map<Seq<char>, Seq<u8>>
    decreases steps.len(),
{
    if steps.len() == 0 {
        files
    } else {
        undone_all(undone(files, steps[0], saved), steps.drop_first(), saved)
    }
}

proof fn lemma_step_inverts(
    before: Map<Seq<char>, Seq<u8>>,
    after: Map<Seq<char>, Seq<u8>>,
    c: ChangeRecord,
    saved: Map<Seq<char>, Seq<u8>>,
    s: RollbackStep,
)
    requires
        applied(before, after, c, saved),
        step_for(c, s),
    ensures
        undone(after, s, saved) == before,
{
    let p = c.path@;
    match c.kind {
        ChangeKind::CreatedFile => {
            assert(undone(after, s, saved) =~= before);
        },
        ChangeKind::ReplacedFile | ChangeKind::DeletedFile => {
            assert(after.remove(p) =~= before.remove(p));
            assert(before.remove(p).insert(p, before[p]) =~= before);
            assert(undone(after, s, saved) =~= before);
        },
        ChangeKind::CreatedDirectory => {},
        ChangeKind::MovedFile => {
            let src = c.secondary_path.unwrap()@;
            assert(after.contains_key(p));
            assert(after[p] == before[src]);
            let moved = after.remove(p).insert(src, after[p]);
            assert(moved =~= before.remove(p));
            if c.backup_path is Some {
                assert(before.remove(p).insert(p, before[p]) =~= before);
            } else {
                assert(before.remove(p) =~= before);
            }
            assert(undone(after, s, saved) =~= before);
        },
        ChangeKind::PatchedArchive => {},
    }
}

/// Law: carrying out the rollback plan of a journal (see `undo_plan`),
/// every step in order, on the files an install left gives back exactly the
/// files the game had before that install.
pub proof fn law_rollback_restores_files(
    states: Seq<Map<Seq<char>, Seq<u8>>>,
    cs: Seq<ChangeRecord>,
    saved: Map<Seq<char>, Seq<u8>>,
    steps: Seq<RollbackStep>,
)
    requires
        journaled(states, cs, saved),
        undo_plan(cs, steps),
    ensures
        undone_all(states.last(), steps, saved) == states[0],
    decreases cs.len(),
{
    if cs.len() > 0 {
        let n = cs.len() as int;
        lemma_step_inverts(states[n - 1], states[n], cs[n - 1], saved, steps[0]);
        let rest = steps.drop_first();
        assert forall|i: int| 0 <= i < rest.len() implies step_for(
            cs.drop_last()[cs.drop_last().len() - 1 - i],
            #[trigger] rest[i],
        ) by {
            assert(step_for(cs[n - 1 - (i + 1)], steps[i + 1]));
        }
        assert forall|i: int| 0 <= i < cs.drop_last().len() implies applied(
            states.drop_last()[i],
            states.drop_last()[i + 1],
            #[trigger] cs.drop_last()[i],
            saved,
        ) by {
            assert(applied(states[i], states[i + 1], cs[i], saved));
        }
        law_rollback_restores_files(states.drop_last(), cs.drop_last(), saved, rest);
    }
}

/// Law: an update first rolls back the installed patch and then installs the
/// new one; uninstalling the new one then gives back the files from before
/// the first patch, not the first patch's files.
pub proof fn law_update_then_uninstall_restores_original(
    first: Seq<Map<Seq<char>, Seq<u8>>>,
    first_journal: Seq<ChangeRecord>,
    first_saved: Map<Seq<char>, Seq<u8>>,
    first_plan: Seq<RollbackStep>,
    second: Seq<Map<Seq<char>, Seq<u8>>>,
    second_journal: Seq<ChangeRecord>,
    second_saved: Map<Seq<char>, Seq<u8>>,
    second_plan: Seq<RollbackStep>,
)
    requires
        journaled(first, first_journal, first_saved),
        undo_plan(first_journal, first_plan),
        second[0] == undone_all(first.last(), first_plan, first_saved),
        journaled(second, second_journal, second_saved),
        undo_plan(second_journal, second_plan),
    ensures
        undone_all(second.last(), second_plan, second_saved) == first[0],
{
    law_rollback_restores_files(first, first_journal, first_saved, first_plan);
    law_rollback_restores_files(second, second_journal, second_saved, second_plan);
}

} // verus!
