//! Backups: where each one lives, when a missing one is restored from its
//! recovery copy, and which ones may be pruned or cleaned.
use crate::emulator::{join_path, join_path_exec};
use crate::error::LoaderError;
use crate::models::{BackupInfo, ChangeRecord, Installation, InstallationSummary, PruneReport};
use crate::order::{newest_first, newest_first_order, permutes};
use crate::text::string_views;
use crate::text::{chars_of, dec_chars, decimal, is_alnum, join_str, str_eq};
use vstd::prelude::*;

verus! {

/// A backup id: not empty, ASCII letters, digits and `-` only.
pub open spec fn backup_id_ok(id: Seq<char>) -> bool {
    id.len() > 0 && forall|i: int| 0 <= i < id.len() ==> is_alnum(#[trigger] id[i]) || id[i] == '-'
}

/// See `backup_id_ok`.
pub fn valid_backup_id(id: &str) -> (r: bool)
    ensures
        r == backup_id_ok(id@),
{
    let v = chars_of(id);
    if v.len() == 0 {
        return false;
    }
    let mut i: usize = 0;
    while i < v.len()
        invariant
            i <= v@.len(),
            v@ == id@,
            forall|j: int| 0 <= j < i ==> is_alnum(#[trigger] v@[j]) || v@[j] == '-',
        decreases v@.len() - i,
    {
        let c = v[i];
        let ok = ('a' <= c && c <= 'z') || ('A' <= c && c <= 'Z') || ('0' <= c && c <= '9') || c
            == '-';
        if !ok {
            return false;
        }
        i = i + 1;
    }
    true
}

/// A backup's folder: `backups\<id>` under the data root.
pub open spec fn backup_dir(root: Seq<char>, id: Seq<char>) -> Seq<char> {
    join_path(join_path(root, "backups"@), id)
}

/// A backup's recovery copy: `recovery\backups\<id>` under the data root.
pub open spec fn recovery_dir(root: Seq<char>, id: Seq<char>) -> Seq<char> {
    join_path(join_path(join_path(root, "recovery"@), "backups"@), id)
}

/// See `backup_dir`; an id that is not `backup_id_ok` is an unsafe path.
pub fn raw_backup_root(data_root: &str, id: &str) -> (r: Result<String, LoaderError>)
    ensures
        backup_id_ok(id@) ==> (r matches Ok(p) && p@ == backup_dir(data_root@, id@)),
        !backup_id_ok(id@) ==> (r matches Err(LoaderError::UnsafePath(p)) && p@ == id@),
{
    if !valid_backup_id(id) {
        return Err(LoaderError::UnsafePath(id.to_owned()));
    }
    let b = join_path_exec(data_root, "backups");
    Ok(join_path_exec(b.as_str(), id))
}

/// See `recovery_dir`; an id that is not `backup_id_ok` is an unsafe path.
pub fn recovery_backup_root(data_root: &str, id: &str) -> (r: Result<String, LoaderError>)
    ensures
        backup_id_ok(id@) ==> (r matches Ok(p) && p@ == recovery_dir(data_root@, id@)),
        !backup_id_ok(id@) ==> (r matches Err(LoaderError::UnsafePath(p)) && p@ == id@),
{
    if !valid_backup_id(id) {
        return Err(LoaderError::UnsafePath(id.to_owned()));
    }
    let a = join_path_exec(data_root, "recovery");
    let b = join_path_exec(a.as_str(), "backups");
    Ok(join_path_exec(b.as_str(), id))
}

/// An installation's record: `installations\<game id>.json` under the data
/// root.
pub fn installation_path(data_root: &str, game_id: u64) -> (r: String)
    ensures
        r@ == join_path(join_path(data_root@, "installations"@), dec_chars(game_id as nat) + ".json"@),
{
    let dir = join_path_exec(data_root, "installations");
    let n = decimal(game_id);
    let name = join_str(n.as_str(), ".json");
    join_path_exec(dir.as_str(), name.as_str())
}

/// Some installation record names the backup.
pub open spec fn referenced(ids: Seq<String>, id: Seq<char>) -> bool {
    exists|i: int| 0 <= i < ids.len() && #[trigger] ids[i]@ == id
}

/// Whether a readable installation record names the backup; `record_ids`
/// are the backup ids of the records that could be read.
pub fn installation_references_backup(record_ids: &Vec<String>, id: &str) -> (r: bool)
    ensures
        r == referenced(record_ids@, id@),
{
    let mut i: usize = 0;
    while i < record_ids.len()
        invariant
            i <= record_ids@.len(),
            forall|j: int| 0 <= j < i ==> (#[trigger] record_ids@[j])@ != id@,
        decreases record_ids@.len() - i,
    {
        if str_eq(record_ids[i].as_str(), id) {
            return true;
        }
        i = i + 1;
    }
    false
}

/// Law: a backup is referenced as soon as any record, at any position,
/// names it, and only then; adding a record keeps every earlier reference
/// and adds its own.
pub proof fn law_reference_anywhere(ids: Seq<String>, id: Seq<char>, k: int, more: String)
    requires
        0 <= k < ids.len(),
    ensures
        ids[k]@ == id ==> referenced(ids, id),
        referenced(ids, id) ==> exists|j: int| 0 <= j < ids.len() && ids[j]@ == id,
        !referenced(ids, id) ==> ids[k]@ != id,
        referenced(ids.push(more), id) == (referenced(ids, id) || more@ == id),
        referenced(seq![more] + ids, id) == (more@ == id || referenced(ids, id)),
{
    let p = ids.push(more);
    let q = seq![more] + ids;
    if referenced(ids, id) {
        let j = choose|j: int| 0 <= j < ids.len() && #[trigger] ids[j]@ == id;
        assert(p[j]@ == id);
        assert(q[j + 1]@ == id);
    }
    if more@ == id {
        assert(p[ids.len() as int]@ == id);
        assert(q[0]@ == id);
    }
    if referenced(p, id) {
        let j = choose|j: int| 0 <= j < p.len() && #[trigger] p[j]@ == id;
        if j < ids.len() {
            assert(ids[j]@ == id);
        }
    }
    if referenced(q, id) {
        let j = choose|j: int| 0 <= j < q.len() && #[trigger] q[j]@ == id;
        if j > 0 {
            assert(ids[j - 1]@ == id);
        }
    }
    if ids[k]@ == id {
        assert(referenced(ids, id));
    }
}

/// How a backup's folder is obtained.
#[derive(Clone, Copy, Debug, PartialEq, Eq, Structural)]
pub enum BackupSource {
    /// Its folder holds its metadata: use it.
    Primary,
    /// Only the recovery copy holds it: rebuild the folder from the copy
    /// (removing what is left of the folder first).
    Recovery,
    /// Neither does: refuse where an installation still names the backup,
    /// else use the (new) folder.
    Unreferenced,
}

/// The first step of `backup_root`: an invalid id is an unsafe path;
/// otherwise where the metadata is found decides.
pub fn backup_root(id: &str, primary_metadata: bool, recovery_metadata: bool) -> (r: Result<
    BackupSource,
    LoaderError,
>)
    ensures
        !backup_id_ok(id@) ==> (r matches Err(LoaderError::UnsafePath(p)) && p@ == id@),
        backup_id_ok(id@) ==> r == Ok::<BackupSource, LoaderError>(
            if primary_metadata {
                BackupSource::Primary
            } else if recovery_metadata {
                BackupSource::Recovery
            } else {
                BackupSource::Unreferenced
            },
        ),
{
    if !valid_backup_id(id) {
        return Err(LoaderError::UnsafePath(id.to_owned()));
    }
    if primary_metadata {
        Ok(BackupSource::Primary)
    } else if recovery_metadata {
        Ok(BackupSource::Recovery)
    } else {
        Ok(BackupSource::Unreferenced)
    }
}

/// The last step of `backup_root` where neither copy exists: an
/// installation that still names the backup is not touched (`Conflict`).
pub fn require_unreferenced(is_referenced: bool) -> (r: Result<(), LoaderError>)
    ensures
        r is Ok <==> !is_referenced,
        r matches Err(e) ==> (e matches LoaderError::Conflict(m) && m@ == "Kurulumun yedeği ve kurtarma kopyası bulunamadı; güvenlik için oyun dosyalarına dokunulmadı. Oyun dosyalarını Steam/Ubisoft üzerinden doğrulayıp yamayı yeniden kurun."@),
{
    if is_referenced {
        return Err(
            LoaderError::Conflict(
                "Kurulumun yedeği ve kurtarma kopyası bulunamadı; güvenlik için oyun dosyalarına dokunulmadı. Oyun dosyalarını Steam/Ubisoft üzerinden doğrulayıp yamayı yeniden kurun.".to_owned(),
            ),
        );
    }
    Ok(())
}

/// What rebuilding a backup does with one entry of the recovery copy.
#[derive(Clone, Copy, Debug, PartialEq, Eq, Structural)]
pub enum TreeStep {
    Descend,
    Copy,
    Skip,
}

/// An entry (at `path`) of a recovery copy being rebuilt: a link is refused
/// as an unsafe path; a folder is descended into, a file copied, anything
/// else skipped.
pub fn restore_tree_entry(path: &str, is_symlink: bool, is_dir: bool, is_file: bool) -> (r: Result<
    TreeStep,
    LoaderError,
>)
    ensures
        is_symlink ==> (r matches Err(LoaderError::UnsafePath(p)) && p@ == path@),
        !is_symlink ==> r == Ok::<TreeStep, LoaderError>(
            if is_dir {
                TreeStep::Descend
            } else if is_file {
                TreeStep::Copy
            } else {
                TreeStep::Skip
            },
        ),
{
    if is_symlink {
        return Err(LoaderError::UnsafePath(path.to_owned()));
    }
    if is_dir {
        Ok(TreeStep::Descend)
    } else if is_file {
        Ok(TreeStep::Copy)
    } else {
        Ok(TreeStep::Skip)
    }
}

/// A rebuild needs the recovery copy (at `source`) to be a folder, else a
/// `Conflict` naming it.
pub fn require_recovery_tree(source: &str, source_is_dir: bool) -> (r: Result<(), LoaderError>)
    ensures
        r is Ok <==> source_is_dir,
        r matches Err(e) ==> (e matches LoaderError::Conflict(m) && m@ == "Kurtarma yedeği bulunamadı: "@
            + source@),
{
    if !source_is_dir {
        proof {
            reveal_strlit("Kurtarma yedeği bulunamadı: ");
        }
        return Err(LoaderError::Conflict(join_str("Kurtarma yedeği bulunamadı: ", source)));
    }
    Ok(())
}

fn clone_opt(s: &Option<String>) -> (r: Option<String>)
    ensures
        r == *s,
{
    match s {
        Some(x) => {
            let y = x.clone();
            assert(y@ == x@);
            Some(y)
        },
        None => None,
    }
}

/// A copy of a journal record.
pub fn clone_change(c: &ChangeRecord) -> (r: ChangeRecord)
    ensures
        r == *c,
{
    let path = c.path.clone();
    assert(path == c.path);
    ChangeRecord {
        kind: c.kind,
        path,
        secondary_path: clone_opt(&c.secondary_path),
        backup_path: clone_opt(&c.backup_path),
        original_sha256: clone_opt(&c.original_sha256),
        installed_sha256: clone_opt(&c.installed_sha256),
    }
}

/// A copy of an installation record, active or not as `active` says.
pub fn with_active(i: &Installation, active: bool) -> (r: Installation)
    ensures
        r.schema_version == i.schema_version,
        r.game_id == i.game_id,
        r.game_name == i.game_name,
        r.patch_id == i.patch_id,
        r.patch_version == i.patch_version,
        r.game_root == i.game_root,
        r.backup_id == i.backup_id,
        r.created_at == i.created_at,
        r.active == active,
        r.changes@ == i.changes@,
{
    let mut changes: Vec<ChangeRecord> = Vec::new();
    let mut k: usize = 0;
    while k < i.changes.len()
        invariant
            k <= i.changes@.len(),
            changes@ == i.changes@.take(k as int),
        decreases i.changes@.len() - k,
    {
        changes.push(clone_change(&i.changes[k]));
        proof {
            assert(i.changes@.take(k + 1) =~= i.changes@.take(k as int).push(i.changes@[k as int]));
        }
        k = k + 1;
    }
    assert(i.changes@.take(i.changes@.len() as int) =~= i.changes@);
    let game_name = i.game_name.clone();
    let patch_version = i.patch_version.clone();
    let game_root = i.game_root.clone();
    let backup_id = i.backup_id.clone();
    let created_at = i.created_at.clone();
    assert(game_name == i.game_name && patch_version == i.patch_version && game_root == i.game_root
        && backup_id == i.backup_id && created_at == i.created_at);
    Installation {
        schema_version: i.schema_version,
        game_id: i.game_id,
        game_name,
        patch_id: i.patch_id,
        patch_version,
        game_root,
        backup_id,
        created_at,
        active,
        changes,
    }
}

/// Closing an installation: where its backup holds metadata, the record to
/// write there (the same, marked inactive); the installation's own record
/// is then removed.
pub fn close_installation(install: &Installation, backup_has_metadata: bool) -> (r: Option<Installation>)
    ensures
        backup_has_metadata <==> r is Some,
        r matches Some(c) ==> !c.active && c.game_id == install.game_id && c.backup_id
            == install.backup_id && c.changes@ == install.changes@ && c.created_at
            == install.created_at && c.patch_version == install.patch_version,
{
    if backup_has_metadata {
        Some(with_active(install, false))
    } else {
        None
    }
}

/// An installation record as found: none where its file is missing or
/// cannot be read (the user can then install again).
pub fn find_installation(is_file: bool, record: Result<Installation, LoaderError>) -> (r: Option<
    Installation,
>)
    ensures
        !is_file ==> r is None,
        is_file ==> match record {
            Ok(i) => r == Some(i),
            Err(_) => r is None,
        },
{
    if !is_file {
        return None;
    }
    match record {
        Ok(install) => Some(install),
        Err(_) => None,
    }
}

/// The summary of an installation record shown to the user.
pub fn summarize(install: &Installation, root_exists: bool, backup_exists: bool) -> (r:
    InstallationSummary)
    ensures
        r.game_id == install.game_id,
        r.game_name@ == install.game_name@,
        r.patch_id == install.patch_id,
        r.patch_version@ == install.patch_version@,
        r.root_exists == root_exists,
        r.game_root@ == install.game_root@,
        r.backup_exists == backup_exists,
        r.backup_id@ == install.backup_id@,
        r.created_at@ == install.created_at@,
        r.change_count == install.changes@.len(),
{
    InstallationSummary {
        game_id: install.game_id,
        game_name: install.game_name.clone(),
        patch_id: install.patch_id,
        patch_version: install.patch_version.clone(),
        root_exists,
        game_root: install.game_root.clone(),
        backup_exists,
        backup_id: install.backup_id.clone(),
        created_at: install.created_at.clone(),
        change_count: install.changes.len() as u64,
    }
}

/// Which backup folders a prune removes: those whose name no active
/// installation names (a folder whose name is not text counts as the empty
/// name).
pub fn prune_targets(active: &Vec<String>, names: &Vec<String>) -> (r: Vec<bool>)
    ensures
        r@.len() == names@.len(),
        forall|i: int| 0 <= i < r@.len() ==> #[trigger] r@[i] == !referenced(active@, names@[i]@),
{
    let mut out: Vec<bool> = Vec::new();
    let mut i: usize = 0;
    while i < names.len()
        invariant
            i <= names@.len(),
            out@.len() == i,
            forall|j: int| 0 <= j < i ==> #[trigger] out@[j] == !referenced(active@, names@[j]@),
        decreases names@.len() - i,
    {
        let hit = installation_references_backup(active, names[i].as_str());
        out.push(!hit);
        i = i + 1;
    }
    out
}

/// The number of removals that succeeded among the first `n`.
pub open spec fn removed_count(done: Seq<(bool, u64)>, n: int) -> int
    decreases n,
{
    if n <= 0 {
        0
    } else {
        removed_count(done, n - 1) + if done[n - 1].0 {
            1int
        } else {
            0int
        }
    }
}

/// The bytes those removals freed.
pub open spec fn freed_sum(done: Seq<(bool, u64)>, n: int) -> int
    decreases n,
{
    if n <= 0 {
        0
    } else {
        freed_sum(done, n - 1) + if done[n - 1].0 {
            done[n - 1].1 as int
        } else {
            0int
        }
    }
}

proof fn lemma_sums_grow(done: Seq<(bool, u64)>, a: int, b: int)
    requires
        0 <= a <= b <= done.len(),
    ensures
        removed_count(done, a) <= removed_count(done, b),
        freed_sum(done, a) <= freed_sum(done, b),
        removed_count(done, b) <= b,
    decreases b,
{
    if b > 0 {
        if a < b {
            lemma_sums_grow(done, a, b - 1);
        } else {
            lemma_sums_grow(done, b - 1, b - 1);
        }
    }
}

/// `n`, or `u64::MAX` where it is larger: a byte count held in 64 bits.
pub open spec fn capped(n: int) -> int {
    if n > u64::MAX {
        u64::MAX as int
    } else {
        n
    }
}

/// The report of a prune: `done[i]` says whether backup folder `i` was
/// removed and its size before; `cache_bytes` is what clearing the download
/// cache freed. The freed total stops at `u64::MAX`.
pub fn prune(done: &Vec<(bool, u64)>, cache_bytes: u64) -> (r: PruneReport)
    ensures
        r.removed_backups == removed_count(done@, done@.len() as int),
        r.freed_bytes == capped(freed_sum(done@, done@.len() as int)),
        r.cache_bytes == cache_bytes,
{
    let mut removed: u64 = 0;
    let mut freed: u64 = 0;
    let mut i: usize = 0;
    while i < done.len()
        invariant
            i <= done@.len(),
            removed == removed_count(done@, i as int),
            freed == capped(freed_sum(done@, i as int)),
        decreases done@.len() - i,
    {
        proof {
            lemma_sums_grow(done@, 0, i + 1);
            lemma_sums_grow(done@, i as int, i + 1);
        }
        let (ok, size) = done[i];
        if ok {
            removed = removed + 1;
            freed = freed.saturating_add(size);
        }
        i = i + 1;
    }
    PruneReport { removed_backups: removed, freed_bytes: freed, cache_bytes }
}

/// Cleaning one backup: an invalid id is an unsafe path; a backup that an
/// installation names, or whose metadata marks it active, is kept
/// (`Conflict`). `metadata_active` is the `active` flag of its metadata
/// (primary first, else the recovery copy), `None` where there is none.
pub fn clean(id: &str, is_referenced: bool, metadata_active: Option<bool>) -> (r: Result<(), LoaderError>)
    ensures
        !backup_id_ok(id@) ==> (r matches Err(LoaderError::UnsafePath(p)) && p@ == id@),
        backup_id_ok(id@) ==> (r is Ok <==> !is_referenced && metadata_active != Some(true)),
        backup_id_ok(id@) && is_referenced ==> (r matches Err(LoaderError::Conflict(m)) && m@
            == "Aktif kurulumun zorunlu backup/kurtarma kopyası silinemez"@),
        backup_id_ok(id@) && !is_referenced && metadata_active == Some(true) ==> (r matches Err(
            LoaderError::Conflict(m),
        ) && m@ == "Aktif kurulumun zorunlu backup'ı silinemez"@),
{
    if !valid_backup_id(id) {
        return Err(LoaderError::UnsafePath(id.to_owned()));
    }
    if is_referenced {
        return Err(LoaderError::Conflict("Aktif kurulumun zorunlu backup/kurtarma kopyası silinemez".to_owned()));
    }
    match metadata_active {
        Some(true) => Err(LoaderError::Conflict("Aktif kurulumun zorunlu backup'ı silinemez".to_owned())),
        _ => Ok(()),
    }
}

/// The creation stamps of backups.
pub open spec fn info_keys(v: Seq<BackupInfo>) -> Seq<Seq<char>> {
    v.map_values(|b: BackupInfo| b.created_at@)
}

/// The creation stamps of installation summaries.
pub open spec fn summary_keys(v: Seq<InstallationSummary>) -> Seq<Seq<char>> {
    v.map_values(|b: InstallationSummary| b.created_at@)
}

fn clone_info(b: &BackupInfo) -> (r: BackupInfo)
    ensures
        r == *b,
{
    BackupInfo {
        id: b.id.clone(),
        game_name: b.game_name.clone(),
        version: b.version.clone(),
        created_at: b.created_at.clone(),
        size_bytes: b.size_bytes,
        active: b.active,
    }
}

fn clone_summary(b: &InstallationSummary) -> (r: InstallationSummary)
    ensures
        r == *b,
{
    InstallationSummary {
        game_id: b.game_id,
        game_name: b.game_name.clone(),
        patch_id: b.patch_id,
        patch_version: b.patch_version.clone(),
        root_exists: b.root_exists,
        game_root: b.game_root.clone(),
        backup_exists: b.backup_exists,
        backup_id: b.backup_id.clone(),
        created_at: b.created_at.clone(),
        change_count: b.change_count,
    }
}

/// The backups as listed to the user: newest first by creation stamp,
/// equal stamps in the order found.
pub fn list(found: &Vec<BackupInfo>) -> (r: Vec<BackupInfo>)
    ensures
        exists|o: Seq<usize>|
            #![trigger permutes(o, found@.len() as int)]
            permutes(o, found@.len() as int) && newest_first_order(info_keys(found@), o) && r@.len()
                == o.len() && forall|k: int| 0 <= k < o.len() ==> r@[k] == found@[o[k] as int],
{
    let mut keys: Vec<String> = Vec::new();
    let mut i: usize = 0;
    while i < found.len()
        invariant
            i <= found@.len(),
            string_views(keys@) == info_keys(found@).take(i as int),
        decreases found@.len() - i,
    {
        let ghost before = keys@;
        keys.push(found[i].created_at.clone());
        proof {
            assert(string_views(keys@) =~= string_views(before).push(found@[i as int].created_at@));
            assert(info_keys(found@).take(i + 1) =~= info_keys(found@).take(i as int).push(
                found@[i as int].created_at@,
            ));
        }
        i = i + 1;
    }
    assert(info_keys(found@).take(found@.len() as int) =~= info_keys(found@));
    let order = newest_first(&keys);
    let mut out: Vec<BackupInfo> = Vec::new();
    let mut k: usize = 0;
    while k < order.len()
        invariant
            k <= order@.len(),
            permutes(order@, found@.len() as int),
            out@.len() == k,
            forall|j: int| 0 <= j < k ==> out@[j] == found@[order@[j] as int],
        decreases order@.len() - k,
    {
        out.push(clone_info(&found[order[k]]));
        k = k + 1;
    }
    assert(permutes(order@, found@.len() as int));
    out
}

/// The installations as listed to the user: newest first by creation
/// stamp, equal stamps in the order found.
pub fn list_installations(found: &Vec<InstallationSummary>) -> (r: Vec<InstallationSummary>)
    ensures
        exists|o: Seq<usize>|
            #![trigger permutes(o, found@.len() as int)]
            permutes(o, found@.len() as int) && newest_first_order(summary_keys(found@), o)
                && r@.len() == o.len() && forall|k: int| 0 <= k < o.len() ==> r@[k] == found@[o[k] as int],
{
    let mut keys: Vec<String> = Vec::new();
    let mut i: usize = 0;
    while i < found.len()
        invariant
            i <= found@.len(),
            string_views(keys@) == summary_keys(found@).take(i as int),
        decreases found@.len() - i,
    {
        let ghost before = keys@;
        keys.push(found[i].created_at.clone());
        proof {
            assert(string_views(keys@) =~= string_views(before).push(found@[i as int].created_at@));
            assert(summary_keys(found@).take(i + 1) =~= summary_keys(found@).take(i as int).push(
                found@[i as int].created_at@,
            ));
        }
        i = i + 1;
    }
    assert(summary_keys(found@).take(found@.len() as int) =~= summary_keys(found@));
    let order = newest_first(&keys);
    let mut out: Vec<InstallationSummary> = Vec::new();
    let mut k: usize = 0;
    while k < order.len()
        invariant
            k <= order@.len(),
            permutes(order@, found@.len() as int),
            out@.len() == k,
            forall|j: int| 0 <= j < k ==> out@[j] == found@[order@[j] as int],
        decreases order@.len() - k,
    {
        out.push(clone_summary(&found[order[k]]));
        k = k + 1;
    }
    assert(permutes(order@, found@.len() as int));
    out
}

/// The bytes freed by clearing the download cache: the sizes of the cache
/// files whose removal succeeded (`done[i]` as for `prune`), stopping at
/// `u64::MAX`.
pub fn clear_cache(done: &Vec<(bool, u64)>) -> (r: u64)
    ensures
        r == capped(freed_sum(done@, done@.len() as int)),
{
    prune(done, 0).freed_bytes
}

/// The total size of a folder's regular files.
pub open spec fn size_sum(sizes: Seq<u64>, n: int) -> int
    decreases n,
{
    if n <= 0 {
        0
    } else {
        size_sum(sizes, n - 1) + sizes[n - 1]
    }
}

proof fn lemma_size_sum_grows(sizes: Seq<u64>, a: int, b: int)
    requires
        0 <= a <= b <= sizes.len(),
    ensures
        size_sum(sizes, a) <= size_sum(sizes, b),
    decreases b,
{
    if a < b {
        lemma_size_sum_grows(sizes, a, b - 1);
    }
}

/// See `size_sum`; `sizes` are the sizes of the files found. The total
/// stops at `u64::MAX`.
pub fn directory_size(sizes: &Vec<u64>) -> (r: u64)
    ensures
        r == capped(size_sum(sizes@, sizes@.len() as int)),
{
    let mut total: u64 = 0;
    let mut i: usize = 0;
    while i < sizes.len()
        invariant
            i <= sizes@.len(),
            total == capped(size_sum(sizes@, i as int)),
        decreases sizes@.len() - i,
    {
        proof {
            lemma_size_sum_grows(sizes@, i as int, i + 1);
        }
        total = total.saturating_add(sizes[i]);
        i = i + 1;
    }
    total
}

/// The loader's data folder: `AnimusPatchLoader` under the local
/// application data folder, which must be known.
pub fn data_root(local: &Option<String>) -> (r: Result<String, LoaderError>)
    ensures
        match *local {
            Some(l) => r matches Ok(p) && p@ == join_path(l@, "AnimusPatchLoader"@),
            None => (r matches Err(LoaderError::Other(m)) && m@ == "Local app data bulunamadı"@),
        },
{
    match local {
        Some(l) => Ok(join_path_exec(l.as_str(), "AnimusPatchLoader")),
        None => Err(LoaderError::Other("Local app data bulunamadı".to_owned())),
    }
}

/// The folder of installation records under the data root.
pub fn installations_dir(data_root: &str) -> (r: String)
    ensures
        r@ == join_path(data_root@, "installations"@),
{
    join_path_exec(data_root, "installations")
}

} // verus!
