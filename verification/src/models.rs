//! The data the loader reads from patch manifests and keeps on disk.
use vstd::prelude::*;

verus! {

/// A patch manifest (schema v1) as published by the server.
pub struct Manifest {
    pub schema_version: u16,
    pub game: Game,
    pub detection: Detection,
    pub patch: Patch,
    pub archive: Archive,
    pub install_actions: Vec<Action>,
    pub integrity: Integrity,
    pub backup: BackupRule,
}

/// The game a manifest is for.
pub struct Game {
    pub id: u64,
    pub slug: String,
    pub name: String,
}

/// How the game's folder is recognised.
pub struct Detection {
    pub steam_app_id: Option<String>,
    pub epic_catalog_id: Option<String>,
    pub executable: String,
    pub process_name: Option<String>,
    pub required_files: Vec<String>,
    pub optional_files: Vec<String>,
}

/// The patch release a manifest describes.
pub struct Patch {
    pub id: u64,
    pub version: String,
    pub game_version: Option<String>,
    pub minimum_loader_version: String,
    pub mandatory: bool,
    pub channel: String,
}

/// Where the patch archive comes from and what it must hash to.
pub struct Archive {
    pub download_token_url: String,
    pub sha256: String,
    pub size: u64,
}

/// What is checked after installation.
pub struct Integrity {
    pub verify_after_install: bool,
    pub conflict_policy: String,
}

/// The backup policy of a manifest.
pub struct BackupRule {
    pub automatic: bool,
    pub retain_until_uninstall: bool,
}

/// One value of an action's `options` object, reduced to what the loader reads.
pub enum OptionValue {
    /// A JSON string.
    Text(String),
    /// A JSON number that is a non-negative integer.
    Unsigned(u64),
    /// Any other JSON value.
    Other,
}

/// One key of an action's `options` object.
pub struct ActionOption {
    pub key: String,
    pub value: OptionValue,
}

/// One install action of a manifest.
pub struct Action {
    pub id: String,
    pub kind: ActionType,
    pub source: Option<String>,
    pub destination: String,
    pub backup: bool,
    pub expected_sha256: Option<String>,
    pub options: Vec<ActionOption>,
}

/// The allow-listed install actions.
#[derive(Clone, Copy, Debug, PartialEq, Eq, Structural)]
pub enum ActionType {
    CopyFile,
    CopyDirectory,
    ReplaceFile,
    DeleteFile,
    DeleteDirectory,
    CreateDirectory,
    MoveFile,
    RenameFile,
    /// Append one uncompressed entry to a FAT2/DAT archive pair.
    AppendFatDat,
}

/// One change the loader made to a game folder, as recorded in the journal.
pub struct ChangeRecord {
    pub kind: ChangeKind,
    pub path: String,
    pub secondary_path: Option<String>,
    pub backup_path: Option<String>,
    pub original_sha256: Option<String>,
    pub installed_sha256: Option<String>,
}

/// What kind of change a journal record describes.
#[derive(Clone, Copy, Debug, PartialEq, Eq, Structural)]
pub enum ChangeKind {
    CreatedFile,
    ReplacedFile,
    DeletedFile,
    CreatedDirectory,
    MovedFile,
    /// A FAT2/DAT pair extended in place; its undo record is in the backup.
    PatchedArchive,
}

/// The local record of an installed patch.
pub struct Installation {
    pub schema_version: u16,
    pub game_id: u64,
    pub game_name: String,
    pub patch_id: u64,
    pub patch_version: String,
    pub game_root: String,
    pub backup_id: String,
    pub created_at: String,
    pub active: bool,
    pub changes: Vec<ChangeRecord>,
}

/// What an install would do, counted before anything is changed.
pub struct DryRun {
    pub created_files: u64,
    pub changed_files: u64,
    pub deleted_files: u64,
    pub backup_files: u64,
    pub download_bytes: u64,
    pub estimated_disk_bytes: u64,
    pub warnings: Vec<String>,
}

/// The result of comparing installed files with their recorded hashes.
pub struct Verification {
    pub valid: bool,
    pub checked: u64,
    pub conflicts: Vec<String>,
}

/// One backup folder, as listed to the user.
pub struct BackupInfo {
    pub id: String,
    pub game_name: String,
    pub version: String,
    pub created_at: String,
    pub size_bytes: u64,
    pub active: bool,
}

/// One installation record, as listed to the user.
pub struct InstallationSummary {
    pub game_id: u64,
    pub game_name: String,
    pub patch_id: u64,
    pub patch_version: String,
    pub root_exists: bool,
    pub game_root: String,
    pub backup_exists: bool,
    pub backup_id: String,
    pub created_at: String,
    pub change_count: u64,
}

/// What a storage prune removed.
pub struct PruneReport {
    pub removed_backups: u64,
    pub freed_bytes: u64,
    pub cache_bytes: u64,
}

/// What an uninstall restored.
pub struct UninstallReport {
    pub restored: u64,
    pub forced: bool,
    pub conflicts: Vec<String>,
}

/// A progress event of a long operation.
pub struct Progress {
    pub stage: String,
    pub percent: u8,
    pub message: String,
    pub downloaded_bytes: Option<u64>,
    pub total_bytes: Option<u64>,
    pub bytes_per_second: Option<u64>,
}

} // verus!
