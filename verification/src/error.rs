//! The error type of the loader.
use vstd::prelude::*;

verus! {

/// Why an operation of the loader was refused or failed. Each variant carries
/// the detail that is shown to the user.
#[derive(Debug)]
pub enum LoaderError {
    /// A path that could leave its root, or is not a plain relative path.
    UnsafePath(String),
    /// A manifest (or an archive's layout) that the loader does not accept.
    Manifest(String),
    /// Content whose hash, size or structure is not the expected one.
    Integrity(String),
    /// Files that changed since the loader wrote them, or a state that would
    /// overwrite user data.
    Conflict(String),
    /// The game is running.
    GameRunning(String),
    /// A file system operation failed.
    Io(String),
    /// The archive could not be read.
    Zip(String),
    /// A download failed.
    Http(String),
    /// A JSON document could not be read or written.
    Json(String),
    /// Any other failure.
    Other(String),
}

} // verus!
