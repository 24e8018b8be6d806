//! Path and archive rules that keep every write inside its root.
pub mod archive;
pub mod path;
