//! Verified core of the Animus patch loader: manifest and path validation,
//! the FAT2/DAT append format, version gates, journal and backup decisions,
//! and the Animus package format.
pub mod backup;
pub mod credential;
pub mod download;
pub mod emulator;
pub mod error;
pub mod game_detection;
pub mod hashing;
pub mod logging;
pub mod models;
pub mod order;
pub mod packer;
pub mod patch;
pub mod security;
pub mod storage;
pub mod text;
