//! Locating an installed game and keeping a version-keyed cache of its files.
//!
//! The functions here hold the decisions; reading the process table, the
//! registry, the file system and the persisted record is left to the caller,
//! which hands the results in as plain values.

pub mod finder;
pub mod state;
pub mod text;
