//! Download-completion detection for a downloads folder, a small recency list
//! of destination folders, and the decisions behind the file commands.
//!
//! Everything here is pure: the filesystem, the clock and the UI are read and
//! driven by the caller, which hands the results in as plain values.
pub mod text;
pub mod classify;
pub mod settle;
pub mod watcher;
pub mod recent;
pub mod relocate;
pub mod shell;
