//! Settle confirmation: the second look at a candidate after the quiet delay.
use vstd::prelude::*;

use crate::classify::PathState;

verus! {

/// How long, in milliseconds, a candidate stays quiet before it is confirmed.
pub const QUIESCENCE_MS: u64 = 500;

/// A confirmed download, handed to the UI once.
#[derive(Debug)]
pub struct CompletionRecord {
    /// The file name alone.
    pub name: String,
    /// The full path.
    pub path: String,
    /// The length in bytes when the download was confirmed.
    pub size_bytes: u64,
}

/// The value a `CompletionRecord` holds.
pub ghost struct Completion {
    pub name: Seq<char>,
    pub path: Seq<char>,
    pub size_bytes: u64,
}

impl View for CompletionRecord {
    type V = Completion;

    open spec fn view(&self) -> Completion {
        Completion { name: self.name@, path: self.path@, size_bytes: self.size_bytes }
    }
}

/// The value an optional record holds.
pub open spec fn completion_of(r: Option<CompletionRecord>) -> Option<Completion> {
    match r {
        Some(c) => Some(c@),
        None => None,
    }
}

/// What settling yields: a record with the current length for a regular file,
/// nothing for a path that is gone, unreadable or no regular file.
pub open spec fn settled(name: Seq<char>, path: Seq<char>, state: PathState) -> Option<Completion> {
    match state {
        PathState::File { size } => Some(Completion { name, path, size_bytes: size }),
        _ => None,
    }
}

/// Confirms a candidate from what a metadata read after the quiet delay found.
pub fn confirm(name: String, path: String, state: PathState) -> (r: Option<CompletionRecord>)
    ensures
        completion_of(r) == settled(name@, path@, state),
{
    match state {
        PathState::File { size } => Some(CompletionRecord { name, path, size_bytes: size }),
        _ => None,
    }
}

} // verus!
