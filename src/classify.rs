//! The path classifier: which change notifications may announce a finished
//! download.
use vstd::prelude::*;

use crate::text::{ends_with, has_prefix, has_suffix, starts_with};

verus! {

/// What the host reported about a path.
#[derive(Clone, Copy, Debug, PartialEq, Eq, Structural)]
pub enum ChangeKind {
    /// The path was created.
    Created,
    /// The path got its name through a rename.
    Renamed,
    /// Any other change (content, metadata, removal, ...).
    Other,
}

/// What a metadata read of a path found.
#[derive(Clone, Copy, Debug, PartialEq, Eq, Structural)]
pub enum PathState {
    /// The path is gone, or its metadata could not be read.
    Unavailable,
    /// The path exists but is no regular file (a directory, for one).
    NotFile,
    /// A regular file of the given length in bytes.
    File { size: u64 },
}

/// The classifier's verdict on one path of one change notification.
#[derive(Clone, Copy, Debug, PartialEq, Eq, Structural)]
pub enum Classification {
    /// The kind of change never announces a download.
    Ignore,
    /// A partial download, a hidden or temporary file, or no regular file.
    Noise,
    /// Possibly a finished download: to be confirmed after a quiet delay.
    Candidate,
}

/// Creations and renames are the changes that can announce a download.
pub open spec fn is_relevant(kind: ChangeKind) -> bool {
    kind is Created || kind is Renamed
}

/// The file name marks a download still in progress, or a hidden file.
pub open spec fn marks_in_progress(name: Seq<char>) -> bool {
    has_suffix(name, ".crdownload"@) || has_suffix(name, ".tmp"@) || has_suffix(name, ".partial"@)
        || has_suffix(name, ".download"@) || has_prefix(name, "."@)
}

/// The classification rules, in order: the kind of change, the name, then
/// what is on disk.
pub open spec fn classification(kind: ChangeKind, name: Seq<char>, state: PathState) -> Classification {
    if !is_relevant(kind) {
        Classification::Ignore
    } else if marks_in_progress(name) {
        Classification::Noise
    } else if !(state is File) {
        Classification::Noise
    } else {
        Classification::Candidate
    }
}

/// Whether a file name marks a download in progress or a hidden file.
pub fn is_in_progress_name(name: &str) -> (r: bool)
    ensures
        r == marks_in_progress(name@),
{
    ends_with(name, ".crdownload") || ends_with(name, ".tmp") || ends_with(name, ".partial")
        || ends_with(name, ".download") || starts_with(name, ".")
}

/// Classifies one path of a change notification, from the kind of change, the
/// path's file name and what a metadata read of the path found.
pub fn classify(kind: ChangeKind, name: &str, state: PathState) -> (c: Classification)
    ensures
        c == classification(kind, name@, state),
{
    match kind {
        ChangeKind::Other => Classification::Ignore,
        _ => {
            if is_in_progress_name(name) {
                Classification::Noise
            } else {
                match state {
                    PathState::File { .. } => Classification::Candidate,
                    _ => Classification::Noise,
                }
            }
        },
    }
}

/// A name that ends in `.crdownload`, `.tmp`, `.partial` or `.download`, or
/// begins with a dot, is noise for every change kind that can announce a
/// download, whatever the disk shows.
pub proof fn lemma_in_progress_names_are_noise(kind: ChangeKind, name: Seq<char>, state: PathState)
    requires
        is_relevant(kind),
        has_suffix(name, ".crdownload"@) || has_suffix(name, ".tmp"@) || has_suffix(name, ".partial"@)
            || has_suffix(name, ".download"@) || has_prefix(name, "."@),
    ensures
        classification(kind, name, state) == Classification::Noise,
{
}

/// A path that is no regular file when it is classified (a directory, or a
/// path that is gone) is noise for every change kind that can announce a
/// download.
pub proof fn lemma_non_files_are_noise(kind: ChangeKind, name: Seq<char>, state: PathState)
    requires
        is_relevant(kind),
        !(state is File),
    ensures
        classification(kind, name, state) == Classification::Noise,
{
}

/// A change that is neither a creation nor a rename is ignored, for every path.
pub proof fn lemma_other_changes_are_ignored(name: Seq<char>, state: PathState)
    ensures
        classification(ChangeKind::Other, name, state) == Classification::Ignore,
{
}

} // verus!
