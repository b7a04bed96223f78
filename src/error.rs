//! Errors of the checkpoint and revert engine.
use vstd::prelude::*;

verus! {

/// Why an operation on a session's transcript or records failed.
#[derive(Debug, Clone, Copy, PartialEq, Eq, Structural)]
pub enum TrackerError {
    /// The transcript holds `found` prompts, so there is none at `index`.
    PromptNotFound { index: usize, found: usize },
    /// The prompt at `index` has no git record, so its code cannot be
    /// reverted (it was sent from outside the application).
    NoGitRecord { index: usize },
    /// The git-record store is not a JSON object of well-formed records.
    MalformedRecords,
}

} // verus!
