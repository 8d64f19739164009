//! The ways in which an operation of the merge review can fail.

use vstd::prelude::*;
use vstd::string::StringExecFns;

verus! {

/// Why an operation failed. Every failure leaves the session usable; none
/// ends the program.
#[derive(Clone, Copy, Debug, PartialEq, Eq, Structural)]
pub enum MergeError {
    /// The merge-state sentinel or a conflicted file is missing, unreadable
    /// or does not hold a commit identifier.
    NotFound,
    /// A conflict block is not closed.
    ParseIncomplete,
    /// A file could not be read or written while resolutions were applied.
    IOFailure,
    /// The merge state is not what the operation was prepared for.
    StateError,
    /// The repository refused or failed an operation.
    BackendFailure,
    /// Completion was asked for while hunks are unresolved.
    PreconditionFailed,
}

/// The one-line text shown for an error.
pub open spec fn error_text(error: MergeError) -> Seq<char> {
    match error {
        MergeError::NotFound => "merge state not found."@,
        MergeError::ParseIncomplete => "conflict block is not closed."@,
        MergeError::IOFailure => "failed to read or write a conflicted file."@,
        MergeError::StateError => "merge state has changed."@,
        MergeError::BackendFailure => "repository operation failed."@,
        MergeError::PreconditionFailed => "cannot complete merge, some conflicts are unresolved."@,
    }
}

impl MergeError {
    /// The one-line text shown for this error.
    pub fn message(&self) -> (text: String)
        ensures
            text@ == error_text(*self),
    {
        match self {
            MergeError::NotFound => String::from_str("merge state not found."),
            MergeError::ParseIncomplete => String::from_str("conflict block is not closed."),
            MergeError::IOFailure => String::from_str("failed to read or write a conflicted file."),
            MergeError::StateError => String::from_str("merge state has changed."),
            MergeError::BackendFailure => String::from_str("repository operation failed."),
            MergeError::PreconditionFailed => String::from_str(
                "cannot complete merge, some conflicts are unresolved.",
            ),
        }
    }
}

} // verus!
