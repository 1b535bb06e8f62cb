//! Errors of session handling.

use vstd::prelude::*;

verus! {

/// Why a session operation failed.
#[derive(Debug, PartialEq, Eq)]
pub enum NonoError {
    /// The home directory of the user cannot be determined.
    HomeNotFound,
    /// A session directory or its contents cannot be read, written or removed.
    Snapshot(String),
    /// There is no such session.
    SessionNotFound(String),
}

/// Whether `e` is a [`NonoError::SessionNotFound`] that says `message`.
pub open spec fn is_not_found(e: NonoError, message: Seq<char>) -> bool {
    e matches NonoError::SessionNotFound(text) && text@ == message
}

/// Whether `e` is a [`NonoError::Snapshot`] that says `message`.
pub open spec fn is_snapshot_error(e: NonoError, message: Seq<char>) -> bool {
    e matches NonoError::Snapshot(text) && text@ == message
}

} // verus!
