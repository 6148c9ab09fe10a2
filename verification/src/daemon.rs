//! Messages and exit codes at the process boundary.
//!
//! A daemonized child reports the outcome of its initialization to the
//! waiting parent with a single message; commands turn the first error
//! into a process exit code.  The transport (process forking, the IPC
//! channel) lives in the surrounding application.

use vstd::prelude::*;

use crate::errors::ObjectStoreError;

verus! {

/// POSIX code for an entry that already exists.
pub const EEXIST: i32 = 17;

/// Generic failure exit code.
pub const EXIT_FAILURE: i32 = 1;

/// Carries a possible error from the child process to the parent.
#[derive(Debug)]
pub struct CallbackMessage {
    /// Whether the child failed.
    pub is_error: bool,
    /// The POSIX error code, when one exists.
    pub os_error: Option<i32>,
    /// A human-readable description.
    pub message: String,
}

impl CallbackMessage {
    /// The message for an actual I/O failure.
    pub fn from_io_error(os_error: Option<i32>, message: String) -> (r: Self)
        ensures
            r.is_error,
            r.os_error == os_error,
            r.message == message,
    {
        CallbackMessage { is_error: true, os_error, message }
    }

    /// The fallback when no reply arrived from the child.
    pub fn faulty() -> (r: Self)
        ensures
            r.is_error,
            r.os_error is None,
            r.message@ == "No reply from child"@,
    {
        CallbackMessage {
            is_error: true,
            os_error: None,
            message: String::from_str("No reply from child"),
        }
    }

    /// The message of a child that came up without error.
    pub fn success() -> (r: Self)
        ensures
            !r.is_error,
            r.os_error is None,
            r.message@ == Seq::<char>::empty(),
    {
        let message = String::from_str("");
        proof {
            reveal_strlit("");
            assert(message@ =~= Seq::<char>::empty());
        }
        CallbackMessage { is_error: false, os_error: None, message }
    }
}

/// The exit code a failed command reports: the preserved POSIX code when
/// one exists, the exists-already code for an existing object, and plain
/// failure otherwise.
pub fn error_to_exitcode(error: &ObjectStoreError) -> (r: i32)
    ensures
        error matches ObjectStoreError::IoError(c) ==> r == c,
        error is ObjectExists ==> r == EEXIST,
        !(error is IoError) && !(error is ObjectExists) ==> r == EXIT_FAILURE,
{
    match error {
        ObjectStoreError::IoError(c) => *c,
        ObjectStoreError::ObjectExists(_) => EEXIST,
        _ => EXIT_FAILURE,
    }
}

} // verus!
