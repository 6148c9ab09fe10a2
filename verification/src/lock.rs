//! The store locking discipline.
//!
//! Opening a store places an exclusive advisory lock on the `objects/`
//! directory descriptor.  The lock syscall itself is host I/O and lives in
//! the surrounding application; this module fixes the decision table: what
//! each outcome of a lock attempt means under either locking method.

use vstd::prelude::*;

use crate::errors::ObjectStoreError;

verus! {

/// POSIX code for an interrupted call.
pub const EINTR: i32 = 4;

/// POSIX code for an operation that would block.
pub const EWOULDBLOCK: i32 = 11;

/// How to obtain the store lock: fail fast, or wait for it.
#[derive(Debug, Clone, Copy, PartialEq, Eq, Structural)]
pub enum LockingMethod {
    TryLock,
    WaitForLock,
}

/// What to do after one lock attempt.
#[derive(Debug)]
pub enum LockStep {
    /// The lock is held.
    Locked,
    /// The call was interrupted; repeat the non-blocking attempt.
    Retry,
    /// The lock is contended and waiting was requested; attempt a
    /// blocking acquisition next.
    WaitBlocking,
    /// Give up with this error.
    Fail(ObjectStoreError),
}

/// Decides after a non-blocking lock attempt that ended with `errno`
/// (zero on success): contention fails a `TryLock` with `NoLock`, turns a
/// `WaitForLock` into a blocking attempt, and interruptions are retried.
pub fn lock_try_decision(errno: i32, method: &LockingMethod) -> (r: LockStep)
    ensures
        errno == 0 ==> r is Locked,
        errno == EINTR ==> r is Retry,
        errno == EWOULDBLOCK && method is WaitForLock ==> r is WaitBlocking,
        errno == EWOULDBLOCK && method is TryLock ==> (r matches LockStep::Fail(e)
            && e is NoLock),
        errno != 0 && errno != EINTR && errno != EWOULDBLOCK ==> (r matches LockStep::Fail(e)
            && e matches ObjectStoreError::IoError(c) && c == errno),
{
    if errno == 0 {
        LockStep::Locked
    } else if errno == EINTR {
        LockStep::Retry
    } else if errno == EWOULDBLOCK {
        if matches!(method, LockingMethod::WaitForLock) {
            LockStep::WaitBlocking
        } else {
            LockStep::Fail(ObjectStoreError::NoLock)
        }
    } else {
        LockStep::Fail(ObjectStoreError::IoError(errno))
    }
}

/// Decides after a blocking lock attempt that ended with `errno`:
/// interruptions are retried, anything else but success is a host error.
pub fn lock_wait_decision(errno: i32) -> (r: LockStep)
    ensures
        errno == 0 ==> r is Locked,
        errno == EINTR ==> r is Retry,
        errno != 0 && errno != EINTR ==> (r matches LockStep::Fail(e)
            && e matches ObjectStoreError::IoError(c) && c == errno),
{
    if errno == 0 {
        LockStep::Locked
    } else if errno == EINTR {
        LockStep::Retry
    } else {
        LockStep::Fail(ObjectStoreError::IoError(errno))
    }
}

} // verus!
