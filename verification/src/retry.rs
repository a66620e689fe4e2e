//! Classification of transient I/O conditions.
//!
//! Opening a file retries for as long as the attempt fails with a transient
//! condition (a timeout or a signal interruption); any other failure is
//! permanent.  While reading, one spurious error code raised by a benign
//! filesystem race is treated as "no bytes yet" rather than a hard failure.

use vstd::prelude::*;

verus! {

/// The kind of error an open attempt can end with, as far as the retry
/// policy cares: the two transient kinds, and everything else.
#[derive(Clone, Copy, PartialEq, Eq, Structural, Debug)]
pub enum AttemptError {
    TimedOut,
    Interrupted,
    Other,
}

/// A transient condition resolves itself without caller intervention and
/// warrants an immediate new attempt.
pub open spec fn is_transient(e: AttemptError) -> bool {
    e is TimedOut || e is Interrupted
}

/// Decides whether a failed open attempt is retried (transient) or turned
/// into a permanent failure.
pub fn error_is_transient(e: &AttemptError) -> (r: bool)
    ensures
        r == is_transient(*e),
{
    match e {
        AttemptError::TimedOut => true,
        AttemptError::Interrupted => true,
        AttemptError::Other => false,
    }
}

/// Decides whether a read error is the spurious platform condition
/// (raw OS error 16, raised by a benign driver race) that the read loop
/// absorbs by waiting for more bytes instead of aborting.
pub fn read_error_is_spurious(raw_os: Option<i32>) -> (r: bool)
    ensures
        r == (raw_os == Some(16i32)),
{
    match raw_os {
        Some(code) => code == 16,
        None => false,
    }
}

} // verus!
