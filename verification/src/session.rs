//! The per-thread threading-model resource that brackets every operation.

use vstd::prelude::*;

verus! {

/// The status with which the platform refuses to change a threading model
/// that somebody else has already established on the calling thread.
pub const CHANGED_MODE: i32 = -2147417850;

/// The threading model that every operation asks for: one apartment for the
/// calling thread alone.
pub const APARTMENT_THREADED: i32 = 2;

/// How an attempt to establish the threading model ended.
#[derive(Clone, Copy, Debug, PartialEq, Eq, Structural)]
pub enum Acquisition {
    /// This call established it and has to release it.
    Owned,
    /// Somebody else holds the thread in another mode; the call goes on and
    /// releases nothing.
    Borrowed,
    /// The platform refused; the operation cannot run.
    Refused,
}

/// A status code of the platform reports success when it is not negative.
pub open spec fn is_success(code: int) -> bool {
    code >= 0
}

/// The acquisition that a status code stands for.
pub open spec fn acquisition_of(code: int) -> Acquisition {
    if code == CHANGED_MODE {
        Acquisition::Borrowed
    } else if is_success(code) {
        Acquisition::Owned
    } else {
        Acquisition::Refused
    }
}

/// The operation may go on after this reply to the acquisition.
pub open spec fn usable(code: int) -> bool {
    acquisition_of(code) != Acquisition::Refused
}

/// This call has to release the session after this reply to the acquisition.
pub open spec fn owns(code: int) -> bool {
    acquisition_of(code) == Acquisition::Owned
}

/// Whether a platform status reports success.
pub fn status_is_success(code: i32) -> (ok: bool)
    ensures
        ok == is_success(code as int),
{
    code >= 0
}

/// Reads the reply to an acquisition attempt.
pub fn classify_acquisition(code: i32) -> (acquisition: Acquisition)
    ensures
        acquisition == acquisition_of(code as int),
{
    if code == CHANGED_MODE {
        Acquisition::Borrowed
    } else if status_is_success(code) {
        Acquisition::Owned
    } else {
        Acquisition::Refused
    }
}

impl Acquisition {
    /// Whether the operation may go on.
    pub fn usable(&self) -> (yes: bool)
        ensures
            yes == (*self != Acquisition::Refused),
    {
        match self {
            Acquisition::Refused => false,
            _ => true,
        }
    }

    /// Whether the session has to be released when the operation is over.
    pub fn must_release(&self) -> (yes: bool)
        ensures
            yes == (*self == Acquisition::Owned),
    {
        match self {
            Acquisition::Owned => true,
            _ => false,
        }
    }
}

/// Only an acquisition that this call made is released: a refused or a
/// borrowed session never is.
pub proof fn lemma_release_only_if_acquired(code: int)
    ensures
        owns(code) ==> usable(code),
        owns(code) <==> (is_success(code) && code != CHANGED_MODE),
        usable(code) <==> (is_success(code) || code == CHANGED_MODE),
{
}

} // verus!
