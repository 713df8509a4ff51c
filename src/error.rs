//! Errors of cleaning operations.
use vstd::prelude::*;

verus! {

/// Why a cleaning operation failed.
#[derive(Debug)]
pub enum CleanError {
    /// An I/O error, with its message.
    Io(String),
    /// A file could not be deleted.
    DeleteFailed { path: String },
    /// The platform lacks the capability; callers treat this as informational.
    NotSupported(String),
    /// A Windows API call failed, with its message.
    WindowsError(String),
}

impl CleanError {
    /// Whether this only reports a missing platform capability, which is
    /// informational and not counted as a failure.
    pub fn is_not_supported(&self) -> (r: bool)
        ensures
            r == (self is NotSupported),
    {
        matches!(self, CleanError::NotSupported(_))
    }
}

} // verus!
