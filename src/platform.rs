//! Emptying the platform's recycle bin.
use vstd::prelude::*;
use crate::error::CleanError;

verus! {

/// Empties the recycle bin. Unix-like systems have no unified one (each
/// desktop environment keeps its own trash), so this reports that the
/// platform does not support it, in a dry run as well.
pub fn clean_recycle_bin(dry_run: bool) -> (r: Result<(), CleanError>)
    ensures
        r matches Err(CleanError::NotSupported(m)) && m@
            == "Recycle Bin is not available on Unix/Linux systems"@,
{
    Err(CleanError::NotSupported(String::from_str("Recycle Bin is not available on Unix/Linux systems")))
}

} // verus!
