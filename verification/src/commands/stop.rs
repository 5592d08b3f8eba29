//! Stopping the supervised node from the command surface.

use vstd::prelude::*;

use crate::error::TronCtlError;
use crate::process::ProcessManager;

verus! {

/// Stop the node: gracefully by default, escalating only after the whole
/// wait window; forced at once on request. With no node recorded or alive,
/// NodeNotRunning.
pub fn execute(force: bool) -> (r: Result<(), TronCtlError>)
    ensures
        r matches Err(e) ==> (e is NodeNotRunning || e is ProcessStartFailed || e is ConfigError
            || e is IoError),
{
    ProcessManager::stop(force)
}

} // verus!
