//! The supervisor's restart policy: a component that stops cleanly is left
//! stopped; one that fails is started again after a five-second backoff.

use vstd::prelude::*;

verus! {

/// How long to wait before restarting a failed component, in milliseconds.
pub open spec fn restart_backoff_ms() -> u64 {
    5000
}

/// Decides what follows a component's exit: `None` leaves a cleanly stopped
/// component stopped, `Some(delay)` restarts a failed one after the backoff.
pub fn restart_decision(clean_exit: bool) -> (r: Option<u64>)
    ensures
        r == (if clean_exit {
            None
        } else {
            Some(restart_backoff_ms())
        }),
{
    if clean_exit {
        None
    } else {
        Some(5000)
    }
}

} // verus!
