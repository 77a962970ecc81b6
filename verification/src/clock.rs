//! Wall-clock time, used to stamp checkpoints, seals and events.

use vstd::prelude::*;

verus! {

/// `SystemTime::now().duration_since(UNIX_EPOCH)`: whole seconds since the
/// epoch, or `None` when the system clock reads earlier than the epoch. What
/// it returns depends on the clock, so nothing is stated of it.
#[verifier::external_body]
fn seconds_since_epoch() -> Option<u64> {
    std::time::SystemTime::now().duration_since(std::time::UNIX_EPOCH).ok().map(|d| d.as_secs())
}

/// Current unix timestamp in seconds (`0` if the clock is before the epoch).
pub fn now_secs() -> u64 {
    match seconds_since_epoch() {
        Some(s) => s,
        None => 0,
    }
}

} // verus!
