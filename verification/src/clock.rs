//! Wall-clock time in milliseconds since the Unix epoch.

use vstd::prelude::*;

verus! {

/// Reads the system clock with `std::time::SystemTime::now` and measures it
/// against the Unix epoch with `duration_since`: the milliseconds elapsed, or
/// nothing where the clock stands before the epoch. Nothing is claimed of the
/// value: it depends on the machine's clock.
#[verifier::external_body]
fn millis_since_epoch() -> (elapsed: Option<u128>) {
    match std::time::SystemTime::now().duration_since(std::time::UNIX_EPOCH) {
        Ok(elapsed) => Some(elapsed.as_millis()),
        Err(_) => None,
    }
}

/// The time now in milliseconds since the Unix epoch, or nothing where the
/// clock stands before the epoch: such a reading is no time, and the caller
/// decides what to do without one.
pub fn get_now_millis() -> (millis: Option<u128>) {
    millis_since_epoch()
}

} // verus!
