//! The one bridge to the machine clock.

use vstd::prelude::*;

verus! {

/// Relies on std::time::SystemTime::now and duration_since: the current
/// time as whole microseconds since the Unix epoch, 0 when the clock
/// reads earlier than the epoch and saturating at u64::MAX. Nothing is
/// promised of the value: callers state what holds for every reading.
#[verifier::external_body]
pub fn now_micros() -> u64 {
    match std::time::SystemTime::now().duration_since(std::time::UNIX_EPOCH) {
        Ok(d) => {
            let m = d.as_micros();
            if m > u64::MAX as u128 {
                u64::MAX
            } else {
                m as u64
            }
        },
        Err(_) => 0,
    }
}

} // verus!
