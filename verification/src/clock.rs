//! The clock the native `clock` function reads.

use vstd::prelude::*;

verus! {

/// A source of wall-clock readings.
pub struct Clock;

impl Clock {
    pub fn new() -> (c: Clock) {
        Clock
    }

    /// Relies on `std::time::SystemTime`: the whole seconds of the current
    /// system time since the Unix epoch, or zero when the system clock
    /// stands before the epoch. The reading depends on when it is taken,
    /// so nothing is promised about the value.
    #[verifier::external_body]
    pub fn sec(&self) -> i64 {
        match std::time::SystemTime::now().duration_since(std::time::SystemTime::UNIX_EPOCH) {
            Ok(d) => d.as_secs() as i64,
            Err(_) => 0,
        }
    }
}

} // verus!
