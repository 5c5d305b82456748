//! Wall-clock instants, measured in microseconds.

use vstd::prelude::*;

verus! {

/// Relies on `std::time::SystemTime::now`, read out through
/// `duration_since(UNIX_EPOCH)` as a plain count of microseconds, saturating
/// at the ends.  Nothing is assumed of the value: the clock may move
/// arbitrarily between calls.
#[verifier::external_body]
pub fn now_micros() -> u64 {
    match std::time::SystemTime::now().duration_since(std::time::UNIX_EPOCH) {
        Ok(d) => {
            let m = d.as_micros();
            if m > u64::MAX as u128 {
                u64::MAX
            } else {
                m as u64
            }
        },
        Err(_) => 0,
    }
}

/// A point in time: microseconds since the UNIX epoch.
#[derive(Clone, Copy, Debug, PartialEq, Eq, Structural)]
pub struct Instant {
    pub micros: u64,
}

/// The microseconds from an instant to a clock reading, zero if the clock
/// went backwards in between.
pub open spec fn spec_elapsed(micros: u64, now: u64) -> int {
    if now >= micros {
        now as int - micros as int
    } else {
        0
    }
}

impl Instant {
    /// Read the clock.
    pub fn now() -> Instant {
        Instant { micros: now_micros() }
    }

    /// Microseconds from this instant to the given clock reading.
    pub fn elapsed_at(&self, now: u64) -> (r: u64)
        ensures
            r as int == spec_elapsed(self.micros, now),
    {
        if now >= self.micros {
            now - self.micros
        } else {
            0
        }
    }

    /// Microseconds passed since this instant, against the clock's reading
    /// at the moment of the call.
    pub fn elapsed(&self) -> (r: u64)
        ensures
            exists|now: u64| r as int == spec_elapsed(self.micros, now),
    {
        let n: u64 = now_micros();
        let r: u64 = self.elapsed_at(n);
        proof {
            assert(r as int == spec_elapsed(self.micros, n));
        }
        r
    }
}

} // verus!
