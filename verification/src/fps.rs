//! A sliding-window frame-rate counter.

use vstd::prelude::*;
use crate::time::now_micros;

verus! {

/// The shortest history that pruning keeps.
pub const MIN_SAMPLES: usize = 3;

/// Drop leading ticks that fell out of the window, but never shrink the
/// history below `MIN_SAMPLES` entries.
pub open spec fn spec_prune(s: Seq<u64>, now: u64, window: u64) -> Seq<u64>
    decreases s.len(),
{
    if s.len() >= MIN_SAMPLES as int && (s[0] as int + window as int) < now as int {
        spec_prune(s.drop_first(), now, window)
    } else {
        s
    }
}

/// Thousandths of frames per second over a tick history: the number of kept
/// ticks over the span from the oldest kept tick to now, saturating at the
/// largest reportable rate.
pub open spec fn spec_fps_milli(s: Seq<u64>, now: u64) -> int {
    if s.len() == 0 {
        0
    } else {
        let span = if now as int > s[0] as int {
            now as int - s[0] as int
        } else {
            1
        };
        let raw = (s.len() as int * 1_000_000_000) / span;
        if raw > u64::MAX as int {
            u64::MAX as int
        } else {
            raw
        }
    }
}

/// Counts the frames rendered within a recent time window.
#[derive(Debug)]
pub struct FpsCounter {
    pub count_window: u64,
    pub tick_history: Vec<u64>,
}

impl FpsCounter {
    /// A counter over a window of the given length in microseconds.
    pub fn new(count_window: u64) -> (r: Self)
        ensures
            r.count_window == count_window,
            r.tick_history@ =~= Seq::<u64>::empty(),
    {
        FpsCounter { count_window, tick_history: Vec::new() }
    }

    /// Record a tick at the given time and report thousandths of frames per
    /// second over the pruned history.
    pub fn tick_at(&mut self, now: u64) -> (r: u64)
        ensures
            final(self).count_window == old(self).count_window,
            final(self).tick_history@ == spec_prune(
                old(self).tick_history@.push(now),
                now,
                old(self).count_window,
            ),
            r as int == spec_fps_milli(final(self).tick_history@, now),
    {
        self.tick_history.push(now);
        loop
            invariant
                self.count_window == old(self).count_window,
                spec_prune(self.tick_history@, now, self.count_window) == spec_prune(
                    old(self).tick_history@.push(now),
                    now,
                    old(self).count_window,
                ),
            ensures
                self.count_window == old(self).count_window,
                self.tick_history@ == spec_prune(
                    old(self).tick_history@.push(now),
                    now,
                    old(self).count_window,
                ),
            decreases self.tick_history@.len(),
        {
            if self.tick_history.len() >= MIN_SAMPLES {
                let front: u64 = self.tick_history[0];
                if (front as u128 + self.count_window as u128) < now as u128 {
                    let ghost prev = self.tick_history@;
                    self.tick_history.remove(0);
                    proof {
                        assert(self.tick_history@ =~= prev.drop_first());
                    }
                } else {
                    break;
                }
            } else {
                break;
            }
        }
        let len: usize = self.tick_history.len();
        if len == 0 {
            return 0;
        }
        let front: u64 = self.tick_history[0];
        let span: u64 = if now > front {
            now - front
        } else {
            1
        };
        proof {
            vstd::arithmetic::mul::lemma_mul_upper_bound(
                len as int,
                0xFFFF_FFFF_FFFF_FFFF,
                1_000_000_000,
                1_000_000_000,
            );
            vstd::arithmetic::div_mod::lemma_div_nonincreasing(
                len as int * 1_000_000_000,
                span as int,
            );
        }
        let fps: u128 = (len as u128) * 1_000_000_000 / (span as u128);
        if fps > 0xFFFF_FFFF_FFFF_FFFFu128 {
            u64::MAX
        } else {
            fps as u64
        }
    }

    /// Record a tick at the current wall-clock time.
    pub fn tick(&mut self) -> (r: u64)
        ensures
            final(self).count_window == old(self).count_window,
            exists|now: u64|
                final(self).tick_history@ == spec_prune(
                    old(self).tick_history@.push(now),
                    now,
                    old(self).count_window,
                ) && r as int == spec_fps_milli(final(self).tick_history@, now),
    {
        let now: u64 = now_micros();
        let r: u64 = self.tick_at(now);
        proof {
            assert(self.tick_history@ == spec_prune(
                old(self).tick_history@.push(now),
                now,
                old(self).count_window,
            ) && r as int == spec_fps_milli(self.tick_history@, now));
        }
        r
    }
}

} // verus!
