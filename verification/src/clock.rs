//! A periodic countdown timer, counted in whole milliseconds.

use vstd::prelude::*;

verus! {

/// A repeating countdown clock. Each simulation tick hands it the elapsed
/// wall time; when the remaining time runs out the clock fires exactly once
/// and rewinds to its full period. However much time elapsed, a single tick
/// fires at most once.
#[derive(Clone, Copy, Debug, PartialEq, Eq, Structural)]
pub struct Clock {
    pub period_ms: u64,
    pub remaining_ms: u64,
}

/// The clock after one tick of `elapsed_ms`: rewound to its full period
/// when it fires, otherwise counted down by the elapsed time.
pub open spec fn tick_clock(c: Clock, elapsed_ms: u64) -> Clock {
    if elapsed_ms >= c.remaining_ms {
        Clock { period_ms: c.period_ms, remaining_ms: c.period_ms }
    } else {
        Clock { period_ms: c.period_ms, remaining_ms: (c.remaining_ms - elapsed_ms) as u64 }
    }
}

impl Clock {
    /// A clock that first fires once `period_ms` has elapsed, then every
    /// `period_ms` after that.
    pub fn new(period_ms: u64) -> (r: Clock)
        ensures
            r == (Clock { period_ms, remaining_ms: period_ms }),
    {
        Clock { period_ms, remaining_ms: period_ms }
    }

    /// Advances the clock by the elapsed wall time and reports whether it
    /// fired. Time beyond the firing point is discarded: several periods
    /// elapsing in one tick still fire only once.
    pub fn tick(&mut self, elapsed_ms: u64) -> (fired: bool)
        ensures
            fired == (elapsed_ms >= old(self).remaining_ms),
            *final(self) == tick_clock(*old(self), elapsed_ms),
    {
        if elapsed_ms >= self.remaining_ms {
            self.remaining_ms = self.period_ms;
            true
        } else {
            self.remaining_ms = self.remaining_ms - elapsed_ms;
            false
        }
    }
}

} // verus!
