//! A rate limiter: an action runs only once the accumulated time reaches an
//! interval, which then restarts the accumulation.

use vstd::prelude::*;

verus! {

pub struct Throttler {
    /// Accumulated time, milliseconds.
    timer_ms: u64,
    /// Interval threshold, milliseconds.
    interval_ms: u64,
}

/// Accumulation stops at the top of the range rather than wrap.
pub open spec fn spec_sat_add_u64(a: u64, b: u64) -> u64 {
    if a + b > u64::MAX {
        u64::MAX
    } else {
        (a + b) as u64
    }
}

impl Throttler {
    pub closed spec fn spec_timer(self) -> u64 {
        self.timer_ms
    }

    pub closed spec fn spec_interval(self) -> u64 {
        self.interval_ms
    }

    pub fn new(interval_ms: u64) -> (t: Throttler)
        ensures
            t.spec_timer() == 0,
            t.spec_interval() == interval_ms,
    {
        Throttler { timer_ms: 0, interval_ms }
    }

    /// Accumulate `dt` milliseconds.
    pub fn update(&mut self, dt: u64)
        ensures
            final(self).spec_timer() == spec_sat_add_u64(old(self).spec_timer(), dt),
            final(self).spec_interval() == old(self).spec_interval(),
    {
        self.timer_ms = if self.timer_ms > u64::MAX - dt {
            u64::MAX
        } else {
            self.timer_ms + dt
        };
    }

    /// Whether the action may run now: true exactly when the accumulated
    /// time has reached the interval, in which case the accumulation
    /// restarts.
    pub fn run_action(&mut self) -> (fired: bool)
        ensures
            fired == (old(self).spec_timer() >= old(self).spec_interval()),
            final(self).spec_timer() == (if fired {
                0u64
            } else {
                old(self).spec_timer()
            }),
            final(self).spec_interval() == old(self).spec_interval(),
    {
        if self.timer_ms >= self.interval_ms {
            self.timer_ms = 0;
            true
        } else {
            false
        }
    }
}

} // verus!
