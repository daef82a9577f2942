//! The flush timer: a deadline one period after the last reset.

use vstd::prelude::*;

verus! {

/// A periodic deadline. Times are in milliseconds on the caller's monotonic clock.
pub struct FlushTimer {
    period: u64,
    last_reset: u64,
}

impl FlushTimer {
    /// The time between a reset and the deadline it sets.
    pub closed spec fn period_spec(&self) -> nat {
        self.period as nat
    }

    /// The time of the last reset.
    pub closed spec fn armed_at(&self) -> nat {
        self.last_reset as nat
    }

    /// The deadline: one period after the last reset.
    pub open spec fn deadline(&self) -> nat {
        self.armed_at() + self.period_spec()
    }

    /// A timer of the given period, armed at `now`.
    pub fn new(period: u64, now: u64) -> (t: FlushTimer)
        ensures
            t.period_spec() == period,
            t.armed_at() == now,
    {
        FlushTimer { period, last_reset: now }
    }

    pub fn period(&self) -> (p: u64)
        ensures
            p == self.period_spec(),
    {
        self.period
    }

    /// Whether the deadline has been reached at `now`.
    pub fn is_due(&self, now: u64) -> (due: bool)
        ensures
            due == (now >= self.deadline()),
    {
        now >= self.last_reset && now - self.last_reset >= self.period
    }

    /// How long to wait at `now` for the deadline: zero once it is due, and never more than one
    /// period, also where `now` lies before the last reset.
    pub fn remaining(&self, now: u64) -> (left: u64)
        ensures
            left == if now >= self.deadline() {
                0
            } else if now >= self.armed_at() {
                self.deadline() - now
            } else {
                self.period_spec() as int
            },
    {
        if now < self.last_reset {
            self.period
        } else if now - self.last_reset >= self.period {
            0
        } else {
            self.period - (now - self.last_reset)
        }
    }

    /// Sets the deadline to one period after `now`.
    pub fn reset(&mut self, now: u64)
        ensures
            final(self).period_spec() == old(self).period_spec(),
            final(self).armed_at() == now,
    {
        self.last_reset = now;
    }
}

} // verus!
