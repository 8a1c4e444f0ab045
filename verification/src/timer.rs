//! A rate limiter: fires at most once per fixed interval.
//!
//! Driven by the monotonically increasing simulation time, in
//! milliseconds.  Each spawn or fire category of the time controller owns
//! an independent timer with its own interval.

use vstd::prelude::*;

verus! {

/// A `Timer` triggers events in specified intervals: each call of `update`
/// checks whether more than the interval has elapsed since the last
/// trigger.
#[derive(Clone, Copy, Debug, PartialEq, Eq, Structural)]
pub struct Timer {
    /// When the timer last fired, in milliseconds of simulation time.
    pub last_triggered: u64,
    /// The minimum time between firings, in milliseconds.
    pub interval: u64,
}

impl Timer {
    /// Whether the timer fires when polled at the given time.
    pub open spec fn fires(self, now: u64) -> bool {
        now - self.last_triggered > self.interval
    }

    /// The timer after being polled at the given time.
    pub open spec fn stepped(self, now: u64) -> Timer {
        if self.fires(now) {
            Timer { last_triggered: now, interval: self.interval }
        } else {
            self
        }
    }

    /// Returns a timer of the given interval that has never fired.
    pub fn new(interval: u64) -> (r: Timer)
        ensures
            r == (Timer { last_triggered: 0, interval }),
    {
        Timer { last_triggered: 0, interval }
    }

    /// Polls the timer: reports whether the interval has elapsed, and if
    /// so records the given time as the last trigger.
    pub fn update(&mut self, now: u64) -> (fired: bool)
        requires
            old(self).last_triggered <= now,
        ensures
            fired == old(self).fires(now),
            *final(self) == old(self).stepped(now),
            final(self).last_triggered <= now,
    {
        if now - self.last_triggered > self.interval {
            self.last_triggered = now;
            true
        } else {
            false
        }
    }
}

/// Polled twice less than an interval apart, a timer fires at most once:
/// if the first poll fired, the second cannot.
pub proof fn lemma_timer_rate_limit(t: Timer, t1: u64, t2: u64)
    requires
        t1 <= t2,
        t2 - t1 <= t.interval,
    ensures
        !(t.fires(t1) && t.stepped(t1).fires(t2)),
{
}

} // verus!
