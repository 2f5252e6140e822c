//! A ticker that says when the next beat of a fixed rate is due.
//!
//! Time is a count of nanoseconds since a moment that the caller chooses and
//! reads off its own clock.

use vstd::prelude::*;

verus! {

/// Nanoseconds in a second.
pub const NANOS_PER_SECOND: u64 = 1_000_000_000;

/// The length of one beat at `hz` beats a second, in nanoseconds, rounded to
/// the nearest.
pub open spec fn period_of(hz: u64) -> u64
    recommends
        hz > 0,
{
    ((NANOS_PER_SECOND + hz / 2) / hz as int) as u64
}

/// The moment `period` after `moment`, or the last moment there is.
pub open spec fn later(moment: u64, period: u64) -> u64 {
    if moment + period > u64::MAX {
        u64::MAX
    } else {
        (moment + period) as u64
    }
}

/// Beats at a fixed rate.
pub struct Ticker {
    period: u64,
    next: u64,
}

impl Ticker {
    /// The length of one beat, in nanoseconds.
    pub closed spec fn period(&self) -> u64 {
        self.period
    }

    /// The moment at which the next beat is due.
    pub closed spec fn next(&self) -> u64 {
        self.next
    }

    /// A ticker of `hz` beats a second whose first beat is due one period
    /// after `now`.
    pub fn new(hz: u64, now: u64) -> (ticker: Ticker)
        requires
            hz > 0,
        ensures
            ticker.period() == period_of(hz),
            ticker.next() == later(now, period_of(hz)),
    {
        let wide: u128 = (NANOS_PER_SECOND as u128 + (hz / 2) as u128) / hz as u128;
        let period = wide as u64;
        Ticker { period, next: now.saturating_add(period) }
    }

    /// Whether a beat is due at `now`. If one is, the next beat is due one
    /// period after the moment at which this one was due; if none is, nothing
    /// changes.
    pub fn should_tick(&mut self, now: u64) -> (due: bool)
        ensures
            due == (now >= old(self).next()),
            final(self).period() == old(self).period(),
            due ==> final(self).next() == later(old(self).next(), old(self).period()),
            !due ==> final(self).next() == old(self).next(),
    {
        if now >= self.next {
            self.next = self.next.saturating_add(self.period);
            true
        } else {
            false
        }
    }

    /// The length of one beat, in nanoseconds.
    pub fn period_nanos(&self) -> (period: u64)
        ensures
            period == self.period(),
    {
        self.period
    }

    /// The moment at which the next beat is due.
    pub fn next_due(&self) -> (next: u64)
        ensures
            next == self.next(),
    {
        self.next
    }
}

} // verus!
