//! Spans of time and points in time, in whole nanoseconds.

use vstd::prelude::*;

verus! {

/// A span of time.
#[derive(Debug, Clone, Copy, PartialEq, Eq, Structural, Hash)]
pub struct Duration {
    /// Whole seconds.
    pub secs: u64,
    /// Nanoseconds beyond them.
    pub nanos: u32,
}

/// A point in time, as the span since an origin that all points share.
#[derive(Debug, Clone, Copy, PartialEq, Eq, Structural, Hash)]
pub struct Instant {
    /// The span since the origin.
    pub since: Duration,
}

impl Duration {
    /// The length of the span in nanoseconds.
    pub open spec fn total(self) -> nat {
        (self.secs * 1_000_000_000 + self.nanos) as nat
    }

    /// A span of whole seconds.
    pub fn from_secs(secs: u64) -> (r: Duration)
        ensures
            r.secs == secs,
            r.nanos == 0,
            r.total() == secs * 1_000_000_000,
    {
        Duration { secs, nanos: 0 }
    }

    /// A span of milliseconds.
    pub fn from_millis(millis: u64) -> (r: Duration)
        ensures
            r.secs == millis / 1000,
            r.nanos == millis % 1000 * 1_000_000,
            r.total() == millis * 1_000_000,
    {
        Duration { secs: millis / 1000, nanos: ((millis % 1000) * 1_000_000) as u32 }
    }

    /// The span of a number of nanoseconds.
    pub fn from_nanos(n: u128) -> (r: Duration)
        requires
            n / 1_000_000_000 <= u64::MAX,
        ensures
            r.total() == n,
            r.nanos < 1_000_000_000,
    {
        Duration { secs: (n / 1_000_000_000) as u64, nanos: (n % 1_000_000_000) as u32 }
    }

    /// The length of the span in nanoseconds.
    pub fn as_nanos(self) -> (r: u128)
        ensures
            r == self.total(),
            r <= 0xffff_ffff_ffff_ffff * 1_000_000_000 + 0xffff_ffff,
    {
        (self.secs as u128) * 1_000_000_000 + (self.nanos as u128)
    }
}

impl Instant {
    /// The span from `earlier` to this point, nothing where this point is not later.
    pub open spec fn after(self, earlier: Instant) -> nat {
        if self.since.total() >= earlier.since.total() {
            (self.since.total() - earlier.since.total()) as nat
        } else {
            0
        }
    }

    /// The nanoseconds from `earlier` to this point, zero where this point is not later.
    pub fn nanos_after(self, earlier: Instant) -> (r: u128)
        ensures
            r == self.after(earlier),
            r <= 0xffff_ffff_ffff_ffff * 1_000_000_000 + 0xffff_ffff,
    {
        let a = self.since.as_nanos();
        let b = earlier.since.as_nanos();
        if a >= b {
            a - b
        } else {
            0
        }
    }

    /// The point a span later.
    pub fn plus(self, d: Duration) -> (r: Instant)
        requires
            (self.since.total() + d.total()) / 1_000_000_000 <= u64::MAX,
        ensures
            r.since.total() == self.since.total() + d.total(),
    {
        Instant { since: Duration::from_nanos(self.since.as_nanos() + d.as_nanos()) }
    }
}

} // verus!
