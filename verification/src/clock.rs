//! Monotonic time as plain numbers. The debouncing and throttling state
//! machines never read a clock themselves: the caller hands them the
//! current reading on every call, which is what makes them testable with
//! fake time and lets their contracts speak of it.

use vstd::prelude::*;

verus! {

/// A reading of a monotonic clock: whole nanoseconds since an arbitrary,
/// fixed origin.
#[derive(Debug, Clone, Copy, PartialEq, Eq)]
pub struct Instant {
    pub nanos: u64,
}

/// A span of time in whole nanoseconds.
#[derive(Debug, Clone, Copy, PartialEq, Eq)]
pub struct Duration {
    pub nanos: u64,
}

/// Nanoseconds from `earlier` to `later`, or zero when `earlier` is the
/// later of the two (the saturating `Instant::duration_since`).
pub open spec fn elapsed(later: Instant, earlier: Instant) -> int {
    if later.nanos >= earlier.nanos {
        later.nanos - earlier.nanos
    } else {
        0
    }
}

impl Instant {
    pub fn from_nanos(nanos: u64) -> (r: Instant)
        ensures
            r.nanos == nanos,
    {
        Instant { nanos }
    }

    /// The instant `d` after this one.
    pub fn after(self, d: Duration) -> (r: Instant)
        requires
            self.nanos + d.nanos <= u64::MAX,
        ensures
            r.nanos == self.nanos + d.nanos,
    {
        Instant { nanos: self.nanos + d.nanos }
    }

    /// How long after `earlier` this instant is; zero if it isn't after it.
    pub fn duration_since(self, earlier: Instant) -> (r: Duration)
        ensures
            r.nanos == elapsed(self, earlier),
    {
        if self.nanos >= earlier.nanos {
            Duration { nanos: self.nanos - earlier.nanos }
        } else {
            Duration { nanos: 0 }
        }
    }
}

impl Duration {
    /// `ms` milliseconds, saturating at `u64::MAX` nanoseconds.
    pub open spec fn from_millis_spec(ms: u64) -> Duration {
        Duration { nanos: if ms * 1_000_000 <= u64::MAX { (ms * 1_000_000) as u64 } else { u64::MAX } }
    }

    /// `ms` milliseconds; spans past `u64::MAX` nanoseconds (about 584
    /// years) saturate.
    pub fn from_millis(ms: u64) -> (r: Duration)
        ensures
            r.nanos == if ms * 1_000_000 <= u64::MAX { ms * 1_000_000 } else { u64::MAX as int },
            r == Duration::from_millis_spec(ms),
    {
        if ms <= u64::MAX / 1_000_000 {
            Duration { nanos: ms * 1_000_000 }
        } else {
            Duration { nanos: u64::MAX }
        }
    }

    /// `s` seconds, saturating like [`Duration::from_millis`].
    pub fn from_secs(s: u64) -> (r: Duration)
        ensures
            r.nanos == if s * 1_000_000_000 <= u64::MAX { s * 1_000_000_000 } else { u64::MAX as int },
    {
        if s <= u64::MAX / 1_000_000_000 {
            Duration { nanos: s * 1_000_000_000 }
        } else {
            Duration { nanos: u64::MAX }
        }
    }

    /// `k` times this span, saturating at `u64::MAX` nanoseconds.
    pub fn saturating_mul(self, k: u32) -> (r: Duration)
        ensures
            r.nanos == if self.nanos * k <= u64::MAX { self.nanos * k } else { u64::MAX as int },
    {
        if k == 0 || self.nanos <= u64::MAX / (k as u64) {
            proof {
                if k > 0 {
                    assert(self.nanos * k <= u64::MAX) by (nonlinear_arith)
                        requires
                            self.nanos <= u64::MAX / (k as u64),
                            k > 0,
                    ;
                }
            }
            Duration { nanos: self.nanos * (k as u64) }
        } else {
            proof {
                assert(self.nanos * k > u64::MAX) by (nonlinear_arith)
                    requires
                        self.nanos > u64::MAX / (k as u64),
                        k > 0,
                ;
            }
            Duration { nanos: u64::MAX }
        }
    }

    /// Whole milliseconds in this span.
    pub fn as_millis(self) -> (r: u64)
        ensures
            r == self.nanos / 1_000_000,
    {
        self.nanos / 1_000_000
    }
}

} // verus!
