//! Person detection's verified parts: the frame-rate throttle the detection
//! and motion pumps share, the detector's lifecycle state, and motion
//! events built on top of the person box.

pub mod decode;
pub mod hub;
pub mod motion;

use vstd::prelude::*;

use crate::clock::{Duration, Instant};

verus! {

/// Whether a throttle that last ran at `last_ran` is due at `now` with
/// `interval` between runs.
pub open spec fn is_due(last_ran: Option<Instant>, now: Instant, interval: Duration) -> bool {
    match last_ran {
        Some(t) => now.nanos >= t.nanos + interval.nanos,
        None => true,
    }
}

/// Schedules "should I run now" decisions at a given interval, without
/// sleeping - the caller supplies `now` and the interval each call, so this
/// is trivially unit-testable.
///
/// The deadline is recomputed from `last_ran + interval` on every call
/// using *that call's* interval, rather than being fixed in advance. That's
/// what lets the pump switch between the idle and active rates and have it
/// take effect on the very next tick, instead of waiting out whatever
/// interval happened to be in effect when the previous pass was scheduled.
pub struct Throttle {
    last_ran: Option<Instant>,
}

impl View for Throttle {
    type V = Option<Instant>;

    /// When the throttle last let a pass run.
    closed spec fn view(&self) -> Option<Instant> {
        self.last_ran
    }
}

impl Throttle {
    pub fn new() -> (r: Self)
        ensures
            r@ is None,
    {
        Self { last_ran: None }
    }

    pub fn should_run(&mut self, now: Instant, interval: Duration) -> (r: bool)
        ensures
            r == is_due(old(self)@, now, interval),
            r ==> final(self)@ == Some(now),
            !r ==> final(self)@ == old(self)@,
    {
        let not_yet = match self.last_ran {
            Some(t) => now.nanos < t.nanos || now.nanos - t.nanos < interval.nanos,
            None => false,
        };
        if not_yet {
            return false;
        }
        // Recording `now`, not `t + interval`: after a long stall (e.g. no
        // frames while the camera reconnects) this makes the next deadline
        // `now + interval` again, so we get exactly one pass, not a burst
        // catching up on every missed slot.
        self.last_ran = Some(now);
        true
    }
}

impl Default for Throttle {
    fn default() -> (r: Self)
        ensures
            r@ is None,
    {
        Self::new()
    }
}

/// The detection pump's rate: the active interval while anyone watches the
/// overlay, the idle one otherwise (it keeps `/healthz` and the motion
/// pipeline fed at a trickle).
pub fn pump_interval(subscribers: usize, active: Duration, idle: Duration) -> (r: Duration)
    ensures
        r == (if subscribers > 0 { active } else { idle }),
{
    if subscribers > 0 {
        active
    } else {
        idle
    }
}

/// Runs are never closer together than the interval in effect: once a pass
/// has run at `t`, no call before `t + interval` runs, and in particular a
/// second call at the same instant never does (no burst after a stall).
pub proof fn law_throttle_spacing(t: Instant, now: Instant, interval: Duration)
    requires
        now.nanos < t.nanos + interval.nanos,
    ensures
        !is_due(Some(t), now, interval),
{
}

/// The first call on a fresh throttle always runs, whatever the interval.
pub proof fn law_throttle_first_call_runs(now: Instant, interval: Duration)
    ensures
        is_due(None, now, interval),
{
}

} // verus!
