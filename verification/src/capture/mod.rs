//! Decisions the capture (and microphone) supervisors make between runs of
//! a backend: how long to wait before retrying one that failed, and which
//! backend `auto` resolves to.

use vstd::prelude::*;

use crate::clock::Duration;
use crate::config::SourceKind;

pub mod rpicam;

verus! {

/// First retry delay, in nanoseconds (one second).
pub const INITIAL_BACKOFF_NANOS: u64 = 1_000_000_000;

/// Cap on the retry delay, in nanoseconds (ten seconds).
pub const MAX_BACKOFF_NANOS: u64 = 10_000_000_000;

/// A run that lasted at least this long (thirty seconds) before failing is
/// treated as having been healthy, so the next retry isn't penalized by
/// whatever backoff a much earlier, unrelated failure had built up.
pub const HEALTHY_RUN_NANOS: u64 = 30_000_000_000;

/// Capped exponential backoff between restarts of a failed backend.
pub struct Backoff {
    delay: Duration,
}

impl View for Backoff {
    type V = Duration;

    /// The delay the next retry waits, unless the failed run was healthy.
    closed spec fn view(&self) -> Duration {
        self.delay
    }
}

/// The delay to wait after a run that lasted `ran_for` failed, when the
/// backoff stood at `current`.
pub open spec fn retry_delay(current: Duration, ran_for: Duration) -> u64 {
    if ran_for.nanos >= HEALTHY_RUN_NANOS {
        INITIAL_BACKOFF_NANOS
    } else {
        current.nanos
    }
}

/// The backoff after waiting `waited`: doubled, but never past the cap.
pub open spec fn doubled(waited: u64) -> u64 {
    if waited * 2 < MAX_BACKOFF_NANOS {
        (waited * 2) as u64
    } else {
        MAX_BACKOFF_NANOS
    }
}

impl Backoff {
    /// The delay stays between the first delay and the cap.
    pub open spec fn wf(&self) -> bool {
        INITIAL_BACKOFF_NANOS <= self@.nanos <= MAX_BACKOFF_NANOS
    }

    pub fn new() -> (r: Self)
        ensures
            r@.nanos == INITIAL_BACKOFF_NANOS,
            r.wf(),
    {
        Backoff { delay: Duration { nanos: INITIAL_BACKOFF_NANOS } }
    }

    /// A run that lasted `ran_for` ended and will be retried: returns how
    /// long to wait first, and doubles the delay for the next time.
    pub fn next_delay(&mut self, ran_for: Duration) -> (wait: Duration)
        requires
            old(self).wf(),
        ensures
            final(self).wf(),
            wait.nanos == retry_delay(old(self)@, ran_for),
            final(self)@.nanos == doubled(wait.nanos),
            INITIAL_BACKOFF_NANOS <= wait.nanos <= MAX_BACKOFF_NANOS,
    {
        if ran_for.nanos >= HEALTHY_RUN_NANOS {
            self.delay = Duration { nanos: INITIAL_BACKOFF_NANOS };
        }
        let wait = self.delay;
        let twice = wait.nanos * 2;
        self.delay = Duration { nanos: if twice < MAX_BACKOFF_NANOS { twice } else { MAX_BACKOFF_NANOS } };
        wait
    }

    /// Back to the first delay (the microphone was closed on purpose, not
    /// because it failed).
    pub fn reset(&mut self)
        ensures
            final(self)@.nanos == INITIAL_BACKOFF_NANOS,
            final(self).wf(),
    {
        self.delay = Duration { nanos: INITIAL_BACKOFF_NANOS };
    }
}

/// Consecutive quick failures wait 1, 2, 4, 8 seconds and then 10 seconds
/// for every later retry; a healthy run resets the wait to one second.
pub proof fn law_backoff_doubles_to_the_cap(waited: u64)
    requires
        INITIAL_BACKOFF_NANOS <= waited <= MAX_BACKOFF_NANOS,
    ensures
        waited <= doubled(waited) <= MAX_BACKOFF_NANOS,
        waited * 2 <= MAX_BACKOFF_NANOS ==> doubled(waited) == waited * 2,
        doubled(MAX_BACKOFF_NANOS) == MAX_BACKOFF_NANOS,
        forall|current: Duration, ran_for: Duration|
            ran_for.nanos >= HEALTHY_RUN_NANOS ==> #[trigger] retry_delay(current, ran_for)
                == INITIAL_BACKOFF_NANOS,
{
}

/// The backend `kind` resolves to: `Auto` picks the Pi CSI camera when
/// `rpicam-vid` or `libcamera-vid` is on PATH, and V4L2 otherwise.
pub open spec fn resolved_source(kind: SourceKind, camera_tool_found: bool) -> SourceKind {
    match kind {
        SourceKind::Auto => if camera_tool_found {
            SourceKind::Rpicam
        } else {
            SourceKind::V4l2
        },
        other => other,
    }
}

/// Resolves [`SourceKind::Auto`] given whether a CSI camera tool was found
/// on PATH; explicit choices stand. Never returns `Auto`.
pub fn resolve_source(kind: SourceKind, camera_tool_found: bool) -> (r: SourceKind)
    ensures
        r == resolved_source(kind, camera_tool_found),
        r != SourceKind::Auto,
{
    match kind {
        SourceKind::Auto => {
            if camera_tool_found {
                SourceKind::Rpicam
            } else {
                SourceKind::V4l2
            }
        },
        other => other,
    }
}

} // verus!
