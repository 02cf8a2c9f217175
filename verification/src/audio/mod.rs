//! Microphone capture and fan-out. Unlike video, which runs from boot
//! whether or not anyone is watching, the microphone is opened only while
//! somebody is listening; this module holds what the on-demand supervisor
//! decides between runs.

pub mod alsa;
pub mod hub;
pub mod webm;

use vstd::prelude::*;

use crate::capture::{Backoff, INITIAL_BACKOFF_NANOS, doubled, retry_delay};
use crate::clock::Duration;

verus! {

/// How a run of the microphone ended (other than by shutdown).
#[derive(Debug, Clone, Copy, PartialEq, Eq)]
pub enum RunEnd {
    /// The last listener left (for a full linger period).
    Silence,
    /// The encoder finished without an error.
    Finished,
    /// The encoder failed.
    Failed,
}

/// What the supervisor does next.
#[derive(Debug, Clone, Copy, PartialEq, Eq)]
pub enum NextRun {
    /// Wait for a listener before opening the microphone again.
    AwaitListener,
    /// Stop supervising.
    Stop,
    /// Wait this long, then open the microphone again.
    RetryAfter(Duration),
}

/// Decides what follows a run that lasted `ran_for` and ended with `end`:
/// silence closes the microphone on purpose (so the backoff starts over),
/// a clean finish ends supervision, and a failure is retried with capped
/// exponential backoff.
pub fn after_run(backoff: &mut Backoff, end: RunEnd, ran_for: Duration) -> (next: NextRun)
    requires
        old(backoff).wf(),
    ensures
        final(backoff).wf(),
        match end {
            RunEnd::Silence => next == NextRun::AwaitListener && final(backoff)@.nanos == INITIAL_BACKOFF_NANOS,
            RunEnd::Finished => next == NextRun::Stop && final(backoff)@ == old(backoff)@,
            RunEnd::Failed => {
                let wait = retry_delay(old(backoff)@, ran_for);
                &&& next == NextRun::RetryAfter(Duration { nanos: wait })
                &&& final(backoff)@.nanos == doubled(wait)
            },
        },
{
    match end {
        RunEnd::Silence => {
            backoff.reset();
            NextRun::AwaitListener
        },
        RunEnd::Finished => NextRun::Stop,
        RunEnd::Failed => NextRun::RetryAfter(backoff.next_delay(ran_for)),
    }
}

} // verus!
