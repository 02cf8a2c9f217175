//! The motion worker's per-sample decisions: whether a person box is fresh
//! enough to diff against, and which of the previous grid and the new one
//! a sample is compared with.
//!
//! A gap in samples longer than `stale_after` (camera reconnect, or an
//! extended stretch with nothing in frame) makes the previous grid
//! meaningless to diff against, so the next real frame becomes a fresh
//! baseline instead of being scored - a stale baseline can't produce a
//! false spike. So does the subject leaving frame.

use vstd::prelude::*;

use crate::clock::{Duration, Instant, elapsed};

verus! {

/// Whether the latest detection pass gives the motion diff a subject: a
/// pass has been published (`seq > 0`), it found at least one person, and
/// it is no older than `box_ttl`.
pub fn has_subject(seq: u64, boxes: usize, age: Duration, box_ttl: Duration) -> (r: bool)
    ensures
        r == (seq > 0 && boxes > 0 && age.nanos <= box_ttl.nanos),
{
    seq > 0 && boxes > 0 && age.nanos <= box_ttl.nanos
}

/// What one sample handed to the worker is.
#[derive(Debug, Clone, Copy, PartialEq, Eq)]
pub enum Sample {
    /// No fresh person box: nothing to diff.
    NoSubject,
    /// A frame that failed to decode.
    Undecodable,
    /// A decoded, downscaled frame.
    Frame,
}

/// What the worker does with a sample.
#[derive(Debug, Clone, Copy, PartialEq, Eq)]
pub enum Step {
    /// Close any episode in progress; the next frame starts a new baseline.
    Close,
    /// Drop the sample.
    Skip,
    /// Keep the new grid as the baseline without scoring it.
    Baseline,
    /// Score the new grid against the previous one, then keep it.
    Compare,
}

/// When the last sample arrived, and whether a baseline grid is held.
pub struct Sampler {
    last_sample_at: Option<Instant>,
    have_baseline: bool,
}

impl View for Sampler {
    type V = (Option<Instant>, bool);

    closed spec fn view(&self) -> (Option<Instant>, bool) {
        (self.last_sample_at, self.have_baseline)
    }
}

/// Whether a sample at `now` comes after a gap longer than `stale_after`
/// (or is the first one).
pub open spec fn after_gap(last: Option<Instant>, now: Instant, stale_after: Duration) -> bool {
    match last {
        Some(t) => elapsed(now, t) > stale_after.nanos,
        None => true,
    }
}

/// One sample: the step to take and whether a baseline is held after it.
pub open spec fn sample_step(
    last: Option<Instant>,
    have_baseline: bool,
    now: Instant,
    stale_after: Duration,
    sample: Sample,
) -> (Step, bool) {
    match sample {
        Sample::NoSubject => (Step::Close, false),
        Sample::Undecodable => (Step::Skip, have_baseline),
        Sample::Frame => if after_gap(last, now, stale_after) || !have_baseline {
            (Step::Baseline, true)
        } else {
            (Step::Compare, true)
        },
    }
}

impl Sampler {
    pub fn new() -> (r: Self)
        ensures
            r@ == (None::<Instant>, false),
    {
        Sampler { last_sample_at: None, have_baseline: false }
    }

    /// Records a sample that arrived at `now` and decides what to do with
    /// it. Every sample counts towards the gap, decodable or not.
    pub fn step(&mut self, now: Instant, stale_after: Duration, sample: Sample) -> (r: Step)
        ensures
            ({
                let (step, baseline) = sample_step(old(self)@.0, old(self)@.1, now, stale_after, sample);
                &&& r == step
                &&& final(self)@ == (Some(now), baseline)
            }),
    {
        let stale = match self.last_sample_at {
            Some(t) => now.duration_since(t).nanos > stale_after.nanos,
            None => true,
        };
        self.last_sample_at = Some(now);
        match sample {
            Sample::NoSubject => {
                self.have_baseline = false;
                Step::Close
            },
            Sample::Undecodable => Step::Skip,
            Sample::Frame => {
                if stale || !self.have_baseline {
                    self.have_baseline = true;
                    Step::Baseline
                } else {
                    Step::Compare
                }
            },
        }
    }
}

/// A frame is only ever scored against a baseline taken while the subject
/// was in view and without a long gap: after the subject leaves, or after
/// a gap longer than `stale_after`, the next frame only sets a baseline.
pub proof fn law_no_compare_across_a_break(
    last: Option<Instant>,
    have_baseline: bool,
    now: Instant,
    stale_after: Duration,
)
    ensures
        sample_step(last, have_baseline, now, stale_after, Sample::NoSubject).1 == false,
        sample_step(last, false, now, stale_after, Sample::Frame).0 == Step::Baseline,
        after_gap(last, now, stale_after) ==> sample_step(last, have_baseline, now, stale_after, Sample::Frame).0
            == Step::Baseline,
        sample_step(last, have_baseline, now, stale_after, Sample::Frame).0 == Step::Compare ==> have_baseline
            && last is Some,
{
}

} // verus!
