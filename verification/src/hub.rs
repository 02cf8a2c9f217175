//! The frame hub's bookkeeping: the latest frame (what `/snapshot.jpg`
//! serves and what a new viewer is shown first), how many frames were
//! captured, and when the last one arrived - the stats `/healthz` reports.

use vstd::prelude::*;

use crate::byte_buffer::{frozen_clone, frozen_contents};
use crate::clock::{Duration, Instant, elapsed};

verus! {

pub struct HubStats {
    pub uptime: Duration,
    pub frames_captured: u64,
    /// Every live broadcast receiver, not just browser viewers - once
    /// detection is enabled, the detection pump holds one of these too.
    pub subscribers: usize,
    /// `None` if no frame has ever been captured.
    pub since_last_frame: Option<Duration>,
}

/// The latest frame, the frame count, and the capture times.
pub struct FrameLog {
    latest: Option<bytes::Bytes>,
    frames: u64,
    last_frame_at: Option<Instant>,
    started_at: Instant,
}

/// A [`FrameLog`] as plain values.
pub struct FrameLogView {
    pub latest: Option<Seq<u8>>,
    pub frames: u64,
    pub last_frame_at: Option<Instant>,
    pub started_at: Instant,
}

impl View for FrameLog {
    type V = FrameLogView;

    closed spec fn view(&self) -> FrameLogView {
        FrameLogView {
            latest: match self.latest {
                Some(b) => Some(frozen_contents(b)),
                None => None,
            },
            frames: self.frames,
            last_frame_at: self.last_frame_at,
            started_at: self.started_at,
        }
    }
}

impl FrameLog {
    /// An empty log for a hub created at `started_at`.
    pub fn new(started_at: Instant) -> (r: Self)
        ensures
            r@.latest is None,
            r@.frames == 0,
            r@.last_frame_at is None,
            r@.started_at == started_at,
    {
        FrameLog { latest: None, frames: 0, last_frame_at: None, started_at }
    }

    /// Records `frame`, captured at `now`, as the latest one. The count
    /// wraps like the atomic counter it stands for.
    pub fn publish(&mut self, frame: bytes::Bytes, now: Instant)
        ensures
            final(self)@.latest == Some(frozen_contents(frame)),
            final(self)@.frames == (if old(self)@.frames == u64::MAX { 0 } else { old(self)@.frames + 1 }),
            final(self)@.last_frame_at == Some(now),
            final(self)@.started_at == old(self)@.started_at,
    {
        self.latest = Some(frame);
        self.last_frame_at = Some(now);
        self.frames = if self.frames == u64::MAX { 0 } else { self.frames + 1 };
    }

    /// The latest frame, if any has been captured.
    pub fn latest(&self) -> (r: Option<bytes::Bytes>)
        ensures
            match r {
                Some(b) => self@.latest == Some(frozen_contents(b)),
                None => self@.latest is None,
            },
    {
        match &self.latest {
            Some(b) => Some(frozen_clone(b)),
            None => None,
        }
    }

    /// The stats at `now`, with `subscribers` live receivers.
    pub fn stats(&self, now: Instant, subscribers: usize) -> (r: HubStats)
        ensures
            r.uptime.nanos == elapsed(now, self@.started_at),
            r.frames_captured == self@.frames,
            r.subscribers == subscribers,
            match self@.last_frame_at {
                Some(t) => r.since_last_frame == Some(Duration { nanos: elapsed(now, t) as u64 }),
                None => r.since_last_frame is None,
            },
    {
        HubStats {
            uptime: now.duration_since(self.started_at),
            frames_captured: self.frames,
            subscribers,
            since_last_frame: match self.last_frame_at {
                Some(t) => Some(now.duration_since(t)),
                None => None,
            },
        }
    }
}

} // verus!
