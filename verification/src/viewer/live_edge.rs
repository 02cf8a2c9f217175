//! Keeps MediaSource audio playback pinned near the live edge of its
//! buffer. A media element happily plays further and further behind a
//! live source after any stall; this turns the buffered range into one
//! decision per tick. Times are whole milliseconds of media time: a
//! player that reports seconds as floating-point numbers rounds them to
//! milliseconds first, so its decision agrees with a comparison in seconds
//! except when the lag lies within a millisecond of [`MAX_LAG_MS`].

use vstd::prelude::*;

verus! {

/// Steady-state distance behind the buffered end. Audio this close to live
/// reads as synchronized with the (near-latency-free) MJPEG video while
/// still tolerating jitter.
pub const TARGET_LAG_MS: u64 = 300;

/// Past this much lag the gentle path is abandoned and playback seeks to
/// the live edge. Audio-only seeks are inaudible.
pub const MAX_LAG_MS: u64 = 1500;

/// Buffered audio further behind playback than this is trimmed so a live
/// session never hits its buffer quota.
pub const KEEP_BEHIND_MS: u64 = 5000;

/// What the keep-up tick should do this cycle.
#[derive(Debug, Clone, Copy, PartialEq, Eq)]
pub enum Decision {
    /// Lag is inside the threshold; keep playing where we are.
    Hold,
    /// Lag exceeded the threshold; jump to this playback position.
    Seek(u64),
}

/// The decision for playback at `current` with the buffer ending at
/// `buffered_end` (`None`: nothing playable, so wait).
pub open spec fn decision(current: u64, buffered_end: Option<u64>) -> Decision {
    match buffered_end {
        None => Decision::Hold,
        Some(end) => if end <= current || end - current <= MAX_LAG_MS {
            Decision::Hold
        } else {
            Decision::Seek((end - TARGET_LAG_MS) as u64)
        },
    }
}

/// One keep-up decision. An end already behind playback (which shouldn't
/// happen) holds rather than seeking backwards.
pub fn decide(current: u64, buffered_end: Option<u64>) -> (r: Decision)
    ensures
        r == decision(current, buffered_end),
{
    match buffered_end {
        None => Decision::Hold,
        Some(end) => {
            if end <= current || end - current <= MAX_LAG_MS {
                Decision::Hold
            } else {
                Decision::Seek(end - TARGET_LAG_MS)
            }
        },
    }
}

/// The buffered span to drop, from its start up to [`KEEP_BEHIND_MS`]
/// before playback, if any of it is that old.
pub fn trim_range(buffer_start: u64, current: u64) -> (r: Option<(u64, u64)>)
    ensures
        r == if current >= KEEP_BEHIND_MS && buffer_start < current - KEEP_BEHIND_MS {
            Some((buffer_start, (current - KEEP_BEHIND_MS) as u64))
        } else {
            None::<(u64, u64)>
        },
{
    if current >= KEEP_BEHIND_MS && buffer_start < current - KEEP_BEHIND_MS {
        Some((buffer_start, current - KEEP_BEHIND_MS))
    } else {
        None
    }
}

/// Seeks only ever go forward, to a point still inside the buffer: the
/// target sits [`TARGET_LAG_MS`] behind the buffered end, and a seek only
/// happens when playback is more than [`MAX_LAG_MS`] behind it.
pub proof fn law_seeks_go_forward(current: u64, buffered_end: Option<u64>)
    ensures
        decision(current, buffered_end) matches Decision::Seek(t) ==> current < t && (buffered_end matches Some(
            end,
        ) && t < end),
{
}

} // verus!
