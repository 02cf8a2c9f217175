//! When the motion alert chimes: only with sound on, and never twice
//! within [`CHIME_MIN_GAP_MS`], so an episode that starts and stops
//! repeatedly doesn't ring over itself. The mute switch is remembered in
//! the browser's storage as `"1"` or `"0"`.

use vstd::prelude::*;

use crate::viewer::texts::same_text;

verus! {

/// Minimum time between two chimes, in milliseconds.
pub const CHIME_MIN_GAP_MS: u64 = 10_000;

/// Whether a chime may ring at `now_ms`, the last one having rung at
/// `last_ms` (0 for never).
pub open spec fn may_ring(sound_on: bool, last_ms: u64, now_ms: u64) -> bool {
    sound_on && (if now_ms >= last_ms { now_ms - last_ms } else { 0 }) >= CHIME_MIN_GAP_MS
}

/// When the chime last rang, in the browser's wall-clock milliseconds.
pub struct ChimeGate {
    last_ms: u64,
}

impl View for ChimeGate {
    type V = u64;

    closed spec fn view(&self) -> u64 {
        self.last_ms
    }
}

impl ChimeGate {
    pub fn new() -> (r: Self)
        ensures
            r@ == 0,
    {
        ChimeGate { last_ms: 0 }
    }

    /// A motion alert at `now_ms`: whether to ring the chime now.
    pub fn ring(&mut self, sound_on: bool, now_ms: u64) -> (r: bool)
        ensures
            r == may_ring(sound_on, old(self)@, now_ms),
            final(self)@ == (if r { now_ms } else { old(self)@ }),
    {
        if !sound_on {
            return false;
        }
        let since = if now_ms >= self.last_ms { now_ms - self.last_ms } else { 0 };
        if since < CHIME_MIN_GAP_MS {
            return false;
        }
        self.last_ms = now_ms;
        true
    }
}

/// Whether the alert sound is on, given what the browser's storage holds:
/// on unless it was explicitly switched off.
pub fn sound_on_from_storage(stored: &Option<String>) -> (r: bool)
    ensures
        r == !(stored matches Some(s) && s@ == "0"@),
{
    match stored {
        Some(s) => !same_text(s.as_str(), "0"),
        None => true,
    }
}

/// What the browser's storage holds for the mute switch.
pub fn stored_sound(on: bool) -> (r: &'static str)
    ensures
        r@ == if on { "1"@ } else { "0"@ },
{
    if on {
        "1"
    } else {
        "0"
    }
}

/// After a chime rings, nothing rings again for [`CHIME_MIN_GAP_MS`].
pub proof fn law_chimes_are_spaced(sound_on: bool, rang_at: u64, now_ms: u64)
    requires
        rang_at <= now_ms < rang_at + CHIME_MIN_GAP_MS,
    ensures
        !may_ring(sound_on, rang_at, now_ms),
{
}

} // verus!
