//! Live microphone playback: the Listen toggle, which transport each
//! connection uses, and which reconnects are still wanted.
//!
//! Every (re)connection is tagged with a fresh cache-busting seed, which
//! doubles as the reconnect guard: a reconnect scheduled after an
//! interruption only fires if Listen is still on and no newer connection
//! has been started since.

use vstd::prelude::*;
use vstd::string::StringExecFns;

use crate::decimal::{decimal_chars, decimal_string};
use crate::viewer::link::next_seed;
use crate::viewer::texts::same_text;

verus! {

/// The `audio_format` value for which the MediaSource transport is used.
pub const FORMAT_WEBM_OPUS: &'static str = "webm-opus";

/// The audio URL for cache-busting seed `seed`.
pub open spec fn audio_url(seed: u64) -> Seq<char> {
    "/audio?ts="@ + decimal_chars(seed as nat)
}

/// Whether a connection uses the MediaSource transport: only for the
/// format it can demux, and only where the browser has it. Anything else
/// (an unknown format, ADTS AAC, no MediaSource) gets the direct stream.
pub open spec fn uses_mse(mse_supported: bool, server_format: Option<Seq<char>>) -> bool {
    mse_supported && server_format == Some("webm-opus"@)
}

/// Whether a reconnect scheduled under seed `seed` should fire, with
/// Listen `on` and the current seed `current`.
pub open spec fn reconnect_wanted(on: bool, current: u64, seed: u64) -> bool {
    on && current == seed
}

/// Whether Listen is on, and the seed of the latest connection.
pub struct Listener {
    on: bool,
    seed: u64,
}

impl View for Listener {
    type V = (bool, u64);

    closed spec fn view(&self) -> (bool, u64) {
        (self.on, self.seed)
    }
}

impl Listener {
    pub fn new() -> (r: Self)
        ensures
            r@ == (false, 0u64),
    {
        Listener { on: false, seed: 0 }
    }

    /// The user flipped Listen; returns whether it is now on (and a
    /// connection should start) or off (and the running one should stop).
    pub fn toggle(&mut self) -> (on: bool)
        ensures
            on == !old(self)@.0,
            final(self)@ == (on, old(self)@.1),
    {
        self.on = !self.on;
        self.on
    }

    /// Starts a connection: a fresh seed, its URL, and whether it goes
    /// through MediaSource. `server_format` is `/healthz`'s `audio_format`,
    /// if known.
    pub fn start(&mut self, mse_supported: bool, server_format: &Option<String>) -> (r: (String, bool))
        ensures
            final(self)@ == (old(self)@.0, next_seed(old(self)@.1)),
            r.0@ == audio_url(final(self)@.1),
            r.1 == uses_mse(
                mse_supported,
                match server_format {
                    Some(f) => Some(f@),
                    None => None,
                },
            ),
    {
        self.seed = if self.seed == u64::MAX { 0 } else { self.seed + 1 };
        let mut url = "/audio?ts=".to_owned();
        let d = decimal_string(self.seed);
        url.append(d.as_str());
        let mse = match server_format {
            Some(f) => mse_supported && same_text(f.as_str(), FORMAT_WEBM_OPUS),
            None => false,
        };
        proof {
            reveal_strlit("webm-opus");
        }
        (url, mse)
    }

    /// The stream was interrupted: the seed to check again once the
    /// reconnect delay has passed, or nothing if Listen is off.
    pub fn interrupted(&self) -> (r: Option<u64>)
        ensures
            r == (if self@.0 { Some(self@.1) } else { None::<u64> }),
    {
        if self.on {
            Some(self.seed)
        } else {
            None
        }
    }

    /// Whether the reconnect scheduled under `seed` should start a new
    /// connection now.
    pub fn reconnect_due(&self, seed: u64) -> (r: bool)
        ensures
            r == reconnect_wanted(self@.0, self@.1, seed),
    {
        self.on && self.seed == seed
    }
}

/// A reconnect scheduled before a newer connection started, or before
/// Listen was switched off, never fires: a stale timer can't start a
/// second stream, nor hold the microphone open for nobody.
pub proof fn law_stale_reconnects_never_fire(on: bool, seed: u64)
    ensures
        !reconnect_wanted(on, next_seed(seed), seed),
        !reconnect_wanted(false, seed, seed),
{
}

} // verus!
