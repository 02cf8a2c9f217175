//! The video stream's connection lifecycle: which state the status pill
//! shows, which placeholder covers the stage, and the cache-busting URL of
//! each (re)connection.

use vstd::prelude::*;
use vstd::string::StringExecFns;

use crate::decimal::{decimal_chars, decimal_string, lemma_decimal_chars_injective};
use crate::viewer::state::{ConnectionState, Placeholder};

verus! {

/// How long to wait before reconnecting a dropped stream, in milliseconds.
pub const RECONNECT_DELAY_MS: u32 = 2000;

/// The stream URL for cache-busting seed `seed`.
pub open spec fn stream_url(seed: u64) -> Seq<char> {
    "/stream.mjpeg?ts="@ + decimal_chars(seed as nat)
}

/// Whether `p` is the placeholder shown while the first frame is awaited.
pub open spec fn is_waking(p: Placeholder) -> bool {
    &&& p.title@ == "Waking the camera up\u{2026}"@
    &&& p.sub@ == "This only takes a moment."@
}

/// Whether `p` is the placeholder shown after the stream dropped.
pub open spec fn is_lost(p: Placeholder) -> bool {
    &&& p.title@ == "Lost the picture"@
    &&& p.sub@ == "Reconnecting on its own \u{2014} hang tight."@
}

/// `seed + 1`, wrapping.
pub open spec fn next_seed(seed: u64) -> u64 {
    if seed == u64::MAX {
        0
    } else {
        (seed + 1) as u64
    }
}

/// Whether the stage hides the video: whenever the stream isn't live.
pub open spec fn hides_feed(v: StreamLinkView) -> bool {
    !(v.connection is Live)
}

/// Whether the stage hides the placeholder: only while live after a frame
/// has loaded.
pub open spec fn hides_placeholder(v: StreamLinkView) -> bool {
    v.connection is Live && v.had_frames
}

/// The stream's connection state, whether any frame ever loaded, the
/// placeholder, and the cache-busting seed of the current URL.
pub struct StreamLink {
    connection: ConnectionState,
    had_frames: bool,
    placeholder: Placeholder,
    seed: u64,
}

pub struct StreamLinkView {
    pub connection: ConnectionState,
    pub had_frames: bool,
    pub placeholder: Placeholder,
    pub seed: u64,
}

impl View for StreamLink {
    type V = StreamLinkView;

    closed spec fn view(&self) -> StreamLinkView {
        StreamLinkView {
            connection: self.connection,
            had_frames: self.had_frames,
            placeholder: self.placeholder,
            seed: self.seed,
        }
    }
}

fn url_for(seed: u64) -> (r: String)
    ensures
        r@ == stream_url(seed),
{
    let mut s = "/stream.mjpeg?ts=".to_owned();
    let d = decimal_string(seed);
    s.append(d.as_str());
    s
}

impl StreamLink {
    /// Connecting, with the waking placeholder, before any frame.
    pub fn new() -> (r: Self)
        ensures
            r@.connection == ConnectionState::Connecting,
            !r@.had_frames,
            is_waking(r@.placeholder),
            r@.seed == 0,
    {
        StreamLink {
            connection: ConnectionState::Connecting,
            had_frames: false,
            placeholder: Placeholder::waking(),
            seed: 0,
        }
    }

    /// The URL to load for the current seed (the first connection's too).
    pub fn src(&self) -> (r: String)
        ensures
            r@ == stream_url(self@.seed),
    {
        url_for(self.seed)
    }

    /// A frame loaded: the stream is live.
    pub fn on_load(&mut self)
        ensures
            final(self)@.connection == ConnectionState::Live,
            final(self)@.had_frames,
            final(self)@.placeholder == old(self)@.placeholder,
            final(self)@.seed == old(self)@.seed,
    {
        self.connection = ConnectionState::Live;
        self.had_frames = true;
    }

    /// The stream failed (or the server looked stale): show reconnecting,
    /// with the lost-picture placeholder if a frame had ever loaded, and
    /// return the fresh URL to load after [`RECONNECT_DELAY_MS`].
    pub fn reconnect(&mut self) -> (r: String)
        ensures
            final(self)@.connection == ConnectionState::Reconnecting,
            final(self)@.had_frames == old(self)@.had_frames,
            if old(self)@.had_frames {
                is_lost(final(self)@.placeholder)
            } else {
                is_waking(final(self)@.placeholder)
            },
            final(self)@.seed == next_seed(old(self)@.seed),
            r@ == stream_url(final(self)@.seed),
    {
        self.connection = ConnectionState::Reconnecting;
        self.placeholder = if self.had_frames {
            Placeholder::lost()
        } else {
            Placeholder::waking()
        };
        self.seed = if self.seed == u64::MAX { 0 } else { self.seed + 1 };
        url_for(self.seed)
    }

    pub fn connection(&self) -> (r: ConnectionState)
        ensures
            r == self@.connection,
    {
        self.connection
    }

    pub fn placeholder(&self) -> (r: Placeholder)
        ensures
            r == self@.placeholder,
    {
        self.placeholder
    }

    /// Whether the stage hides the video.
    pub fn feed_hidden(&self) -> (r: bool)
        ensures
            r == hides_feed(self@),
    {
        match self.connection {
            ConnectionState::Live => false,
            _ => true,
        }
    }

    /// Whether the stage hides the placeholder.
    pub fn placeholder_hidden(&self) -> (r: bool)
        ensures
            r == hides_placeholder(self@),
    {
        match self.connection {
            ConnectionState::Live => self.had_frames,
            _ => false,
        }
    }

    pub fn had_frames(&self) -> (r: bool)
        ensures
            r == self@.had_frames,
    {
        self.had_frames
    }
}

/// The stage never goes blank: whenever the placeholder is hidden, the
/// video shows.
pub proof fn law_stage_never_blank(v: StreamLinkView)
    ensures
        !(hides_feed(v) && hides_placeholder(v)),
{
}

/// Every reconnect asks for a URL the one before it didn't, so the browser
/// can never answer it from the copy of the stream it just lost.
pub proof fn law_reconnect_url_is_fresh(seed: u64)
    ensures
        stream_url(next_seed(seed)) != stream_url(seed),
{
    if stream_url(next_seed(seed)) == stream_url(seed) {
        let p = "/stream.mjpeg?ts="@;
        assert(stream_url(seed).skip(p.len() as int) =~= decimal_chars(seed as nat));
        assert(stream_url(next_seed(seed)).skip(p.len() as int) =~= decimal_chars(next_seed(seed) as nat));
        lemma_decimal_chars_injective(seed as nat, next_seed(seed) as nat);
    }
}

} // verus!
