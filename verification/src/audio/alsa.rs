//! What the microphone backend runs - an `ffmpeg` subprocess reading the
//! ALSA device, encoding, and muxing - and how its stdout becomes hub
//! publishes.

use vstd::prelude::*;

use crate::audio::webm::{AudioChunk, Piece, WebmChunker, push_outcome, MAX_BUFFER};
use crate::byte_buffer::{frozen_contents, frozen_copy, frozen_empty};
use crate::config::AudioFormat;
use crate::decimal::{decimal_chars, decimal_string};

verus! {

/// Target length of a WebM cluster, in milliseconds. Doubles as the floor on
/// how late a joining listener's first audio can be, since a listener can
/// only be dropped into the stream on a cluster boundary.
pub const CLUSTER_TIME_LIMIT_MS: u32 = 100;

/// The encoder's configuration: which ALSA device, at what sample rate and
/// bitrate, muxed into which container.
pub struct AlsaCapture {
    device: String,
    rate: u32,
    bitrate: u32,
    format: AudioFormat,
}

/// Why the microphone can't be set up with these settings, if it can't.
pub open spec fn alsa_error(rate: u32, bitrate: u32, ffmpeg_found: bool) -> Option<Seq<char>> {
    if rate == 0 {
        Some("--audio-rate must be > 0"@)
    } else if bitrate == 0 {
        Some("--audio-bitrate must be > 0"@)
    } else if !ffmpeg_found {
        Some("--audio needs ffmpeg on PATH (Debian/Pi OS: sudo apt install ffmpeg)"@)
    } else {
        None
    }
}

/// The ffmpeg command line, after the binary's name. Channel count and
/// sample rate are output options, not input ones, so ffmpeg opens the
/// device in whatever format it natively supports and resamples.
pub open spec fn ffmpeg_arg_list(device: Seq<char>, rate: u32, bitrate: u32, format: AudioFormat) -> Seq<
    Seq<char>,
> {
    seq![
        "-hide_banner"@, "-loglevel"@, "warning"@, "-f"@, "alsa"@, "-i"@, device,
        "-ac"@, "1"@, "-ar"@, decimal_chars(rate as nat), "-b:a"@, decimal_chars(bitrate as nat),
    ] + match format {
        AudioFormat::WebmOpus => seq![
            "-c:a"@, "libopus"@, "-application"@, "voip"@, "-f"@, "webm"@,
            "-cluster_time_limit"@, decimal_chars(CLUSTER_TIME_LIMIT_MS as nat),
        ],
        AudioFormat::AdtsAac => seq!["-c:a"@, "aac"@, "-f"@, "adts"@],
    } + seq!["-flush_packets"@, "1"@, "pipe:1"@]
}

impl AlsaCapture {
    pub closed spec fn device(&self) -> Seq<char> {
        self.device@
    }

    pub closed spec fn rate(&self) -> u32 {
        self.rate
    }

    pub closed spec fn bitrate(&self) -> u32 {
        self.bitrate
    }

    pub closed spec fn audio_format(&self) -> AudioFormat {
        self.format
    }

    /// Fails rather than giving a source that can never run: a silently
    /// missing baby-monitor microphone is worse than a startup error.
    /// `ffmpeg_found` says whether `ffmpeg` is on PATH.
    pub fn from_settings(
        device: String,
        rate: u32,
        bitrate: u32,
        format: AudioFormat,
        ffmpeg_found: bool,
    ) -> (r: Result<Self, String>)
        ensures
            match r {
                Ok(c) => {
                    &&& alsa_error(rate, bitrate, ffmpeg_found) is None
                    &&& c.device() == device@
                    &&& c.rate() == rate
                    &&& c.bitrate() == bitrate
                    &&& c.audio_format() == format
                },
                Err(msg) => alsa_error(rate, bitrate, ffmpeg_found) == Some(msg@),
            },
    {
        if rate == 0 {
            return Err("--audio-rate must be > 0".to_owned());
        }
        if bitrate == 0 {
            return Err("--audio-bitrate must be > 0".to_owned());
        }
        if !ffmpeg_found {
            return Err(
                "--audio needs ffmpeg on PATH (Debian/Pi OS: sudo apt install ffmpeg)".to_owned(),
            );
        }
        Ok(AlsaCapture { device, rate, bitrate, format })
    }

    pub fn format(&self) -> (r: AudioFormat)
        ensures
            r == self.audio_format(),
    {
        self.format
    }

    /// The arguments for the configured format. Without `-flush_packets`
    /// ffmpeg buffers before writing, which shows up as the stream simply
    /// not starting for several seconds.
    pub fn args(&self) -> (args: Vec<String>)
        ensures
            args@.map_values(|a: String| a@) == ffmpeg_arg_list(
                self.device(),
                self.rate(),
                self.bitrate(),
                self.audio_format(),
            ),
    {
        let mut args: Vec<String> = Vec::new();
        args.push("-hide_banner".to_owned());
        args.push("-loglevel".to_owned());
        args.push("warning".to_owned());
        args.push("-f".to_owned());
        args.push("alsa".to_owned());
        args.push("-i".to_owned());
        args.push(self.device.clone());
        args.push("-ac".to_owned());
        args.push("1".to_owned());
        args.push("-ar".to_owned());
        args.push(decimal_string(self.rate as u64));
        args.push("-b:a".to_owned());
        args.push(decimal_string(self.bitrate as u64));
        match self.format {
            AudioFormat::WebmOpus => {
                args.push("-c:a".to_owned());
                args.push("libopus".to_owned());
                args.push("-application".to_owned());
                args.push("voip".to_owned());
                args.push("-f".to_owned());
                args.push("webm".to_owned());
                args.push("-cluster_time_limit".to_owned());
                args.push(decimal_string(CLUSTER_TIME_LIMIT_MS as u64));
            },
            AudioFormat::AdtsAac => {
                args.push("-c:a".to_owned());
                args.push("aac".to_owned());
                args.push("-f".to_owned());
                args.push("adts".to_owned());
            },
        }
        args.push("-flush_packets".to_owned());
        args.push("1".to_owned());
        args.push("pipe:1".to_owned());
        assert(args@.map_values(|a: String| a@) =~= ffmpeg_arg_list(
            self.device(),
            self.rate(),
            self.bitrate(),
            self.audio_format(),
        ));
        args
    }
}

/// What to do with the audio hub.
#[derive(Debug, PartialEq, Eq)]
pub enum HubAction {
    /// A new stream starts with this init segment (empty for ADTS).
    StartStream(bytes::Bytes),
    /// One more chunk of the running stream.
    Publish(bytes::Bytes),
}

/// A [`HubAction`] by its bytes: `(true, b)` starts a stream, `(false, b)`
/// publishes a chunk.
pub open spec fn action_view(a: HubAction) -> (bool, Seq<u8>) {
    match a {
        HubAction::StartStream(b) => (true, frozen_contents(b)),
        HubAction::Publish(b) => (false, frozen_contents(b)),
    }
}

/// The hub action a WebM chunk calls for.
pub open spec fn piece_action(p: Piece) -> (bool, Seq<u8>) {
    match p {
        Piece::Init(b) => (true, b),
        Piece::Cluster(b) => (false, b),
    }
}

/// Turns raw ffmpeg stdout into hub publishes, which is the one place the
/// two formats genuinely differ: WebM has to be split so a late listener can
/// be replayed a header, while ADTS is self-framing and passes straight
/// through.
pub enum Publisher {
    Webm(WebmChunker),
    /// `true` once the stream has been announced to the hub.
    Adts(bool),
}

impl Publisher {
    pub open spec fn wf(&self) -> bool {
        match self {
            Publisher::Webm(c) => c.wf(),
            Publisher::Adts(_) => true,
        }
    }

    pub fn new(format: AudioFormat) -> (r: Self)
        ensures
            r.wf(),
            match format {
                AudioFormat::WebmOpus => r matches Publisher::Webm(c) && c@ == (
                    crate::audio::webm::State::Init,
                    Seq::<u8>::empty(),
                ),
                AudioFormat::AdtsAac => r == Publisher::Adts(false),
            },
    {
        match format {
            AudioFormat::WebmOpus => Publisher::Webm(WebmChunker::new()),
            AudioFormat::AdtsAac => Publisher::Adts(false),
        }
    }

    /// The hub actions one read of ffmpeg's stdout calls for, in order.
    pub fn push(&mut self, data: &[u8]) -> (actions: Vec<HubAction>)
        requires
            old(self).wf(),
            data@.len() + MAX_BUFFER <= isize::MAX,
        ensures
            final(self).wf(),
            match *old(self) {
                Publisher::Webm(c) => *final(self) matches Publisher::Webm(c2) && {
                    let out = push_outcome(c@.0, c@.1, data@);
                    &&& actions@.map_values(|a: HubAction| action_view(a)) == out.0.map_values(
                        |p: Piece| piece_action(p),
                    )
                    &&& c2@ == (out.1, out.2)
                },
                // Announced on the first real bytes rather than at spawn, so
                // a listener is never told a stream exists before ffmpeg has
                // proven it can actually open the device.
                Publisher::Adts(started) => {
                    &&& *final(self) == Publisher::Adts(true)
                    &&& actions@.map_values(|a: HubAction| action_view(a)) == if started {
                        seq![(false, data@)]
                    } else {
                        seq![(true, Seq::<u8>::empty()), (false, data@)]
                    }
                },
            },
    {
        let mut actions: Vec<HubAction> = Vec::new();
        match self {
            Publisher::Webm(chunker) => {
                let chunks = chunker.push(data);
                let ghost pieces = chunks@.map_values(|c: AudioChunk| c@);
                let mut rest = chunks;
                let ghost n = pieces.len();
                while rest.len() > 0
                    invariant
                        actions@.len() + rest@.len() == n,
                        n == pieces.len(),
                        forall|i: int|
                            0 <= i < actions@.len() ==> action_view(#[trigger] actions@[i])
                                == piece_action(pieces[i]),
                        forall|j: int|
                            0 <= j < rest@.len() ==> (#[trigger] rest@[j])@ == pieces[actions@.len()
                                + j],
                    decreases rest@.len(),
                {
                    let ghost before = rest@;
                    let chunk = rest.remove(0);
                    let ghost k = actions@.len();
                    match chunk {
                        AudioChunk::Init(bytes) => actions.push(HubAction::StartStream(bytes)),
                        AudioChunk::Cluster(bytes) => actions.push(HubAction::Publish(bytes)),
                    }
                    assert(action_view(actions@[k as int]) == piece_action(pieces[k as int]));
                    assert forall|j: int| 0 <= j < rest@.len() implies (#[trigger] rest@[j])@
                        == pieces[actions@.len() + j] by {
                        assert(rest@[j] == before[j + 1]);
                    }
                }
                assert(actions@.map_values(|a: HubAction| action_view(a)) =~= pieces.map_values(
                    |p: Piece| piece_action(p),
                ));
            },
            Publisher::Adts(started) => {
                if !*started {
                    actions.push(HubAction::StartStream(frozen_empty()));
                    *started = true;
                }
                actions.push(HubAction::Publish(frozen_copy(data)));
                assert(actions@.map_values(|a: HubAction| action_view(a)) =~= if *old(self)
                    == Publisher::Adts(true) {
                    seq![(false, data@)]
                } else {
                    seq![(true, Seq::<u8>::empty()), (false, data@)]
                });
            },
        }
        actions
    }
}

} // verus!
