//! The audio hub's bookkeeping: the current stream's init segment (with the
//! generation that tells a listener the stream it joined was replaced),
//! how many listeners are connected, and what `/healthz` reports.

use vstd::prelude::*;

use crate::byte_buffer::{frozen_clone, frozen_contents};

verus! {

#[derive(Clone, Copy, Debug, PartialEq, Eq)]
pub enum AudioState {
    /// Enabled, but nobody is listening, so no subprocess is running.
    Idle,
    /// The microphone is open and chunks are being published.
    Streaming,
}

impl AudioState {
    pub fn as_str(self) -> (r: &'static str)
        ensures
            r@ == match self {
                AudioState::Idle => "idle"@,
                AudioState::Streaming => "streaming"@,
            },
    {
        match self {
            AudioState::Idle => "idle",
            AudioState::Streaming => "streaming",
        }
    }
}

/// The header every listener of a stream must be handed before its first
/// cluster, numbered so a listener can tell a restarted stream apart.
pub struct InitSegment {
    pub generation: u64,
    pub bytes: bytes::Bytes,
}

/// The running stream's init segment, the next generation number, and the
/// listener count.
pub struct AudioRegistry {
    next_generation: u64,
    init: Option<InitSegment>,
    listeners: usize,
}

/// An [`AudioRegistry`] as plain values: the next generation number, the
/// current stream's generation and init bytes, and the listener count.
pub struct AudioRegistryView {
    pub next_generation: u64,
    pub init: Option<(u64, Seq<u8>)>,
    pub listeners: usize,
}

impl View for AudioRegistry {
    type V = AudioRegistryView;

    closed spec fn view(&self) -> AudioRegistryView {
        AudioRegistryView {
            next_generation: self.next_generation,
            init: match self.init {
                Some(s) => Some((s.generation, frozen_contents(s.bytes))),
                None => None,
            },
            listeners: self.listeners,
        }
    }
}

/// The listener count after one more listener connects.
pub open spec fn joined(n: usize) -> int {
    n + 1
}

/// The listener count after one listener leaves, never below zero.
pub open spec fn left(n: usize) -> int {
    if n == 0 {
        0
    } else {
        n - 1
    }
}

impl AudioRegistry {
    pub fn new() -> (r: Self)
        ensures
            r@.next_generation == 0,
            r@.init is None,
            r@.listeners == 0,
    {
        AudioRegistry { next_generation: 0, init: None, listeners: 0 }
    }

    /// A new stream starts with `bytes` as its init segment; returns its
    /// generation. Generations count up (wrapping, like the atomic counter
    /// they stand for).
    pub fn start_stream(&mut self, bytes: bytes::Bytes) -> (generation: u64)
        ensures
            generation == old(self)@.next_generation,
            final(self)@.next_generation == (if generation == u64::MAX { 0 } else { generation + 1 }),
            final(self)@.init == Some((generation, frozen_contents(bytes))),
            final(self)@.listeners == old(self)@.listeners,
    {
        let generation = self.next_generation;
        self.next_generation = if generation == u64::MAX { 0 } else { generation + 1 };
        self.init = Some(InitSegment { generation, bytes });
        generation
    }

    /// The stream ended: no init segment until the next one starts.
    pub fn end_stream(&mut self)
        ensures
            final(self)@.init is None,
            final(self)@.next_generation == old(self)@.next_generation,
            final(self)@.listeners == old(self)@.listeners,
    {
        self.init = None;
    }

    /// The current stream's generation and a handle on its init segment.
    pub fn init(&self) -> (r: Option<(u64, bytes::Bytes)>)
        ensures
            match r {
                Some((g, b)) => self@.init == Some((g, frozen_contents(b))),
                None => self@.init is None,
            },
    {
        match &self.init {
            Some(s) => Some((s.generation, frozen_clone(&s.bytes))),
            None => None,
        }
    }

    /// Streaming exactly while a stream's init segment is held.
    pub fn state(&self) -> (r: AudioState)
        ensures
            r == (if self@.init is Some { AudioState::Streaming } else { AudioState::Idle }),
    {
        match self.init {
            Some(_) => AudioState::Streaming,
            None => AudioState::Idle,
        }
    }

    /// A listener connected.
    pub fn listen(&mut self)
        requires
            old(self)@.listeners < usize::MAX,
        ensures
            final(self)@.listeners == joined(old(self)@.listeners),
            final(self)@.init == old(self)@.init,
            final(self)@.next_generation == old(self)@.next_generation,
    {
        self.listeners = self.listeners + 1;
    }

    /// A listener disconnected; the count never goes below zero.
    pub fn unlisten(&mut self)
        ensures
            final(self)@.listeners == left(old(self)@.listeners),
            final(self)@.init == old(self)@.init,
            final(self)@.next_generation == old(self)@.next_generation,
    {
        self.listeners = if self.listeners == 0 { 0 } else { self.listeners - 1 };
    }

    pub fn listener_count(&self) -> (r: usize)
        ensures
            r == self@.listeners,
    {
        self.listeners
    }
}

/// A listener that connects and then leaves leaves the count as it was,
/// so a dropped connection never keeps the microphone open.
pub proof fn law_leaving_undoes_joining(n: usize)
    requires
        n < usize::MAX,
    ensures
        left(joined(n) as usize) == n,
{
}

} // verus!
