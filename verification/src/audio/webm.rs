//! Splits the WebM byte stream `ffmpeg` writes to stdout into an init
//! segment plus whole clusters.
//!
//! A WebM stream is only decodable from its EBML header, so unlike MJPEG -
//! where any frame stands alone - a listener who connects while the stream
//! is already running cannot simply be handed the next bytes off the wire.
//! It has to be replayed the header first and then dropped in at a cluster
//! boundary, which is what this splitter exists to find:
//!
//! ```text
//! [EBML Header][Segment header ..][Cluster][Cluster][Cluster]...
//!  \_______________________________/       \_____/
//!            AudioChunk::Init               AudioChunk::Cluster
//! ```
//!
//! Boundaries are found by walking EBML element headers (an ID followed by
//! a variable-length size) rather than by scanning for the literal cluster
//! ID bytes, which would be free to occur inside a block's compressed audio
//! data and split a cluster in half.
//!
//! Only `AudioFormat::WebmOpus` needs any of this. ADTS is self-framing, so
//! it is passed straight through.

use vstd::prelude::*;
use vstd::arithmetic::power2::{lemma2_to64, lemma2_to64_rest, pow2};

use crate::byte_buffer::{
    buffer_as_slice, buffer_clear, buffer_contents, buffer_extend, buffer_freeze, buffer_len,
    buffer_new, buffer_split_to, frozen_contents,
};

verus! {

/// Hard cap on the internal buffer. If a malformed stream never yields a
/// complete cluster, the buffer is dropped rather than growing without
/// bound - the same protection the JPEG splitter has.
pub const MAX_BUFFER: usize = 4194304;

/// EBML element IDs, stored as their on-the-wire bytes (marker bit included)
/// packed into a u32, which is how [`read_id`] reports them.
pub const ID_SEGMENT: u32 = 0x1853_8067;
pub const ID_CLUSTER: u32 = 0x1F43_B675;

/// One decodable piece of the stream.
#[derive(Debug, PartialEq, Eq)]
pub enum AudioChunk {
    /// Everything up to the first cluster: the EBML header, the segment
    /// header, and the track definitions. Emitted exactly once per stream,
    /// and replayed verbatim to every listener that connects later.
    Init(bytes::Bytes),
    /// One complete cluster. Meaningless on its own - a decoder must have
    /// been given the [`AudioChunk::Init`] first.
    Cluster(bytes::Bytes),
}

/// An [`AudioChunk`] by its bytes.
pub ghost enum Piece {
    Init(Seq<u8>),
    Cluster(Seq<u8>),
}

impl View for AudioChunk {
    type V = Piece;

    open spec fn view(&self) -> Piece {
        match *self {
            AudioChunk::Init(b) => Piece::Init(frozen_contents(b)),
            AudioChunk::Cluster(b) => Piece::Cluster(frozen_contents(b)),
        }
    }
}

/// Where in the stream the splitter is. The two states parse different
/// things, so they are worth naming rather than inferring from a flag.
#[derive(Debug, Clone, Copy, PartialEq, Eq)]
pub enum State {
    /// Still walking the header elements, looking for the first cluster.
    Init,
    /// The init segment has been emitted; the buffer starts on a cluster.
    Clusters,
}

/// Outcome of parsing an EBML element header. Distinguishing "not yet" from
/// "never" matters: the first is normal on a chunked stream, the second
/// means the input isn't the WebM we expect.
#[derive(Debug, PartialEq, Eq)]
pub enum Parse<T> {
    Parsed(T),
    NeedMoreData,
    Malformed,
}

/// An element's ID plus how long its header is and how much content follows.
#[derive(Debug, Clone, Copy, PartialEq, Eq)]
pub struct Header {
    pub id: u32,
    /// Bytes occupied by the ID and size together.
    pub len: usize,
    /// Content length, or `None` for EBML's "unknown size" encoding.
    pub size: Option<u64>,
}

/// The length of an EBML variable-length integer whose first byte is
/// `first`: one more than the number of leading zero bits.
pub open spec fn vint_len(first: u8) -> int {
    if first >= 0x80 {
        1
    } else if first >= 0x40 {
        2
    } else if first >= 0x20 {
        3
    } else if first >= 0x10 {
        4
    } else if first >= 0x08 {
        5
    } else if first >= 0x04 {
        6
    } else if first >= 0x02 {
        7
    } else if first >= 0x01 {
        8
    } else {
        9
    }
}

/// The marker bit of the first byte of a `len`-byte EBML integer.
pub open spec fn marker_bit(len: int) -> int {
    if len == 1 {
        0x80
    } else if len == 2 {
        0x40
    } else if len == 3 {
        0x20
    } else if len == 4 {
        0x10
    } else if len == 5 {
        0x08
    } else if len == 6 {
        0x04
    } else if len == 7 {
        0x02
    } else {
        0x01
    }
}

/// `2^(7 * len) - 1`: a `len`-byte size with every value bit set, which
/// EBML reserves to mean "unknown size".
pub open spec fn all_ones(len: int) -> int {
    if len == 1 {
        0x7F
    } else if len == 2 {
        0x3FFF
    } else if len == 3 {
        0x1F_FFFF
    } else if len == 4 {
        0x0FFF_FFFF
    } else if len == 5 {
        0x07_FFFF_FFFF
    } else if len == 6 {
        0x03FF_FFFF_FFFF
    } else if len == 7 {
        0x01_FFFF_FFFF_FFFF
    } else {
        0xFF_FFFF_FFFF_FFFF
    }
}

/// `256^n`.
pub open spec fn pow256(n: nat) -> nat
    decreases n,
{
    if n == 0 {
        1
    } else {
        256 * pow256((n - 1) as nat)
    }
}

/// The big-endian number the bytes of `s` spell.
pub open spec fn be_value(s: Seq<u8>) -> nat
    decreases s.len(),
{
    if s.len() == 0 {
        0
    } else {
        be_value(s.drop_last()) * 256 + s.last() as nat
    }
}

/// The value bytes of a `len`-byte EBML size at the front of `buf`: the
/// first byte with its marker bit cleared, then the rest.
pub open spec fn size_bytes(buf: Seq<u8>, len: int) -> Seq<u8> {
    buf.take(len).update(0, (buf[0] - marker_bit(len)) as u8)
}

/// What [`read_id`] reports for `buf`.
pub open spec fn id_parse(buf: Seq<u8>) -> Parse<(u32, usize)> {
    if buf.len() == 0 {
        Parse::NeedMoreData
    } else if vint_len(buf[0]) > 4 {
        Parse::Malformed
    } else if buf.len() < vint_len(buf[0]) {
        Parse::NeedMoreData
    } else {
        Parse::Parsed((be_value(buf.take(vint_len(buf[0]))) as u32, vint_len(buf[0]) as usize))
    }
}

/// What [`read_size`] reports for `buf`.
pub open spec fn size_parse(buf: Seq<u8>) -> Parse<(Option<u64>, usize)> {
    if buf.len() == 0 {
        Parse::NeedMoreData
    } else if buf[0] == 0 {
        Parse::Malformed
    } else if buf.len() < vint_len(buf[0]) {
        Parse::NeedMoreData
    } else {
        let len = vint_len(buf[0]);
        let v = be_value(size_bytes(buf, len));
        Parse::Parsed((if v == all_ones(len) { None } else { Some(v as u64) }, len as usize))
    }
}

/// What [`read_header`] reports for `buf`.
pub open spec fn header_parse(buf: Seq<u8>) -> Parse<Header> {
    match id_parse(buf) {
        Parse::Parsed((id, id_len)) => match size_parse(buf.skip(id_len as int)) {
            Parse::Parsed((size, size_len)) => Parse::Parsed(Header { id, len: (id_len + size_len) as usize, size }),
            Parse::NeedMoreData => Parse::NeedMoreData,
            Parse::Malformed => Parse::Malformed,
        },
        Parse::NeedMoreData => Parse::NeedMoreData,
        Parse::Malformed => Parse::Malformed,
    }
}

/// Whether the four bytes of the cluster ID start at `i`.
pub open spec fn is_cluster_id_at(buf: Seq<u8>, i: int) -> bool {
    &&& 0 <= i
    &&& i + 4 <= buf.len()
    &&& buf[i] == 0x1F
    &&& buf[i + 1] == 0x43
    &&& buf[i + 2] == 0xB6
    &&& buf[i + 3] == 0x75
}

/// The first position at or after `i` where the cluster ID's bytes occur.
pub open spec fn cluster_id_from(buf: Seq<u8>, i: int) -> Option<int>
    decreases buf.len() - i,
{
    if i < 0 || i + 4 > buf.len() {
        None
    } else if is_cluster_id_at(buf, i) {
        Some(i)
    } else {
        cluster_id_from(buf, i + 1)
    }
}

/// Walks the header elements from `pos`: `Some(p)` when the first cluster
/// starts at `p`, `None` when the buffer does not (yet) reach it.
pub open spec fn init_walk(buf: Seq<u8>, pos: int) -> Option<int>
    decreases buf.len() - pos,
{
    if pos < 0 || pos > buf.len() {
        None
    } else {
        match header_parse(buf.skip(pos)) {
            Parse::Parsed(h) => {
                if h.id == ID_CLUSTER {
                    Some(pos)
                } else if h.id == ID_SEGMENT {
                    // Descend into the segment: clusters live inside it.
                    proof {
                        lemma_header_len(buf.skip(pos));
                    }
                    init_walk(buf, pos + h.len)
                } else {
                    match h.size {
                        None => None,
                        Some(size) => {
                            let next = pos + h.len + size;
                            if next > buf.len() {
                                None
                            } else {
                                proof {
                                    lemma_header_len(buf.skip(pos));
                                }
                                init_walk(buf, next)
                            }
                        },
                    }
                }
            },
            _ => None,
        }
    }
}

/// One step in the cluster state: the next cluster cut from the front of
/// `buf` (skipping non-cluster elements, and resynchronizing on the next
/// cluster ID after a malformed header), and what stays buffered.
pub open spec fn cluster_step(buf: Seq<u8>) -> (Option<Seq<u8>>, Seq<u8>)
    decreases buf.len(),
{
    match header_parse(buf) {
        Parse::NeedMoreData => (None, buf),
        Parse::Malformed => match cluster_id_from(buf, 1) {
            None => (None, buf),
            Some(n) => {
                proof {
                    lemma_cluster_id_from_bounds(buf, 1);
                }
                cluster_step(buf.skip(n))
            },
        },
        Parse::Parsed(h) => {
            let end = match h.size {
                Some(size) => Some(h.len + size),
                None => cluster_id_from(buf, h.len as int),
            };
            match end {
                None => (None, buf),
                Some(e) => {
                    if buf.len() < e {
                        (None, buf)
                    } else if h.id != ID_CLUSTER {
                        // Trailing non-cluster elements (Cues, Tags) carry no
                        // audio and are dropped.
                        proof {
                            lemma_header_len(buf);
                            lemma_cluster_id_from_bounds(buf, h.len as int);
                        }
                        cluster_step(buf.skip(e))
                    } else {
                        (Some(buf.take(e)), buf.skip(e))
                    }
                },
            }
        },
    }
}

/// Every chunk that can be cut from `buf` starting in state `state`, in
/// order, with the state and buffered bytes left afterwards.
pub open spec fn split_chunks(state: State, buf: Seq<u8>) -> (Seq<Piece>, State, Seq<u8>)
    decreases buf.len(), if state == State::Init { 1int } else { 0int },
{
    if state == State::Init {
        match init_walk(buf, 0) {
            None => (Seq::empty(), State::Init, buf),
            Some(p) => {
                proof {
                    lemma_init_walk_bounds(buf, 0);
                }
                let later = split_chunks(State::Clusters, buf.skip(p));
                (seq![Piece::Init(buf.take(p))] + later.0, later.1, later.2)
            },
        }
    } else {
        let step = cluster_step(buf);
        match step.0 {
            None => (Seq::empty(), State::Clusters, step.1),
            Some(c) => {
                proof {
                    lemma_cluster_step_shrinks(buf);
                }
                let later = split_chunks(State::Clusters, step.1);
                (seq![Piece::Cluster(c)] + later.0, later.1, later.2)
            },
        }
    }
}

/// What one [`WebmChunker::push`] of `data` yields from state `state` with
/// `buf` buffered: the chunks, the new state, and the bytes kept (nothing,
/// if they exceed [`MAX_BUFFER`]).
pub open spec fn push_outcome(state: State, buf: Seq<u8>, data: Seq<u8>) -> (Seq<Piece>, State, Seq<u8>) {
    let r = split_chunks(state, buf + data);
    (r.0, r.1, if r.2.len() > MAX_BUFFER { Seq::empty() } else { r.2 })
}

/// Buffers ffmpeg's WebM output and cuts it into an init segment and
/// clusters.
pub struct WebmChunker {
    buf: bytes::BytesMut,
    state: State,
}

impl View for WebmChunker {
    type V = (State, Seq<u8>);

    /// Which part of the stream the splitter is in, and the bytes it holds.
    closed spec fn view(&self) -> (State, Seq<u8>) {
        (self.state, buffer_contents(self.buf))
    }
}

impl WebmChunker {
    /// The buffer never holds more than [`MAX_BUFFER`] bytes between calls.
    pub open spec fn wf(&self) -> bool {
        self@.1.len() <= MAX_BUFFER
    }

    pub fn new() -> (r: Self)
        ensures
            r@ == (State::Init, Seq::<u8>::empty()),
            r.wf(),
    {
        WebmChunker { buf: buffer_new(), state: State::Init }
    }

    /// Feed in newly-read bytes and get back every complete chunk that could
    /// be extracted, in order. Bytes that don't yet complete a chunk are
    /// retained for the next call.
    pub fn push(&mut self, data: &[u8]) -> (chunks: Vec<AudioChunk>)
        requires
            old(self).wf(),
            data@.len() + MAX_BUFFER <= isize::MAX,
        ensures
            final(self).wf(),
            chunks@.map_values(|c: AudioChunk| c@) == push_outcome(old(self)@.0, old(self)@.1, data@).0,
            final(self)@.0 == push_outcome(old(self)@.0, old(self)@.1, data@).1,
            final(self)@.1 == push_outcome(old(self)@.0, old(self)@.1, data@).2,
    {
        buffer_extend(&mut self.buf, data);
        let ghost all = split_chunks(old(self)@.0, old(self)@.1 + data@);

        let mut chunks: Vec<AudioChunk> = Vec::new();
        loop
            invariant_except_break
                self@.1.len() <= isize::MAX,
                chunks@.map_values(|c: AudioChunk| c@) + split_chunks(self@.0, self@.1).0 == all.0,
                split_chunks(self@.0, self@.1).1 == all.1,
                split_chunks(self@.0, self@.1).2 == all.2,
            ensures
                self@.1.len() <= isize::MAX,
                chunks@.map_values(|c: AudioChunk| c@) == all.0,
                self@.0 == all.1,
                self@.1 == all.2,
            decreases self@.1.len(), if self@.0 == State::Init { 1int } else { 0int },
        {
            let ghost before = self@;
            proof {
                lemma_init_walk_bounds(before.1, 0);
                lemma_cluster_step_shrinks(before.1);
            }
            let chunk = match self.state {
                State::Init => self.take_init(),
                State::Clusters => self.take_cluster(),
            };
            match chunk {
                Some(chunk) => {
                    let ghost prev = chunks@.map_values(|c: AudioChunk| c@);
                    assert(split_chunks(before.0, before.1).0 == seq![chunk@] + split_chunks(
                        self@.0,
                        self@.1,
                    ).0);
                    chunks.push(chunk);
                    assert(chunks@.map_values(|c: AudioChunk| c@) == prev.push(chunk@));
                    assert(prev.push(chunk@) + split_chunks(self@.0, self@.1).0 == prev + (seq![chunk@]
                        + split_chunks(self@.0, self@.1).0));
                },
                None => {
                    assert(chunks@.map_values(|c: AudioChunk| c@) + Seq::<Piece>::empty()
                        == chunks@.map_values(|c: AudioChunk| c@));
                    break;
                },
            }
        }

        if buffer_len(&self.buf) > MAX_BUFFER {
            buffer_clear(&mut self.buf);
        }
        chunks
    }

    /// Walks header elements until the first cluster is found, and emits
    /// everything before it as the init segment.
    fn take_init(&mut self) -> (r: Option<AudioChunk>)
        requires
            old(self)@.0 == State::Init,
            old(self)@.1.len() <= isize::MAX,
        ensures
            match init_walk(old(self)@.1, 0) {
                Some(p) => {
                    &&& r matches Some(c) && c@ == Piece::Init(old(self)@.1.take(p))
                    &&& final(self)@ == (State::Clusters, old(self)@.1.skip(p))
                },
                None => r is None && final(self)@ == old(self)@,
            },
    {
        let ghost b = self@.1;
        let mut pos: usize = 0;
        loop
            invariant
                self@ == old(self)@,
                b == self@.1,
                b.len() <= isize::MAX,
                pos <= b.len(),
                init_walk(b, pos as int) == init_walk(b, 0),
            decreases b.len() - pos,
        {
            let header = {
                let all = buffer_as_slice(&self.buf);
                let rest = &all[pos..all.len()];
                assert(rest@ == b.skip(pos as int));
                match read_header(rest) {
                    Parse::Parsed(header) => header,
                    // A malformed header this early means ffmpeg isn't
                    // writing what we think it is; there is nothing useful
                    // to resync to.
                    Parse::NeedMoreData | Parse::Malformed => return None,
                }
            };
            proof {
                lemma_header_len(b.skip(pos as int));
                lemma_init_walk_bounds(b, 0);
            }

            if header.id == ID_CLUSTER {
                let init = buffer_split_to(&mut self.buf, pos);
                self.state = State::Clusters;
                return Some(AudioChunk::Init(buffer_freeze(init)));
            }

            // Descend into the segment rather than skipping it: clusters
            // live inside it, and on a pipe its size is "unknown" anyway.
            if header.id == ID_SEGMENT {
                pos = pos + header.len;
                continue;
            }

            // Any other header element (SeekHead, Info, Tracks, Tags) is part
            // of the init segment and is stepped over whole.
            let size = match header.size {
                Some(size) => size,
                None => return None,
            };
            let remaining = buffer_len(&self.buf) - pos - header.len;
            if size > remaining as u64 {
                return None;
            }
            pos = pos + header.len + size as usize;
        }
    }

    /// Extracts one whole cluster from the front of the buffer, dropping any
    /// non-cluster elements in front of it and, after a malformed header,
    /// everything up to the next cluster ID.
    fn take_cluster(&mut self) -> (r: Option<AudioChunk>)
        requires
            old(self)@.0 == State::Clusters,
            old(self)@.1.len() <= isize::MAX,
        ensures
            final(self)@.0 == State::Clusters,
            final(self)@.1 == cluster_step(old(self)@.1).1,
            match cluster_step(old(self)@.1).0 {
                Some(c) => r matches Some(chunk) && chunk@ == Piece::Cluster(c),
                None => r is None,
            },
    {
        loop
            invariant
                self@.0 == State::Clusters,
                self@.1.len() <= isize::MAX,
                cluster_step(self@.1) == cluster_step(old(self)@.1),
            decreases self@.1.len(),
        {
            let ghost cur = self@.1;
            let parsed = read_header(buffer_as_slice(&self.buf));
            proof {
                lemma_header_len(cur);
            }
            let header = match parsed {
                Parse::Parsed(header) => header,
                Parse::NeedMoreData => return None,
                Parse::Malformed => {
                    // Lost element alignment: drop everything up to the next
                    // cluster ID, so a corrupt run of bytes costs one cluster
                    // instead of the whole connection.
                    proof {
                        lemma_cluster_id_from_bounds(cur, 1);
                    }
                    let next = match find_cluster_id(buffer_as_slice(&self.buf), 1) {
                        Some(next) => next,
                        None => return None,
                    };
                    let _ = buffer_split_to(&mut self.buf, next);
                    continue;
                },
            };

            // ffmpeg buffers each cluster before writing it, so sizes are
            // known even on a pipe. Unknown-size clusters are legal EBML
            // though, and then the only end marker is the next cluster
            // starting.
            let len = buffer_len(&self.buf);
            proof {
                lemma_cluster_id_from_bounds(cur, header.len as int);
            }
            let end = match header.size {
                Some(size) => {
                    if size > (len - header.len) as u64 {
                        return None;
                    }
                    header.len + size as usize
                },
                None => match find_cluster_id(buffer_as_slice(&self.buf), header.len) {
                    Some(end) => end,
                    None => return None,
                },
            };
            if len < end {
                return None;
            }

            let body = buffer_freeze(buffer_split_to(&mut self.buf, end));

            // Trailing non-cluster elements (Cues, Tags) are dropped: they
            // carry no audio and a live listener has no use for them.
            if header.id != ID_CLUSTER {
                continue;
            }
            return Some(AudioChunk::Cluster(body));
        }
    }
}

impl Default for WebmChunker {
    fn default() -> (r: Self)
        ensures
            r@ == (State::Init, Seq::<u8>::empty()),
    {
        Self::new()
    }
}

/// The length of the EBML integer whose first byte is `first`.
fn vint_length(first: u8) -> (r: usize)
    ensures
        r as int == vint_len(first),
{
    if first >= 0x80 {
        1
    } else if first >= 0x40 {
        2
    } else if first >= 0x20 {
        3
    } else if first >= 0x10 {
        4
    } else if first >= 0x08 {
        5
    } else if first >= 0x04 {
        6
    } else if first >= 0x02 {
        7
    } else if first >= 0x01 {
        8
    } else {
        9
    }
}

/// Reads an element's ID and size.
pub fn read_header(buf: &[u8]) -> (r: Parse<Header>)
    ensures
        r == header_parse(buf@),
{
    let (id, id_len) = match read_id(buf) {
        Parse::Parsed(v) => v,
        Parse::NeedMoreData => return Parse::NeedMoreData,
        Parse::Malformed => return Parse::Malformed,
    };
    let (size, size_len) = match read_size(&buf[id_len..buf.len()]) {
        Parse::Parsed(v) => v,
        Parse::NeedMoreData => return Parse::NeedMoreData,
        Parse::Malformed => return Parse::Malformed,
    };

    Parse::Parsed(Header { id, len: id_len + size_len, size })
}

/// Reads an EBML element ID: 1-4 bytes, its length encoded as the number of
/// leading zero bits in the first byte. The marker bit is kept, since IDs
/// are conventionally written including it (`0x1F43B675`, not `0x0F43B675`).
pub fn read_id(buf: &[u8]) -> (r: Parse<(u32, usize)>)
    ensures
        r == id_parse(buf@),
{
    if buf.len() == 0 {
        return Parse::NeedMoreData;
    }
    let first = buf[0];
    let len = vint_length(first);
    if len > 4 {
        return Parse::Malformed;
    }
    if buf.len() < len {
        return Parse::NeedMoreData;
    }

    let mut id: u32 = 0;
    let mut i: usize = 0;
    while i < len
        invariant
            len <= 4,
            len <= buf@.len(),
            i <= len,
            id as int == be_value(buf@.take(i as int)),
            be_value(buf@.take(i as int)) < pow256(i as nat),
        decreases len - i,
    {
        let ghost t = buf@.take(i as int + 1);
        assert(t.drop_last() == buf@.take(i as int));
        proof {
            lemma_be_value_bound(t);
            assert(pow256(i as nat + 1) == 256 * pow256(i as nat));
            lemma_pow256_values();
            lemma_pow256_mono(i as nat + 1, 4);
        }
        id = id * 256 + buf[i] as u32;
        i = i + 1;
    }
    Parse::Parsed((id, len))
}

/// Reads an EBML size: 1-8 bytes, length encoded like an ID's but with the
/// marker bit cleared from the value. All-ones means "unknown size".
pub fn read_size(buf: &[u8]) -> (r: Parse<(Option<u64>, usize)>)
    ensures
        r == size_parse(buf@),
{
    if buf.len() == 0 {
        return Parse::NeedMoreData;
    }
    let first = buf[0];
    if first == 0 {
        return Parse::Malformed;
    }
    let len = vint_length(first);
    if buf.len() < len {
        return Parse::NeedMoreData;
    }

    let (marker, unknown): (u8, u64) = match len {
        1 => (0x80, 0x7F),
        2 => (0x40, 0x3FFF),
        3 => (0x20, 0x1F_FFFF),
        4 => (0x10, 0x0FFF_FFFF),
        5 => (0x08, 0x07_FFFF_FFFF),
        6 => (0x04, 0x03FF_FFFF_FFFF),
        7 => (0x02, 0x01_FFFF_FFFF_FFFF),
        _ => (0x01, 0xFF_FFFF_FFFF_FFFF),
    };
    let ghost bytes = size_bytes(buf@, len as int);
    assert(marker as int == marker_bit(len as int));
    assert(bytes[0] == (first - marker) as u8);
    assert(bytes.take(1).drop_last() == Seq::<u8>::empty());
    assert(bytes.take(1).last() == bytes[0]);
    assert(pow256(0) == 1 && pow256(1) == 256);
    assert(be_value(bytes.take(1).drop_last()) == 0);
    assert(be_value(bytes.take(1)) == bytes[0] as nat);
    let mut value: u64 = (first - marker) as u64;
    let mut i: usize = 1;
    while i < len
        invariant
            1 <= len <= 8,
            len <= buf@.len(),
            1 <= i <= len,
            bytes == size_bytes(buf@, len as int),
            bytes.len() == len,
            value as int == be_value(bytes.take(i as int)),
            be_value(bytes.take(i as int)) < pow256(i as nat),
        decreases len - i,
    {
        let ghost t = bytes.take(i as int + 1);
        assert(t.drop_last() == bytes.take(i as int));
        assert(bytes[i as int] == buf@[i as int]);
        proof {
            lemma_be_value_bound(t);
            assert(pow256(i as nat + 1) == 256 * pow256(i as nat));
            lemma_pow256_values();
            lemma_pow256_mono(i as nat + 1, 8);
        }
        value = value * 256 + buf[i] as u64;
        i = i + 1;
    }
    assert(bytes.take(len as int) == bytes);

    // The unknown-size encoding is every value bit set - 7 bits for a
    // 1-byte size, 14 for 2 bytes, and so on.
    let size = if value != unknown {
        Some(value)
    } else {
        None
    };
    Parse::Parsed((size, len))
}

/// Finds the next cluster ID at or after `from`. Only used for the
/// unknown-size and resync cases, where there is no length to trust.
fn find_cluster_id(buf: &[u8], from: usize) -> (r: Option<usize>)
    ensures
        match r {
            Some(i) => cluster_id_from(buf@, from as int) == Some(i as int),
            None => cluster_id_from(buf@, from as int) is None,
        },
{
    if buf.len() < 4 {
        return None;
    }
    let last = buf.len() - 4;
    let mut i = from;
    while i <= last
        invariant
            last + 4 == buf@.len(),
            from <= i,
            cluster_id_from(buf@, i as int) == cluster_id_from(buf@, from as int),
        decreases last + 1 - i,
    {
        if buf[i] == 0x1F && buf[i + 1] == 0x43 && buf[i + 2] == 0xB6 && buf[i + 3] == 0x75 {
            return Some(i);
        }
        i = i + 1;
    }
    None
}

proof fn lemma_pow256_values()
    ensures
        pow256(0) == 1,
        pow256(1) == 0x100,
        pow256(2) == 0x1_0000,
        pow256(3) == 0x100_0000,
        pow256(4) == 0x1_0000_0000,
        pow256(5) == 0x100_0000_0000,
        pow256(6) == 0x1_0000_0000_0000,
        pow256(7) == 0x100_0000_0000_0000,
        pow256(8) == 0x1_0000_0000_0000_0000,
{
    assert(pow256(0) == 1);
    assert(pow256(1) == 256);
    assert(pow256(2) == 0x1_0000);
    assert(pow256(3) == 0x100_0000);
    assert(pow256(4) == 0x1_0000_0000);
    assert(pow256(5) == 0x100_0000_0000);
    assert(pow256(6) == 0x1_0000_0000_0000);
    assert(pow256(7) == 0x100_0000_0000_0000);
    assert(pow256(8) == 0x1_0000_0000_0000_0000);
}

proof fn lemma_pow256_mono(a: nat, b: nat)
    requires
        a <= b,
    ensures
        pow256(a) <= pow256(b),
    decreases b - a,
{
    if a < b {
        lemma_pow256_mono(a, (b - 1) as nat);
    }
}

pub proof fn lemma_cluster_id_from_bounds(buf: Seq<u8>, i: int)
    requires
        0 <= i,
    ensures
        cluster_id_from(buf, i) matches Some(n) ==> i <= n && is_cluster_id_at(buf, n)
            && forall|j: int| i <= j < n ==> !is_cluster_id_at(buf, j),
        cluster_id_from(buf, i) is None ==> forall|j: int| i <= j ==> !is_cluster_id_at(buf, j),
    decreases buf.len() - i,
{
    if i + 4 > buf.len() {
    } else if is_cluster_id_at(buf, i) {
    } else {
        lemma_cluster_id_from_bounds(buf, i + 1);
    }
}

pub proof fn lemma_be_value_bound(s: Seq<u8>)
    ensures
        be_value(s) < pow256(s.len()),
    decreases s.len(),
{
    if s.len() > 0 {
        lemma_be_value_bound(s.drop_last());
    }
}

pub proof fn lemma_header_len(buf: Seq<u8>)
    ensures
        header_parse(buf) matches Parse::Parsed(h) ==> 2 <= h.len <= buf.len() && h.len <= 12,
{
    if let Parse::Parsed((id, id_len)) = id_parse(buf) {
        let rest = buf.skip(id_len as int);
        if let Parse::Parsed((size, size_len)) = size_parse(rest) {
        }
    }
}

pub proof fn lemma_init_walk_bounds(buf: Seq<u8>, pos: int)
    ensures
        init_walk(buf, pos) matches Some(p) ==> pos <= p <= buf.len() && 0 <= p,
    decreases buf.len() - pos,
{
    if pos < 0 || pos > buf.len() {
    } else {
        lemma_header_len(buf.skip(pos));
        match header_parse(buf.skip(pos)) {
            Parse::Parsed(h) => {
                if h.id == ID_CLUSTER {
                } else if h.id == ID_SEGMENT {
                    lemma_init_walk_bounds(buf, pos + h.len);
                } else {
                    match h.size {
                        None => {},
                        Some(size) => {
                            let next = pos + h.len + size;
                            if next <= buf.len() {
                                lemma_init_walk_bounds(buf, next);
                            }
                        },
                    }
                }
            },
            _ => {},
        }
    }
}

proof fn lemma_base256_digit(v: int, a: int, d: int)
    by (nonlinear_arith)
    requires
        v == a * 256 + d,
        0 <= d < 256,
    ensures
        a == v / 256,
        d == v % 256,
{
}

/// An ID that reads as the cluster ID is spelled by the four bytes
/// `1F 43 B6 75` at the front of the buffer.
proof fn lemma_cluster_id_bytes(buf: Seq<u8>)
    requires
        id_parse(buf) matches Parse::Parsed((id, _)) && id == ID_CLUSTER,
    ensures
        id_parse(buf) == Parse::Parsed((ID_CLUSTER, 4usize)),
        is_cluster_id_at(buf, 0),
{
    let l = vint_len(buf[0]);
    let s = buf.take(l);
    lemma_be_value_bound(s);
    lemma_pow256_values();
    lemma_pow256_mono(l as nat, 4);
    if l < 4 {
        lemma_pow256_mono(l as nat, 3);
        assert(false);
    }
    assert(l == 4);
    let v = be_value(s);
    assert(v == 0x1F43_B675);
    let s3 = s.take(3);
    let s2 = s.take(2);
    let s1 = s.take(1);
    assert(s.drop_last() == s3);
    assert(s3.drop_last() == s2);
    assert(s2.drop_last() == s1);
    assert(s1.drop_last() == Seq::<u8>::empty());
    assert(be_value(Seq::<u8>::empty()) == 0);
    assert(s1.last() == s[0]);
    assert(be_value(s1) == s[0] as nat);
    assert(be_value(s2) == be_value(s1) * 256 + s[1] as nat);
    assert(be_value(s3) == be_value(s2) * 256 + s[2] as nat);
    assert(v == be_value(s3) * 256 + s[3] as nat);
    lemma_base256_digit(v as int, be_value(s3) as int, s[3] as int);
    lemma_base256_digit(be_value(s3) as int, be_value(s2) as int, s[2] as int);
    lemma_base256_digit(be_value(s2) as int, be_value(s1) as int, s[1] as int);
}

/// A chunk cut in the cluster state begins with the cluster ID's bytes.
proof fn lemma_cluster_step_starts_with_id(buf: Seq<u8>)
    ensures
        cluster_step(buf).0 matches Some(c) ==> is_cluster_id_at(c, 0),
    decreases buf.len(),
{
    match header_parse(buf) {
        Parse::NeedMoreData => {},
        Parse::Malformed => {
            lemma_cluster_id_from_bounds(buf, 1);
            match cluster_id_from(buf, 1) {
                None => {},
                Some(n) => {
                    lemma_cluster_step_starts_with_id(buf.skip(n));
                },
            }
        },
        Parse::Parsed(h) => {
            let end = match h.size {
                Some(size) => Some(h.len + size),
                None => cluster_id_from(buf, h.len as int),
            };
            match end {
                None => {},
                Some(e) => {
                    lemma_header_len(buf);
                    lemma_cluster_id_from_bounds(buf, h.len as int);
                    if buf.len() < e {
                    } else if h.id != ID_CLUSTER {
                        lemma_cluster_step_starts_with_id(buf.skip(e));
                    } else {
                        lemma_cluster_id_bytes(buf);
                        assert(h.len >= 4);
                        assert(e >= 4);
                    }
                },
            }
        },
    }
}

proof fn lemma_split_chunks_clusters_start_with_id(st: State, buf: Seq<u8>)
    ensures
        forall|k: int|
            0 <= k < split_chunks(st, buf).0.len() ==> (#[trigger] split_chunks(st, buf).0[k]
                matches Piece::Cluster(c) ==> is_cluster_id_at(c, 0)),
    decreases buf.len(), if st == State::Init { 1int } else { 0int },
{
    if st == State::Init {
        lemma_init_walk_bounds(buf, 0);
        match init_walk(buf, 0) {
            None => {},
            Some(p) => {
                lemma_split_chunks_clusters_start_with_id(State::Clusters, buf.skip(p));
                let later = split_chunks(State::Clusters, buf.skip(p));
                assert forall|k: int| 0 <= k < split_chunks(st, buf).0.len() implies (
                #[trigger] split_chunks(st, buf).0[k] matches Piece::Cluster(c) ==> is_cluster_id_at(
                    c,
                    0,
                )) by {
                    if k > 0 {
                        assert(split_chunks(st, buf).0[k] == later.0[k - 1]);
                    }
                }
            },
        }
    } else {
        lemma_cluster_step_shrinks(buf);
        lemma_cluster_step_starts_with_id(buf);
        let step = cluster_step(buf);
        match step.0 {
            None => {},
            Some(c) => {
                lemma_split_chunks_clusters_start_with_id(State::Clusters, step.1);
                let later = split_chunks(State::Clusters, step.1);
                assert forall|k: int| 0 <= k < split_chunks(st, buf).0.len() implies (
                #[trigger] split_chunks(st, buf).0[k] matches Piece::Cluster(d) ==> is_cluster_id_at(
                    d,
                    0,
                )) by {
                    if k > 0 {
                        assert(split_chunks(st, buf).0[k] == later.0[k - 1]);
                    }
                }
            },
        }
    }
}

pub proof fn lemma_cluster_step_shrinks(buf: Seq<u8>)
    ensures
        cluster_step(buf).1.len() <= buf.len(),
        cluster_step(buf).0 matches Some(c) ==> cluster_step(buf).1.len() + c.len() <= buf.len()
            && c.len() > 0,
    decreases buf.len(),
{
    match header_parse(buf) {
        Parse::NeedMoreData => {},
        Parse::Malformed => {
            lemma_cluster_id_from_bounds(buf, 1);
            match cluster_id_from(buf, 1) {
                None => {},
                Some(n) => {
                    lemma_cluster_step_shrinks(buf.skip(n));
                },
            }
        },
        Parse::Parsed(h) => {
            let end = match h.size {
                Some(size) => Some(h.len + size),
                None => cluster_id_from(buf, h.len as int),
            };
            match end {
                None => {},
                Some(e) => {
                    lemma_header_len(buf);
                    lemma_cluster_id_from_bounds(buf, h.len as int);
                    if buf.len() < e {
                    } else if h.id != ID_CLUSTER {
                        lemma_cluster_step_shrinks(buf.skip(e));
                    } else {
                    }
                },
            }
        },
    }
}

} // verus!

verus! {

proof fn lemma_be_prefix(b: Seq<u8>, t: Seq<u8>, n: int)
    requires
        0 <= n <= b.len(),
    ensures
        (b + t).take(n) == b.take(n),
{
    assert((b + t).take(n) =~= b.take(n));
}

proof fn lemma_header_extends(b: Seq<u8>, t: Seq<u8>)
    requires
        header_parse(b) != Parse::<Header>::NeedMoreData,
    ensures
        header_parse(b + t) == header_parse(b),
{
    if b.len() > 0 {
        assert((b + t)[0] == b[0]);
        if vint_len(b[0]) <= 4 && b.len() >= vint_len(b[0]) {
            let id_len = vint_len(b[0]);
            lemma_be_prefix(b, t, id_len);
            let rest = b.skip(id_len);
            assert((b + t).skip(id_len) == rest + t);
            if rest.len() > 0 {
                assert((rest + t)[0] == rest[0]);
                if rest[0] != 0 && rest.len() >= vint_len(rest[0]) {
                    let len = vint_len(rest[0]);
                    lemma_be_prefix(rest, t, len);
                    assert(size_bytes(rest + t, len) == size_bytes(rest, len));
                }
            }
        }
    }
}

proof fn lemma_cluster_id_extends(b: Seq<u8>, t: Seq<u8>, i: int)
    requires
        0 <= i,
        cluster_id_from(b, i) is Some,
    ensures
        cluster_id_from(b + t, i) == cluster_id_from(b, i),
    decreases b.len() - i,
{
    if i + 4 > b.len() {
    } else {
        assert((b + t)[i] == b[i] && (b + t)[i + 1] == b[i + 1] && (b + t)[i + 2] == b[i + 2]
            && (b + t)[i + 3] == b[i + 3]);
        if !is_cluster_id_at(b, i) {
            lemma_cluster_id_extends(b, t, i + 1);
        }
    }
}

proof fn lemma_init_walk_extends(b: Seq<u8>, t: Seq<u8>, pos: int)
    requires
        init_walk(b, pos) is Some,
    ensures
        init_walk(b + t, pos) == init_walk(b, pos),
    decreases b.len() - pos,
{
    let rest = b.skip(pos);
    assert((b + t).skip(pos) == rest + t);
    lemma_header_extends(rest, t);
    lemma_header_len(rest);
    match header_parse(rest) {
        Parse::Parsed(h) => {
            if h.id == ID_CLUSTER {
            } else if h.id == ID_SEGMENT {
                lemma_init_walk_extends(b, t, pos + h.len);
            } else {
                let size = h.size->0;
                lemma_init_walk_extends(b, t, pos + h.len + size);
            }
        },
        _ => {},
    }
}

/// Appending bytes never changes a cluster step that already decided, and a
/// step that stopped short resumes from exactly what it kept.
proof fn lemma_cluster_step_extends(b: Seq<u8>, t: Seq<u8>)
    ensures
        cluster_step(b).0 is Some ==> cluster_step(b + t) == (cluster_step(b).0, cluster_step(b).1 + t),
        cluster_step(b).0 is None ==> cluster_step(b + t) == cluster_step(cluster_step(b).1 + t),
    decreases b.len(),
{
    lemma_header_len(b);
    match header_parse(b) {
        Parse::NeedMoreData => {},
        Parse::Malformed => {
            lemma_header_extends(b, t);
            lemma_cluster_id_from_bounds(b, 1);
            match cluster_id_from(b, 1) {
                None => {},
                Some(n) => {
                    lemma_cluster_id_extends(b, t, 1);
                    assert((b + t).skip(n) == b.skip(n) + t);
                    lemma_cluster_step_extends(b.skip(n), t);
                },
            }
        },
        Parse::Parsed(h) => {
            lemma_header_extends(b, t);
            lemma_cluster_id_from_bounds(b, h.len as int);
            let end = match h.size {
                Some(size) => Some(h.len + size),
                None => cluster_id_from(b, h.len as int),
            };
            match end {
                None => {},
                Some(e) => {
                    if h.size is None {
                        lemma_cluster_id_extends(b, t, h.len as int);
                    }
                    if b.len() < e {
                    } else if h.id != ID_CLUSTER {
                        assert((b + t).skip(e) == b.skip(e) + t);
                        lemma_cluster_step_extends(b.skip(e), t);
                    } else {
                        assert((b + t).take(e) == b.take(e));
                        assert((b + t).skip(e) == b.skip(e) + t);
                    }
                },
            }
        },
    }
}

proof fn lemma_split_chunks_same_step(x: Seq<u8>, y: Seq<u8>)
    requires
        cluster_step(x) == cluster_step(y),
    ensures
        split_chunks(State::Clusters, x) == split_chunks(State::Clusters, y),
{
    lemma_cluster_step_shrinks(x);
    lemma_cluster_step_shrinks(y);
}

proof fn lemma_split_chunks_concat(st: State, s: Seq<u8>, t: Seq<u8>)
    ensures
        split_chunks(st, s + t) == ({
            let first = split_chunks(st, s);
            let second = split_chunks(first.1, first.2 + t);
            (first.0 + second.0, second.1, second.2)
        }),
    decreases s.len(), if st == State::Init { 1int } else { 0int },
{
    if st == State::Init {
        lemma_init_walk_bounds(s, 0);
        match init_walk(s, 0) {
            None => {
                assert(Seq::<Piece>::empty() + split_chunks(State::Init, s + t).0 == split_chunks(
                    State::Init,
                    s + t,
                ).0);
            },
            Some(p) => {
                lemma_init_walk_extends(s, t, 0);
                lemma_init_walk_bounds(s + t, 0);
                assert((s + t).take(p) == s.take(p));
                assert((s + t).skip(p) == s.skip(p) + t);
                lemma_split_chunks_concat(State::Clusters, s.skip(p), t);
                let later = split_chunks(State::Clusters, s.skip(p));
                let second = split_chunks(later.1, later.2 + t);
                assert(seq![Piece::Init(s.take(p))] + (later.0 + second.0) == (seq![
                    Piece::Init(s.take(p)),
                ] + later.0) + second.0);
            },
        }
    } else {
        lemma_cluster_step_extends(s, t);
        lemma_cluster_step_shrinks(s);
        lemma_cluster_step_shrinks(s + t);
        let step = cluster_step(s);
        match step.0 {
            None => {
                lemma_split_chunks_same_step(s + t, step.1 + t);
                assert(Seq::<Piece>::empty() + split_chunks(State::Clusters, step.1 + t).0
                    == split_chunks(State::Clusters, step.1 + t).0);
            },
            Some(c) => {
                lemma_split_chunks_concat(State::Clusters, step.1, t);
                let later = split_chunks(State::Clusters, step.1);
                let second = split_chunks(later.1, later.2 + t);
                assert(seq![Piece::Cluster(c)] + (later.0 + second.0) == (seq![Piece::Cluster(c)]
                    + later.0) + second.0);
            },
        }
    }
}

/// How ffmpeg's output is chunked by the pipe does not matter: pushing `a`
/// and then `b` hands out, in order, exactly the chunks that pushing
/// `a + b` at once would, and ends in the same state with the same bytes
/// buffered - as long as the first push did not have to drop an overlong
/// buffer.
pub proof fn law_push_chunking(st: State, buf: Seq<u8>, a: Seq<u8>, b: Seq<u8>)
    requires
        split_chunks(st, buf + a).2.len() <= MAX_BUFFER,
    ensures
        push_outcome(st, buf, a + b) == ({
            let first = push_outcome(st, buf, a);
            let second = push_outcome(first.1, first.2, b);
            (first.0 + second.0, second.1, second.2)
        }),
{
    assert(buf + (a + b) == (buf + a) + b);
    lemma_split_chunks_concat(st, buf + a, b);
}

proof fn lemma_split_chunks_init_first(st: State, buf: Seq<u8>)
    ensures
        forall|k: int|
            0 <= k < split_chunks(st, buf).0.len() ==> ((#[trigger] split_chunks(st, buf).0[k] is Init)
                <==> (k == 0 && st == State::Init)),
        st == State::Init && split_chunks(st, buf).0.len() == 0 ==> split_chunks(st, buf).1
            == State::Init,
        (st == State::Clusters || split_chunks(st, buf).0.len() > 0) ==> split_chunks(st, buf).1
            == State::Clusters,
    decreases buf.len(), if st == State::Init { 1int } else { 0int },
{
    if st == State::Init {
        lemma_init_walk_bounds(buf, 0);
        match init_walk(buf, 0) {
            None => {},
            Some(p) => {
                lemma_split_chunks_init_first(State::Clusters, buf.skip(p));
                let later = split_chunks(State::Clusters, buf.skip(p));
                assert forall|k: int| 0 <= k < split_chunks(st, buf).0.len() implies ((
                #[trigger] split_chunks(st, buf).0[k] is Init) <==> (k == 0 && st == State::Init)) by {
                    if k > 0 {
                        assert(split_chunks(st, buf).0[k] == later.0[k - 1]);
                    }
                }
            },
        }
    } else {
        lemma_cluster_step_shrinks(buf);
        let step = cluster_step(buf);
        match step.0 {
            None => {},
            Some(c) => {
                lemma_split_chunks_init_first(State::Clusters, step.1);
                let later = split_chunks(State::Clusters, step.1);
                assert forall|k: int| 0 <= k < split_chunks(st, buf).0.len() implies ((
                #[trigger] split_chunks(st, buf).0[k] is Init) <==> (k == 0 && st == State::Init)) by {
                    if k > 0 {
                        assert(split_chunks(st, buf).0[k] == later.0[k - 1]);
                    }
                }
            },
        }
    }
}

/// The init segment is emitted exactly once per stream, ahead of every
/// cluster: a push hands out an `Init` chunk only as its first chunk and
/// only while the chunker is still in its `Init` state, and once any chunk
/// has come out the chunker is in the cluster state for good.
pub proof fn law_init_comes_once_and_first(st: State, buf: Seq<u8>, data: Seq<u8>)
    ensures
        forall|k: int|
            0 <= k < push_outcome(st, buf, data).0.len() ==> ((
            #[trigger] push_outcome(st, buf, data).0[k] is Init) <==> (k == 0 && st
                == State::Init)),
        (st == State::Clusters || push_outcome(st, buf, data).0.len() > 0) ==> push_outcome(
            st,
            buf,
            data,
        ).1 == State::Clusters,
        st == State::Init && push_outcome(st, buf, data).0.len() == 0 ==> push_outcome(
            st,
            buf,
            data,
        ).1 == State::Init,
{
    lemma_split_chunks_init_first(st, buf + data);
}

/// Every cluster chunk a push hands out begins with the cluster element's
/// ID bytes `1F 43 B6 75`, so each one is a whole cluster a decoder can
/// start reading at.
pub proof fn law_clusters_start_with_cluster_id(st: State, buf: Seq<u8>, data: Seq<u8>)
    ensures
        forall|k: int|
            0 <= k < push_outcome(st, buf, data).0.len() ==> (#[trigger] push_outcome(
                st,
                buf,
                data,
            ).0[k] matches Piece::Cluster(c) ==> is_cluster_id_at(c, 0)),
{
    lemma_split_chunks_clusters_start_with_id(st, buf + data);
}

/// Every chunk a run of pushes hands out, from state `state` with `buf`
/// buffered, pushing each of `reads` in turn; with the state and the bytes
/// buffered at the end.
pub open spec fn push_all(state: State, buf: Seq<u8>, reads: Seq<Seq<u8>>) -> (
    Seq<Piece>,
    State,
    Seq<u8>,
)
    decreases reads.len(),
{
    if reads.len() == 0 {
        (Seq::empty(), state, buf)
    } else {
        let first = push_outcome(state, buf, reads[0]);
        let rest = push_all(first.1, first.2, reads.drop_first());
        (first.0 + rest.0, rest.1, rest.2)
    }
}

/// Over any sequence of pushes the chunks handed out, taken together, are
/// one `Init` followed only by clusters (or clusters alone, once the
/// chunker has left its `Init` state), and every cluster begins with the
/// cluster ID's bytes. From a fresh chunker: `Init` at most once, and
/// before every cluster.
pub proof fn law_init_once_over_any_pushes(st: State, buf: Seq<u8>, reads: Seq<Seq<u8>>)
    ensures
        forall|k: int|
            0 <= k < push_all(st, buf, reads).0.len() ==> ((#[trigger] push_all(st, buf, reads).0[k]
                is Init) <==> (k == 0 && st == State::Init)),
        forall|k: int|
            0 <= k < push_all(st, buf, reads).0.len() ==> (#[trigger] push_all(st, buf, reads).0[k] matches Piece::Cluster(
                c,
            ) ==> is_cluster_id_at(c, 0)),
        (st == State::Clusters || push_all(st, buf, reads).0.len() > 0) ==> push_all(st, buf, reads).1
            == State::Clusters,
        st == State::Init && push_all(st, buf, reads).0.len() == 0 ==> push_all(st, buf, reads).1
            == State::Init,
    decreases reads.len(),
{
    if reads.len() > 0 {
        let first = push_outcome(st, buf, reads[0]);
        law_init_comes_once_and_first(st, buf, reads[0]);
        law_clusters_start_with_cluster_id(st, buf, reads[0]);
        law_init_once_over_any_pushes(first.1, first.2, reads.drop_first());
        let rest = push_all(first.1, first.2, reads.drop_first());
        let all = push_all(st, buf, reads);
        assert(all.0 == first.0 + rest.0);
        assert forall|k: int| 0 <= k < all.0.len() implies ((#[trigger] all.0[k] is Init) <==> (k
            == 0 && st == State::Init)) && (all.0[k] matches Piece::Cluster(c) ==> is_cluster_id_at(
            c,
            0,
        )) by {
            if k < first.0.len() {
                assert(all.0[k] == first.0[k]);
            } else {
                assert(all.0[k] == rest.0[k - first.0.len()]);
            }
        }
    }
}

/// Lowering the first byte of a big-endian number by `d` lowers its value
/// by `d` times the first byte's weight.
proof fn lemma_be_value_lower_first(s: Seq<u8>, d: int)
    requires
        s.len() >= 1,
        0 <= d <= s[0],
    ensures
        be_value(s.update(0, (s[0] - d) as u8)) + d * pow256((s.len() - 1) as nat) == be_value(s),
    decreases s.len(),
{
    let t = s.update(0, (s[0] - d) as u8);
    assert(pow256(0) == 1);
    if s.len() == 1 {
        assert(t.drop_last() == Seq::<u8>::empty());
        assert(s.drop_last() == Seq::<u8>::empty());
        assert(be_value(Seq::<u8>::empty()) == 0);
        assert(t.last() == t[0] && s.last() == s[0]);
        assert(be_value(t) == t[0] as nat);
        assert(be_value(s) == s[0] as nat);
    } else {
        let sd = s.drop_last();
        assert(t.drop_last() == sd.update(0, (sd[0] - d) as u8));
        lemma_be_value_lower_first(sd, d);
        let p = pow256((sd.len() - 1) as nat);
        assert(pow256((s.len() - 1) as nat) == 256 * p);
        assert(t.last() == s.last());
        let a = be_value(sd);
        let b = be_value(t.drop_last());
        assert(b + d * p == a);
        assert(b * 256 + d * (256 * p) == a * 256) by (nonlinear_arith)
            requires
                b + d * p == a,
        ;
        assert(be_value(t) == b * 256 + t.last() as nat);
        assert(be_value(s) == a * 256 + s.last() as nat);
    }
}

/// A big-endian number is less than its first byte plus one times that
/// byte's weight.
proof fn lemma_be_value_top(s: Seq<u8>)
    requires
        s.len() >= 1,
    ensures
        be_value(s) < (s[0] + 1) * pow256((s.len() - 1) as nat),
    decreases s.len(),
{
    assert(pow256(0) == 1);
    if s.len() == 1 {
        assert(s.drop_last() == Seq::<u8>::empty());
        assert(be_value(Seq::<u8>::empty()) == 0);
        assert(s.last() == s[0]);
        assert(be_value(s) == s[0] as nat);
    } else {
        let sd = s.drop_last();
        lemma_be_value_top(sd);
        assert(be_value(s) == be_value(sd) * 256 + s.last() as nat);
        assert(sd[0] == s[0]);
        let p = pow256((sd.len() - 1) as nat);
        assert(pow256((s.len() - 1) as nat) == 256 * p);
        let a = be_value(sd);
        let l = s.last() as int;
        assert(a * 256 + l < (s[0] + 1) * (256 * p)) by (nonlinear_arith)
            requires
                a < (s[0] + 1) * p,
                0 <= l < 256,
                0 <= a,
        ;
    }
}

/// An EBML size field reads as the big-endian number its bytes spell with
/// the length marker taken out: a field of `n` bytes starts with a byte
/// whose highest set bit is bit `8 - n` (the marker), and its value is the
/// number the `n` bytes spell less that marker's weight, `2^(7n)`. A value
/// with every one of its `7n` bits set stands for "unknown size". So a
/// three-byte `20 01 00` is 256, not `0x200100`.
pub proof fn law_size_drops_the_length_marker(buf: Seq<u8>)
    ensures
        buf.len() == 0 ==> size_parse(buf) == Parse::<(Option<u64>, usize)>::NeedMoreData,
        buf.len() > 0 && buf[0] == 0 ==> size_parse(buf) == Parse::<(Option<u64>, usize)>::Malformed,
        size_parse(buf) matches Parse::Parsed((v, n)) ==> {
            &&& 1 <= n <= 8
            &&& n <= buf.len()
            &&& pow2((8 - n) as nat) <= buf[0] < pow2((9 - n) as nat)
            &&& match v {
                Some(x) => x + pow2((7 * n) as nat) == be_value(buf.take(n as int)) && x + 1 < pow2(
                    (7 * n) as nat,
                ),
                None => be_value(buf.take(n as int)) + 1 == 2 * pow2((7 * n) as nat),
            }
        },
{
    lemma2_to64();
    lemma2_to64_rest();
    lemma_pow256_values();
    if let Parse::Parsed((v, n)) = size_parse(buf) {
        let len = vint_len(buf[0]);
        assert(len == n);
        let t = buf.take(len);
        assert(t[0] == buf[0]);
        assert(size_bytes(buf, len) == t.update(0, (t[0] - marker_bit(len)) as u8));
        lemma_be_value_lower_first(t, marker_bit(len));
        lemma_be_value_top(t);
        let p = pow256((len - 1) as nat);
        let m = marker_bit(len);
        let w = pow2((7 * len) as nat);
        if len == 1 {
            assert(m == 0x80 && p == 0x1);
            assert(w == pow2(7nat) && pow2(7nat) == 0x80);
            assert(m * p == w);
            assert(all_ones(len) == w - 1 && pow2((8 - len) as nat) == m && pow2((9 - len) as nat) == 2 * m);
        } else if len == 2 {
            assert(m == 0x40 && p == 0x100);
            assert(w == pow2(14nat) && pow2(14nat) == 0x4000);
            assert(m * p == w);
            assert(all_ones(len) == w - 1 && pow2((8 - len) as nat) == m && pow2((9 - len) as nat) == 2 * m);
        } else if len == 3 {
            assert(m == 0x20 && p == 0x10000);
            assert(w == pow2(21nat) && pow2(21nat) == 0x200000);
            assert(m * p == w);
            assert(all_ones(len) == w - 1 && pow2((8 - len) as nat) == m && pow2((9 - len) as nat) == 2 * m);
        } else if len == 4 {
            assert(m == 0x10 && p == 0x1000000);
            assert(w == pow2(28nat) && pow2(28nat) == 0x10000000);
            assert(m * p == w);
            assert(all_ones(len) == w - 1 && pow2((8 - len) as nat) == m && pow2((9 - len) as nat) == 2 * m);
        } else if len == 5 {
            assert(m == 0x8 && p == 0x100000000);
            assert(w == pow2(35nat) && pow2(35nat) == 0x800000000);
            assert(m * p == w);
            assert(all_ones(len) == w - 1 && pow2((8 - len) as nat) == m && pow2((9 - len) as nat) == 2 * m);
        } else if len == 6 {
            assert(m == 0x4 && p == 0x10000000000);
            assert(w == pow2(42nat) && pow2(42nat) == 0x40000000000);
            assert(m * p == w);
            assert(all_ones(len) == w - 1 && pow2((8 - len) as nat) == m && pow2((9 - len) as nat) == 2 * m);
        } else if len == 7 {
            assert(m == 0x2 && p == 0x1000000000000);
            assert(w == pow2(49nat) && pow2(49nat) == 0x2000000000000);
            assert(m * p == w);
            assert(all_ones(len) == w - 1 && pow2((8 - len) as nat) == m && pow2((9 - len) as nat) == 2 * m);
        } else {
            assert(m == 0x1 && p == 0x100000000000000);
            assert(w == pow2(56nat) && pow2(56nat) == 0x100000000000000);
            assert(m * p == w);
            assert(all_ones(len) == w - 1 && pow2((8 - len) as nat) == m && pow2((9 - len) as nat) == 2 * m);
        }
        assert(m <= buf[0] < 2 * m);
        assert((buf[0] + 1) * p <= 2 * m * p) by (nonlinear_arith)
            requires
                buf[0] + 1 <= 2 * m,
                0 <= p,
        ;
        let bt = be_value(t);
        let bs = be_value(size_bytes(buf, len));
        assert(bs + m * p == bt);
        assert(bs < w);
        assert(w <= 0x100_0000_0000_0000);
    }
}

} // verus!
