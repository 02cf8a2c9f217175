//! Splits a raw byte stream of back-to-back JPEG images (as emitted by
//! `rpicam-vid --codec mjpeg -o -`) into individual complete frames.
//!
//! The stream has no framing of its own: frames are simply concatenated, and
//! arrive in arbitrarily-sized chunks that can split a frame anywhere,
//! including mid-marker or mid-entropy-data. [`JpegSplitter`] buffers input
//! and walks JPEG marker segments (rather than scanning for a literal `FF D9`
//! byte pair) so that an EOI-looking byte pair embedded inside e.g. an EXIF
//! thumbnail in an `APP1` segment can't be mistaken for the real end of frame.
//!
//! The walk is specified over byte sequences by [`markers_from`],
//! [`take_frame`] and [`split_frames`]; the proof functions at the end of
//! this file show that every frame handed out is delimited by SOI/EOI and
//! that how the input is chunked does not change which frames come out.

use vstd::prelude::*;

use crate::byte_buffer::{
    buffer_as_slice, buffer_clear, buffer_contents, buffer_extend, buffer_freeze, buffer_len,
    buffer_new, buffer_split_to, frozen_contents,
};

verus! {

/// Hard cap on the internal buffer. If a malformed stream never produces a
/// complete frame, the buffer is dropped and scanning resynchronizes on
/// whatever SOI arrives next, rather than growing without bound.
pub const MAX_BUFFER: usize = 8388608;

/// Outcome of walking the marker segments at the front of a buffer.
#[derive(Debug, Clone, Copy, PartialEq, Eq)]
pub enum ScanResult {
    /// A complete frame occupies `buf[0..len]`.
    Frame(usize),
    /// Not enough data yet to tell; keep buffering.
    NeedMoreData,
    /// `buf` does not start with a well-formed frame; caller should drop the
    /// leading SOI and resync on the next one.
    Resync,
}

/// The verdict of a marker walk, over unbounded positions.
pub ghost enum Scan {
    Frame(int),
    NeedMoreData,
    Resync,
}

impl View for ScanResult {
    type V = Scan;

    open spec fn view(&self) -> Scan {
        match *self {
            ScanResult::Frame(n) => Scan::Frame(n as int),
            ScanResult::NeedMoreData => Scan::NeedMoreData,
            ScanResult::Resync => Scan::Resync,
        }
    }
}

/// A big-endian 16-bit length field at `buf[i..i + 2]`.
pub open spec fn be16(buf: Seq<u8>, i: int) -> int {
    buf[i] as int * 256 + buf[i + 1] as int
}

/// Whether an SOI marker (`FF D8`) starts at `i`.
pub open spec fn is_soi_at(buf: Seq<u8>, i: int) -> bool {
    &&& 0 <= i
    &&& i + 1 < buf.len()
    &&& buf[i] == 0xFF
    &&& buf[i + 1] == 0xD8
}

/// The first SOI at or after `i`.
pub open spec fn soi_from(buf: Seq<u8>, i: int) -> Option<int>
    decreases buf.len() - i,
{
    if i < 0 || i + 1 >= buf.len() {
        None
    } else if buf[i] == 0xFF && buf[i + 1] == 0xD8 {
        Some(i)
    } else {
        soi_from(buf, i + 1)
    }
}

/// The first SOI in `buf`.
pub open spec fn first_soi(buf: Seq<u8>) -> Option<int> {
    soi_from(buf, 0)
}

/// Whether `m` is a restart marker code (`D0`..`D7`).
pub open spec fn is_restart(m: u8) -> bool {
    0xD0 <= m && m <= 0xD7
}

/// Scans entropy-coded data from `i` for the real EOI, skipping stuffed
/// `FF 00`, restart markers and fill bytes. `None` means more data is needed.
pub open spec fn entropy_from(buf: Seq<u8>, i: int) -> Option<Scan>
    decreases buf.len() - i,
{
    if i < 0 || i >= buf.len() {
        None
    } else if buf[i] != 0xFF {
        entropy_from(buf, i + 1)
    } else if i + 1 >= buf.len() {
        None
    } else {
        let m = buf[i + 1];
        if m == 0x00 || is_restart(m) {
            entropy_from(buf, i + 2)
        } else if m == 0xFF {
            entropy_from(buf, i + 1)
        } else if m == 0xD9 {
            Some(Scan::Frame(i + 2))
        } else {
            Some(Scan::Resync)
        }
    }
}

/// The scan data that follows an SOS marker at `sos`: its header is skipped
/// by its length field, then the entropy-coded data is searched for EOI.
pub open spec fn after_sos(buf: Seq<u8>, sos: int) -> Option<Scan> {
    if sos + 3 >= buf.len() {
        None
    } else if be16(buf, sos + 2) < 2 {
        Some(Scan::Resync)
    } else {
        entropy_from(buf, sos + 2 + be16(buf, sos + 2))
    }
}

/// How many positions are left to walk from `pos`.
pub open spec fn walk_measure(buf: Seq<u8>, pos: int) -> int {
    if pos < buf.len() {
        buf.len() - pos
    } else {
        0
    }
}

/// Walks the marker segments of a frame from `pos` on.
pub open spec fn markers_from(buf: Seq<u8>, pos: int) -> Scan
    decreases walk_measure(buf, pos),
{
    if pos < 0 || pos + 1 >= buf.len() {
        Scan::NeedMoreData
    } else if buf[pos] != 0xFF {
        Scan::Resync
    } else {
        let m = buf[pos + 1];
        if m == 0xFF {
            markers_from(buf, pos + 1)
        } else if m == 0xD8 {
            Scan::Resync
        } else if m == 0xD9 {
            Scan::Frame(pos + 2)
        } else if m == 0x01 || is_restart(m) {
            markers_from(buf, pos + 2)
        } else if m == 0xDA {
            match after_sos(buf, pos) {
                Some(r) => r,
                None => Scan::NeedMoreData,
            }
        } else if m == 0x00 {
            Scan::Resync
        } else if pos + 3 >= buf.len() {
            Scan::NeedMoreData
        } else if be16(buf, pos + 2) < 2 {
            Scan::Resync
        } else {
            markers_from(buf, pos + 2 + be16(buf, pos + 2))
        }
    }
}

/// The verdict on a buffer that starts with an SOI.
pub open spec fn frame_scan(buf: Seq<u8>) -> Scan {
    markers_from(buf, 2)
}

/// One extraction step: drop everything before the first SOI, then either
/// cut off a complete frame, stop for more data, or drop that SOI and try
/// the next one. Returns the frame, if any, and what stays buffered.
pub open spec fn take_frame(buf: Seq<u8>) -> (Option<Seq<u8>>, Seq<u8>)
    decreases buf.len(),
{
    match first_soi(buf) {
        None => (None, buf),
        Some(s) => {
            let b = buf.skip(s);
            match frame_scan(b) {
                Scan::Frame(n) => (Some(b.take(n)), b.skip(n)),
                Scan::NeedMoreData => (None, b),
                Scan::Resync => {
                    proof {
                        lemma_soi_from_bounds(buf, 0);
                    }
                    take_frame(b.skip(2))
                },
            }
        },
    }
}

/// Every complete frame that can be cut from the front of `buf`, in order,
/// and what stays buffered afterwards.
pub open spec fn split_frames(buf: Seq<u8>) -> (Seq<Seq<u8>>, Seq<u8>)
    decreases buf.len(),
{
    let step = take_frame(buf);
    match step.0 {
        None => (Seq::empty(), step.1),
        Some(frame) => {
            proof {
                lemma_take_frame_shrinks(buf);
            }
            let later = split_frames(step.1);
            (seq![frame] + later.0, later.1)
        },
    }
}

/// What one [`JpegSplitter::push`] of `data` onto buffered bytes `buf`
/// yields: the frames, and the bytes kept for the next call (nothing, if
/// they exceed [`MAX_BUFFER`]).
pub open spec fn push_outcome(buf: Seq<u8>, data: Seq<u8>) -> (Seq<Seq<u8>>, Seq<u8>) {
    let r = split_frames(buf + data);
    (r.0, if r.1.len() > MAX_BUFFER { Seq::empty() } else { r.1 })
}

/// Returns the index of the next `FF D8` (SOI) marker in `buf`, if any.
fn find_soi(buf: &[u8]) -> (r: Option<usize>)
    ensures
        match r {
            Some(i) => first_soi(buf@) == Some(i as int),
            None => first_soi(buf@) is None,
        },
{
    if buf.len() < 2 {
        return None;
    }
    let last = buf.len() - 1;
    let mut i: usize = 0;
    while i < last
        invariant
            last + 1 == buf@.len(),
            i <= last,
            soi_from(buf@, i as int) == first_soi(buf@),
        decreases buf@.len() - i,
    {
        if buf[i] == 0xFF && buf[i + 1] == 0xD8 {
            return Some(i);
        }
        i = i + 1;
    }
    None
}

/// Walks JPEG marker segments starting at `buf[0]`, which must be the `FF`
/// of an SOI marker, to find where the frame ends.
fn scan_frame(buf: &[u8]) -> (r: ScanResult)
    requires
        buf@.len() <= isize::MAX,
    ensures
        r@ == frame_scan(buf@),
{
    let mut pos: usize = 2;  // past FF D8
    loop
        invariant
            buf@.len() <= isize::MAX,
            2 <= pos <= buf@.len() + 65537,
            markers_from(buf@, pos as int) == frame_scan(buf@),
        decreases walk_measure(buf@, pos as int),
    {
        if pos + 1 >= buf.len() {
            return ScanResult::NeedMoreData;
        }
        if buf[pos] != 0xFF {
            return ScanResult::Resync;
        }
        let marker = buf[pos + 1];
        if marker == 0xFF {
            // Fill byte before the real marker code; keep looking.
            pos = pos + 1;
            continue;
        }
        if marker == 0xD8 {
            // A second SOI means whatever preceded it wasn't a real frame.
            return ScanResult::Resync;
        }
        if marker == 0xD9 {
            // Standalone EOI (a degenerate/minimal frame with no scan data).
            return ScanResult::Frame(pos + 2);
        }
        if marker == 0x01 || (0xD0 <= marker && marker <= 0xD7) {
            // TEM and restart markers carry no length field or payload.
            pos = pos + 2;
            continue;
        }
        if marker == 0xDA {
            // Start Of Scan: header has a length, then entropy-coded data
            // follows until the real EOI.
            return match scan_entropy_data(buf, pos) {
                Some(result) => result,
                None => ScanResult::NeedMoreData,
            };
        }
        if marker == 0x00 {
            // 0x00 is only meaningful as byte-stuffing inside entropy-coded
            // data; seeing it here means the stream isn't well-formed.
            return ScanResult::Resync;
        }
        // Everything else (APPn, DQT, DHT, SOFn, COM, DRI, ...) is a segment
        // with a 2-byte big-endian length, length-field inclusive, that we
        // can skip over wholesale.
        if pos + 3 >= buf.len() {
            return ScanResult::NeedMoreData;
        }
        let seg_len = (buf[pos + 2] as usize) * 256 + (buf[pos + 3] as usize);
        if seg_len < 2 {
            return ScanResult::Resync;
        }
        pos = pos + 2 + seg_len;
    }
}

/// Scans entropy-coded scan data (following an SOS header at `sos_pos`) for
/// the real EOI, skipping byte-stuffed `FF 00` and restart markers, both of
/// which can't be mistaken for EOI once identified. Returns `None` if more
/// data is needed.
fn scan_entropy_data(buf: &[u8], sos_pos: usize) -> (r: Option<ScanResult>)
    requires
        buf@.len() <= isize::MAX,
        sos_pos < buf@.len(),
    ensures
        match r {
            Some(x) => after_sos(buf@, sos_pos as int) == Some(x@),
            None => after_sos(buf@, sos_pos as int) is None,
        },
{
    if sos_pos + 3 >= buf.len() {
        return None;
    }
    let seg_len = (buf[sos_pos + 2] as usize) * 256 + (buf[sos_pos + 3] as usize);
    if seg_len < 2 {
        return Some(ScanResult::Resync);
    }
    let mut i: usize = sos_pos + 2 + seg_len;
    loop
        invariant
            buf@.len() <= isize::MAX,
            i <= buf@.len() + 65537,
            entropy_from(buf@, i as int) == after_sos(buf@, sos_pos as int),
        decreases buf@.len() + 65537 - i,
    {
        if i >= buf.len() {
            return None;
        }
        if buf[i] != 0xFF {
            i = i + 1;
            continue;
        }
        if i + 1 >= buf.len() {
            return None;
        }
        let m = buf[i + 1];
        if m == 0x00 || (0xD0 <= m && m <= 0xD7) {
            // byte-stuffed literal 0xFF, or a restart marker inside the scan
            i = i + 2;
        } else if m == 0xFF {
            // fill byte, real marker follows
            i = i + 1;
        } else if m == 0xD9 {
            return Some(ScanResult::Frame(i + 2));
        } else {
            // e.g. a truncated frame followed by a new SOI
            return Some(ScanResult::Resync);
        }
    }
}

/// Buffers a JPEG byte stream and cuts it into complete frames.
pub struct JpegSplitter {
    buf: bytes::BytesMut,
}

impl View for JpegSplitter {
    type V = Seq<u8>;

    /// The bytes buffered and not yet handed out as part of a frame.
    closed spec fn view(&self) -> Seq<u8> {
        buffer_contents(self.buf)
    }
}

impl JpegSplitter {
    /// The buffer never holds more than [`MAX_BUFFER`] bytes between calls.
    pub open spec fn wf(&self) -> bool {
        self@.len() <= MAX_BUFFER
    }

    pub fn new() -> (r: Self)
        ensures
            r@ == Seq::<u8>::empty(),
            r.wf(),
    {
        JpegSplitter { buf: buffer_new() }
    }

    /// Feed in newly-read bytes and get back every complete JPEG frame that
    /// could be extracted, in order. Bytes that don't yet form a complete
    /// frame are retained internally for the next call.
    pub fn push(&mut self, data: &[u8]) -> (frames: Vec<bytes::Bytes>)
        requires
            old(self).wf(),
            data@.len() + MAX_BUFFER <= isize::MAX,
        ensures
            final(self).wf(),
            frames@.map_values(|f: bytes::Bytes| frozen_contents(f)) == push_outcome(old(self)@, data@).0,
            final(self)@ == push_outcome(old(self)@, data@).1,
    {
        buffer_extend(&mut self.buf, data);
        let ghost all = old(self)@ + data@;

        let mut frames: Vec<bytes::Bytes> = Vec::new();
        loop
            invariant_except_break
                self@.len() <= isize::MAX,
                frames@.map_values(|f: bytes::Bytes| frozen_contents(f)) + split_frames(self@).0
                    == split_frames(all).0,
                split_frames(self@).1 == split_frames(all).1,
            ensures
                self@.len() <= isize::MAX,
                frames@.map_values(|f: bytes::Bytes| frozen_contents(f)) == split_frames(all).0,
                self@ == split_frames(all).1,
            decreases self@.len(),
        {
            let ghost before = self@;
            proof {
                lemma_take_frame_shrinks(before);
            }
            match self.try_extract_frame() {
                Some(frame) => {
                    proof {
                        lemma_take_frame_shrinks(before);
                    }
                    let ghost prev = frames@.map_values(|f: bytes::Bytes| frozen_contents(f));
                    frames.push(frame);
                    assert(frames@.map_values(|f: bytes::Bytes| frozen_contents(f))
                        == prev.push(frozen_contents(frame)));
                    assert(split_frames(before).0 == seq![frozen_contents(frame)] + split_frames(self@).0);
                    assert(prev.push(frozen_contents(frame)) + split_frames(self@).0
                        == prev + (seq![frozen_contents(frame)] + split_frames(self@).0));
                },
                None => {
                    assert(split_frames(before).0 == Seq::<Seq<u8>>::empty());
                    assert(frames@.map_values(|f: bytes::Bytes| frozen_contents(f))
                        + Seq::<Seq<u8>>::empty() == frames@.map_values(|f: bytes::Bytes| frozen_contents(f)));
                    break;
                },
            }
        }

        if buffer_len(&self.buf) > MAX_BUFFER {
            buffer_clear(&mut self.buf);
        }
        frames
    }

    /// Finds the next Start Of Image marker, discarding anything before it,
    /// then scans forward to see whether a complete frame follows. Returns
    /// `None` when the buffer doesn't (yet) contain a complete frame.
    fn try_extract_frame(&mut self) -> (r: Option<bytes::Bytes>)
        requires
            old(self)@.len() <= isize::MAX,
        ensures
            final(self)@ == take_frame(old(self)@).1,
            match r {
                Some(f) => take_frame(old(self)@).0 == Some(frozen_contents(f)),
                None => take_frame(old(self)@).0 is None,
            },
    {
        loop
            invariant
                self@.len() <= isize::MAX,
                take_frame(self@) == take_frame(old(self)@),
            decreases self@.len(),
        {
            let ghost cur = self@;
            proof {
                lemma_soi_from_bounds(cur, 0);
            }
            let start = match find_soi(buffer_as_slice(&self.buf)) {
                Some(s) => s,
                None => return None,
            };
            if start > 0 {
                let _ = buffer_split_to(&mut self.buf, start);
            }
            let ghost b = self@;
            assert(b == cur.skip(start as int));
            proof {
                lemma_markers_bounds(b, 2);
            }
            match scan_frame(buffer_as_slice(&self.buf)) {
                ScanResult::Frame(len) => {
                    let frame = buffer_split_to(&mut self.buf, len);
                    return Some(buffer_freeze(frame));
                },
                ScanResult::NeedMoreData => return None,
                ScanResult::Resync => {
                    // What looked like a frame starting at this SOI wasn't
                    // one. Drop just this SOI and search for the next
                    // candidate later in the buffer.
                    let _ = buffer_split_to(&mut self.buf, 2);
                },
            }
        }
    }
}

impl Default for JpegSplitter {
    fn default() -> (r: Self)
        ensures
            r@ == Seq::<u8>::empty(),
    {
        Self::new()
    }
}

pub proof fn lemma_soi_from_bounds(buf: Seq<u8>, i: int)
    requires
        0 <= i,
    ensures
        soi_from(buf, i) matches Some(s) ==> i <= s && is_soi_at(buf, s)
            && forall|j: int| i <= j < s ==> !is_soi_at(buf, j),
        soi_from(buf, i) is None ==> forall|j: int| i <= j ==> !is_soi_at(buf, j),
    decreases buf.len() - i,
{
    if i < 0 || i + 1 >= buf.len() {
    } else if buf[i] == 0xFF && buf[i + 1] == 0xD8 {
    } else {
        lemma_soi_from_bounds(buf, i + 1);
    }
}

proof fn lemma_entropy_bounds(buf: Seq<u8>, i: int)
    ensures
        entropy_from(buf, i) matches Some(Scan::Frame(n)) ==> i + 2 <= n <= buf.len()
            && buf[n - 2] == 0xFF && buf[n - 1] == 0xD9,
        entropy_from(buf, i) != Some(Scan::NeedMoreData),
    decreases buf.len() - i,
{
    if i < 0 || i >= buf.len() {
    } else if buf[i] != 0xFF {
        lemma_entropy_bounds(buf, i + 1);
    } else if i + 1 >= buf.len() {
    } else {
        let m = buf[i + 1];
        if m == 0x00 || is_restart(m) {
            lemma_entropy_bounds(buf, i + 2);
        } else if m == 0xFF {
            lemma_entropy_bounds(buf, i + 1);
        }
    }
}

/// A frame found by the marker walk ends on an EOI inside the buffer.
proof fn lemma_markers_bounds(buf: Seq<u8>, pos: int)
    ensures
        markers_from(buf, pos) matches Scan::Frame(n) ==> pos + 2 <= n <= buf.len()
            && buf[n - 2] == 0xFF && buf[n - 1] == 0xD9,
    decreases walk_measure(buf, pos),
{
    if pos < 0 || pos + 1 >= buf.len() {
    } else if buf[pos] != 0xFF {
    } else {
        let m = buf[pos + 1];
        if m == 0xFF {
            lemma_markers_bounds(buf, pos + 1);
        } else if m == 0xD8 || m == 0xD9 {
        } else if m == 0x01 || is_restart(m) {
            lemma_markers_bounds(buf, pos + 2);
        } else if m == 0xDA {
            if pos + 3 < buf.len() && be16(buf, pos + 2) >= 2 {
                lemma_entropy_bounds(buf, pos + 2 + be16(buf, pos + 2));
            }
        } else if m == 0x00 || pos + 3 >= buf.len() || be16(buf, pos + 2) < 2 {
        } else {
            lemma_markers_bounds(buf, pos + 2 + be16(buf, pos + 2));
        }
    }
}

/// A frame cut by [`take_frame`] is a prefix of what was buffered after the
/// garbage before it, and what stays buffered is strictly shorter.
pub proof fn lemma_take_frame_shrinks(buf: Seq<u8>)
    ensures
        take_frame(buf).1.len() <= buf.len(),
        take_frame(buf).0 matches Some(f) ==> take_frame(buf).1.len() + f.len() <= buf.len()
            && f.len() >= 4,
    decreases buf.len(),
{
    lemma_soi_from_bounds(buf, 0);
    match first_soi(buf) {
        None => {},
        Some(s) => {
            let b = buf.skip(s);
            lemma_markers_bounds(b, 2);
            match frame_scan(b) {
                Scan::Resync => {
                    lemma_take_frame_shrinks(b.skip(2));
                },
                _ => {},
            }
        },
    }
}

} // verus!

verus! {

/// A complete JPEG frame as the splitter cuts it: an SOI marker at the
/// front and an EOI marker at the back.
pub open spec fn is_delimited(f: Seq<u8>) -> bool {
    &&& f.len() >= 4
    &&& f[0] == 0xFF
    &&& f[1] == 0xD8
    &&& f[f.len() - 2] == 0xFF
    &&& f[f.len() - 1] == 0xD9
}

proof fn lemma_take_frame_delimited(buf: Seq<u8>)
    ensures
        take_frame(buf).0 matches Some(f) ==> is_delimited(f),
    decreases buf.len(),
{
    lemma_soi_from_bounds(buf, 0);
    match first_soi(buf) {
        None => {},
        Some(s) => {
            let b = buf.skip(s);
            lemma_markers_bounds(b, 2);
            match frame_scan(b) {
                Scan::Resync => {
                    lemma_take_frame_delimited(b.skip(2));
                },
                _ => {},
            }
        },
    }
}

proof fn lemma_split_frames_delimited(buf: Seq<u8>)
    ensures
        forall|k: int|
            0 <= k < split_frames(buf).0.len() ==> is_delimited(#[trigger] split_frames(buf).0[k]),
    decreases buf.len(),
{
    lemma_take_frame_delimited(buf);
    lemma_take_frame_shrinks(buf);
    let step = take_frame(buf);
    if let Some(f) = step.0 {
        lemma_split_frames_delimited(step.1);
        let later = split_frames(step.1);
        assert(split_frames(buf).0 == seq![f] + later.0);
        assert forall|k: int| 0 <= k < split_frames(buf).0.len() implies is_delimited(
            #[trigger] split_frames(buf).0[k],
        ) by {
            if k > 0 {
                assert(split_frames(buf).0[k] == later.0[k - 1]);
            }
        }
    }
}

/// Every frame handed out by a push starts with an SOI marker (`FF D8`) and
/// ends with an EOI marker (`FF D9`), so it is at least four bytes long.
pub proof fn law_push_frames_are_delimited(buf: Seq<u8>, data: Seq<u8>)
    ensures
        forall|k: int|
            0 <= k < push_outcome(buf, data).0.len() ==> is_delimited(
                #[trigger] push_outcome(buf, data).0[k],
            ),
{
    lemma_split_frames_delimited(buf + data);
}

proof fn lemma_soi_from_extends(b: Seq<u8>, t: Seq<u8>, i: int)
    requires
        0 <= i,
        soi_from(b, i) is Some,
    ensures
        soi_from(b + t, i) == soi_from(b, i),
    decreases b.len() - i,
{
    if i + 1 >= b.len() {
    } else if b[i] == 0xFF && b[i + 1] == 0xD8 {
        assert((b + t)[i] == b[i] && (b + t)[i + 1] == b[i + 1]);
    } else {
        assert((b + t)[i] == b[i] && (b + t)[i + 1] == b[i + 1]);
        lemma_soi_from_extends(b, t, i + 1);
    }
}

proof fn lemma_entropy_extends(b: Seq<u8>, t: Seq<u8>, i: int)
    requires
        entropy_from(b, i) is Some,
    ensures
        entropy_from(b + t, i) == entropy_from(b, i),
    decreases b.len() - i,
{
    if i < 0 || i >= b.len() {
    } else {
        assert((b + t)[i] == b[i]);
        if b[i] != 0xFF {
            lemma_entropy_extends(b, t, i + 1);
        } else if i + 1 >= b.len() {
        } else {
            assert((b + t)[i + 1] == b[i + 1]);
            let m = b[i + 1];
            if m == 0x00 || is_restart(m) {
                lemma_entropy_extends(b, t, i + 2);
            } else if m == 0xFF {
                lemma_entropy_extends(b, t, i + 1);
            }
        }
    }
}

proof fn lemma_markers_extend(b: Seq<u8>, t: Seq<u8>, pos: int)
    requires
        markers_from(b, pos) != Scan::NeedMoreData,
    ensures
        markers_from(b + t, pos) == markers_from(b, pos),
    decreases walk_measure(b, pos),
{
    if pos < 0 || pos + 1 >= b.len() {
    } else {
        assert((b + t)[pos] == b[pos] && (b + t)[pos + 1] == b[pos + 1]);
        if b[pos] != 0xFF {
        } else {
            let m = b[pos + 1];
            if m == 0xFF {
                lemma_markers_extend(b, t, pos + 1);
            } else if m == 0xD8 || m == 0xD9 {
            } else if m == 0x01 || is_restart(m) {
                lemma_markers_extend(b, t, pos + 2);
            } else if m == 0xDA {
                assert(pos + 3 < b.len());
                assert((b + t)[pos + 2] == b[pos + 2] && (b + t)[pos + 3] == b[pos + 3]);
                if be16(b, pos + 2) >= 2 {
                    lemma_entropy_extends(b, t, pos + 2 + be16(b, pos + 2));
                }
            } else if m == 0x00 {
            } else {
                assert(pos + 3 < b.len());
                assert((b + t)[pos + 2] == b[pos + 2] && (b + t)[pos + 3] == b[pos + 3]);
                if be16(b, pos + 2) >= 2 {
                    lemma_markers_extend(b, t, pos + 2 + be16(b, pos + 2));
                }
            }
        }
    }
}

/// Appending bytes never changes a step that already decided: a frame that
/// was cut stays the same frame, and a step that stopped short resumes from
/// exactly what it kept.
proof fn lemma_take_frame_extends(b: Seq<u8>, t: Seq<u8>)
    ensures
        take_frame(b).0 is Some ==> take_frame(b + t) == (take_frame(b).0, take_frame(b).1 + t),
        take_frame(b).0 is None ==> take_frame(b + t) == take_frame(take_frame(b).1 + t),
    decreases b.len(),
{
    lemma_soi_from_bounds(b, 0);
    match first_soi(b) {
        None => {},
        Some(s) => {
            lemma_soi_from_extends(b, t, 0);
            let bb = b.skip(s);
            assert((b + t).skip(s) == bb + t);
            lemma_markers_bounds(bb, 2);
            match frame_scan(bb) {
                Scan::Frame(n) => {
                    lemma_markers_extend(bb, t, 2);
                    assert((bb + t).take(n) == bb.take(n));
                    assert((bb + t).skip(n) == bb.skip(n) + t);
                },
                Scan::NeedMoreData => {
                    assert(is_soi_at(bb + t, 0));
                    assert(soi_from(bb + t, 0) == Some(0int));
                    assert((bb + t).skip(0) == bb + t);
                },
                Scan::Resync => {
                    lemma_markers_extend(bb, t, 2);
                    assert((bb + t).skip(2) == bb.skip(2) + t);
                    lemma_take_frame_extends(bb.skip(2), t);
                },
            }
        },
    }
}

proof fn lemma_split_frames_same_step(x: Seq<u8>, y: Seq<u8>)
    requires
        take_frame(x) == take_frame(y),
    ensures
        split_frames(x) == split_frames(y),
{
    lemma_take_frame_shrinks(x);
    lemma_take_frame_shrinks(y);
}

proof fn lemma_split_frames_concat(s: Seq<u8>, t: Seq<u8>)
    ensures
        split_frames(s + t) == ({
            let first = split_frames(s);
            let second = split_frames(first.1 + t);
            (first.0 + second.0, second.1)
        }),
    decreases s.len(),
{
    lemma_take_frame_extends(s, t);
    lemma_take_frame_shrinks(s);
    lemma_take_frame_shrinks(s + t);
    let step = take_frame(s);
    match step.0 {
        None => {
            lemma_split_frames_same_step(s + t, step.1 + t);
            assert(split_frames(s).0 + split_frames(step.1 + t).0 == split_frames(step.1 + t).0);
        },
        Some(f) => {
            lemma_split_frames_concat(step.1, t);
            let later = split_frames(step.1);
            let second = split_frames(later.1 + t);
            assert(split_frames(s + t).0 == seq![f] + split_frames(step.1 + t).0);
            assert(seq![f] + (later.0 + second.0) == (seq![f] + later.0) + second.0);
        },
    }
}

/// How the stream is chunked does not matter: pushing `a` and then `b`
/// hands out, in order, exactly the frames that pushing `a + b` at once
/// would, and leaves the same bytes buffered - as long as the first push
/// did not have to drop an overlong buffer.
pub proof fn law_push_chunking(buf: Seq<u8>, a: Seq<u8>, b: Seq<u8>)
    requires
        split_frames(buf + a).1.len() <= MAX_BUFFER,
    ensures
        push_outcome(buf, a + b) == ({
            let first = push_outcome(buf, a);
            let second = push_outcome(first.1, b);
            (first.0 + second.0, second.1)
        }),
{
    assert(buf + (a + b) == (buf + a) + b);
    lemma_split_frames_concat(buf + a, b);
}

/// A frame's verdict is final: once the bytes after an SOI decide a frame
/// (complete, or to be dropped and resynced), more bytes arriving never
/// change it - waiting for more data is the only provisional answer.
pub proof fn law_scan_verdict_is_final(buf: Seq<u8>, ext: Seq<u8>)
    requires
        frame_scan(buf) != Scan::NeedMoreData,
    ensures
        frame_scan(buf + ext) == frame_scan(buf),
{
    lemma_markers_extend(buf, ext, 2);
}

/// The chunks, joined in order.
pub open spec fn joined(chunks: Seq<Seq<u8>>) -> Seq<u8>
    decreases chunks.len(),
{
    if chunks.len() == 0 {
        Seq::empty()
    } else {
        chunks[0] + joined(chunks.drop_first())
    }
}

/// Pushing `chunks` one after another onto buffered bytes `buf`: every
/// frame handed out, in order, and what stays buffered at the end.
pub open spec fn push_each(buf: Seq<u8>, chunks: Seq<Seq<u8>>) -> (Seq<Seq<u8>>, Seq<u8>)
    decreases chunks.len(),
{
    if chunks.len() == 0 {
        (Seq::empty(), buf)
    } else {
        let first = push_outcome(buf, chunks[0]);
        let rest = push_each(first.1, chunks.drop_first());
        (first.0 + rest.0, rest.1)
    }
}

/// Whether no push but the last one had to drop an overlong buffer.
pub open spec fn never_dropped(buf: Seq<u8>, chunks: Seq<Seq<u8>>) -> bool
    decreases chunks.len(),
{
    if chunks.len() <= 1 {
        true
    } else {
        split_frames(buf + chunks[0]).1.len() <= MAX_BUFFER && never_dropped(
            push_outcome(buf, chunks[0]).1,
            chunks.drop_first(),
        )
    }
}

/// However the stream is cut into one or more reads - one byte at a time,
/// or all at once - the splitter hands out the same frames in the same order and
/// keeps the same bytes, as long as no read before the last overflowed the
/// buffer cap.
pub proof fn law_push_chunking_any_reads(buf: Seq<u8>, chunks: Seq<Seq<u8>>)
    requires
        chunks.len() > 0,
        never_dropped(buf, chunks),
    ensures
        push_each(buf, chunks) == push_outcome(buf, joined(chunks)),
    decreases chunks.len(),
{
    let c = chunks[0];
    let rest = chunks.drop_first();
    let first = push_outcome(buf, c);
    if chunks.len() == 1 {
        assert(joined(rest) == Seq::<u8>::empty());
        assert(joined(chunks) == c + joined(rest));
        assert(c + Seq::<u8>::empty() == c);
        assert(push_each(first.1, rest) == (Seq::<Seq<u8>>::empty(), first.1));
        assert(first.0 + Seq::<Seq<u8>>::empty() == first.0);
    } else {
        assert(split_frames(buf + c).1.len() <= MAX_BUFFER);
        assert(never_dropped(first.1, rest));
        law_push_chunking_any_reads(first.1, rest);
        law_push_chunking(buf, c, joined(rest));
        assert(joined(chunks) == c + joined(rest));
    }
}

/// Whether a marker code introduces a segment that carries a two-byte
/// length: everything but SOI, EOI, SOS, TEM, the restart markers, and the
/// `00` / `FF` codes that are not markers at all.
pub open spec fn carries_length(m: u8) -> bool {
    &&& m != 0x00
    &&& m != 0x01
    &&& m != 0xFF
    &&& !(0xD0 <= m && m <= 0xDA)
}

/// A marker segment: `FF`, the marker code, the big-endian length (which
/// counts itself), then the payload.
pub open spec fn segment(m: u8, payload: Seq<u8>) -> Seq<u8> {
    seq![0xFFu8, m, ((payload.len() + 2) / 256) as u8, ((payload.len() + 2) % 256) as u8] + payload
}

/// Marker segments one after another.
pub open spec fn segments(segs: Seq<(u8, Seq<u8>)>) -> Seq<u8>
    decreases segs.len(),
{
    if segs.len() == 0 {
        Seq::empty()
    } else {
        segment(segs[0].0, segs[0].1) + segments(segs.drop_first())
    }
}

/// Entropy-coded data as an encoder writes it: every `FF` is stuffed with
/// a following `00`, or begins a restart marker `FF D0`..`FF D7`.
pub open spec fn clean_scan(scan: Seq<u8>) -> bool {
    forall|i: int|
        0 <= i < scan.len() && #[trigger] scan[i] == 0xFF ==> i + 1 < scan.len() && (scan[i + 1]
            == 0x00 || (0xD0 <= scan[i + 1] && scan[i + 1] <= 0xD7))
}

/// A baseline JPEG: SOI, the table and frame segments (DQT, SOFn, DHT,
/// APPn, ...), the SOS segment with header `sos`, the scan data, EOI.
pub open spec fn baseline_jpeg(segs: Seq<(u8, Seq<u8>)>, sos: Seq<u8>, scan: Seq<u8>) -> Seq<u8> {
    seq![0xFFu8, 0xD8u8] + segments(segs) + segment(0xDA, sos) + scan + seq![0xFFu8, 0xD9u8]
}

/// Whether those parts are well formed: every segment marker carries a
/// length, every length fits in 16 bits, and the scan data is clean.
pub open spec fn baseline_parts_ok(segs: Seq<(u8, Seq<u8>)>, sos: Seq<u8>, scan: Seq<u8>) -> bool {
    &&& forall|k: int|
        0 <= k < segs.len() ==> carries_length(#[trigger] segs[k].0) && segs[k].1.len() + 2 <= 0xFFFF
    &&& sos.len() + 2 <= 0xFFFF
    &&& clean_scan(scan)
}

proof fn lemma_entropy_reaches_eoi(buf: Seq<u8>, i: int, end: int)
    requires
        0 <= i <= end,
        end + 1 < buf.len(),
        buf[end] == 0xFF,
        buf[end + 1] == 0xD9,
        forall|j: int|
            i <= j < end && #[trigger] buf[j] == 0xFF ==> j + 1 < end && (buf[j + 1] == 0x00 || (0xD0
                <= buf[j + 1] && buf[j + 1] <= 0xD7)),
    ensures
        entropy_from(buf, i) == Some(Scan::Frame(end + 2)),
    decreases end - i,
{
    if i < end {
        if buf[i] != 0xFF {
            lemma_entropy_reaches_eoi(buf, i + 1, end);
        } else {
            lemma_entropy_reaches_eoi(buf, i + 2, end);
        }
    }
}

proof fn lemma_segment_header(buf: Seq<u8>, pos: int, m: u8, payload: Seq<u8>)
    requires
        0 <= pos,
        pos + segment(m, payload).len() <= buf.len(),
        buf.subrange(pos, pos + segment(m, payload).len()) == segment(m, payload),
        payload.len() + 2 <= 0xFFFF,
    ensures
        buf[pos] == 0xFF,
        buf[pos + 1] == m,
        pos + 3 < buf.len(),
        be16(buf, pos + 2) == payload.len() + 2,
        segment(m, payload).len() == payload.len() + 4,
{
    let seg = segment(m, payload);
    assert(buf[pos] == seg[0]);
    assert(buf[pos + 1] == seg[1]);
    assert(buf[pos + 2] == seg[2]);
    assert(buf[pos + 3] == seg[3]);
    let l = payload.len() + 2;
    assert(((l / 256) as u8) as int * 256 + ((l % 256) as u8) as int == l);
}

proof fn lemma_segments_walk(buf: Seq<u8>, pos: int, segs: Seq<(u8, Seq<u8>)>)
    requires
        0 <= pos,
        pos + segments(segs).len() + 1 < buf.len(),
        buf.subrange(pos, pos + segments(segs).len()) == segments(segs),
        forall|k: int|
            0 <= k < segs.len() ==> carries_length(#[trigger] segs[k].0) && segs[k].1.len() + 2 <= 0xFFFF,
    ensures
        markers_from(buf, pos) == markers_from(buf, pos + segments(segs).len()),
    decreases segs.len(),
{
    if segs.len() > 0 {
        let first = segment(segs[0].0, segs[0].1);
        let rest = segments(segs.drop_first());
        assert(segments(segs) == first + rest);
        assert(buf.subrange(pos, pos + first.len()) == first) by {
            assert forall|j: int| 0 <= j < first.len() implies buf.subrange(pos, pos + first.len())[j]
                == first[j] by {
                assert(buf[pos + j] == segments(segs)[j]);
            }
        }
        assert(buf.subrange(pos + first.len(), pos + first.len() + rest.len()) == rest) by {
            assert forall|j: int| 0 <= j < rest.len() implies buf.subrange(
                pos + first.len(),
                pos + first.len() + rest.len(),
            )[j] == rest[j] by {
                assert(buf[pos + first.len() + j] == segments(segs)[first.len() + j]);
            }
        }
        assert(carries_length(segs[0].0) && segs[0].1.len() + 2 <= 0xFFFF);
        lemma_segment_header(buf, pos, segs[0].0, segs[0].1);
        assert forall|k: int| 0 <= k < segs.drop_first().len() implies carries_length(
            #[trigger] segs.drop_first()[k].0,
        ) && segs.drop_first()[k].1.len() + 2 <= 0xFFFF by {
            assert(segs.drop_first()[k] == segs[k + 1]);
        }
        lemma_segments_walk(buf, pos + first.len(), segs.drop_first());
    }
}

/// A well-formed baseline JPEG pushed into a fresh splitter comes out as
/// exactly one frame, the whole input, with nothing left buffered: the
/// walk steps over every length-carrying segment (DQT, SOFn, DHT, APPn,
/// ...) by its length, skips the SOS header the same way, and reads the
/// scan data up to EOI.
pub proof fn law_baseline_jpeg_is_one_frame(segs: Seq<(u8, Seq<u8>)>, sos: Seq<u8>, scan: Seq<u8>)
    requires
        baseline_parts_ok(segs, sos, scan),
    ensures
        split_frames(baseline_jpeg(segs, sos, scan)) == (
            seq![baseline_jpeg(segs, sos, scan)],
            Seq::<u8>::empty(),
        ),
        push_outcome(Seq::empty(), baseline_jpeg(segs, sos, scan)) == (
            seq![baseline_jpeg(segs, sos, scan)],
            Seq::<u8>::empty(),
        ),
{
    let f = baseline_jpeg(segs, sos, scan);
    let segb = segments(segs);
    let sosb = segment(0xDA, sos);
    let sos_at: int = 2 + segb.len() as int;
    let start: int = sos_at + sosb.len();
    let end: int = start + scan.len();
    assert(f.len() == end + 2);
    assert(f =~= seq![0xFFu8, 0xD8u8] + segb + sosb + scan + seq![0xFFu8, 0xD9u8]);
    assert(f[0] == 0xFF && f[1] == 0xD8);
    assert(f[end] == 0xFF && f[end + 1] == 0xD9);
    assert forall|j: int| 0 <= j < segb.len() implies f[2 + j] == segb[j] by {}
    assert(f.subrange(2, sos_at) == segb);
    assert forall|j: int| 0 <= j < sosb.len() implies f[sos_at + j] == sosb[j] by {}
    assert(f.subrange(sos_at, sos_at + sosb.len()) == sosb);
    assert forall|j: int| 0 <= j < scan.len() implies f[start + j] == scan[j] by {}
    lemma_segment_header(f, sos_at, 0xDA, sos);
    lemma_segments_walk(f, 2, segs);
    assert forall|j: int|
        start <= j < end && #[trigger] f[j] == 0xFF implies j + 1 < end && (f[j + 1] == 0x00 || (0xD0
            <= f[j + 1] && f[j + 1] <= 0xD7)) by {
        assert(f[j] == scan[j - start]);
        assert(scan[j - start] == 0xFF);
        assert(f[j + 1] == scan[j - start + 1]);
    }
    lemma_entropy_reaches_eoi(f, start, end);
    assert(markers_from(f, sos_at) == Scan::Frame(end + 2));
    assert(frame_scan(f) == Scan::Frame(f.len() as int));
    assert(first_soi(f) == Some(0int));
    assert(f.skip(0) == f);
    assert(f.take(f.len() as int) == f);
    assert(f.skip(f.len() as int) == Seq::<u8>::empty());
    assert(take_frame(f) == (Some(f), Seq::<u8>::empty()));
    assert(first_soi(Seq::<u8>::empty()) is None);
    assert(split_frames(Seq::<u8>::empty()) == (Seq::<Seq<u8>>::empty(), Seq::<u8>::empty()));
    assert(seq![f] + Seq::<Seq<u8>>::empty() == seq![f]);
    assert(Seq::<u8>::empty() + f == f);
}

} // verus!
