//! Cutting a byte stream of server-sent events into raw frames.
//!
//! A frame is `"data: " <payload> "\n\n"`. Bytes are pushed one at a time
//! into a buffer; whenever the buffer is long enough to hold both markers and
//! ends with the end marker, the payload (the buffer without its first six and
//! last two bytes) is emitted and the buffer is cleared.
use vstd::prelude::*;

verus! {

/// Length of the start marker `"data: "`.
pub const START_MARKER_LEN: usize = 6;

/// Length of the end marker `"\n\n"`.
pub const END_MARKER_LEN: usize = 2;

/// The byte that makes up the end marker.
pub const NEWLINE: u8 = 10;

/// Whether `buf` completes a frame: it holds at least both markers and ends
/// with the end marker.
pub open spec fn completes_frame(buf: Seq<u8>) -> bool {
    &&& buf.len() >= START_MARKER_LEN + END_MARKER_LEN
    &&& buf[buf.len() - 2] == NEWLINE
    &&& buf[buf.len() - 1] == NEWLINE
}

/// The payload of a completed frame: the buffer without its markers.
pub open spec fn payload_of(buf: Seq<u8>) -> Seq<u8> {
    buf.subrange(START_MARKER_LEN as int, buf.len() - END_MARKER_LEN)
}

/// The state of the scan after one more byte: frames emitted so far and the
/// pending buffer.
pub open spec fn step_byte(state: (Seq<Seq<u8>>, Seq<u8>), b: u8) -> (Seq<Seq<u8>>, Seq<u8>) {
    let buf = state.1.push(b);
    if completes_frame(buf) {
        (state.0.push(payload_of(buf)), Seq::empty())
    } else {
        (state.0, buf)
    }
}

/// Scanning `bytes` from the pending buffer `buf`: the frames emitted, in
/// order, and the buffer left over.
pub open spec fn scan(buf: Seq<u8>, bytes: Seq<u8>) -> (Seq<Seq<u8>>, Seq<u8>)
    decreases bytes.len(),
{
    if bytes.len() == 0 {
        (Seq::empty(), buf)
    } else {
        step_byte(scan(buf, bytes.drop_last()), bytes.last())
    }
}

/// The bytes of a sequence of chunks, joined in order.
pub open spec fn joined(chunks: Seq<Seq<u8>>) -> Seq<u8>
    decreases chunks.len(),
{
    if chunks.len() == 0 {
        Seq::empty()
    } else {
        joined(chunks.drop_last()) + chunks.last()
    }
}

/// Feeding `chunks` one after the other from the pending buffer `buf`: all
/// frames emitted, in order, and the buffer left over.
pub open spec fn scan_chunks(buf: Seq<u8>, chunks: Seq<Seq<u8>>) -> (Seq<Seq<u8>>, Seq<u8>)
    decreases chunks.len(),
{
    if chunks.len() == 0 {
        (Seq::empty(), buf)
    } else {
        let before = scan_chunks(buf, chunks.drop_last());
        let last = scan(before.1, chunks.last());
        (before.0 + last.0, last.1)
    }
}

/// Scanning `a + b` is scanning `a`, then scanning `b` from the buffer that
/// `a` left: the frames of the two parts follow each other.
pub proof fn lemma_scan_split(buf: Seq<u8>, a: Seq<u8>, b: Seq<u8>)
    ensures
        scan(buf, a + b).0 == scan(buf, a).0 + scan(scan(buf, a).1, b).0,
        scan(buf, a + b).1 == scan(scan(buf, a).1, b).1,
    decreases b.len(),
{
    if b.len() == 0 {
        assert(a + b =~= a);
        assert(scan(buf, a).0 + scan(scan(buf, a).1, b).0 =~= scan(buf, a).0);
    } else {
        lemma_scan_split(buf, a, b.drop_last());
        assert((a + b).drop_last() =~= a + b.drop_last());
        assert((a + b).last() == b.last());
        let mid = scan(scan(buf, a).1, b.drop_last());
        let x = b.last();
        if completes_frame(mid.1.push(x)) {
            assert(scan(buf, a + b).0 =~= scan(buf, a).0 + scan(scan(buf, a).1, b).0);
        } else {
            assert(scan(buf, a + b).0 =~= scan(buf, a).0 + scan(scan(buf, a).1, b).0);
        }
    }
}

/// Chunking does not matter: however a byte stream is cut into chunks
/// (mid-marker, mid-payload, one byte at a time), feeding the chunks one after
/// the other yields the same frames, and leaves the same pending bytes, as
/// feeding the whole stream at once.
pub proof fn lemma_chunking_invariance(buf: Seq<u8>, chunks: Seq<Seq<u8>>)
    ensures
        scan_chunks(buf, chunks) == scan(buf, joined(chunks)),
    decreases chunks.len(),
{
    if chunks.len() == 0 {
    } else {
        lemma_chunking_invariance(buf, chunks.drop_last());
        lemma_scan_split(buf, joined(chunks.drop_last()), chunks.last());
    }
}

/// The sentinel token `[DONE]` that marks the normal end of a stream, as
/// bytes.
pub open spec fn sentinel() -> Seq<u8> {
    seq![91u8, 68u8, 79u8, 78u8, 69u8, 93u8]
}

/// Whether the sentinel token occurs in `payload` at position `i`.
pub open spec fn sentinel_at(payload: Seq<u8>, i: int) -> bool {
    0 <= i && i + 6 <= payload.len() && payload.subrange(i, i + 6) == sentinel()
}

/// Whether `payload` holds the sentinel token anywhere.
pub open spec fn has_sentinel(payload: Seq<u8>) -> bool {
    exists|i: int| sentinel_at(payload, i)
}

/// Whether the frame payload holds the sentinel token `[DONE]`.
pub fn contains_sentinel(payload: &[u8]) -> (r: bool)
    ensures
        r == has_sentinel(payload@),
{
    let n = payload.len();
    if n < 6 {
        assert forall|i: int| !sentinel_at(payload@, i) by {}
        return false;
    }
    let mut i: usize = 0;
    while i <= n - 6
        invariant
            n == payload@.len(),
            n >= 6,
            i <= n - 5,
            forall|k: int| 0 <= k < i ==> !sentinel_at(payload@, k),
        decreases n - i,
    {
        if payload[i] == 91 && payload[i + 1] == 68 && payload[i + 2] == 79 && payload[i + 3] == 78
            && payload[i + 4] == 69 && payload[i + 5] == 93 {
            assert(payload@.subrange(i as int, i + 6) =~= sentinel());
            assert(sentinel_at(payload@, i as int));
            return true;
        }
        assert(!sentinel_at(payload@, i as int)) by {
            if sentinel_at(payload@, i as int) {
                let w = payload@.subrange(i as int, i + 6);
                assert(w[0] == payload@[i as int]);
                assert(w[1] == payload@[i + 1]);
                assert(w[2] == payload@[i + 2]);
                assert(w[3] == payload@[i + 3]);
                assert(w[4] == payload@[i + 4]);
                assert(w[5] == payload@[i + 5]);
            }
        }
        i = i + 1;
    }
    false
}

/// The text of a frame payload as `String::from_utf8_lossy` reads it.
pub uninterp spec fn lossy_text_of(bytes: Seq<u8>) -> Seq<char>;

/// Relies on `String::from_utf8_lossy`: the text depends on the bytes alone
/// (invalid sequences become U+FFFD).
#[verifier::external_body]
fn lossy_text(bytes: &[u8]) -> (r: String)
    ensures
        r@ == lossy_text_of(bytes@),
{
    String::from_utf8_lossy(bytes).into_owned()
}

/// The texts handed to the decoder for a run of frame payloads: sentinel
/// frames are swallowed, every other payload is read as text, in order.
pub open spec fn payload_texts(frames: Seq<Seq<u8>>) -> Seq<Seq<char>>
    decreases frames.len(),
{
    if frames.len() == 0 {
        Seq::empty()
    } else if has_sentinel(frames.last()) {
        payload_texts(frames.drop_last())
    } else {
        payload_texts(frames.drop_last()).push(lossy_text_of(frames.last()))
    }
}

/// A sentinel frame produces nothing to decode: appending it to any run of
/// frames leaves the texts handed to the decoder as they were.
pub proof fn lemma_sentinel_frame_yields_nothing(frames: Seq<Seq<u8>>, frame: Seq<u8>)
    requires
        has_sentinel(frame),
    ensures
        payload_texts(frames.push(frame)) == payload_texts(frames),
{
    assert(frames.push(frame).drop_last() =~= frames);
}

/// The texts of two runs of frames, one after the other, are the texts of
/// the two runs joined.
pub proof fn lemma_payload_texts_split(a: Seq<Seq<u8>>, b: Seq<Seq<u8>>)
    ensures
        payload_texts(a + b) == payload_texts(a) + payload_texts(b),
    decreases b.len(),
{
    if b.len() == 0 {
        assert(a + b =~= a);
        assert(payload_texts(a) + payload_texts(b) =~= payload_texts(a));
    } else {
        lemma_payload_texts_split(a, b.drop_last());
        assert((a + b).drop_last() =~= a + b.drop_last());
        if !has_sentinel(b.last()) {
            assert(payload_texts(a + b) =~= payload_texts(a) + payload_texts(b));
        }
    }
}

/// The texts handed to the decoder when `chunks` are fed one after the
/// other from the pending buffer `buf`, chunk by chunk.
pub open spec fn texts_of_chunks(buf: Seq<u8>, chunks: Seq<Seq<u8>>) -> Seq<Seq<char>>
    decreases chunks.len(),
{
    if chunks.len() == 0 {
        Seq::empty()
    } else {
        let before = scan_chunks(buf, chunks.drop_last());
        texts_of_chunks(buf, chunks.drop_last()) + payload_texts(scan(before.1, chunks.last()).0)
    }
}

/// Chunking does not matter to what is decoded either: the texts handed on
/// chunk by chunk are those of the whole stream fed at once.
pub proof fn lemma_texts_chunking_invariance(buf: Seq<u8>, chunks: Seq<Seq<u8>>)
    ensures
        texts_of_chunks(buf, chunks) == payload_texts(scan(buf, joined(chunks)).0),
    decreases chunks.len(),
{
    lemma_chunking_invariance(buf, chunks);
    if chunks.len() > 0 {
        lemma_texts_chunking_invariance(buf, chunks.drop_last());
        lemma_chunking_invariance(buf, chunks.drop_last());
        let before = scan_chunks(buf, chunks.drop_last());
        lemma_payload_texts_split(before.0, scan(before.1, chunks.last()).0);
    }
}

/// Reads the payloads of a run of frames as text, swallowing sentinel frames.
pub fn texts_to_decode(frames: Vec<Vec<u8>>) -> (texts: Vec<String>)
    ensures
        texts@.map_values(|t: String| t@) == payload_texts(frames@.map_values(|f: Vec<u8>| f@)),
{
    let ghost fs = frames@.map_values(|f: Vec<u8>| f@);
    let mut texts: Vec<String> = Vec::new();
    let mut i: usize = 0;
    while i < frames.len()
        invariant
            i <= frames@.len(),
            fs == frames@.map_values(|f: Vec<u8>| f@),
            texts@.map_values(|t: String| t@) == payload_texts(fs.take(i as int)),
        decreases frames@.len() - i,
    {
        assert(fs.take(i as int + 1).drop_last() =~= fs.take(i as int));
        assert(fs.take(i as int + 1).last() == frames@[i as int]@);
        let f = frames[i].as_slice();
        if !contains_sentinel(f) {
            let t = lossy_text(f);
            texts.push(t);
            assert(texts@.map_values(|t: String| t@) =~= payload_texts(fs.take(i as int + 1)));
        }
        i = i + 1;
    }
    assert(fs.take(i as int) =~= fs);
    texts
}

/// Splits a byte stream into raw frames, keeping an incomplete frame for the
/// next chunk.
pub struct FrameExtractor {
    buffer: Vec<u8>,
}

impl View for FrameExtractor {
    type V = Seq<u8>;

    /// The bytes of the frame in progress.
    closed spec fn view(&self) -> Seq<u8> {
        self.buffer@
    }
}

impl FrameExtractor {
    /// An extractor with an empty buffer.
    pub fn new() -> (r: Self)
        ensures
            r@ == Seq::<u8>::empty(),
    {
        FrameExtractor { buffer: Vec::new() }
    }

    /// Number of bytes of the frame in progress.
    pub fn pending_len(&self) -> (r: usize)
        ensures
            r == self@.len(),
    {
        self.buffer.len()
    }

    /// Feeds one chunk and returns the payloads of the frames it completes,
    /// in order.
    pub fn push_chunk(&mut self, chunk: &[u8]) -> (frames: Vec<Vec<u8>>)
        ensures
            frames@.map_values(|f: Vec<u8>| f@) == scan(old(self)@, chunk@).0,
            final(self)@ == scan(old(self)@, chunk@).1,
    {
        let mut frames: Vec<Vec<u8>> = Vec::new();
        let mut i: usize = 0;
        while i < chunk.len()
            invariant
                i <= chunk@.len(),
                frames@.map_values(|f: Vec<u8>| f@) == scan(old(self)@, chunk@.take(i as int)).0,
                self@ == scan(old(self)@, chunk@.take(i as int)).1,
            decreases chunk@.len() - i,
        {
            assert(chunk@.take(i as int + 1).drop_last() =~= chunk@.take(i as int));
            self.buffer.push(chunk[i]);
            let n = self.buffer.len();
            if n >= START_MARKER_LEN + END_MARKER_LEN && self.buffer[n - 2] == NEWLINE
                && self.buffer[n - 1] == NEWLINE {
                let mut payload: Vec<u8> = Vec::new();
                let mut j: usize = START_MARKER_LEN;
                while j < n - END_MARKER_LEN
                    invariant
                        START_MARKER_LEN <= j <= n - END_MARKER_LEN,
                        n == self.buffer@.len(),
                        n >= START_MARKER_LEN + END_MARKER_LEN,
                        payload@ == self.buffer@.subrange(START_MARKER_LEN as int, j as int),
                    decreases n - j,
                {
                    payload.push(self.buffer[j]);
                    j = j + 1;
                }
                proof {
                    assert(payload@ =~= payload_of(self.buffer@));
                }
                frames.push(payload);
                self.buffer = Vec::new();
                assert(frames@.map_values(|f: Vec<u8>| f@) =~= scan(old(self)@, chunk@.take(i as int + 1)).0);
            } else {
                assert(frames@.map_values(|f: Vec<u8>| f@) =~= scan(old(self)@, chunk@.take(i as int + 1)).0);
            }
            i = i + 1;
        }
        assert(chunk@.take(i as int) =~= chunk@);
        frames
    }

    /// Drops the frame in progress (the stream ended or failed before it was
    /// complete).
    pub fn discard(&mut self)
        ensures
            final(self)@ == Seq::<u8>::empty(),
    {
        self.buffer.clear();
    }
}

} // verus!
