use openai_ng::driver::{SourceEvent, StreamDriver};
use openai_ng::frame::{contains_sentinel, texts_to_decode, FrameExtractor};

const STREAM: &[u8] = b"data: {\"id\":\"a\"}\n\ndata: {\"id\":\"b\"}\n\ndata: [DONE]\n\n";

fn frames_by_chunks(chunks: &[&[u8]]) -> (Vec<Vec<u8>>, usize) {
    let mut x = FrameExtractor::new();
    let mut all = Vec::new();
    for c in chunks {
        all.extend(x.push_chunk(c));
    }
    (all, x.pending_len())
}

#[test]
fn whole_stream_in_one_chunk() {
    let (frames, pending) = frames_by_chunks(&[STREAM]);
    assert_eq!(
        frames,
        vec![b"{\"id\":\"a\"}".to_vec(), b"{\"id\":\"b\"}".to_vec(), b"[DONE]".to_vec()]
    );
    assert_eq!(pending, 0);
}

#[test]
fn chunking_does_not_change_frames() {
    let (whole, _) = frames_by_chunks(&[STREAM]);
    let bytes: Vec<&[u8]> = STREAM.chunks(1).collect();
    assert_eq!(frames_by_chunks(&bytes).0, whole);
    // split inside the end marker and inside the payload
    let cut = STREAM.iter().position(|b| *b == b'\n').unwrap() + 1;
    let (a, b) = STREAM.split_at(cut);
    assert_eq!(frames_by_chunks(&[a, b]).0, whole);
    let (c, d) = STREAM.split_at(10);
    assert_eq!(frames_by_chunks(&[c, d]).0, whole);
    for size in 2..STREAM.len() {
        let pieces: Vec<&[u8]> = STREAM.chunks(size).collect();
        assert_eq!(frames_by_chunks(&pieces).0, whole);
    }
}

#[test]
fn unterminated_frame_stays_pending() {
    let (frames, pending) = frames_by_chunks(&[b"data: {\"id\":\"a\"}\n\ndata: {\"x"]);
    assert_eq!(frames, vec![b"{\"id\":\"a\"}".to_vec()]);
    assert_eq!(pending, 9);
}

#[test]
fn short_buffer_does_not_complete_a_frame() {
    // a blank line alone is shorter than both markers together
    let (frames, pending) = frames_by_chunks(&[b"\n\n"]);
    assert!(frames.is_empty());
    assert_eq!(pending, 2);
}

#[test]
fn sentinel_is_found_anywhere() {
    assert!(contains_sentinel(b"[DONE]"));
    assert!(contains_sentinel(b" x [DONE] y"));
    assert!(!contains_sentinel(b"[DONE"));
    assert!(!contains_sentinel(b""));
    assert!(!contains_sentinel(b"{\"done\":true}"));
}

#[test]
fn sentinel_frame_yields_no_text() {
    let texts = texts_to_decode(vec![b"{}".to_vec(), b"[DONE]".to_vec(), b"{\"a\":1}".to_vec()]);
    assert_eq!(texts, vec!["{}".to_string(), "{\"a\":1}".to_string()]);
}

#[test]
fn invalid_utf8_is_read_lossily() {
    let texts = texts_to_decode(vec![vec![b'a', 0xff, b'b']]);
    assert_eq!(texts, vec!["a\u{fffd}b".to_string()]);
}

#[test]
fn sentinel_does_not_stop_the_driver() {
    let mut d = StreamDriver::new();
    let texts = d.on_source(SourceEvent::Chunk(b"data: [DONE]\n\ndata: {\"id\":\"c\"}\n\n".to_vec()));
    assert_eq!(texts, vec!["{\"id\":\"c\"}".to_string()]);
    assert!(!d.is_stopped());
    let more = d.on_source(SourceEvent::Chunk(b"data: {}\n\n".to_vec()));
    assert_eq!(more, vec!["{}".to_string()]);
}

#[test]
fn driver_stops_on_end_and_drops_partial_frame() {
    let mut d = StreamDriver::new();
    assert!(d.on_source(SourceEvent::Chunk(b"data: {\"par".to_vec())).is_empty());
    assert!(d.on_source(SourceEvent::Ended).is_empty());
    assert!(d.is_stopped());
    assert!(d.on_source(SourceEvent::Chunk(b"tial\"}\n\n".to_vec())).is_empty());
}

#[test]
fn driver_stops_on_transport_failure() {
    let mut d = StreamDriver::new();
    assert!(d.on_source(SourceEvent::Failed).is_empty());
    assert!(d.is_stopped());
    assert!(d.on_source(SourceEvent::Chunk(b"data: {}\n\n".to_vec())).is_empty());
}

#[test]
fn driver_stops_when_delivery_is_refused() {
    let mut d = StreamDriver::new();
    assert!(d.on_delivery(true));
    assert!(!d.is_stopped());
    assert!(!d.on_delivery(false));
    assert!(d.is_stopped());
    assert!(d.on_source(SourceEvent::Chunk(b"data: {}\n\n".to_vec())).is_empty());
}

#[test]
fn empty_chunk_changes_nothing() {
    let mut x = FrameExtractor::new();
    assert!(x.push_chunk(b"data: {").is_empty());
    assert!(x.push_chunk(b"").is_empty());
    assert_eq!(x.pending_len(), 7);
    assert_eq!(x.push_chunk(b"}\n\n"), vec![b"{}".to_vec()]);
    assert_eq!(x.pending_len(), 0);
}
