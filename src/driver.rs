//! The decisions of the stream driver.
//!
//! The driver pulls byte chunks from a transport, cuts them into frames and
//! hands each payload to be decoded and delivered. The pulling, decoding and
//! delivering happen outside; this state machine decides what to hand on and
//! when to stop.
use vstd::prelude::*;

use crate::frame::{payload_texts, scan, texts_to_decode, FrameExtractor};

verus! {

/// What the byte source produced.
pub enum SourceEvent {
    /// A chunk of bytes, of any size and alignment.
    Chunk(Vec<u8>),
    /// The transport failed: the stream is over.
    Failed,
    /// The transport closed the stream.
    Ended,
}

/// The state of the driver: the frame in progress and whether it stopped.
pub struct StreamDriver {
    extractor: FrameExtractor,
    stopped: bool,
}

/// The driver as a value: whether it stopped, and the pending bytes.
pub struct DriverState {
    pub stopped: bool,
    pub pending: Seq<u8>,
}

impl View for StreamDriver {
    type V = DriverState;

    closed spec fn view(&self) -> DriverState {
        DriverState { stopped: self.stopped, pending: self.extractor@ }
    }
}

/// The state after a stop: nothing pending, nothing more consumed.
pub open spec fn stopped_state() -> DriverState {
    DriverState { stopped: true, pending: Seq::empty() }
}

impl StreamDriver {
    /// A driver that has consumed nothing.
    pub fn new() -> (r: Self)
        ensures
            r@ == (DriverState { stopped: false, pending: Seq::empty() }),
    {
        StreamDriver { extractor: FrameExtractor::new(), stopped: false }
    }

    /// Whether the driver stopped; once it has, no further chunk is to be
    /// requested from the source.
    pub fn is_stopped(&self) -> (r: bool)
        ensures
            r == self@.stopped,
    {
        self.stopped
    }

    /// Handles what the source produced, and returns the payload texts to
    /// decode and deliver, in arrival order. A failure or the end of the
    /// source stops the driver and drops an unterminated frame.
    pub fn on_source(&mut self, event: SourceEvent) -> (texts: Vec<String>)
        ensures
            old(self)@.stopped ==> final(self)@ == old(self)@ && texts@.len() == 0,
            !old(self)@.stopped ==> match event {
                SourceEvent::Chunk(c) => {
                    let s = scan(old(self)@.pending, c@);
                    &&& final(self)@ == (DriverState { stopped: false, pending: s.1 })
                    &&& texts@.map_values(|t: String| t@) == payload_texts(s.0)
                },
                _ => final(self)@ == stopped_state() && texts@.len() == 0,
            },
    {
        if self.stopped {
            return Vec::new();
        }
        match event {
            SourceEvent::Chunk(c) => {
                let frames = self.extractor.push_chunk(c.as_slice());
                texts_to_decode(frames)
            },
            _ => {
                self.extractor.discard();
                self.stopped = true;
                Vec::new()
            },
        }
    }

    /// Records whether the consumer took the last item handed to it, and
    /// returns whether to go on. A refused delivery means the consumer is
    /// gone: the driver stops and drops what it holds.
    pub fn on_delivery(&mut self, accepted: bool) -> (go_on: bool)
        ensures
            accepted ==> final(self)@ == old(self)@,
            !accepted ==> final(self)@ == stopped_state(),
            go_on == !final(self)@.stopped,
    {
        if !accepted {
            self.extractor.discard();
            self.stopped = true;
        }
        !self.stopped
    }
}

} // verus!
