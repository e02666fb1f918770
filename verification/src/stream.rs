//! Frames out of a byte stream: what to do with the bytes buffered so far.

use vstd::prelude::*;
use vstd::slice::slice_subrange;
use crate::frame::{spec_decode_frame, FrameDecoder, FrameError, FrameType, ProtocolVersion};
use crate::wire::{read_be32, spec_be32};

verus! {

/// What the front of a byte stream holds.
pub enum StreamEvent {
    /// A proper prefix of a frame: nothing can be taken until more bytes
    /// arrive.
    NeedMore,
    /// A whole frame, which takes `consumed` bytes.
    Frame { version: ProtocolVersion, frame_type: FrameType, payload: Vec<u8>, consumed: usize },
    /// A protocol violation, of which `consumed` bytes are to be thrown away.
    Discard { consumed: usize },
}

/// What the front of a byte stream holds, as a mathematical value.
pub enum StreamStep {
    NeedMore,
    Frame { version: ProtocolVersion, frame_type: FrameType, payload: Seq<u8>, consumed: nat },
    Discard { consumed: nat },
}

impl View for StreamEvent {
    type V = StreamStep;

    open spec fn view(&self) -> StreamStep {
        match *self {
            StreamEvent::NeedMore => StreamStep::NeedMore,
            StreamEvent::Frame { version, frame_type, payload, consumed } => StreamStep::Frame {
                version,
                frame_type,
                payload: payload@,
                consumed: consumed as nat,
            },
            StreamEvent::Discard { consumed } => StreamStep::Discard { consumed: consumed as nat },
        }
    }
}

/// What the front of the buffered bytes `buf` holds.
///
/// A frame of unknown type is thrown away as a whole once all of it has
/// arrived. A length field outside the allowed range cannot delimit a frame,
/// so everything buffered is thrown away.
pub open spec fn spec_stream_step(buf: Seq<u8>) -> StreamStep {
    match spec_decode_frame(buf) {
        Ok((version, frame_type, payload, consumed)) => StreamStep::Frame {
            version,
            frame_type,
            payload,
            consumed,
        },
        Err(FrameError::Truncated) => StreamStep::NeedMore,
        Err(FrameError::UnknownType) => {
            let whole = 4 + spec_be32(buf.subrange(0, 4));
            if buf.len() >= whole {
                StreamStep::Discard { consumed: whole as nat }
            } else {
                StreamStep::NeedMore
            }
        },
        Err(FrameError::TooLarge) => StreamStep::Discard { consumed: buf.len() },
        Err(FrameError::TooSmall) => StreamStep::Discard { consumed: buf.len() },
    }
}

/// Every step that takes bytes takes at least four and no more than there
/// are.
pub proof fn lemma_stream_step_progress(buf: Seq<u8>)
    ensures
        match spec_stream_step(buf) {
            StreamStep::NeedMore => true,
            StreamStep::Frame { consumed, payload, .. } => 6 <= consumed <= buf.len()
                && consumed == 6 + payload.len(),
            StreamStep::Discard { consumed } => 4 <= consumed <= buf.len(),
        },
{
}

/// Looks at the front of the buffered bytes `buf`.
pub fn next_stream_event(buf: &[u8]) -> (event: StreamEvent)
    ensures
        event@ == spec_stream_step(buf@),
{
    match FrameDecoder::decode_frame(buf) {
        Ok((version, frame_type, payload, consumed)) => StreamEvent::Frame {
            version,
            frame_type,
            payload,
            consumed,
        },
        Err(FrameError::Truncated) => StreamEvent::NeedMore,
        Err(FrameError::UnknownType) => {
            let length: u32 = read_be32(buf, 0);
            let whole: usize = 4 + length as usize;
            if buf.len() >= whole {
                StreamEvent::Discard { consumed: whole }
            } else {
                StreamEvent::NeedMore
            }
        },
        Err(FrameError::TooLarge) => StreamEvent::Discard { consumed: buf.len() },
        Err(FrameError::TooSmall) => StreamEvent::Discard { consumed: buf.len() },
    }
}

/// The bytes of `buf` from `from` on.
pub fn tail_of(buf: &[u8], from: usize) -> (tail: &[u8])
    requires
        from <= buf@.len(),
    ensures
        tail@ == buf@.skip(from as int),
{
    let tail = slice_subrange(buf, from, buf.len());
    assert(tail@ =~= buf@.skip(from as int));
    tail
}

} // verus!
