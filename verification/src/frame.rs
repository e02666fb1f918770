//! The frame codec. A frame on the wire is a four-byte big-endian length, a
//! version byte, a type byte and the payload; the length counts the version
//! byte, the type byte and the payload. The codec never looks inside a payload.

use vstd::prelude::*;
use crate::wire::{
    lemma_be32_round_trip, push_be32, read_be32, spec_be32, spec_be32_bytes,
};

verus! {

/// The protocol version carried by every frame.
pub type ProtocolVersion = u8;

/// The largest value the length field of a frame may hold (1 MiB).
pub const MAX_FRAME_SIZE: u32 = 1048576;

/// The smallest value the length field may hold: version byte and type byte.
pub const MIN_FRAME_SIZE: u32 = 2;

/// The number of bytes in front of the payload: length, version and type.
pub const FRAME_HEADER_LEN: usize = 6;

/// The largest payload a single frame can carry.
pub const MAX_PAYLOAD_LEN: usize = 1048574;

/// The two kinds of frame.
#[derive(Debug, Clone, Copy, PartialEq, Eq, Structural)]
pub enum FrameType {
    Control,
    Data,
}

/// Why a frame could not be encoded or decoded.
#[derive(Debug, Clone, Copy, PartialEq, Eq, Structural)]
pub enum FrameError {
    /// The length field is above `MAX_FRAME_SIZE`.
    TooLarge,
    /// The length field is below `MIN_FRAME_SIZE`.
    TooSmall,
    /// The type byte names no frame type.
    UnknownType,
    /// The input ends before the frame does: more bytes are needed.
    Truncated,
}

/// The byte that stands for a frame type on the wire.
pub open spec fn spec_frame_type_byte(t: FrameType) -> u8 {
    match t {
        FrameType::Control => 1u8,
        FrameType::Data => 2u8,
    }
}

/// The frame type that a wire byte stands for, if any.
pub open spec fn spec_frame_type_of(b: u8) -> Option<FrameType> {
    if b == 1 {
        Some(FrameType::Control)
    } else if b == 2 {
        Some(FrameType::Data)
    } else {
        None
    }
}

impl FrameType {
    /// The byte that stands for this frame type on the wire.
    pub fn to_byte(self) -> (b: u8)
        ensures
            b == spec_frame_type_byte(self),
    {
        match self {
            FrameType::Control => 1,
            FrameType::Data => 2,
        }
    }

    /// The frame type that `b` stands for; `None` for any other byte.
    pub fn from_byte(b: u8) -> (t: Option<FrameType>)
        ensures
            t == spec_frame_type_of(b),
    {
        if b == 1 {
            Some(FrameType::Control)
        } else if b == 2 {
            Some(FrameType::Data)
        } else {
            None
        }
    }
}

/// The bytes of the frame `(version, frame_type, payload)`.
pub open spec fn spec_encode_frame(
    version: ProtocolVersion,
    frame_type: FrameType,
    payload: Seq<u8>,
) -> Seq<u8> {
    spec_be32_bytes(payload.len() as int + 2) + seq![version, spec_frame_type_byte(frame_type)] + payload
}

/// What the decoder makes of `input`: the first frame in it with the number of
/// bytes that frame takes, or the reason why there is none.
pub open spec fn spec_decode_frame(input: Seq<u8>) -> Result<
    (ProtocolVersion, FrameType, Seq<u8>, nat),
    FrameError,
> {
    if input.len() < 4 {
        Err(FrameError::Truncated)
    } else {
        let length = spec_be32(input.subrange(0, 4));
        if length > MAX_FRAME_SIZE {
            Err(FrameError::TooLarge)
        } else if length < MIN_FRAME_SIZE {
            Err(FrameError::TooSmall)
        } else if input.len() < 6 {
            Err(FrameError::Truncated)
        } else if spec_frame_type_of(input[5]) is None {
            Err(FrameError::UnknownType)
        } else if input.len() < 4 + length {
            Err(FrameError::Truncated)
        } else {
            Ok(
                (
                    input[4],
                    spec_frame_type_of(input[5])->Some_0,
                    input.subrange(6, 4 + length),
                    (4 + length) as nat,
                ),
            )
        }
    }
}

/// Encodes frames.
pub struct FrameEncoder;

impl FrameEncoder {
    /// Appends the frame `(version, frame_type, payload)` to `writer`.
    ///
    /// A payload of more than `MAX_PAYLOAD_LEN` bytes is refused with
    /// `TooLarge`, and `writer` is then left as it was.
    pub fn encode_frame(
        writer: &mut Vec<u8>,
        version: ProtocolVersion,
        frame_type: FrameType,
        payload: &[u8],
    ) -> (r: Result<(), FrameError>)
        ensures
            payload@.len() <= MAX_PAYLOAD_LEN ==> r is Ok && final(writer)@ == old(writer)@
                + spec_encode_frame(version, frame_type, payload@),
            payload@.len() > MAX_PAYLOAD_LEN ==> r == Err::<(), FrameError>(FrameError::TooLarge)
                && final(writer)@ == old(writer)@,
    {
        if payload.len() > MAX_PAYLOAD_LEN {
            return Err(FrameError::TooLarge);
        }
        let length: u32 = (payload.len() + 2) as u32;
        push_be32(writer, length);
        writer.push(version);
        writer.push(frame_type.to_byte());
        let ghost head = writer@;
        writer.extend_from_slice(payload);
        proof {
            assert(head =~= old(writer)@ + spec_be32_bytes(payload@.len() as int + 2) + seq![
                version,
                spec_frame_type_byte(frame_type),
            ]);
            assert(writer@ =~= old(writer)@ + spec_encode_frame(version, frame_type, payload@));
        }
        Ok(())
    }
}

/// Decodes frames.
pub struct FrameDecoder;

impl FrameDecoder {
    /// Decodes the first frame of `input`.
    ///
    /// On success the result holds the version, the type, the payload and the
    /// number of bytes the frame took. `Truncated` means that `input` is a
    /// proper prefix of a frame: nothing was consumed, and the caller may try
    /// again with more bytes.
    pub fn decode_frame(input: &[u8]) -> (r: Result<
        (ProtocolVersion, FrameType, Vec<u8>, usize),
        FrameError,
    >)
        ensures
            match r {
                Ok((version, frame_type, payload, consumed)) => spec_decode_frame(input@) == Ok::<
                    (ProtocolVersion, FrameType, Seq<u8>, nat),
                    FrameError,
                >((version, frame_type, payload@, consumed as nat)),
                Err(e) => spec_decode_frame(input@) == Err::<
                    (ProtocolVersion, FrameType, Seq<u8>, nat),
                    FrameError,
                >(e),
            },
    {
        if input.len() < 4 {
            return Err(FrameError::Truncated);
        }
        let length: u32 = read_be32(input, 0);
        if length > MAX_FRAME_SIZE {
            return Err(FrameError::TooLarge);
        }
        if length < MIN_FRAME_SIZE {
            return Err(FrameError::TooSmall);
        }
        if input.len() < 6 {
            return Err(FrameError::Truncated);
        }
        let version: u8 = input[4];
        let frame_type = match FrameType::from_byte(input[5]) {
            Some(t) => t,
            None => {
                return Err(FrameError::UnknownType);
            },
        };
        let end: usize = 4 + length as usize;
        if input.len() < end {
            return Err(FrameError::Truncated);
        }
        let payload = copy_range(input, 6, end);
        Ok((version, frame_type, payload, end))
    }
}

/// Copies `data[from..to]` into a new vector.
pub fn copy_range(data: &[u8], from: usize, to: usize) -> (out: Vec<u8>)
    requires
        from <= to <= data@.len(),
    ensures
        out@ == data@.subrange(from as int, to as int),
{
    let mut out: Vec<u8> = Vec::new();
    let mut i: usize = from;
    while i < to
        invariant
            from <= i <= to <= data@.len(),
            out@ == data@.subrange(from as int, i as int),
        decreases to - i,
    {
        out.push(data[i]);
        i += 1;
        assert(out@ =~= data@.subrange(from as int, i as int));
    }
    out
}

/// Framing round trip: a frame with a payload of at most `MAX_PAYLOAD_LEN`
/// bytes, followed by any bytes at all, decodes to the version, type and
/// payload it was made from, and takes `6 + |payload|` bytes.
pub proof fn lemma_frame_round_trip(
    version: ProtocolVersion,
    frame_type: FrameType,
    payload: Seq<u8>,
    rest: Seq<u8>,
)
    requires
        payload.len() <= MAX_PAYLOAD_LEN,
    ensures
        spec_encode_frame(version, frame_type, payload).len() == 6 + payload.len(),
        spec_decode_frame(spec_encode_frame(version, frame_type, payload) + rest) == Ok::<
            (ProtocolVersion, FrameType, Seq<u8>, nat),
            FrameError,
        >((version, frame_type, payload, 6 + payload.len())),
{
    let enc = spec_encode_frame(version, frame_type, payload);
    let input = enc + rest;
    let length: int = payload.len() as int + 2;
    lemma_be32_round_trip(length);
    assert(input.subrange(0, 4) =~= spec_be32_bytes(length));
    assert(input[4] == version);
    assert(input[5] == spec_frame_type_byte(frame_type));
    assert(input.subrange(6, 4 + length) =~= payload);
}

/// Decoder partiality: every proper prefix of an encoded frame is reported as
/// `Truncated`, so nothing is consumed until the whole frame has arrived.
pub proof fn lemma_frame_prefix_needs_more(
    version: ProtocolVersion,
    frame_type: FrameType,
    payload: Seq<u8>,
    n: int,
)
    requires
        payload.len() <= MAX_PAYLOAD_LEN,
        0 <= n < 6 + payload.len(),
    ensures
        spec_decode_frame(spec_encode_frame(version, frame_type, payload).subrange(0, n)) == Err::<
            (ProtocolVersion, FrameType, Seq<u8>, nat),
            FrameError,
        >(FrameError::Truncated),
{
    let enc = spec_encode_frame(version, frame_type, payload);
    let input = enc.subrange(0, n);
    let length: int = payload.len() as int + 2;
    lemma_be32_round_trip(length);
    if n >= 4 {
        assert(input.subrange(0, 4) =~= spec_be32_bytes(length));
        if n >= 6 {
            assert(input[5] == spec_frame_type_byte(frame_type));
        }
    }
}

/// Feeding the bytes that were missing after a `Truncated` answer yields the
/// frame: a prefix of an encoded frame followed by the remainder decodes to the
/// original version, type and payload.
pub proof fn lemma_frame_resume_after_prefix(
    version: ProtocolVersion,
    frame_type: FrameType,
    payload: Seq<u8>,
    n: int,
)
    requires
        payload.len() <= MAX_PAYLOAD_LEN,
        0 <= n <= 6 + payload.len(),
    ensures
        ({
            let enc = spec_encode_frame(version, frame_type, payload);
            spec_decode_frame(enc.subrange(0, n) + enc.subrange(n, enc.len() as int)) == Ok::<
                (ProtocolVersion, FrameType, Seq<u8>, nat),
                FrameError,
            >((version, frame_type, payload, 6 + payload.len()))
        }),
{
    let enc = spec_encode_frame(version, frame_type, payload);
    lemma_frame_round_trip(version, frame_type, payload, Seq::<u8>::empty());
    assert(enc.subrange(0, n) + enc.subrange(n, enc.len() as int) =~= enc);
    assert(enc + Seq::<u8>::empty() =~= enc);
}

} // verus!
