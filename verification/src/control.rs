//! Control messages and data frames: what travels inside a frame's payload.

use vstd::prelude::*;
use vstd::utf8::{decode_utf8, encode_utf8, valid_utf8};
use crate::frame::copy_range;
use crate::text::string_from_utf8;
use crate::wire::{
    lemma_be16_round_trip, lemma_be32_round_trip, push_be16, push_be32, read_be16, read_be32,
    spec_be16, spec_be16_bytes, spec_be32, spec_be32_bytes,
};

verus! {

/// The first byte of a control payload.
#[derive(Debug, Clone, Copy, PartialEq, Eq, Structural)]
pub enum ControlOpcode {
    Hello,
    Open,
    Close,
    WindowUpdate,
    Error,
}

/// The byte that stands for an opcode on the wire.
pub open spec fn spec_opcode_byte(op: ControlOpcode) -> u8 {
    match op {
        ControlOpcode::Hello => 0u8,
        ControlOpcode::Open => 1u8,
        ControlOpcode::Close => 2u8,
        ControlOpcode::WindowUpdate => 3u8,
        ControlOpcode::Error => 4u8,
    }
}

/// The opcode that a wire byte stands for, if any.
pub open spec fn spec_opcode_of(b: u8) -> Option<ControlOpcode> {
    if b == 0 {
        Some(ControlOpcode::Hello)
    } else if b == 1 {
        Some(ControlOpcode::Open)
    } else if b == 2 {
        Some(ControlOpcode::Close)
    } else if b == 3 {
        Some(ControlOpcode::WindowUpdate)
    } else if b == 4 {
        Some(ControlOpcode::Error)
    } else {
        None
    }
}

impl ControlOpcode {
    /// The byte that stands for this opcode on the wire.
    pub fn to_byte(self) -> (b: u8)
        ensures
            b == spec_opcode_byte(self),
    {
        match self {
            ControlOpcode::Hello => 0,
            ControlOpcode::Open => 1,
            ControlOpcode::Close => 2,
            ControlOpcode::WindowUpdate => 3,
            ControlOpcode::Error => 4,
        }
    }

    /// The opcode that `b` stands for; `None` for any other byte.
    pub fn from_byte(b: u8) -> (op: Option<ControlOpcode>)
        ensures
            op == spec_opcode_of(b),
    {
        if b == 0 {
            Some(ControlOpcode::Hello)
        } else if b == 1 {
            Some(ControlOpcode::Open)
        } else if b == 2 {
            Some(ControlOpcode::Close)
        } else if b == 3 {
            Some(ControlOpcode::WindowUpdate)
        } else if b == 4 {
            Some(ControlOpcode::Error)
        } else {
            None
        }
    }
}

/// Why a payload could not be decoded.
#[derive(Debug, Clone, Copy, PartialEq, Eq, Structural)]
pub enum PayloadError {
    /// The payload holds no byte at all.
    Empty,
    /// The payload ends before the fields of its message do.
    TooShort,
    /// The host field of an `Open` message is not UTF-8.
    InvalidUtf8,
    /// The first byte names no control opcode.
    UnknownOpcode,
}

/// A control message.
#[derive(Debug, Clone, PartialEq, Eq)]
pub enum ControlMessage {
    Hello { version: u8, capability_flags: u32 },
    Open { conn_id: u32, target_host: String, target_port: u16 },
    Close { conn_id: u32, reason: u8 },
    WindowUpdate { conn_id: u32, credits: u32 },
    Error { conn_id: u32, code: u8 },
}

/// A control message as a mathematical value: the host is a sequence of
/// characters.
pub enum ControlMessageView {
    Hello { version: u8, capability_flags: u32 },
    Open { conn_id: u32, target_host: Seq<char>, target_port: u16 },
    Close { conn_id: u32, reason: u8 },
    WindowUpdate { conn_id: u32, credits: u32 },
    Error { conn_id: u32, code: u8 },
}

impl View for ControlMessage {
    type V = ControlMessageView;

    open spec fn view(&self) -> ControlMessageView {
        match *self {
            ControlMessage::Hello { version, capability_flags } => ControlMessageView::Hello {
                version,
                capability_flags,
            },
            ControlMessage::Open { conn_id, target_host, target_port } => ControlMessageView::Open {
                conn_id,
                target_host: target_host@,
                target_port,
            },
            ControlMessage::Close { conn_id, reason } => ControlMessageView::Close {
                conn_id,
                reason,
            },
            ControlMessage::WindowUpdate { conn_id, credits } => ControlMessageView::WindowUpdate {
                conn_id,
                credits,
            },
            ControlMessage::Error { conn_id, code } => ControlMessageView::Error { conn_id, code },
        }
    }
}

/// The connection a control message speaks of; `Hello` speaks of none and
/// counts as connection 0.
pub open spec fn spec_message_conn_id(m: ControlMessageView) -> u32 {
    match m {
        ControlMessageView::Hello { .. } => 0u32,
        ControlMessageView::Open { conn_id, .. } => conn_id,
        ControlMessageView::Close { conn_id, .. } => conn_id,
        ControlMessageView::WindowUpdate { conn_id, .. } => conn_id,
        ControlMessageView::Error { conn_id, .. } => conn_id,
    }
}

/// The payload bytes of a control message. The host of an `Open` message is
/// written in UTF-8 behind one byte that holds its length modulo 256.
pub open spec fn spec_encode_control(m: ControlMessageView) -> Seq<u8> {
    match m {
        ControlMessageView::Hello { version, capability_flags } => seq![0u8, version]
            + spec_be32_bytes(capability_flags as int),
        ControlMessageView::Open { conn_id, target_host, target_port } => seq![1u8]
            + spec_be32_bytes(conn_id as int) + seq![(encode_utf8(target_host).len() % 256) as u8]
            + encode_utf8(target_host) + spec_be16_bytes(target_port as int),
        ControlMessageView::Close { conn_id, reason } => seq![2u8] + spec_be32_bytes(
            conn_id as int,
        ) + seq![reason],
        ControlMessageView::WindowUpdate { conn_id, credits } => seq![3u8] + spec_be32_bytes(
            conn_id as int,
        ) + spec_be32_bytes(credits as int),
        ControlMessageView::Error { conn_id, code } => seq![4u8] + spec_be32_bytes(conn_id as int)
            + seq![code],
    }
}

/// What the decoder makes of a control payload. Bytes behind the fields of the
/// message are ignored.
pub open spec fn spec_decode_control(p: Seq<u8>) -> Result<ControlMessageView, PayloadError> {
    if p.len() == 0 {
        Err(PayloadError::Empty)
    } else if p[0] == 0 {
        if p.len() < 6 {
            Err(PayloadError::TooShort)
        } else {
            Ok(
                ControlMessageView::Hello {
                    version: p[1],
                    capability_flags: spec_be32(p.subrange(2, 6)) as u32,
                },
            )
        }
    } else if p[0] == 1 {
        if p.len() < 6 {
            Err(PayloadError::TooShort)
        } else if p.len() < 6 + p[5] + 2 {
            Err(PayloadError::TooShort)
        } else if !valid_utf8(p.subrange(6, 6 + p[5])) {
            Err(PayloadError::InvalidUtf8)
        } else {
            Ok(
                ControlMessageView::Open {
                    conn_id: spec_be32(p.subrange(1, 5)) as u32,
                    target_host: decode_utf8(p.subrange(6, 6 + p[5])),
                    target_port: spec_be16(p.subrange(6 + p[5], 6 + p[5] + 2)) as u16,
                },
            )
        }
    } else if p[0] == 2 {
        if p.len() < 6 {
            Err(PayloadError::TooShort)
        } else {
            Ok(
                ControlMessageView::Close {
                    conn_id: spec_be32(p.subrange(1, 5)) as u32,
                    reason: p[5],
                },
            )
        }
    } else if p[0] == 3 {
        if p.len() < 9 {
            Err(PayloadError::TooShort)
        } else {
            Ok(
                ControlMessageView::WindowUpdate {
                    conn_id: spec_be32(p.subrange(1, 5)) as u32,
                    credits: spec_be32(p.subrange(5, 9)) as u32,
                },
            )
        }
    } else if p[0] == 4 {
        if p.len() < 6 {
            Err(PayloadError::TooShort)
        } else {
            Ok(
                ControlMessageView::Error {
                    conn_id: spec_be32(p.subrange(1, 5)) as u32,
                    code: p[5],
                },
            )
        }
    } else {
        Err(PayloadError::UnknownOpcode)
    }
}

impl ControlMessage {
    /// The connection this message speaks of; 0 for `Hello`.
    pub fn conn_id(&self) -> (id: u32)
        ensures
            id == spec_message_conn_id(self@),
    {
        match self {
            ControlMessage::Hello { .. } => 0,
            ControlMessage::Open { conn_id, .. } => *conn_id,
            ControlMessage::Close { conn_id, .. } => *conn_id,
            ControlMessage::WindowUpdate { conn_id, .. } => *conn_id,
            ControlMessage::Error { conn_id, .. } => *conn_id,
        }
    }

    /// A copy of this message.
    pub fn duplicate(&self) -> (m: ControlMessage)
        ensures
            m@ == self@,
    {
        match self {
            ControlMessage::Hello { version, capability_flags } => ControlMessage::Hello {
                version: *version,
                capability_flags: *capability_flags,
            },
            ControlMessage::Open { conn_id, target_host, target_port } => ControlMessage::Open {
                conn_id: *conn_id,
                target_host: target_host.clone(),
                target_port: *target_port,
            },
            ControlMessage::Close { conn_id, reason } => ControlMessage::Close {
                conn_id: *conn_id,
                reason: *reason,
            },
            ControlMessage::WindowUpdate { conn_id, credits } => ControlMessage::WindowUpdate {
                conn_id: *conn_id,
                credits: *credits,
            },
            ControlMessage::Error { conn_id, code } => ControlMessage::Error {
                conn_id: *conn_id,
                code: *code,
            },
        }
    }

    /// The payload bytes of this message.
    pub fn encode(&self) -> (buf: Vec<u8>)
        ensures
            buf@ == spec_encode_control(self@),
    {
        let mut buf: Vec<u8> = Vec::new();
        match self {
            ControlMessage::Hello { version, capability_flags } => {
                buf.push(ControlOpcode::Hello.to_byte());
                buf.push(*version);
                push_be32(&mut buf, *capability_flags);
                assert(buf@ =~= spec_encode_control(self@));
            },
            ControlMessage::Open { conn_id, target_host, target_port } => {
                buf.push(ControlOpcode::Open.to_byte());
                push_be32(&mut buf, *conn_id);
                let host_bytes = target_host.as_str().as_bytes();
                buf.push((host_bytes.len() % 256) as u8);
                buf.extend_from_slice(host_bytes);
                push_be16(&mut buf, *target_port);
                assert(buf@ =~= spec_encode_control(self@));
            },
            ControlMessage::Close { conn_id, reason } => {
                buf.push(ControlOpcode::Close.to_byte());
                push_be32(&mut buf, *conn_id);
                buf.push(*reason);
                assert(buf@ =~= spec_encode_control(self@));
            },
            ControlMessage::WindowUpdate { conn_id, credits } => {
                buf.push(ControlOpcode::WindowUpdate.to_byte());
                push_be32(&mut buf, *conn_id);
                push_be32(&mut buf, *credits);
                assert(buf@ =~= spec_encode_control(self@));
            },
            ControlMessage::Error { conn_id, code } => {
                buf.push(ControlOpcode::Error.to_byte());
                push_be32(&mut buf, *conn_id);
                buf.push(*code);
                assert(buf@ =~= spec_encode_control(self@));
            },
        }
        buf
    }

    /// Decodes a control payload.
    ///
    /// The result is `Ok` exactly when the first byte is an opcode, the fields
    /// of that message are all there and, for `Open`, the host is UTF-8.
    pub fn decode(payload: &[u8]) -> (r: Result<ControlMessage, PayloadError>)
        ensures
            match r {
                Ok(m) => spec_decode_control(payload@) == Ok::<ControlMessageView, PayloadError>(
                    m@,
                ),
                Err(e) => spec_decode_control(payload@) == Err::<ControlMessageView, PayloadError>(
                    e,
                ),
            },
    {
        if payload.len() == 0 {
            return Err(PayloadError::Empty);
        }
        let opcode = match ControlOpcode::from_byte(payload[0]) {
            Some(op) => op,
            None => {
                return Err(PayloadError::UnknownOpcode);
            },
        };
        match opcode {
            ControlOpcode::Hello => {
                if payload.len() < 6 {
                    return Err(PayloadError::TooShort);
                }
                let version: u8 = payload[1];
                let capability_flags: u32 = read_be32(payload, 2);
                Ok(ControlMessage::Hello { version, capability_flags })
            },
            ControlOpcode::Open => {
                if payload.len() < 5 {
                    return Err(PayloadError::TooShort);
                }
                let conn_id: u32 = read_be32(payload, 1);
                if payload.len() < 6 {
                    return Err(PayloadError::TooShort);
                }
                let host_len: usize = payload[5] as usize;
                if payload.len() - 6 < host_len + 2 {
                    return Err(PayloadError::TooShort);
                }
                let host_bytes = copy_range(payload, 6, 6 + host_len);
                let target_host = match string_from_utf8(host_bytes) {
                    Some(host) => host,
                    None => {
                        return Err(PayloadError::InvalidUtf8);
                    },
                };
                let target_port: u16 = read_be16(payload, 6 + host_len);
                Ok(ControlMessage::Open { conn_id, target_host, target_port })
            },
            ControlOpcode::Close => {
                if payload.len() < 6 {
                    return Err(PayloadError::TooShort);
                }
                let conn_id: u32 = read_be32(payload, 1);
                let reason: u8 = payload[5];
                Ok(ControlMessage::Close { conn_id, reason })
            },
            ControlOpcode::WindowUpdate => {
                if payload.len() < 9 {
                    return Err(PayloadError::TooShort);
                }
                let conn_id: u32 = read_be32(payload, 1);
                let credits: u32 = read_be32(payload, 5);
                Ok(ControlMessage::WindowUpdate { conn_id, credits })
            },
            ControlOpcode::Error => {
                if payload.len() < 6 {
                    return Err(PayloadError::TooShort);
                }
                let conn_id: u32 = read_be32(payload, 1);
                let code: u8 = payload[5];
                Ok(ControlMessage::Error { conn_id, code })
            },
        }
    }
}

/// Control round trip: a message whose host takes at most 255 bytes in UTF-8
/// decodes, from its own payload followed by any bytes, to itself.
pub proof fn lemma_control_round_trip(m: ControlMessageView, rest: Seq<u8>)
    requires
        m matches ControlMessageView::Open { target_host, .. } ==> encode_utf8(target_host).len()
            <= 255,
    ensures
        spec_decode_control(spec_encode_control(m) + rest) == Ok::<
            ControlMessageView,
            PayloadError,
        >(m),
{
    broadcast use vstd::utf8::encode_utf8_valid_utf8, vstd::utf8::encode_utf8_decode_utf8;

    let p = spec_encode_control(m) + rest;
    match m {
        ControlMessageView::Hello { version, capability_flags } => {
            lemma_be32_round_trip(capability_flags as int);
            assert(p.subrange(2, 6) =~= spec_be32_bytes(capability_flags as int));
        },
        ControlMessageView::Open { conn_id, target_host, target_port } => {
            let host = encode_utf8(target_host);
            lemma_be32_round_trip(conn_id as int);
            lemma_be16_round_trip(target_port as int);
            assert(p[0] == 1);
            assert(p[5] == host.len());
            assert(p.subrange(1, 5) =~= spec_be32_bytes(conn_id as int));
            assert(p.subrange(6, 6 + p[5]) =~= host);
            assert(p.subrange(6 + p[5], 6 + p[5] + 2) =~= spec_be16_bytes(target_port as int));
        },
        ControlMessageView::Close { conn_id, reason } => {
            lemma_be32_round_trip(conn_id as int);
            assert(p.subrange(1, 5) =~= spec_be32_bytes(conn_id as int));
        },
        ControlMessageView::WindowUpdate { conn_id, credits } => {
            lemma_be32_round_trip(conn_id as int);
            lemma_be32_round_trip(credits as int);
            assert(p.subrange(1, 5) =~= spec_be32_bytes(conn_id as int));
            assert(p.subrange(5, 9) =~= spec_be32_bytes(credits as int));
        },
        ControlMessageView::Error { conn_id, code } => {
            lemma_be32_round_trip(conn_id as int);
            assert(p.subrange(1, 5) =~= spec_be32_bytes(conn_id as int));
        },
    }
}

/// A data frame of the connection-oriented variant: the payload of one
/// connection.
#[derive(Debug, Clone, PartialEq, Eq)]
pub struct DataFrame {
    pub conn_id: u32,
    pub payload: Vec<u8>,
}

/// The payload bytes of a data frame: the connection id, then the data.
pub open spec fn spec_encode_data(conn_id: u32, payload: Seq<u8>) -> Seq<u8> {
    spec_be32_bytes(conn_id as int) + payload
}

impl DataFrame {
    /// A data frame for `conn_id` that carries `payload`.
    pub fn new(conn_id: u32, payload: Vec<u8>) -> (frame: DataFrame)
        ensures
            frame.conn_id == conn_id,
            frame.payload == payload,
    {
        DataFrame { conn_id, payload }
    }

    /// The payload bytes of this data frame.
    pub fn encode(&self) -> (buf: Vec<u8>)
        ensures
            buf@ == spec_encode_data(self.conn_id, self.payload@),
    {
        let mut buf: Vec<u8> = Vec::new();
        push_be32(&mut buf, self.conn_id);
        buf.extend_from_slice(self.payload.as_slice());
        assert(buf@ =~= spec_encode_data(self.conn_id, self.payload@));
        buf
    }

    /// Decodes the payload of a data frame: `TooShort` for fewer than four
    /// bytes, and otherwise the connection id with the bytes behind it.
    pub fn decode(payload: &[u8]) -> (r: Result<DataFrame, PayloadError>)
        ensures
            payload@.len() < 4 ==> r == Err::<DataFrame, PayloadError>(PayloadError::TooShort),
            payload@.len() >= 4 ==> r is Ok && r->Ok_0.conn_id as int == spec_be32(
                payload@.subrange(0, 4),
            ) && r->Ok_0.payload@ == payload@.subrange(4, payload@.len() as int),
    {
        if payload.len() < 4 {
            return Err(PayloadError::TooShort);
        }
        let conn_id: u32 = read_be32(payload, 0);
        let data = copy_range(payload, 4, payload.len());
        Ok(DataFrame { conn_id, payload: data })
    }
}

/// Data round trip: the payload bytes of a data frame decode to its
/// connection id and data.
pub proof fn lemma_data_round_trip(conn_id: u32, payload: Seq<u8>)
    ensures
        spec_encode_data(conn_id, payload).len() == 4 + payload.len(),
        spec_be32(spec_encode_data(conn_id, payload).subrange(0, 4)) == conn_id,
        spec_encode_data(conn_id, payload).subrange(
            4,
            spec_encode_data(conn_id, payload).len() as int,
        ) == payload,
{
    let enc = spec_encode_data(conn_id, payload);
    lemma_be32_round_trip(conn_id as int);
    assert(enc.subrange(0, 4) =~= spec_be32_bytes(conn_id as int));
    assert(enc.subrange(4, enc.len() as int) =~= payload);
}

} // verus!
