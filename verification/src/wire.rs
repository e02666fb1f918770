//! Big-endian integer fields as they appear on the wire.

use vstd::prelude::*;

verus! {

/// The value of a two-byte big-endian field.
pub open spec fn spec_be16(b: Seq<u8>) -> int
    recommends
        b.len() == 2,
{
    b[0] as int * 256 + b[1] as int
}

/// The value of a four-byte big-endian field.
pub open spec fn spec_be32(b: Seq<u8>) -> int
    recommends
        b.len() == 4,
{
    b[0] as int * 16777216 + b[1] as int * 65536 + b[2] as int * 256 + b[3] as int
}

/// The two bytes that carry `v` in big-endian order.
pub open spec fn spec_be16_bytes(v: int) -> Seq<u8>
    recommends
        0 <= v < 65536,
{
    seq![(v / 256) as u8, (v % 256) as u8]
}

/// The four bytes that carry `v` in big-endian order.
pub open spec fn spec_be32_bytes(v: int) -> Seq<u8>
    recommends
        0 <= v < 4294967296,
{
    seq![
        (v / 16777216) as u8,
        ((v / 65536) % 256) as u8,
        ((v / 256) % 256) as u8,
        (v % 256) as u8,
    ]
}

/// Reading back a four-byte field gives the value that was written.
pub proof fn lemma_be32_round_trip(v: int)
    requires
        0 <= v < 4294967296,
    ensures
        spec_be32_bytes(v).len() == 4,
        spec_be32(spec_be32_bytes(v)) == v,
{
}

/// Reading back a two-byte field gives the value that was written.
pub proof fn lemma_be16_round_trip(v: int)
    requires
        0 <= v < 65536,
    ensures
        spec_be16_bytes(v).len() == 2,
        spec_be16(spec_be16_bytes(v)) == v,
{
}

/// Appends `v` to `out` as four big-endian bytes.
pub fn push_be32(out: &mut Vec<u8>, v: u32)
    ensures
        final(out)@ == old(out)@ + spec_be32_bytes(v as int),
{
    let b0: u8 = (v / 16777216) as u8;
    let b1: u8 = ((v / 65536) % 256) as u8;
    let b2: u8 = ((v / 256) % 256) as u8;
    let b3: u8 = (v % 256) as u8;
    out.push(b0);
    out.push(b1);
    out.push(b2);
    out.push(b3);
    assert(out@ =~= old(out)@ + spec_be32_bytes(v as int));
}

/// Appends `v` to `out` as two big-endian bytes.
pub fn push_be16(out: &mut Vec<u8>, v: u16)
    ensures
        final(out)@ == old(out)@ + spec_be16_bytes(v as int),
{
    let b0: u8 = (v / 256) as u8;
    let b1: u8 = (v % 256) as u8;
    out.push(b0);
    out.push(b1);
    assert(out@ =~= old(out)@ + spec_be16_bytes(v as int));
}

/// Reads the four-byte big-endian field that starts at `at`.
pub fn read_be32(data: &[u8], at: usize) -> (v: u32)
    requires
        at + 4 <= data@.len(),
    ensures
        v as int == spec_be32(data@.subrange(at as int, at + 4)),
{
    let b0: u32 = data[at] as u32;
    let b1: u32 = data[at + 1] as u32;
    let b2: u32 = data[at + 2] as u32;
    let b3: u32 = data[at + 3] as u32;
    b0 * 16777216 + b1 * 65536 + b2 * 256 + b3
}

/// Reads the two-byte big-endian field that starts at `at`.
pub fn read_be16(data: &[u8], at: usize) -> (v: u16)
    requires
        at + 2 <= data@.len(),
    ensures
        v as int == spec_be16(data@.subrange(at as int, at + 2)),
{
    let b0: u16 = data[at] as u16;
    let b1: u16 = data[at + 1] as u16;
    b0 * 256 + b1
}

} // verus!
