//! Little-endian encoding of the integer widths the format uses.
//!
//! Every multi-byte field of the format is little-endian. The spec functions
//! give both directions — the bytes of a value and the value of a byte run —
//! and the lemmas show they are inverse, so field-level round trips reduce to
//! sequence algebra.

use vstd::prelude::*;

verus! {

/// The value of a two-byte little-endian run.
pub open spec fn spec_u16_le(b: Seq<u8>) -> u16
    recommends
        b.len() == 2,
{
    (b[0] + b[1] * 0x100) as u16
}

/// The value of a four-byte little-endian run.
pub open spec fn spec_u32_le(b: Seq<u8>) -> u32
    recommends
        b.len() == 4,
{
    (b[0] + b[1] * 0x100 + b[2] * 0x10000 + b[3] * 0x1000000) as u32
}

/// The value of an eight-byte little-endian run.
pub open spec fn spec_u64_le(b: Seq<u8>) -> u64
    recommends
        b.len() == 8,
{
    (b[0] + b[1] * 0x100 + b[2] * 0x10000 + b[3] * 0x1000000 + b[4] * 0x100000000
        + b[5] * 0x10000000000 + b[6] * 0x1000000000000 + b[7] * 0x100000000000000) as u64
}

/// The value of a four-byte little-endian run read as a signed integer
/// (two's complement).
pub open spec fn spec_i32_le(b: Seq<u8>) -> i32
    recommends
        b.len() == 4,
{
    spec_u32_le(b) as i32
}

/// The two little-endian bytes of a value.
pub open spec fn spec_u16_bytes(v: u16) -> Seq<u8> {
    seq![(v & 0xff) as u8, ((v >> 8) & 0xff) as u8]
}

/// The four little-endian bytes of a value.
pub open spec fn spec_u32_bytes(v: u32) -> Seq<u8> {
    seq![
        (v & 0xff) as u8,
        ((v >> 8) & 0xff) as u8,
        ((v >> 16) & 0xff) as u8,
        ((v >> 24) & 0xff) as u8,
    ]
}

/// The eight little-endian bytes of a value.
pub open spec fn spec_u64_bytes(v: u64) -> Seq<u8> {
    seq![
        (v & 0xff) as u8,
        ((v >> 8) & 0xff) as u8,
        ((v >> 16) & 0xff) as u8,
        ((v >> 24) & 0xff) as u8,
        ((v >> 32) & 0xff) as u8,
        ((v >> 40) & 0xff) as u8,
        ((v >> 48) & 0xff) as u8,
        ((v >> 56) & 0xff) as u8,
    ]
}

/// The four little-endian bytes of a signed value (two's complement).
pub open spec fn spec_i32_bytes(v: i32) -> Seq<u8> {
    spec_u32_bytes(v as u32)
}

/// Reading back the two bytes of a value gives the value.
pub proof fn lemma_u16_round_trip(v: u16)
    ensures
        spec_u16_le(spec_u16_bytes(v)) == v,
{
    let b0 = (v & 0xff) as u8;
    let b1 = ((v >> 8) & 0xff) as u8;
    assert(spec_u16_bytes(v)[0] == b0);
    assert(spec_u16_bytes(v)[1] == b1);
    assert((b0 + b1 * 0x100) as u16 == v) by (bit_vector)
        requires
            b0 == (v & 0xff) as u8 && b1 == ((v >> 8) & 0xff) as u8,
    ;
}

/// Reading back the four bytes of a value gives the value.
pub proof fn lemma_u32_round_trip(v: u32)
    ensures
        spec_u32_le(spec_u32_bytes(v)) == v,
{
    let b0 = (v & 0xff) as u8;
    let b1 = ((v >> 8) & 0xff) as u8;
    let b2 = ((v >> 16) & 0xff) as u8;
    let b3 = ((v >> 24) & 0xff) as u8;
    assert((b0 + b1 * 0x100 + b2 * 0x10000 + b3 * 0x1000000) as u32 == v) by (bit_vector)
        requires
            b0 == (v & 0xff) as u8 && b1 == ((v >> 8) & 0xff) as u8
                && b2 == ((v >> 16) & 0xff) as u8 && b3 == ((v >> 24) & 0xff) as u8,
    ;
}

/// Reading back the eight bytes of a value gives the value.
pub proof fn lemma_u64_round_trip(v: u64)
    ensures
        spec_u64_le(spec_u64_bytes(v)) == v,
{
    let b0 = (v & 0xff) as u8;
    let b1 = ((v >> 8) & 0xff) as u8;
    let b2 = ((v >> 16) & 0xff) as u8;
    let b3 = ((v >> 24) & 0xff) as u8;
    let b4 = ((v >> 32) & 0xff) as u8;
    let b5 = ((v >> 40) & 0xff) as u8;
    let b6 = ((v >> 48) & 0xff) as u8;
    let b7 = ((v >> 56) & 0xff) as u8;
    assert((b0 + b1 * 0x100 + b2 * 0x10000 + b3 * 0x1000000 + b4 * 0x100000000
        + b5 * 0x10000000000 + b6 * 0x1000000000000 + b7 * 0x100000000000000) as u64 == v)
        by (bit_vector)
        requires
            b0 == (v & 0xff) as u8 && b1 == ((v >> 8) & 0xff) as u8
                && b2 == ((v >> 16) & 0xff) as u8 && b3 == ((v >> 24) & 0xff) as u8
                && b4 == ((v >> 32) & 0xff) as u8 && b5 == ((v >> 40) & 0xff) as u8
                && b6 == ((v >> 48) & 0xff) as u8 && b7 == ((v >> 56) & 0xff) as u8,
    ;
}

/// Reading back the four bytes of a signed value gives the value.
pub proof fn lemma_i32_round_trip(v: i32)
    ensures
        spec_i32_le(spec_i32_bytes(v)) == v,
{
    lemma_u32_round_trip(v as u32);
    assert((v as u32) as i32 == v) by (bit_vector);
}

/// Appends the two little-endian bytes of a value.
pub fn push_u16_le(out: &mut Vec<u8>, v: u16)
    ensures
        final(out)@ == old(out)@ + spec_u16_bytes(v),
{
    out.push((v & 0xff) as u8);
    out.push(((v >> 8) & 0xff) as u8);
    proof {
        assert(out@ =~= old(out)@ + spec_u16_bytes(v));
    }
}

/// Appends the four little-endian bytes of a value.
pub fn push_u32_le(out: &mut Vec<u8>, v: u32)
    ensures
        final(out)@ == old(out)@ + spec_u32_bytes(v),
{
    out.push((v & 0xff) as u8);
    out.push(((v >> 8) & 0xff) as u8);
    out.push(((v >> 16) & 0xff) as u8);
    out.push(((v >> 24) & 0xff) as u8);
    proof {
        assert(out@ =~= old(out)@ + spec_u32_bytes(v));
    }
}

/// Appends the eight little-endian bytes of a value.
pub fn push_u64_le(out: &mut Vec<u8>, v: u64)
    ensures
        final(out)@ == old(out)@ + spec_u64_bytes(v),
{
    out.push((v & 0xff) as u8);
    out.push(((v >> 8) & 0xff) as u8);
    out.push(((v >> 16) & 0xff) as u8);
    out.push(((v >> 24) & 0xff) as u8);
    out.push(((v >> 32) & 0xff) as u8);
    out.push(((v >> 40) & 0xff) as u8);
    out.push(((v >> 48) & 0xff) as u8);
    out.push(((v >> 56) & 0xff) as u8);
    proof {
        assert(out@ =~= old(out)@ + spec_u64_bytes(v));
    }
}

/// Appends the four little-endian bytes of a signed value.
pub fn push_i32_le(out: &mut Vec<u8>, v: i32)
    ensures
        final(out)@ == old(out)@ + spec_i32_bytes(v),
{
    push_u32_le(out, v as u32);
}

/// Reads a two-byte little-endian value at `i`.
pub fn read_u16_le(b: &Vec<u8>, i: usize) -> (r: u16)
    requires
        i + 2 <= b@.len(),
    ensures
        r == spec_u16_le(b@.subrange(i as int, i + 2)),
{
    let n = b.len();
    assert(i + 2 <= n);
    let b0 = b[i];
    let b1 = b[i + 1];
    let r = b0 as u16 | (b1 as u16) << 8;
    proof {
        let s = b@.subrange(i as int, i + 2);
        assert(s[0] == b0 && s[1] == b1);
        assert(b0 as u16 | (b1 as u16) << 8 == (b0 + b1 * 0x100) as u16) by (bit_vector);
    }
    r
}

/// Reads a four-byte little-endian value at `i`.
pub fn read_u32_le(b: &Vec<u8>, i: usize) -> (r: u32)
    requires
        i + 4 <= b@.len(),
    ensures
        r == spec_u32_le(b@.subrange(i as int, i + 4)),
{
    let n = b.len();
    assert(i + 4 <= n);
    let b0 = b[i];
    let b1 = b[i + 1];
    let b2 = b[i + 2];
    let b3 = b[i + 3];
    let r = b0 as u32 | (b1 as u32) << 8 | (b2 as u32) << 16 | (b3 as u32) << 24;
    proof {
        let s = b@.subrange(i as int, i + 4);
        assert(s[0] == b0 && s[1] == b1 && s[2] == b2 && s[3] == b3);
        assert(b0 as u32 | (b1 as u32) << 8 | (b2 as u32) << 16 | (b3 as u32) << 24
            == (b0 + b1 * 0x100 + b2 * 0x10000 + b3 * 0x1000000) as u32) by (bit_vector);
    }
    r
}

/// Reads an eight-byte little-endian value at `i`.
pub fn read_u64_le(b: &Vec<u8>, i: usize) -> (r: u64)
    requires
        i + 8 <= b@.len(),
    ensures
        r == spec_u64_le(b@.subrange(i as int, i + 8)),
{
    let n = b.len();
    assert(i + 8 <= n);
    let b0 = b[i];
    let b1 = b[i + 1];
    let b2 = b[i + 2];
    let b3 = b[i + 3];
    let b4 = b[i + 4];
    let b5 = b[i + 5];
    let b6 = b[i + 6];
    let b7 = b[i + 7];
    let r = b0 as u64 | (b1 as u64) << 8 | (b2 as u64) << 16 | (b3 as u64) << 24
        | (b4 as u64) << 32 | (b5 as u64) << 40 | (b6 as u64) << 48 | (b7 as u64) << 56;
    proof {
        let s = b@.subrange(i as int, i + 8);
        assert(s[0] == b0 && s[1] == b1 && s[2] == b2 && s[3] == b3 && s[4] == b4 && s[5] == b5
            && s[6] == b6 && s[7] == b7);
        assert(b0 as u64 | (b1 as u64) << 8 | (b2 as u64) << 16 | (b3 as u64) << 24
            | (b4 as u64) << 32 | (b5 as u64) << 40 | (b6 as u64) << 48 | (b7 as u64) << 56
            == (b0 + b1 * 0x100 + b2 * 0x10000 + b3 * 0x1000000 + b4 * 0x100000000
                + b5 * 0x10000000000 + b6 * 0x1000000000000 + b7 * 0x100000000000000) as u64)
            by (bit_vector);
    }
    r
}

/// Reads a four-byte little-endian signed value at `i`.
pub fn read_i32_le(b: &Vec<u8>, i: usize) -> (r: i32)
    requires
        i + 4 <= b@.len(),
    ensures
        r == spec_i32_le(b@.subrange(i as int, i + 4)),
{
    read_u32_le(b, i) as i32
}

} // verus!
