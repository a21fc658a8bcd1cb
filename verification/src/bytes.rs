//! Little-endian byte-order helpers shared by every codec in the crate.
//!
//! All wire integers in the protocol are little-endian.  The spec functions
//! below define the byte layout mathematically; the exec functions implement
//! it and are proved to match.

use vstd::prelude::*;

verus! {

/// The two little-endian bytes of a 16-bit value.
pub open spec fn spec_le16(v: u16) -> Seq<u8> {
    seq![(v % 256) as u8, ((v / 256) % 256) as u8]
}

/// The four little-endian bytes of a 32-bit value.
pub open spec fn spec_le32(v: u32) -> Seq<u8> {
    seq![
        (v % 256) as u8,
        ((v / 256) % 256) as u8,
        ((v / 256 / 256) % 256) as u8,
        ((v / 256 / 256 / 256) % 256) as u8,
    ]
}

/// The eight little-endian bytes of a 64-bit value.
pub open spec fn spec_le64(v: u64) -> Seq<u8> {
    seq![
        (v % 256) as u8,
        ((v / 256) % 256) as u8,
        ((v / 256 / 256) % 256) as u8,
        ((v / 256 / 256 / 256) % 256) as u8,
        ((v / 256 / 256 / 256 / 256) % 256) as u8,
        ((v / 256 / 256 / 256 / 256 / 256) % 256) as u8,
        ((v / 256 / 256 / 256 / 256 / 256 / 256) % 256) as u8,
        ((v / 256 / 256 / 256 / 256 / 256 / 256 / 256) % 256) as u8,
    ]
}

/// The 16-bit value read from two little-endian bytes.
pub open spec fn spec_u16_of(b0: u8, b1: u8) -> u16 {
    (b0 + 256 * b1) as u16
}

/// The 32-bit value read from four little-endian bytes.
pub open spec fn spec_u32_of(b0: u8, b1: u8, b2: u8, b3: u8) -> u32 {
    (b0 + 256 * (b1 + 256 * (b2 + 256 * (b3 as int)))) as u32
}

/// The 16-bit value at position `i` of a byte sequence.
pub open spec fn spec_u16_at(b: Seq<u8>, i: int) -> u16 {
    spec_u16_of(b[i], b[i + 1])
}

/// The 32-bit value at position `i` of a byte sequence.
pub open spec fn spec_u32_at(b: Seq<u8>, i: int) -> u32 {
    spec_u32_of(b[i], b[i + 1], b[i + 2], b[i + 3])
}

/// The unsigned 64-bit reinterpretation of a signed 64-bit value
/// (two's complement, as `i64::to_le_bytes` serialises it).
pub open spec fn spec_i64_as_u64(v: i64) -> u64 {
    if v >= 0 {
        v as u64
    } else {
        (v + 0x1_0000_0000_0000_0000) as u64
    }
}

pub proof fn lemma_le16_roundtrip(v: u16)
    ensures
        spec_u16_of(spec_le16(v)[0], spec_le16(v)[1]) == v,
{
}

pub proof fn lemma_u16_le_bytes_roundtrip(b0: u8, b1: u8)
    ensures
        spec_le16(spec_u16_of(b0, b1)) =~= seq![b0, b1],
{
    let v: int = b0 + 256 * b1;
    assert(v % 256 == b0 && v / 256 == b1) by (nonlinear_arith)
        requires
            0 <= b0 < 256 && 0 <= b1 < 256 && v == b0 + 256 * b1,
    ;
}

pub proof fn lemma_le32_roundtrip(v: u32)
    ensures
        spec_u32_of(spec_le32(v)[0], spec_le32(v)[1], spec_le32(v)[2], spec_le32(v)[3]) == v,
{
}

pub fn push_u16_le(out: &mut Vec<u8>, v: u16)
    ensures
        final(out)@ == old(out)@ + spec_le16(v),
{
    out.push((v % 256) as u8);
    out.push(((v / 256) % 256) as u8);
    assert(out@ =~= old(out)@ + spec_le16(v));
}

pub fn push_u32_le(out: &mut Vec<u8>, v: u32)
    ensures
        final(out)@ == old(out)@ + spec_le32(v),
{
    out.push((v % 256) as u8);
    out.push(((v / 256) % 256) as u8);
    out.push(((v / 256 / 256) % 256) as u8);
    out.push(((v / 256 / 256 / 256) % 256) as u8);
    assert(out@ =~= old(out)@ + spec_le32(v));
}

pub fn push_u64_le(out: &mut Vec<u8>, v: u64)
    ensures
        final(out)@ == old(out)@ + spec_le64(v),
{
    out.push((v % 256) as u8);
    out.push(((v / 256) % 256) as u8);
    out.push(((v / 256 / 256) % 256) as u8);
    out.push(((v / 256 / 256 / 256) % 256) as u8);
    out.push(((v / 256 / 256 / 256 / 256) % 256) as u8);
    out.push(((v / 256 / 256 / 256 / 256 / 256) % 256) as u8);
    out.push(((v / 256 / 256 / 256 / 256 / 256 / 256) % 256) as u8);
    out.push(((v / 256 / 256 / 256 / 256 / 256 / 256 / 256) % 256) as u8);
    assert(out@ =~= old(out)@ + spec_le64(v));
}

/// Reinterprets a signed 64-bit value as unsigned without changing its bytes.
pub fn i64_as_u64(v: i64) -> (r: u64)
    ensures
        r == spec_i64_as_u64(v),
{
    if v >= 0 {
        v as u64
    } else {
        let neg: i64 = -(v + 1);
        u64::MAX - (neg as u64)
    }
}

pub fn read_u16_le(b: &[u8], i: usize) -> (r: u16)
    requires
        i + 2 <= b@.len(),
    ensures
        r == spec_u16_at(b@, i as int),
{
    b[i] as u16 + 256 * (b[i + 1] as u16)
}

pub fn read_u32_le(b: &[u8], i: usize) -> (r: u32)
    requires
        i + 4 <= b@.len(),
    ensures
        r == spec_u32_at(b@, i as int),
{
    b[i] as u32 + 256 * (b[i + 1] as u32 + 256 * (b[i + 2] as u32 + 256 * (b[i + 3] as u32)))
}

/// Copies the bytes of `b` from `start` (inclusive) to `end` (exclusive).
pub fn copy_range(b: &[u8], start: usize, end: usize) -> (r: Vec<u8>)
    requires
        start <= end <= b@.len(),
    ensures
        r@ == b@.subrange(start as int, end as int),
{
    let mut r: Vec<u8> = Vec::new();
    let mut i: usize = start;
    while i < end
        invariant
            start <= i <= end <= b@.len(),
            r@ == b@.subrange(start as int, i as int),
        decreases end - i,
    {
        r.push(b[i]);
        i = i + 1;
        assert(r@ =~= b@.subrange(start as int, i as int));
    }
    r
}

/// Appends every byte of `data` to `out`.
pub fn append_bytes(out: &mut Vec<u8>, data: &[u8])
    ensures
        final(out)@ == old(out)@ + data@,
{
    let mut i: usize = 0;
    while i < data.len()
        invariant
            i <= data@.len(),
            out@ == old(out)@ + data@.subrange(0, i as int),
        decreases data@.len() - i,
    {
        out.push(data[i]);
        i = i + 1;
        assert(out@ =~= old(out)@ + data@.subrange(0, i as int));
    }
    assert(out@ =~= old(out)@ + data@);
}

} // verus!
