//! The (length, capacity, offset) triple that addresses every
//! variable-length field of a message, and the always-bounds-checked
//! slicing it is resolved with.
//!
//! The offset comes from the remote peer, so resolution must tolerate any
//! value; the checks here are the load-bearing safety property of the
//! whole codec.

use vstd::prelude::*;
use crate::bytes::{
    copy_range, push_u16_le, push_u32_le, read_u16_le, read_u32_le, spec_le16, spec_le32,
    spec_u16_at, spec_u32_at,
};
use crate::error::{NtlmParsingError, ParseErrModel};

verus! {

#[derive(Clone, Copy, Debug, PartialEq, Eq, Hash, Structural)]
pub struct NtlmSecurityBuffer {
    pub length: u16,
    pub capacity: u16,
    pub offset: u32,
}

/// The eight wire bytes of a security buffer.
pub open spec fn spec_secbuf_bytes(sb: NtlmSecurityBuffer) -> Seq<u8> {
    spec_le16(sb.length) + spec_le16(sb.capacity) + spec_le32(sb.offset)
}

/// The security buffer encoded at position `i` of a byte sequence.
pub open spec fn spec_secbuf_at(b: Seq<u8>, i: int) -> NtlmSecurityBuffer {
    NtlmSecurityBuffer {
        length: spec_u16_at(b, i),
        capacity: spec_u16_at(b, i + 2),
        offset: spec_u32_at(b, i + 4),
    }
}

/// The slice of `b` that `sb` addresses, after shifting the declared
/// offset by `adjust`; or the reason it lies out of range.
///
/// A zero declared length short-circuits to the empty slice without
/// looking at the offset.
pub open spec fn spec_resolve(sb: NtlmSecurityBuffer, b: Seq<u8>, adjust: int) -> Result<
    Seq<u8>,
    ParseErrModel,
> {
    if sb.length == 0 {
        Ok(Seq::empty())
    } else {
        let start = sb.offset + adjust;
        let end = sb.offset + sb.length + adjust;
        if start < 0 {
            Err(ParseErrModel::StartOutOfRange { start, length: b.len() as int })
        } else if end < 0 {
            Err(ParseErrModel::EndOutOfRange { end, length: b.len() as int })
        } else if start >= b.len() {
            Err(ParseErrModel::StartOutOfRange { start, length: b.len() as int })
        } else if end > b.len() {
            Err(ParseErrModel::EndOutOfRange { end, length: b.len() as int })
        } else {
            Ok(b.subrange(start, end))
        }
    }
}

impl NtlmSecurityBuffer {
    /// A buffer descriptor for `slice` placed at offset zero.
    pub fn for_slice(slice: &[u8]) -> (r: Self)
        requires
            slice@.len() <= 0xffff,
        ensures
            r.length == slice@.len(),
            r.capacity == slice@.len(),
            r.offset == 0,
    {
        let len_u16: u16 = slice.len() as u16;
        Self { length: len_u16, capacity: len_u16, offset: 0 }
    }

    pub fn to_bytes(&self) -> (r: Vec<u8>)
        ensures
            r@ == spec_secbuf_bytes(*self),
    {
        let mut ret: Vec<u8> = Vec::new();
        push_u16_le(&mut ret, self.length);
        push_u16_le(&mut ret, self.capacity);
        push_u32_le(&mut ret, self.offset);
        assert(ret@ =~= spec_secbuf_bytes(*self));
        ret
    }

    pub fn from_bytes(value: &[u8]) -> (r: Result<Self, NtlmParsingError>)
        ensures
            value@.len() == 8 ==> r == Ok::<Self, NtlmParsingError>(spec_secbuf_at(value@, 0)),
            value@.len() != 8 ==> (r matches Err(e) && e@ == (ParseErrModel::ItemLengthMismatch {
                expected: 8,
                obtained: value@.len() as int,
            })),
    {
        if value.len() != 8 {
            return Err(NtlmParsingError::ItemLengthMismatch { expected: 8, obtained: value.len() });
        }
        let length = read_u16_le(value, 0);
        let capacity = read_u16_le(value, 2);
        let offset = read_u32_le(value, 4);
        Ok(Self { length, capacity, offset })
    }

    /// Reads the descriptor encoded at position `i` of `b`.
    pub fn read_at(b: &[u8], i: usize) -> (r: Self)
        requires
            i + 8 <= b@.len(),
        ensures
            r == spec_secbuf_at(b@, i as int),
    {
        let blen: usize = b.len();
        Self {
            length: read_u16_le(b, i),
            capacity: read_u16_le(b, i + 2),
            offset: read_u32_le(b, i + 4),
        }
    }

    /// Resolves this descriptor against `slice`, shifting the declared
    /// offset by `adjust` bytes.
    pub fn apply_to_slice(&self, slice: &[u8], adjust: i32) -> (r: Result<
        Vec<u8>,
        NtlmParsingError,
    >)
        ensures
            match r {
                Ok(v) => spec_resolve(*self, slice@, adjust as int) == Ok::<Seq<u8>, ParseErrModel>(
                    v@,
                ),
                Err(e) => spec_resolve(*self, slice@, adjust as int) == Err::<
                    Seq<u8>,
                    ParseErrModel,
                >(e@),
            },
    {
        if self.length == 0 {
            return Ok(Vec::new());
        }
        let start: i64 = self.offset as i64 + adjust as i64;
        let end: i64 = self.offset as i64 + self.length as i64 + adjust as i64;
        if start < 0 {
            return Err(NtlmParsingError::StartOutOfRange { start, length: slice.len() });
        }
        if end < 0 {
            return Err(NtlmParsingError::EndOutOfRange { end, length: slice.len() });
        }
        if start as u64 >= slice.len() as u64 {
            return Err(NtlmParsingError::StartOutOfRange { start, length: slice.len() });
        }
        if end as u64 > slice.len() as u64 {
            return Err(NtlmParsingError::EndOutOfRange { end, length: slice.len() });
        }
        Ok(copy_range(slice, start as usize, end as usize))
    }
}

/// A descriptor that addresses exactly the bytes `p` found at `pos`
/// resolves to `p`.
pub proof fn lemma_resolve_exact(
    sb: NtlmSecurityBuffer,
    b: Seq<u8>,
    adjust: int,
    pos: int,
    p: Seq<u8>,
)
    requires
        sb.length as int == p.len(),
        p.len() <= 0xffff,
        sb.offset as int + adjust == pos,
        0 <= pos,
        pos + p.len() <= b.len(),
        b.subrange(pos, pos + p.len() as int) == p,
    ensures
        spec_resolve(sb, b, adjust) == Ok::<Seq<u8>, ParseErrModel>(p),
{
    if sb.length == 0 {
        assert(p =~= Seq::<u8>::empty());
    }
}

/// Bounds law: a descriptor whose shifted end lies past the backing
/// buffer never resolves, and a zero-length descriptor always resolves
/// to the empty slice, whatever its offset.
pub proof fn lemma_secbuf_bounds(sb: NtlmSecurityBuffer, b: Seq<u8>, adjust: int)
    ensures
        sb.length > 0 && sb.offset + sb.length + adjust > b.len() ==> spec_resolve(
            sb,
            b,
            adjust,
        ) is Err,
        sb.length == 0 ==> spec_resolve(sb, b, adjust) == Ok::<Seq<u8>, ParseErrModel>(
            Seq::<u8>::empty(),
        ),
{
}

} // verus!
