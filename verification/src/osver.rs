//! The optional 8-byte OS-version sub-record, present in a message only
//! when the version-negotiation flag is set; absent, it is read as an
//! all-zero default.

use vstd::prelude::*;
use crate::bytes::{push_u16_le, read_u16_le, spec_le16, spec_u16_at, copy_range, append_bytes};
use crate::error::{NtlmParsingError, ParseErrModel};

verus! {

#[derive(Clone, Copy, Debug, PartialEq, Eq, Hash)]
pub struct OsVersion {
    pub major_version: u8,
    pub minor_version: u8,
    pub build_number: u16,
    pub reserved: [u8; 3],
    pub ntlm_revision: u8,
}

/// The model of an OS-version record.
pub struct OsVersionModel {
    pub major_version: u8,
    pub minor_version: u8,
    pub build_number: u16,
    pub reserved: Seq<u8>,
    pub ntlm_revision: u8,
}

impl View for OsVersion {
    type V = OsVersionModel;

    open spec fn view(&self) -> OsVersionModel {
        OsVersionModel {
            major_version: self.major_version,
            minor_version: self.minor_version,
            build_number: self.build_number,
            reserved: self.reserved@,
            ntlm_revision: self.ntlm_revision,
        }
    }
}

/// The all-zero record an absent sub-record stands for.
pub open spec fn spec_os_version_default() -> OsVersionModel {
    OsVersionModel {
        major_version: 0,
        minor_version: 0,
        build_number: 0,
        reserved: seq![0u8, 0u8, 0u8],
        ntlm_revision: 0,
    }
}

/// The eight wire bytes of an OS-version record.
pub open spec fn spec_os_version_bytes(v: OsVersionModel) -> Seq<u8>
    recommends
        v.reserved.len() == 3,
{
    seq![v.major_version, v.minor_version] + spec_le16(v.build_number) + v.reserved + seq![
        v.ntlm_revision,
    ]
}

/// The OS-version record encoded at position `i` of a byte sequence.
pub open spec fn spec_os_version_at(b: Seq<u8>, i: int) -> OsVersionModel {
    OsVersionModel {
        major_version: b[i],
        minor_version: b[i + 1],
        build_number: spec_u16_at(b, i + 2),
        reserved: b.subrange(i + 4, i + 7),
        ntlm_revision: b[i + 7],
    }
}

impl Default for OsVersion {
    fn default() -> (r: Self)
        ensures
            r@ == spec_os_version_default(),
    {
        let r = Self {
            major_version: 0,
            minor_version: 0,
            build_number: 0,
            reserved: [0, 0, 0],
            ntlm_revision: 0,
        };
        proof {
            assert(r@.reserved =~= spec_os_version_default().reserved);
        }
        r
    }
}

impl OsVersion {
    pub fn to_bytes(&self) -> (r: Vec<u8>)
        ensures
            r@ == spec_os_version_bytes(self@),
            r@.len() == 8,
    {
        let mut ret: Vec<u8> = Vec::new();
        ret.push(self.major_version);
        ret.push(self.minor_version);
        push_u16_le(&mut ret, self.build_number);
        append_bytes(&mut ret, self.reserved.as_slice());
        ret.push(self.ntlm_revision);
        assert(ret@ =~= spec_os_version_bytes(self@));
        ret
    }

    /// Reads the record encoded at position `i` of `b`.
    pub fn read_at(b: &[u8], i: usize) -> (r: Self)
        requires
            i + 8 <= b@.len(),
        ensures
            r@ == spec_os_version_at(b@, i as int),
    {
        let blen: usize = b.len();
        let r = Self {
            major_version: b[i],
            minor_version: b[i + 1],
            build_number: read_u16_le(b, i + 2),
            reserved: [b[i + 4], b[i + 5], b[i + 6]],
            ntlm_revision: b[i + 7],
        };
        proof {
            assert(r@.reserved =~= b@.subrange(i + 4, i + 7));
        }
        r
    }

    pub fn from_bytes(value: &[u8]) -> (r: Result<Self, NtlmParsingError>)
        ensures
            value@.len() == 8 ==> (r matches Ok(v) && v@ == spec_os_version_at(value@, 0)),
            value@.len() != 8 ==> (r matches Err(e) && e@ == (ParseErrModel::ItemLengthMismatch {
                expected: 8,
                obtained: value@.len() as int,
            })),
    {
        if value.len() != 8 {
            return Err(NtlmParsingError::ItemLengthMismatch { expected: 8, obtained: value.len() });
        }
        let major_version = value[0];
        let minor_version = value[1];
        let build_number = read_u16_le(value, 2);
        let reserved: [u8; 3] = [value[4], value[5], value[6]];
        let ntlm_revision = value[7];
        let r = Self { major_version, minor_version, build_number, reserved, ntlm_revision };
        proof {
            assert(r@.reserved =~= value@.subrange(4, 7));
        }
        Ok(r)
    }
}

} // verus!
