//! The 32-bit negotiation flag set exchanged by both peers.
//!
//! Every bit position has a known meaning (or a reserved name), so any
//! 32-bit value is a well-formed flag set.

use vstd::prelude::*;

verus! {

#[derive(Clone, Copy, Debug, PartialEq, Eq, Hash, Structural, Default)]
pub struct NtlmFlags {
    pub bits: u32,
}

impl NtlmFlags {
    pub const NEGOTIATE_UNICODE: u32 = 0x0000_0001;

    pub const NEGOTIATE_OEM: u32 = 0x0000_0002;

    pub const REQUEST_TARGET: u32 = 0x0000_0004;

    pub const NEGOTIATE_SIGN: u32 = 0x0000_0010;

    pub const NEGOTIATE_SEAL: u32 = 0x0000_0020;

    pub const NEGOTIATE_DATAGRAM: u32 = 0x0000_0040;

    pub const NEGOTIATE_LANMAN_KEY: u32 = 0x0000_0080;

    pub const NEGOTIATE_NETWARE: u32 = 0x0000_0100;

    pub const NEGOTIATE_NTLM: u32 = 0x0000_0200;

    pub const NEGOTIATE_ANONYMOUS: u32 = 0x0000_0800;

    pub const NEGOTIATE_DOMAIN_SUPPLIED: u32 = 0x0000_1000;

    pub const NEGOTIATE_WORKSTATION_SUPPLIED: u32 = 0x0000_2000;

    pub const NEGOTIATE_LOCAL_CALL: u32 = 0x0000_4000;

    pub const NEGOTIATE_ALWAYS_SIGN: u32 = 0x0000_8000;

    pub const TARGET_TYPE_DOMAIN: u32 = 0x0001_0000;

    pub const TARGET_TYPE_SERVER: u32 = 0x0002_0000;

    pub const TARGET_TYPE_SHARE: u32 = 0x0004_0000;

    pub const NEGOTIATE_NTLM2_KEY: u32 = 0x0008_0000;

    pub const REQUEST_INIT_RESPONSE: u32 = 0x0010_0000;

    pub const REQUEST_ACCEPT_RESPONSE: u32 = 0x0020_0000;

    pub const REQUEST_NON_NT_SESSION_KEY: u32 = 0x0040_0000;

    pub const NEGOTIATE_TARGET_INFO: u32 = 0x0080_0000;

    pub const NEGOTIATE_VERSION: u32 = 0x0200_0000;

    pub const NEGOTIATE_128BIT: u32 = 0x2000_0000;

    pub const NEGOTIATE_KEY_EXCHANGE: u32 = 0x4000_0000;

    pub const NEGOTIATE_56BIT: u32 = 0x8000_0000;

    /// Whether every bit of `mask` is set.
    pub open spec fn spec_contains(self, mask: u32) -> bool {
        self.bits & mask == mask
    }

    pub open spec fn has_unicode(self) -> bool {
        self.bits & 0x0000_0001u32 != 0
    }

    pub open spec fn has_oem(self) -> bool {
        self.bits & 0x0000_0002u32 != 0
    }

    pub open spec fn has_version(self) -> bool {
        self.bits & 0x0200_0000u32 != 0
    }

    pub fn empty() -> (r: Self)
        ensures
            r.bits == 0,
    {
        NtlmFlags { bits: 0 }
    }

    pub fn from_bits(bits: u32) -> (r: Self)
        ensures
            r.bits == bits,
    {
        NtlmFlags { bits }
    }

    pub fn bits(self) -> (r: u32)
        ensures
            r == self.bits,
    {
        self.bits
    }

    /// The union of two flag sets.
    pub fn with(self, mask: u32) -> (r: Self)
        ensures
            r.bits == self.bits | mask,
    {
        NtlmFlags { bits: self.bits | mask }
    }

    pub fn contains(self, mask: u32) -> (r: bool)
        ensures
            r == self.spec_contains(mask),
    {
        self.bits & mask == mask
    }

    pub fn is_unicode(self) -> (r: bool)
        ensures
            r == self.has_unicode(),
    {
        self.bits & 0x0000_0001u32 != 0
    }

    pub fn is_oem(self) -> (r: bool)
        ensures
            r == self.has_oem(),
    {
        self.bits & 0x0000_0002u32 != 0
    }

    pub fn is_version(self) -> (r: bool)
        ensures
            r == self.has_version(),
    {
        self.bits & 0x0200_0000u32 != 0
    }
}

} // verus!
