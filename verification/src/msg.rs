//! The three top-level message kinds and their wire codec.
//!
//! Every message starts with the fixed 8-byte signature and a 4-byte
//! little-endian type number.  Fixed fields follow in a per-kind order;
//! variable-length fields are appended as a trailing data block and
//! addressed by security buffers whose offsets count from the start of
//! the whole message.

use vstd::prelude::*;
use crate::bytes::{
    append_bytes, push_u32_le, spec_le16, spec_le32, spec_u16_at, spec_u32_at, copy_range,
    read_u32_le,
};
use crate::error::{NtlmParsingError, NtlmStoringError, ParseErrModel, StoreErrModel};
use crate::flags::NtlmFlags;
use crate::osver::{
    spec_os_version_at, spec_os_version_bytes, spec_os_version_default, OsVersion, OsVersionModel,
};
use crate::secbuf::{spec_secbuf_at, spec_secbuf_bytes, spec_resolve, NtlmSecurityBuffer};
use crate::targetinfo::{
    encode_target_info, parse_target_info, spec_entries_bytes, spec_entry_models,
    spec_parse_entries, NtlmTargetInfoEntry, TargetInfoEntryModel,
};
use crate::text::{
    ntlm_bytes_to_string, ntlm_string_to_bytes, spec_words_le, utf16_chars_of, utf16le_of,
};

verus! {

/// The fixed 8-byte signature that opens every message.
pub open spec fn spec_magic() -> Seq<u8> {
    seq![0x4eu8, 0x54u8, 0x4cu8, 0x4du8, 0x53u8, 0x53u8, 0x50u8, 0x00u8]
}

pub fn magic_bytes() -> (r: [u8; 8])
    ensures
        r@ == spec_magic(),
{
    let r: [u8; 8] = [0x4e, 0x54, 0x4c, 0x4d, 0x53, 0x53, 0x50, 0x00];
    proof {
        assert(r@ =~= spec_magic());
    }
    r
}

#[derive(Clone, Debug, PartialEq, Eq, Hash)]
pub struct NtlmNegotiateMessage {
    pub flags: NtlmFlags,
    pub supplied_domain: String,
    pub supplied_workstation: String,
    pub os_version: OsVersion,
}

/// The model of a Negotiate message.
pub struct NegotiateModel {
    pub flags: NtlmFlags,
    pub supplied_domain: Seq<char>,
    pub supplied_workstation: Seq<char>,
    pub os_version: OsVersionModel,
}

impl View for NtlmNegotiateMessage {
    type V = NegotiateModel;

    open spec fn view(&self) -> NegotiateModel {
        NegotiateModel {
            flags: self.flags,
            supplied_domain: self.supplied_domain@,
            supplied_workstation: self.supplied_workstation@,
            os_version: self.os_version@,
        }
    }
}

#[derive(Debug, PartialEq, Eq, Hash)]
pub struct NtlmChallengeMessage {
    pub target_name: String,
    pub flags: NtlmFlags,
    pub challenge: [u8; 8],
    pub context: (u32, u32),
    pub target_information: Vec<NtlmTargetInfoEntry>,
    pub os_version: OsVersion,
}

/// The model of a Challenge message.
pub struct ChallengeModel {
    pub target_name: Seq<char>,
    pub flags: NtlmFlags,
    pub challenge: Seq<u8>,
    pub context: (u32, u32),
    pub target_information: Seq<TargetInfoEntryModel>,
    pub os_version: OsVersionModel,
}

impl View for NtlmChallengeMessage {
    type V = ChallengeModel;

    open spec fn view(&self) -> ChallengeModel {
        ChallengeModel {
            target_name: self.target_name@,
            flags: self.flags,
            challenge: self.challenge@,
            context: self.context,
            target_information: spec_entry_models(self.target_information@),
            os_version: self.os_version@,
        }
    }
}

#[derive(Clone, Debug, PartialEq, Eq, Hash)]
pub struct NtlmAuthenticateMessage {
    pub lm_response: Vec<u8>,
    pub ntlm_response: Vec<u8>,
    pub domain_name: String,
    pub user_name: String,
    pub workstation_name: String,
    pub session_key: Vec<u8>,
    pub flags: NtlmFlags,
    pub os_version: OsVersion,
}

/// The model of an Authenticate message.
pub struct AuthenticateModel {
    pub lm_response: Seq<u8>,
    pub ntlm_response: Seq<u8>,
    pub domain_name: Seq<char>,
    pub user_name: Seq<char>,
    pub workstation_name: Seq<char>,
    pub session_key: Seq<u8>,
    pub flags: NtlmFlags,
    pub os_version: OsVersionModel,
}

impl View for NtlmAuthenticateMessage {
    type V = AuthenticateModel;

    open spec fn view(&self) -> AuthenticateModel {
        AuthenticateModel {
            lm_response: self.lm_response@,
            ntlm_response: self.ntlm_response@,
            domain_name: self.domain_name@,
            user_name: self.user_name@,
            workstation_name: self.workstation_name@,
            session_key: self.session_key@,
            flags: self.flags,
            os_version: self.os_version@,
        }
    }
}

#[derive(Debug, PartialEq, Eq, Hash)]
pub enum NtlmMessage {
    Negotiate(NtlmNegotiateMessage),
    Challenge(NtlmChallengeMessage),
    Authenticate(NtlmAuthenticateMessage),
    Other(u32, Vec<u8>),
}

/// The model of a message.
pub enum MessageModel {
    Negotiate(NegotiateModel),
    Challenge(ChallengeModel),
    Authenticate(AuthenticateModel),
    Other(u32, Seq<u8>),
}

impl View for NtlmMessage {
    type V = MessageModel;

    open spec fn view(&self) -> MessageModel {
        match self {
            NtlmMessage::Negotiate(m) => MessageModel::Negotiate(m@),
            NtlmMessage::Challenge(m) => MessageModel::Challenge(m@),
            NtlmMessage::Authenticate(m) => MessageModel::Authenticate(m@),
            NtlmMessage::Other(t, data) => MessageModel::Other(*t, data@),
        }
    }
}

/// The 4-byte type number of a message.
pub open spec fn spec_message_number(m: MessageModel) -> u32 {
    match m {
        MessageModel::Negotiate(_) => 0x0000_0001,
        MessageModel::Challenge(_) => 0x0000_0002,
        MessageModel::Authenticate(_) => 0x0000_0003,
        MessageModel::Other(t, _) => t,
    }
}

/// An 8-byte security buffer referencing `len` bytes at offset `off`,
/// with capacity equal to length.
pub open spec fn spec_secbuf_for(len: int, off: int) -> Seq<u8>
    recommends
        0 <= len <= 0xffff,
        0 <= off <= 0xffff_ffff,
{
    spec_secbuf_bytes(
        NtlmSecurityBuffer { length: len as u16, capacity: len as u16, offset: off as u32 },
    )
}

/// magic, type number, then the kind-specific body.
pub open spec fn spec_message_frame(t: u32, body: Seq<u8>) -> Seq<u8> {
    spec_magic() + spec_le32(t) + body
}

/// The body of a Negotiate message over already-encoded text fields.
/// The version sub-record is written only when its flag is set.
pub open spec fn spec_negotiate_body(
    flags: NtlmFlags,
    db: Seq<u8>,
    wb: Seq<u8>,
    ver: OsVersionModel,
) -> Seq<u8> {
    let base: int = if flags.has_version() {
        40
    } else {
        32
    };
    spec_le32(flags.bits) + spec_secbuf_for(db.len() as int, base) + spec_secbuf_for(
        wb.len() as int,
        base + db.len(),
    ) + (if flags.has_version() {
        spec_os_version_bytes(ver)
    } else {
        Seq::<u8>::empty()
    }) + db + wb
}

/// The body of a Challenge message over already-encoded fields.  The
/// version sub-record is always written (all zero when absent).
pub open spec fn spec_challenge_body(
    tnb: Seq<u8>,
    flags: NtlmFlags,
    challenge: Seq<u8>,
    context: (u32, u32),
    tib: Seq<u8>,
    ver: OsVersionModel,
) -> Seq<u8> {
    spec_secbuf_for(tnb.len() as int, 56) + spec_le32(flags.bits) + challenge + spec_le32(
        context.0,
    ) + spec_le32(context.1) + spec_secbuf_for(tib.len() as int, 56 + tnb.len() as int)
        + spec_os_version_bytes(ver) + tnb + tib
}

/// The body of an Authenticate message over already-encoded fields.
/// The version sub-record is always written (all zero when absent).
#[verifier::opaque]
pub open spec fn spec_authenticate_body(
    lm: Seq<u8>,
    nt: Seq<u8>,
    db: Seq<u8>,
    ub: Seq<u8>,
    wb: Seq<u8>,
    sk: Seq<u8>,
    flags: NtlmFlags,
    ver: OsVersionModel,
) -> Seq<u8> {
    spec_secbuf_for(lm.len() as int, 72) + spec_secbuf_for(nt.len() as int, 72 + lm.len() as int)
        + spec_secbuf_for(db.len() as int, 72 + lm.len() + nt.len() as int) + spec_secbuf_for(
        ub.len() as int,
        72 + lm.len() + nt.len() + db.len() as int,
    ) + spec_secbuf_for(wb.len() as int, 72 + lm.len() + nt.len() + db.len() + ub.len() as int)
        + spec_secbuf_for(
        sk.len() as int,
        72 + lm.len() + nt.len() + db.len() + ub.len() + wb.len() as int,
    ) + spec_le32(flags.bits) + spec_os_version_bytes(ver) + lm + nt + db + ub + wb + sk
}

/// Appends a security buffer for `len` bytes at offset `off`.
fn push_secbuf(out: &mut Vec<u8>, len: usize, off: u32)
    requires
        len <= 0xffff,
    ensures
        final(out)@ == old(out)@ + spec_secbuf_for(len as int, off as int),
{
    let sb = NtlmSecurityBuffer { length: len as u16, capacity: len as u16, offset: off };
    let b = sb.to_bytes();
    append_bytes(out, b.as_slice());
}

impl NtlmNegotiateMessage {
    pub fn to_bytes(&self) -> (r: Result<Vec<u8>, NtlmStoringError>)
        ensures
            !self.flags.has_unicode() && !self.flags.has_oem() ==> (r matches Err(e) && e@
                == StoreErrModel::NeitherUnicodeNorOem),
            self.flags.has_unicode() && utf16le_of(self.supplied_domain@).len() > 0xffff ==> (
            r matches Err(e) && e@ == (StoreErrModel::FieldTooLong {
                obtained: utf16le_of(self.supplied_domain@).len() as int,
            })),
            self.flags.has_unicode() && utf16le_of(self.supplied_domain@).len() <= 0xffff
                && utf16le_of(self.supplied_workstation@).len() > 0xffff ==> (r matches Err(e) && e@
                == (StoreErrModel::FieldTooLong {
                obtained: utf16le_of(self.supplied_workstation@).len() as int,
            })),
            self.flags.has_unicode() && utf16le_of(self.supplied_domain@).len() <= 0xffff
                && utf16le_of(self.supplied_workstation@).len() <= 0xffff ==> (r matches Ok(v) && v@
                == spec_negotiate_body(
                self.flags,
                utf16le_of(self.supplied_domain@),
                utf16le_of(self.supplied_workstation@),
                self.os_version@,
            )),
            !self.flags.has_unicode() && self.flags.has_oem() ==> (r matches Err(e) ==> (e@ is
            NonOemEncodable || e@ is FieldTooLong)),
            !self.flags.has_unicode() && self.flags.has_oem() ==> (r matches Ok(v)
                ==> exists|db: Seq<u8>, wb: Seq<u8>|
                db.len() <= 0xffff && wb.len() <= 0xffff && v@ == #[trigger] spec_negotiate_body(
                    self.flags,
                    db,
                    wb,
                    self.os_version@,
                )),
            self.flags.has_unicode() ==> (r matches Ok(v) ==> utf16le_of(
                self.supplied_domain@,
            ).len() % 2 == 0 && utf16_chars_of(spec_words_le(utf16le_of(self.supplied_domain@)))
                == Some(self.supplied_domain@) && utf16le_of(self.supplied_workstation@).len() % 2
                == 0 && utf16_chars_of(spec_words_le(utf16le_of(self.supplied_workstation@)))
                == Some(self.supplied_workstation@)),
    {
        let domain_b = match ntlm_string_to_bytes(self.flags, self.supplied_domain.as_str()) {
            Ok(v) => v,
            Err(e) => {
                return Err(e);
            },
        };
        if domain_b.len() > 0xffff {
            return Err(NtlmStoringError::FieldTooLong { obtained: domain_b.len() });
        }
        let ws_b = match ntlm_string_to_bytes(self.flags, self.supplied_workstation.as_str()) {
            Ok(v) => v,
            Err(e) => {
                return Err(e);
            },
        };
        if ws_b.len() > 0xffff {
            return Err(NtlmStoringError::FieldTooLong { obtained: ws_b.len() });
        }
        let base: u32 = if self.flags.is_version() {
            40
        } else {
            32
        };
        let mut ret: Vec<u8> = Vec::new();
        push_u32_le(&mut ret, self.flags.bits());
        push_secbuf(&mut ret, domain_b.len(), base);
        push_secbuf(&mut ret, ws_b.len(), base + domain_b.len() as u32);
        if self.flags.is_version() {
            let vb = self.os_version.to_bytes();
            append_bytes(&mut ret, vb.as_slice());
        }
        append_bytes(&mut ret, domain_b.as_slice());
        append_bytes(&mut ret, ws_b.as_slice());
        proof {
            assert(ret@ =~= spec_negotiate_body(self.flags, domain_b@, ws_b@, self.os_version@));
        }
        Ok(ret)
    }
}

impl NtlmChallengeMessage {
    pub fn to_bytes(&self) -> (r: Result<Vec<u8>, NtlmStoringError>)
        requires
            forall|i: int|
                0 <= i < self.target_information@.len()
                    ==> #[trigger] self.target_information@[i].data@.len() <= 0xffff,
            spec_entries_bytes(spec_entry_models(self.target_information@)).len() <= 0xffff,
        ensures
            !self.flags.has_unicode() && !self.flags.has_oem() ==> (r matches Err(e) && e@
                == StoreErrModel::NeitherUnicodeNorOem),
            self.flags.has_unicode() && utf16le_of(self.target_name@).len() > 0xffff ==> (
            r matches Err(e) && e@ == (StoreErrModel::FieldTooLong {
                obtained: utf16le_of(self.target_name@).len() as int,
            })),
            self.flags.has_unicode() && utf16le_of(self.target_name@).len() <= 0xffff ==> (
            r matches Ok(v) && v@ == spec_challenge_body(
                utf16le_of(self.target_name@),
                self.flags,
                self.challenge@,
                self.context,
                spec_entries_bytes(spec_entry_models(self.target_information@)),
                self.os_version@,
            )),
            !self.flags.has_unicode() && self.flags.has_oem() ==> (r matches Err(e) ==> (e@ is
            NonOemEncodable || e@ is FieldTooLong)),
            !self.flags.has_unicode() && self.flags.has_oem() ==> (r matches Ok(v)
                ==> exists|tnb: Seq<u8>|
                tnb.len() <= 0xffff && v@ == #[trigger] spec_challenge_body(
                    tnb,
                    self.flags,
                    self.challenge@,
                    self.context,
                    spec_entries_bytes(spec_entry_models(self.target_information@)),
                    self.os_version@,
                )),
            self.flags.has_unicode() ==> (r matches Ok(v) ==> utf16le_of(self.target_name@).len()
                % 2 == 0 && utf16_chars_of(spec_words_le(utf16le_of(self.target_name@))) == Some(
                self.target_name@,
            )),
    {
        let tn_b = match ntlm_string_to_bytes(self.flags, self.target_name.as_str()) {
            Ok(v) => v,
            Err(e) => {
                return Err(e);
            },
        };
        if tn_b.len() > 0xffff {
            return Err(NtlmStoringError::FieldTooLong { obtained: tn_b.len() });
        }
        let ti_b = encode_target_info(&self.target_information);
        let mut ret: Vec<u8> = Vec::new();
        push_secbuf(&mut ret, tn_b.len(), 56);
        push_u32_le(&mut ret, self.flags.bits());
        append_bytes(&mut ret, self.challenge.as_slice());
        push_u32_le(&mut ret, self.context.0);
        push_u32_le(&mut ret, self.context.1);
        push_secbuf(&mut ret, ti_b.len(), 56 + tn_b.len() as u32);
        let vb = self.os_version.to_bytes();
        append_bytes(&mut ret, vb.as_slice());
        append_bytes(&mut ret, tn_b.as_slice());
        append_bytes(&mut ret, ti_b.as_slice());
        proof {
            assert(ret@ =~= spec_challenge_body(
                tn_b@,
                self.flags,
                self.challenge@,
                self.context,
                spec_entries_bytes(spec_entry_models(self.target_information@)),
                self.os_version@,
            ));
        }
        Ok(ret)
    }
}

impl NtlmAuthenticateMessage {
    pub fn to_bytes(&self) -> (r: Result<Vec<u8>, NtlmStoringError>)
        requires
            self.lm_response@.len() <= 0xffff,
            self.ntlm_response@.len() <= 0xffff,
            self.session_key@.len() <= 0xffff,
        ensures
            !self.flags.has_unicode() && !self.flags.has_oem() ==> (r matches Err(e) && e@
                == StoreErrModel::NeitherUnicodeNorOem),
            self.flags.has_unicode() && utf16le_of(self.domain_name@).len() > 0xffff ==> (
            r matches Err(e) && e@ == (StoreErrModel::FieldTooLong {
                obtained: utf16le_of(self.domain_name@).len() as int,
            })),
            self.flags.has_unicode() && utf16le_of(self.domain_name@).len() <= 0xffff && utf16le_of(
                self.user_name@,
            ).len() > 0xffff ==> (r matches Err(e) && e@ == (StoreErrModel::FieldTooLong {
                obtained: utf16le_of(self.user_name@).len() as int,
            })),
            self.flags.has_unicode() && utf16le_of(self.domain_name@).len() <= 0xffff && utf16le_of(
                self.user_name@,
            ).len() <= 0xffff && utf16le_of(self.workstation_name@).len() > 0xffff ==> (
            r matches Err(e) && e@ == (StoreErrModel::FieldTooLong {
                obtained: utf16le_of(self.workstation_name@).len() as int,
            })),
            self.flags.has_unicode() && utf16le_of(self.domain_name@).len() <= 0xffff && utf16le_of(
                self.user_name@,
            ).len() <= 0xffff && utf16le_of(self.workstation_name@).len() <= 0xffff ==> (
            r matches Ok(v) && v@ == spec_authenticate_body(
                self.lm_response@,
                self.ntlm_response@,
                utf16le_of(self.domain_name@),
                utf16le_of(self.user_name@),
                utf16le_of(self.workstation_name@),
                self.session_key@,
                self.flags,
                self.os_version@,
            )),
            !self.flags.has_unicode() && self.flags.has_oem() ==> (r matches Err(e) ==> (e@ is
            NonOemEncodable || e@ is FieldTooLong)),
            !self.flags.has_unicode() && self.flags.has_oem() ==> (r matches Ok(v)
                ==> exists|db: Seq<u8>, ub: Seq<u8>, wb: Seq<u8>|
                db.len() <= 0xffff && ub.len() <= 0xffff && wb.len() <= 0xffff && v@
                    == #[trigger] spec_authenticate_body(
                    self.lm_response@,
                    self.ntlm_response@,
                    db,
                    ub,
                    wb,
                    self.session_key@,
                    self.flags,
                    self.os_version@,
                )),
            self.flags.has_unicode() ==> (r matches Ok(v) ==> utf16le_of(self.domain_name@).len()
                % 2 == 0 && utf16_chars_of(spec_words_le(utf16le_of(self.domain_name@))) == Some(
                self.domain_name@,
            ) && utf16le_of(self.user_name@).len() % 2 == 0 && utf16_chars_of(
                spec_words_le(utf16le_of(self.user_name@)),
            ) == Some(self.user_name@) && utf16le_of(self.workstation_name@).len() % 2 == 0
                && utf16_chars_of(spec_words_le(utf16le_of(self.workstation_name@))) == Some(
                self.workstation_name@,
            )),
    {
        let dom_b = match ntlm_string_to_bytes(self.flags, self.domain_name.as_str()) {
            Ok(v) => v,
            Err(e) => {
                return Err(e);
            },
        };
        if dom_b.len() > 0xffff {
            return Err(NtlmStoringError::FieldTooLong { obtained: dom_b.len() });
        }
        let user_b = match ntlm_string_to_bytes(self.flags, self.user_name.as_str()) {
            Ok(v) => v,
            Err(e) => {
                return Err(e);
            },
        };
        if user_b.len() > 0xffff {
            return Err(NtlmStoringError::FieldTooLong { obtained: user_b.len() });
        }
        let ws_b = match ntlm_string_to_bytes(self.flags, self.workstation_name.as_str()) {
            Ok(v) => v,
            Err(e) => {
                return Err(e);
            },
        };
        if ws_b.len() > 0xffff {
            return Err(NtlmStoringError::FieldTooLong { obtained: ws_b.len() });
        }
        let mut off: u32 = 72;
        let mut ret: Vec<u8> = Vec::new();
        push_secbuf(&mut ret, self.lm_response.len(), off);
        off = off + self.lm_response.len() as u32;
        push_secbuf(&mut ret, self.ntlm_response.len(), off);
        off = off + self.ntlm_response.len() as u32;
        push_secbuf(&mut ret, dom_b.len(), off);
        off = off + dom_b.len() as u32;
        push_secbuf(&mut ret, user_b.len(), off);
        off = off + user_b.len() as u32;
        push_secbuf(&mut ret, ws_b.len(), off);
        off = off + ws_b.len() as u32;
        push_secbuf(&mut ret, self.session_key.len(), off);
        push_u32_le(&mut ret, self.flags.bits());
        let vb = self.os_version.to_bytes();
        append_bytes(&mut ret, vb.as_slice());
        append_bytes(&mut ret, self.lm_response.as_slice());
        append_bytes(&mut ret, self.ntlm_response.as_slice());
        append_bytes(&mut ret, dom_b.as_slice());
        append_bytes(&mut ret, user_b.as_slice());
        append_bytes(&mut ret, ws_b.as_slice());
        append_bytes(&mut ret, self.session_key.as_slice());
        proof {
            reveal(spec_authenticate_body);
            assert(ret@ =~= spec_authenticate_body(
                self.lm_response@,
                self.ntlm_response@,
                dom_b@,
                user_b@,
                ws_b@,
                self.session_key@,
                self.flags,
                self.os_version@,
            ));
        }
        Ok(ret)
    }
}

/// Whether decoding flag bits `bits` involves no platform-dependent
/// text decoding (any outcome but OEM-only is a function of the bytes).
pub open spec fn spec_flags_deterministic(bits: u32) -> bool {
    let f = NtlmFlags { bits };
    f.has_unicode() || !f.has_oem()
}

/// The decoding of a Negotiate body (the bytes after the 12-byte
/// magic-and-type prefix).
pub open spec fn spec_parse_negotiate(v: Seq<u8>) -> Result<NegotiateModel, ParseErrModel> {
    if v.len() < 20 {
        Err(
            ParseErrModel::ItemMinLengthMismatch { expected_at_least: 20, obtained: v.len() as int },
        )
    } else {
        let flags = NtlmFlags { bits: spec_u32_at(v, 0) };
        if flags.has_version() && v.len() < 28 {
            Err(
                ParseErrModel::ItemMinLengthMismatch {
                    expected_at_least: 28,
                    obtained: v.len() as int,
                },
            )
        } else {
            let ver = if flags.has_version() {
                spec_os_version_at(v, 20)
            } else {
                spec_os_version_default()
            };
            match spec_resolve(spec_secbuf_at(v, 4), v, -12) {
                Err(e) => Err(e),
                Ok(db) => match spec_resolve(spec_secbuf_at(v, 12), v, -12) {
                    Err(e) => Err(e),
                    Ok(wb) => match crate::text::spec_text_decode(flags, db) {
                        Err(e) => Err(e),
                        Ok(dom) => match crate::text::spec_text_decode(flags, wb) {
                            Err(e) => Err(e),
                            Ok(ws) => Ok(
                                NegotiateModel {
                                    flags,
                                    supplied_domain: dom,
                                    supplied_workstation: ws,
                                    os_version: ver,
                                },
                            ),
                        },
                    },
                },
            }
        }
    }
}

/// The decoding of a Challenge body.
pub open spec fn spec_parse_challenge(v: Seq<u8>) -> Result<ChallengeModel, ParseErrModel> {
    if v.len() < 44 {
        Err(
            ParseErrModel::ItemMinLengthMismatch { expected_at_least: 44, obtained: v.len() as int },
        )
    } else {
        let flags = NtlmFlags { bits: spec_u32_at(v, 8) };
        let ver = if flags.has_version() {
            spec_os_version_at(v, 36)
        } else {
            spec_os_version_default()
        };
        match spec_resolve(spec_secbuf_at(v, 0), v, -12) {
            Err(e) => Err(e),
            Ok(tnb) => match spec_resolve(spec_secbuf_at(v, 28), v, -12) {
                Err(e) => Err(e),
                Ok(tib) => match crate::text::spec_text_decode(flags, tnb) {
                    Err(e) => Err(e),
                    Ok(tn) => match spec_parse_entries(tib) {
                        Err(e) => Err(e),
                        Ok(entries) => Ok(
                            ChallengeModel {
                                target_name: tn,
                                flags,
                                challenge: v.subrange(12, 20),
                                context: (spec_u32_at(v, 20), spec_u32_at(v, 24)),
                                target_information: entries,
                                os_version: ver,
                            },
                        ),
                    },
                },
            },
        }
    }
}

/// The decoding of an Authenticate body.
pub open spec fn spec_parse_authenticate(v: Seq<u8>) -> Result<AuthenticateModel, ParseErrModel> {
    if v.len() < 60 {
        Err(
            ParseErrModel::ItemMinLengthMismatch { expected_at_least: 60, obtained: v.len() as int },
        )
    } else {
        let flags = NtlmFlags { bits: spec_u32_at(v, 48) };
        let ver = if flags.has_version() {
            spec_os_version_at(v, 52)
        } else {
            spec_os_version_default()
        };
        match spec_resolve(spec_secbuf_at(v, 0), v, -12) {
            Err(e) => Err(e),
            Ok(lm) => match spec_resolve(spec_secbuf_at(v, 8), v, -12) {
                Err(e) => Err(e),
                Ok(nt) => match spec_resolve(spec_secbuf_at(v, 16), v, -12) {
                    Err(e) => Err(e),
                    Ok(db) => match spec_resolve(spec_secbuf_at(v, 24), v, -12) {
                        Err(e) => Err(e),
                        Ok(ub) => match spec_resolve(spec_secbuf_at(v, 32), v, -12) {
                            Err(e) => Err(e),
                            Ok(wb) => match spec_resolve(spec_secbuf_at(v, 40), v, -12) {
                                Err(e) => Err(e),
                                Ok(sk) => match crate::text::spec_text_decode(flags, db) {
                                    Err(e) => Err(e),
                                    Ok(dom) => match crate::text::spec_text_decode(flags, ub) {
                                        Err(e) => Err(e),
                                        Ok(user) => match crate::text::spec_text_decode(
                                            flags,
                                            wb,
                                        ) {
                                            Err(e) => Err(e),
                                            Ok(ws) => Ok(
                                                AuthenticateModel {
                                                    lm_response: lm,
                                                    ntlm_response: nt,
                                                    domain_name: dom,
                                                    user_name: user,
                                                    workstation_name: ws,
                                                    session_key: sk,
                                                    flags,
                                                    os_version: ver,
                                                },
                                            ),
                                        },
                                    },
                                },
                            },
                        },
                    },
                },
            },
        }
    }
}

/// The decoding of a whole message.
pub open spec fn spec_parse_message(b: Seq<u8>) -> Result<MessageModel, ParseErrModel> {
    if b.len() < 12 {
        Err(ParseErrModel::ShortHeader { expected_min_len: 12, obtained_len: b.len() as int })
    } else if b.subrange(0, 8) != spec_magic() {
        Err(ParseErrModel::MagicMismatch { expected: spec_magic(), obtained: b.subrange(0, 8) })
    } else {
        let t = spec_u32_at(b, 8);
        let body = b.skip(12);
        if t == 1 {
            match spec_parse_negotiate(body) {
                Ok(m) => Ok(MessageModel::Negotiate(m)),
                Err(e) => Err(e),
            }
        } else if t == 2 {
            match spec_parse_challenge(body) {
                Ok(m) => Ok(MessageModel::Challenge(m)),
                Err(e) => Err(e),
            }
        } else if t == 3 {
            match spec_parse_authenticate(body) {
                Ok(m) => Ok(MessageModel::Authenticate(m)),
                Err(e) => Err(e),
            }
        } else {
            Ok(MessageModel::Other(t, body))
        }
    }
}

/// Whether decoding `b` involves no platform-dependent text decoding,
/// so that `spec_parse_message` fully determines the outcome.
pub open spec fn spec_wire_deterministic(b: Seq<u8>) -> bool {
    if b.len() < 12 || b.subrange(0, 8) != spec_magic() {
        true
    } else {
        let t = spec_u32_at(b, 8);
        let v = b.skip(12);
        if t == 1 {
            v.len() < 20 || spec_flags_deterministic(spec_u32_at(v, 0))
        } else if t == 2 {
            v.len() < 44 || spec_flags_deterministic(spec_u32_at(v, 8))
        } else if t == 3 {
            v.len() < 60 || spec_flags_deterministic(spec_u32_at(v, 48))
        } else {
            true
        }
    }
}

impl NtlmNegotiateMessage {
    /// Decodes a Negotiate body (the bytes after the magic-and-type
    /// prefix).
    pub fn from_bytes(value: &[u8]) -> (r: Result<Self, NtlmParsingError>)
        ensures
            value@.len() < 20 || spec_flags_deterministic(spec_u32_at(value@, 0)) ==> match r {
                Ok(m) => spec_parse_negotiate(value@) == Ok::<NegotiateModel, ParseErrModel>(m@),
                Err(e) => spec_parse_negotiate(value@) == Err::<NegotiateModel, ParseErrModel>(e@),
            },
    {
        let vlen: usize = value.len();
        if vlen < 20 {
            return Err(
                NtlmParsingError::ItemMinLengthMismatch { expected_at_least: 20, obtained: vlen },
            );
        }
        let flags = NtlmFlags::from_bits(read_u32_le(value, 0));
        if flags.is_version() && vlen < 28 {
            return Err(
                NtlmParsingError::ItemMinLengthMismatch { expected_at_least: 28, obtained: vlen },
            );
        }
        let os_version = if flags.is_version() {
            OsVersion::read_at(value, 20)
        } else {
            OsVersion::default()
        };
        let domain_sb = NtlmSecurityBuffer::read_at(value, 4);
        let ws_sb = NtlmSecurityBuffer::read_at(value, 12);
        let domain_bytes = match domain_sb.apply_to_slice(value, -12) {
            Ok(v) => v,
            Err(e) => {
                return Err(e);
            },
        };
        let ws_bytes = match ws_sb.apply_to_slice(value, -12) {
            Ok(v) => v,
            Err(e) => {
                return Err(e);
            },
        };
        let supplied_domain = match ntlm_bytes_to_string(flags, domain_bytes.as_slice()) {
            Ok(s) => s,
            Err(e) => {
                return Err(e);
            },
        };
        let supplied_workstation = match ntlm_bytes_to_string(flags, ws_bytes.as_slice()) {
            Ok(s) => s,
            Err(e) => {
                return Err(e);
            },
        };
        Ok(Self { flags, supplied_domain, supplied_workstation, os_version })
    }
}

impl NtlmChallengeMessage {
    /// Decodes a Challenge body.
    pub fn from_bytes(value: &[u8]) -> (r: Result<Self, NtlmParsingError>)
        ensures
            value@.len() < 44 || spec_flags_deterministic(spec_u32_at(value@, 8)) ==> match r {
                Ok(m) => spec_parse_challenge(value@) == Ok::<ChallengeModel, ParseErrModel>(m@),
                Err(e) => spec_parse_challenge(value@) == Err::<ChallengeModel, ParseErrModel>(e@),
            },
    {
        let vlen: usize = value.len();
        if vlen < 44 {
            return Err(
                NtlmParsingError::ItemMinLengthMismatch { expected_at_least: 44, obtained: vlen },
            );
        }
        let target_name_sb = NtlmSecurityBuffer::read_at(value, 0);
        let flags = NtlmFlags::from_bits(read_u32_le(value, 8));
        let challenge: [u8; 8] = [
            value[12],
            value[13],
            value[14],
            value[15],
            value[16],
            value[17],
            value[18],
            value[19],
        ];
        proof {
            assert(challenge@ =~= value@.subrange(12, 20));
        }
        let context = (read_u32_le(value, 20), read_u32_le(value, 24));
        let target_info_sb = NtlmSecurityBuffer::read_at(value, 28);
        let os_version = if flags.is_version() {
            OsVersion::read_at(value, 36)
        } else {
            OsVersion::default()
        };
        let target_name_bytes = match target_name_sb.apply_to_slice(value, -12) {
            Ok(v) => v,
            Err(e) => {
                return Err(e);
            },
        };
        let target_info_bytes = match target_info_sb.apply_to_slice(value, -12) {
            Ok(v) => v,
            Err(e) => {
                return Err(e);
            },
        };
        let target_name = match ntlm_bytes_to_string(flags, target_name_bytes.as_slice()) {
            Ok(s) => s,
            Err(e) => {
                return Err(e);
            },
        };
        let target_information = match parse_target_info(target_info_bytes.as_slice()) {
            Ok(l) => l,
            Err(e) => {
                return Err(e);
            },
        };
        Ok(Self { target_name, flags, challenge, context, target_information, os_version })
    }
}

impl NtlmAuthenticateMessage {
    /// Decodes an Authenticate body.
    pub fn from_bytes(value: &[u8]) -> (r: Result<Self, NtlmParsingError>)
        ensures
            value@.len() < 60 || spec_flags_deterministic(spec_u32_at(value@, 48)) ==> match r {
                Ok(m) => spec_parse_authenticate(value@) == Ok::<AuthenticateModel, ParseErrModel>(
                    m@,
                ),
                Err(e) => spec_parse_authenticate(value@) == Err::<
                    AuthenticateModel,
                    ParseErrModel,
                >(e@),
            },
    {
        let vlen: usize = value.len();
        if vlen < 60 {
            return Err(
                NtlmParsingError::ItemMinLengthMismatch { expected_at_least: 60, obtained: vlen },
            );
        }
        let lm_sb = NtlmSecurityBuffer::read_at(value, 0);
        let nt_sb = NtlmSecurityBuffer::read_at(value, 8);
        let dom_sb = NtlmSecurityBuffer::read_at(value, 16);
        let user_sb = NtlmSecurityBuffer::read_at(value, 24);
        let ws_sb = NtlmSecurityBuffer::read_at(value, 32);
        let sk_sb = NtlmSecurityBuffer::read_at(value, 40);
        let flags = NtlmFlags::from_bits(read_u32_le(value, 48));
        let os_version = if flags.is_version() {
            OsVersion::read_at(value, 52)
        } else {
            OsVersion::default()
        };
        let lm_response = match lm_sb.apply_to_slice(value, -12) {
            Ok(v) => v,
            Err(e) => {
                return Err(e);
            },
        };
        let ntlm_response = match nt_sb.apply_to_slice(value, -12) {
            Ok(v) => v,
            Err(e) => {
                return Err(e);
            },
        };
        let dom_bytes = match dom_sb.apply_to_slice(value, -12) {
            Ok(v) => v,
            Err(e) => {
                return Err(e);
            },
        };
        let user_bytes = match user_sb.apply_to_slice(value, -12) {
            Ok(v) => v,
            Err(e) => {
                return Err(e);
            },
        };
        let ws_bytes = match ws_sb.apply_to_slice(value, -12) {
            Ok(v) => v,
            Err(e) => {
                return Err(e);
            },
        };
        let session_key = match sk_sb.apply_to_slice(value, -12) {
            Ok(v) => v,
            Err(e) => {
                return Err(e);
            },
        };
        let domain_name = match ntlm_bytes_to_string(flags, dom_bytes.as_slice()) {
            Ok(s) => s,
            Err(e) => {
                return Err(e);
            },
        };
        let user_name = match ntlm_bytes_to_string(flags, user_bytes.as_slice()) {
            Ok(s) => s,
            Err(e) => {
                return Err(e);
            },
        };
        let workstation_name = match ntlm_bytes_to_string(flags, ws_bytes.as_slice()) {
            Ok(s) => s,
            Err(e) => {
                return Err(e);
            },
        };
        Ok(
            Self {
                lm_response,
                ntlm_response,
                domain_name,
                user_name,
                workstation_name,
                session_key,
                flags,
                os_version,
            },
        )
    }
}

/// The wire bytes of a message whose text fields encode as UTF-16LE
/// (the Unicode-negotiated case; an `Other` message has no text).
pub open spec fn spec_message_wire(m: MessageModel) -> Seq<u8> {
    match m {
        MessageModel::Negotiate(n) => spec_message_frame(
            1,
            spec_negotiate_body(
                n.flags,
                utf16le_of(n.supplied_domain),
                utf16le_of(n.supplied_workstation),
                n.os_version,
            ),
        ),
        MessageModel::Challenge(c) => spec_message_frame(
            2,
            spec_challenge_body(
                utf16le_of(c.target_name),
                c.flags,
                c.challenge,
                c.context,
                spec_entries_bytes(c.target_information),
                c.os_version,
            ),
        ),
        MessageModel::Authenticate(a) => spec_message_frame(
            3,
            spec_authenticate_body(
                a.lm_response,
                a.ntlm_response,
                utf16le_of(a.domain_name),
                utf16le_of(a.user_name),
                utf16le_of(a.workstation_name),
                a.session_key,
                a.flags,
                a.os_version,
            ),
        ),
        MessageModel::Other(t, d) => spec_message_frame(t, d),
    }
}

/// Whether the message's text fields encode under the Unicode flag
/// (vacuously true for `Other`, which has none).
pub open spec fn spec_message_unicode(m: MessageModel) -> bool {
    match m {
        MessageModel::Negotiate(n) => n.flags.has_unicode(),
        MessageModel::Challenge(c) => c.flags.has_unicode(),
        MessageModel::Authenticate(a) => a.flags.has_unicode(),
        MessageModel::Other(_, _) => true,
    }
}

/// Whether the message has text fields but neither text encoding was
/// negotiated.
pub open spec fn spec_message_neither(m: MessageModel) -> bool {
    match m {
        MessageModel::Negotiate(n) => !n.flags.has_unicode() && !n.flags.has_oem(),
        MessageModel::Challenge(c) => !c.flags.has_unicode() && !c.flags.has_oem(),
        MessageModel::Authenticate(a) => !a.flags.has_unicode() && !a.flags.has_oem(),
        MessageModel::Other(_, _) => false,
    }
}

/// Whether every UTF-16-encoded text field fits its 16-bit length field.
pub open spec fn spec_message_fits(m: MessageModel) -> bool {
    match m {
        MessageModel::Negotiate(n) => utf16le_of(n.supplied_domain).len() <= 0xffff && utf16le_of(
            n.supplied_workstation,
        ).len() <= 0xffff,
        MessageModel::Challenge(c) => utf16le_of(c.target_name).len() <= 0xffff,
        MessageModel::Authenticate(a) => utf16le_of(a.domain_name).len() <= 0xffff && utf16le_of(
            a.user_name,
        ).len() <= 0xffff && utf16le_of(a.workstation_name).len() <= 0xffff,
        MessageModel::Other(_, _) => true,
    }
}

/// Whether a message survives one encode-decode round trip: text
/// encodes under the Unicode flag and fits, an absent version
/// sub-record is all zero, raw fields fit their length fields, every
/// target-info entry is well formed, and an `Other` message does not
/// carry a recognised type number.
pub open spec fn spec_message_round_trips(m: MessageModel) -> bool {
    match m {
        MessageModel::Negotiate(n) => {
            &&& n.flags.has_unicode()
            &&& spec_message_fits(m)
            &&& (n.flags.has_version() || n.os_version == spec_os_version_default())
        },
        MessageModel::Challenge(c) => {
            &&& c.flags.has_unicode()
            &&& spec_message_fits(m)
            &&& (c.flags.has_version() || c.os_version == spec_os_version_default())
            &&& c.challenge.len() == 8
            &&& forall|i: int|
                0 <= i < c.target_information.len()
                    ==> #[trigger] crate::targetinfo::spec_entry_wf(c.target_information[i])
            &&& spec_entries_bytes(c.target_information).len() <= 0xffff
        },
        MessageModel::Authenticate(a) => {
            &&& a.flags.has_unicode()
            &&& spec_message_fits(m)
            &&& (a.flags.has_version() || a.os_version == spec_os_version_default())
            &&& a.lm_response.len() <= 0xffff
            &&& a.ntlm_response.len() <= 0xffff
            &&& a.session_key.len() <= 0xffff
        },
        MessageModel::Other(t, _) => t != 1 && t != 2 && t != 3,
    }
}

/// Round-trip law for Negotiate: the encoding of a Unicode-negotiated
/// message whose fields fit decodes back to the message itself.  The
/// hypotheses about `db` and `wb` are the contract of the UTF-16
/// encoder applied to the two text fields.
#[verifier::rlimit(100)]
#[verifier::spinoff_prover]
pub proof fn lemma_negotiate_round_trip(n: NegotiateModel, db: Seq<u8>, wb: Seq<u8>)
    requires
        n.flags.has_unicode(),
        db == utf16le_of(n.supplied_domain),
        db.len() <= 0xffff,
        db.len() % 2 == 0,
        utf16_chars_of(spec_words_le(db)) == Some(n.supplied_domain),
        wb == utf16le_of(n.supplied_workstation),
        wb.len() <= 0xffff,
        wb.len() % 2 == 0,
        utf16_chars_of(spec_words_le(wb)) == Some(n.supplied_workstation),
        n.flags.has_version() || n.os_version == spec_os_version_default(),
        n.os_version.reserved.len() == 3,
    ensures
        spec_parse_message(spec_message_wire(MessageModel::Negotiate(n))) == Ok::<
            MessageModel,
            ParseErrModel,
        >(MessageModel::Negotiate(n)),
{
    let body = spec_negotiate_body(n.flags, db, wb, n.os_version);
    let b = spec_message_frame(1, body);
    let base: int = if n.flags.has_version() {
        40
    } else {
        32
    };
    let fixed: int = base - 12;
    assert(body.len() == fixed + db.len() + wb.len());
    assert(b.len() == 12 + body.len());
    assert(b.subrange(0, 8) =~= spec_magic());
    crate::bytes::lemma_le32_roundtrip(1);
    assert(b[8] == spec_le32(1u32)[0] && b[9] == spec_le32(1u32)[1] && b[10] == spec_le32(1u32)[2]
        && b[11] == spec_le32(1u32)[3]);
    assert(spec_u32_at(b, 8) == 1);
    assert(b.skip(12) =~= body);
    // the body parse
    let v = body;
    crate::bytes::lemma_le32_roundtrip(n.flags.bits);
    assert(v[0] == spec_le32(n.flags.bits)[0] && v[1] == spec_le32(n.flags.bits)[1] && v[2]
        == spec_le32(n.flags.bits)[2] && v[3] == spec_le32(n.flags.bits)[3]);
    assert(spec_u32_at(v, 0) == n.flags.bits);
    let flags = NtlmFlags { bits: spec_u32_at(v, 0) };
    assert(flags == n.flags);
    // the version sub-record
    if n.flags.has_version() {
        let vb = spec_os_version_bytes(n.os_version);
        assert(vb.len() == 8);
        assert forall|k: int| 0 <= k < 8 implies v[20 + k] == vb[k] by {}
        crate::bytes::lemma_le16_roundtrip(n.os_version.build_number);
        assert(spec_u16_at(v, 22) == n.os_version.build_number);
        assert(v.subrange(24, 27) =~= n.os_version.reserved);
        assert(spec_os_version_at(v, 20) == n.os_version);
    }
    // the two security buffers
    lemma_read_secbuf_for(v, 4, db.len() as int, base);
    lemma_read_secbuf_for(v, 12, wb.len() as int, base + db.len());
    // resolving the domain
    assert(spec_resolve(spec_secbuf_at(v, 4), v, -12) == Ok::<Seq<u8>, ParseErrModel>(db)) by {
        if db.len() == 0 {
            assert(db =~= Seq::<u8>::empty());
        } else {
            assert(v.subrange(fixed, fixed + db.len()) =~= db);
        }
    }
    // resolving the workstation
    assert(spec_resolve(spec_secbuf_at(v, 12), v, -12) == Ok::<Seq<u8>, ParseErrModel>(wb)) by {
        if wb.len() == 0 {
            assert(wb =~= Seq::<u8>::empty());
        } else {
            assert(v.subrange(fixed + db.len(), fixed + db.len() + wb.len()) =~= wb);
        }
    }
    assert(spec_parse_negotiate(v) == Ok::<NegotiateModel, ParseErrModel>(n));
}

/// Round-trip law for Challenge, stated like the Negotiate law; the
/// target-info block re-parses by the target-info round-trip law.
#[verifier::rlimit(100)]
#[verifier::spinoff_prover]
pub proof fn lemma_challenge_round_trip(c: ChallengeModel, tnb: Seq<u8>)
    requires
        c.flags.has_unicode(),
        tnb == utf16le_of(c.target_name),
        tnb.len() <= 0xffff,
        tnb.len() % 2 == 0,
        utf16_chars_of(spec_words_le(tnb)) == Some(c.target_name),
        c.flags.has_version() || c.os_version == spec_os_version_default(),
        c.os_version.reserved.len() == 3,
        c.challenge.len() == 8,
        forall|i: int|
            0 <= i < c.target_information.len()
                ==> #[trigger] crate::targetinfo::spec_entry_wf(c.target_information[i]),
        spec_entries_bytes(c.target_information).len() <= 0xffff,
    ensures
        spec_parse_message(spec_message_wire(MessageModel::Challenge(c))) == Ok::<
            MessageModel,
            ParseErrModel,
        >(MessageModel::Challenge(c)),
{
    let tib = spec_entries_bytes(c.target_information);
    let body = spec_challenge_body(tnb, c.flags, c.challenge, c.context, tib, c.os_version);
    let b = spec_message_frame(2, body);
    let fixed: int = 44;
    assert(body.len() == fixed + tnb.len() + tib.len());
    assert(b.len() == 12 + body.len());
    assert(b.subrange(0, 8) =~= spec_magic());
    crate::bytes::lemma_le32_roundtrip(2);
    assert(b[8] == spec_le32(2u32)[0] && b[9] == spec_le32(2u32)[1] && b[10] == spec_le32(2u32)[2]
        && b[11] == spec_le32(2u32)[3]);
    assert(spec_u32_at(b, 8) == 2);
    assert(b.skip(12) =~= body);
    let v = body;
    crate::bytes::lemma_le32_roundtrip(c.flags.bits);
    assert(v[8] == spec_le32(c.flags.bits)[0] && v[9] == spec_le32(c.flags.bits)[1] && v[10]
        == spec_le32(c.flags.bits)[2] && v[11] == spec_le32(c.flags.bits)[3]);
    assert(spec_u32_at(v, 8) == c.flags.bits);
    let flags = NtlmFlags { bits: spec_u32_at(v, 8) };
    assert(flags == c.flags);
    assert(v.subrange(12, 20) =~= c.challenge);
    crate::bytes::lemma_le32_roundtrip(c.context.0);
    crate::bytes::lemma_le32_roundtrip(c.context.1);
    assert(v[20] == spec_le32(c.context.0)[0] && v[21] == spec_le32(c.context.0)[1] && v[22]
        == spec_le32(c.context.0)[2] && v[23] == spec_le32(c.context.0)[3]);
    assert(spec_u32_at(v, 20) == c.context.0);
    assert(v[24] == spec_le32(c.context.1)[0] && v[25] == spec_le32(c.context.1)[1] && v[26]
        == spec_le32(c.context.1)[2] && v[27] == spec_le32(c.context.1)[3]);
    assert(spec_u32_at(v, 24) == c.context.1);
    // the version sub-record (always written)
    let vb = spec_os_version_bytes(c.os_version);
    assert(vb.len() == 8);
    assert forall|k: int| 0 <= k < 8 implies v[36 + k] == vb[k] by {}
    if c.flags.has_version() {
        crate::bytes::lemma_le16_roundtrip(c.os_version.build_number);
        assert(spec_u16_at(v, 38) == c.os_version.build_number);
        assert(v.subrange(40, 43) =~= c.os_version.reserved);
        assert(spec_os_version_at(v, 36) == c.os_version);
    }
    lemma_read_secbuf_for(v, 0, tnb.len() as int, 56);
    lemma_read_secbuf_for(v, 28, tib.len() as int, 56 + tnb.len() as int);
    assert(spec_resolve(spec_secbuf_at(v, 0), v, -12) == Ok::<Seq<u8>, ParseErrModel>(tnb)) by {
        if tnb.len() == 0 {
            assert(tnb =~= Seq::<u8>::empty());
        } else {
            assert(v.subrange(fixed, fixed + tnb.len()) =~= tnb);
        }
    }
    assert(spec_resolve(spec_secbuf_at(v, 28), v, -12) == Ok::<Seq<u8>, ParseErrModel>(tib)) by {
        if tib.len() == 0 {
            assert(tib =~= Seq::<u8>::empty());
        } else {
            assert(v.subrange(fixed + tnb.len(), fixed + tnb.len() + tib.len()) =~= tib);
        }
    }
    crate::targetinfo::lemma_target_info_roundtrip(c.target_information);
    assert(spec_parse_challenge(v) == Ok::<ChallengeModel, ParseErrModel>(c));
}

/// The bytes of each variable-length field, as found in an encoded
/// Authenticate body.
#[verifier::rlimit(100)]
#[verifier::spinoff_prover]
proof fn lemma_authenticate_data_subranges(
    lm: Seq<u8>,
    nt: Seq<u8>,
    db: Seq<u8>,
    ub: Seq<u8>,
    wb: Seq<u8>,
    sk: Seq<u8>,
    flags: NtlmFlags,
    ver: OsVersionModel,
)
    requires
        ver.reserved.len() == 3,
    ensures
        ({
            let v = spec_authenticate_body(lm, nt, db, ub, wb, sk, flags, ver);
            let o0: int = 60;
            let o1: int = o0 + lm.len();
            let o2: int = o1 + nt.len();
            let o3: int = o2 + db.len();
            let o4: int = o3 + ub.len();
            let o5: int = o4 + wb.len();
            &&& v.len() == o5 + sk.len()
            &&& v.subrange(o0, o0 + lm.len() as int) == lm
            &&& v.subrange(o1, o1 + nt.len() as int) == nt
            &&& v.subrange(o2, o2 + db.len() as int) == db
            &&& v.subrange(o3, o3 + ub.len() as int) == ub
            &&& v.subrange(o4, o4 + wb.len() as int) == wb
            &&& v.subrange(o5, o5 + sk.len() as int) == sk
        }),
{
    reveal(spec_authenticate_body);
    let v = spec_authenticate_body(lm, nt, db, ub, wb, sk, flags, ver);
    let o0: int = 60;
    let o1: int = o0 + lm.len();
    let o2: int = o1 + nt.len();
    let o3: int = o2 + db.len();
    let o4: int = o3 + ub.len();
    let o5: int = o4 + wb.len();
    assert(v.subrange(o0, o0 + lm.len() as int) =~= lm);
    assert(v.subrange(o1, o1 + nt.len() as int) =~= nt);
    assert(v.subrange(o2, o2 + db.len() as int) =~= db);
    assert(v.subrange(o3, o3 + ub.len() as int) =~= ub);
    assert(v.subrange(o4, o4 + wb.len() as int) =~= wb);
    assert(v.subrange(o5, o5 + sk.len() as int) =~= sk);
}

/// The flag word and version sub-record of an encoded Authenticate
/// body, read back.
#[verifier::rlimit(100)]
#[verifier::spinoff_prover]
proof fn lemma_authenticate_flags_version(
    lm: Seq<u8>,
    nt: Seq<u8>,
    db: Seq<u8>,
    ub: Seq<u8>,
    wb: Seq<u8>,
    sk: Seq<u8>,
    flags: NtlmFlags,
    ver: OsVersionModel,
)
    requires
        ver.reserved.len() == 3,
        lm.len() <= 0xffff,
        nt.len() <= 0xffff,
        db.len() <= 0xffff,
        ub.len() <= 0xffff,
        wb.len() <= 0xffff,
        sk.len() <= 0xffff,
    ensures
        ({
            let v = spec_authenticate_body(lm, nt, db, ub, wb, sk, flags, ver);
            &&& spec_u32_at(v, 48) == flags.bits
            &&& flags.has_version() ==> spec_os_version_at(v, 52) == ver
        }),
{
    reveal(spec_authenticate_body);
    let v = spec_authenticate_body(lm, nt, db, ub, wb, sk, flags, ver);
    crate::bytes::lemma_le32_roundtrip(flags.bits);
    assert(v[48] == spec_le32(flags.bits)[0] && v[49] == spec_le32(flags.bits)[1] && v[50]
        == spec_le32(flags.bits)[2] && v[51] == spec_le32(flags.bits)[3]);
    assert(spec_u32_at(v, 48) == flags.bits);
    let vb = spec_os_version_bytes(ver);
    assert(vb.len() == 8);
    assert forall|k: int| 0 <= k < 8 implies v[52 + k] == vb[k] by {}
    if flags.has_version() {
        crate::bytes::lemma_le16_roundtrip(ver.build_number);
        assert(spec_u16_at(v, 54) == ver.build_number);
        assert(v.subrange(56, 59) =~= ver.reserved);
        assert(spec_os_version_at(v, 52) == ver);
    }
}

/// One security buffer of an encoded Authenticate body, read back.
#[verifier::rlimit(100)]
#[verifier::spinoff_prover]
proof fn lemma_authenticate_secbuf_lm(
    lm: Seq<u8>,
    nt: Seq<u8>,
    db: Seq<u8>,
    ub: Seq<u8>,
    wb: Seq<u8>,
    sk: Seq<u8>,
    flags: NtlmFlags,
    ver: OsVersionModel,
)
    requires
        ver.reserved.len() == 3,
        lm.len() <= 0xffff,
        nt.len() <= 0xffff,
        db.len() <= 0xffff,
        ub.len() <= 0xffff,
        wb.len() <= 0xffff,
        sk.len() <= 0xffff,
    ensures
        ({
            let v = spec_authenticate_body(lm, nt, db, ub, wb, sk, flags, ver);
            let o0: int = 72;
            let o1: int = o0 + lm.len();
            let o2: int = o1 + nt.len();
            let o3: int = o2 + db.len();
            let o4: int = o3 + ub.len();
            let o5: int = o4 + wb.len();
            spec_secbuf_at(v, 0) == (NtlmSecurityBuffer {
                length: lm.len() as u16,
                capacity: lm.len() as u16,
                offset: o0 as u32,
            })
        }),
{
    reveal(spec_authenticate_body);
    let v = spec_authenticate_body(lm, nt, db, ub, wb, sk, flags, ver);
    let o0: int = 72;
    let o1: int = o0 + lm.len();
    let o2: int = o1 + nt.len();
    let o3: int = o2 + db.len();
    let o4: int = o3 + ub.len();
    let o5: int = o4 + wb.len();
    assert(v[0int] == spec_secbuf_for(lm.len() as int, o0)[0]);
    assert(v[1int] == spec_secbuf_for(lm.len() as int, o0)[1]);
    assert(v[2int] == spec_secbuf_for(lm.len() as int, o0)[2]);
    assert(v[3int] == spec_secbuf_for(lm.len() as int, o0)[3]);
    assert(v[4int] == spec_secbuf_for(lm.len() as int, o0)[4]);
    assert(v[5int] == spec_secbuf_for(lm.len() as int, o0)[5]);
    assert(v[6int] == spec_secbuf_for(lm.len() as int, o0)[6]);
    assert(v[7int] == spec_secbuf_for(lm.len() as int, o0)[7]);
    lemma_read_secbuf_for(v, 0, lm.len() as int, o0);
}

/// One security buffer of an encoded Authenticate body, read back.
#[verifier::rlimit(100)]
#[verifier::spinoff_prover]
proof fn lemma_authenticate_secbuf_nt(
    lm: Seq<u8>,
    nt: Seq<u8>,
    db: Seq<u8>,
    ub: Seq<u8>,
    wb: Seq<u8>,
    sk: Seq<u8>,
    flags: NtlmFlags,
    ver: OsVersionModel,
)
    requires
        ver.reserved.len() == 3,
        lm.len() <= 0xffff,
        nt.len() <= 0xffff,
        db.len() <= 0xffff,
        ub.len() <= 0xffff,
        wb.len() <= 0xffff,
        sk.len() <= 0xffff,
    ensures
        ({
            let v = spec_authenticate_body(lm, nt, db, ub, wb, sk, flags, ver);
            let o0: int = 72;
            let o1: int = o0 + lm.len();
            let o2: int = o1 + nt.len();
            let o3: int = o2 + db.len();
            let o4: int = o3 + ub.len();
            let o5: int = o4 + wb.len();
            spec_secbuf_at(v, 8) == (NtlmSecurityBuffer {
                length: nt.len() as u16,
                capacity: nt.len() as u16,
                offset: o1 as u32,
            })
        }),
{
    reveal(spec_authenticate_body);
    let v = spec_authenticate_body(lm, nt, db, ub, wb, sk, flags, ver);
    let o0: int = 72;
    let o1: int = o0 + lm.len();
    let o2: int = o1 + nt.len();
    let o3: int = o2 + db.len();
    let o4: int = o3 + ub.len();
    let o5: int = o4 + wb.len();
    assert(v[8int] == spec_secbuf_for(nt.len() as int, o1)[0]);
    assert(v[9int] == spec_secbuf_for(nt.len() as int, o1)[1]);
    assert(v[10int] == spec_secbuf_for(nt.len() as int, o1)[2]);
    assert(v[11int] == spec_secbuf_for(nt.len() as int, o1)[3]);
    assert(v[12int] == spec_secbuf_for(nt.len() as int, o1)[4]);
    assert(v[13int] == spec_secbuf_for(nt.len() as int, o1)[5]);
    assert(v[14int] == spec_secbuf_for(nt.len() as int, o1)[6]);
    assert(v[15int] == spec_secbuf_for(nt.len() as int, o1)[7]);
    lemma_read_secbuf_for(v, 8, nt.len() as int, o1);
}

/// One security buffer of an encoded Authenticate body, read back.
#[verifier::rlimit(100)]
#[verifier::spinoff_prover]
proof fn lemma_authenticate_secbuf_db(
    lm: Seq<u8>,
    nt: Seq<u8>,
    db: Seq<u8>,
    ub: Seq<u8>,
    wb: Seq<u8>,
    sk: Seq<u8>,
    flags: NtlmFlags,
    ver: OsVersionModel,
)
    requires
        ver.reserved.len() == 3,
        lm.len() <= 0xffff,
        nt.len() <= 0xffff,
        db.len() <= 0xffff,
        ub.len() <= 0xffff,
        wb.len() <= 0xffff,
        sk.len() <= 0xffff,
    ensures
        ({
            let v = spec_authenticate_body(lm, nt, db, ub, wb, sk, flags, ver);
            let o0: int = 72;
            let o1: int = o0 + lm.len();
            let o2: int = o1 + nt.len();
            let o3: int = o2 + db.len();
            let o4: int = o3 + ub.len();
            let o5: int = o4 + wb.len();
            spec_secbuf_at(v, 16) == (NtlmSecurityBuffer {
                length: db.len() as u16,
                capacity: db.len() as u16,
                offset: o2 as u32,
            })
        }),
{
    reveal(spec_authenticate_body);
    let v = spec_authenticate_body(lm, nt, db, ub, wb, sk, flags, ver);
    let o0: int = 72;
    let o1: int = o0 + lm.len();
    let o2: int = o1 + nt.len();
    let o3: int = o2 + db.len();
    let o4: int = o3 + ub.len();
    let o5: int = o4 + wb.len();
    assert(v[16int] == spec_secbuf_for(db.len() as int, o2)[0]);
    assert(v[17int] == spec_secbuf_for(db.len() as int, o2)[1]);
    assert(v[18int] == spec_secbuf_for(db.len() as int, o2)[2]);
    assert(v[19int] == spec_secbuf_for(db.len() as int, o2)[3]);
    assert(v[20int] == spec_secbuf_for(db.len() as int, o2)[4]);
    assert(v[21int] == spec_secbuf_for(db.len() as int, o2)[5]);
    assert(v[22int] == spec_secbuf_for(db.len() as int, o2)[6]);
    assert(v[23int] == spec_secbuf_for(db.len() as int, o2)[7]);
    lemma_read_secbuf_for(v, 16, db.len() as int, o2);
}

/// One security buffer of an encoded Authenticate body, read back.
#[verifier::rlimit(100)]
#[verifier::spinoff_prover]
proof fn lemma_authenticate_secbuf_ub(
    lm: Seq<u8>,
    nt: Seq<u8>,
    db: Seq<u8>,
    ub: Seq<u8>,
    wb: Seq<u8>,
    sk: Seq<u8>,
    flags: NtlmFlags,
    ver: OsVersionModel,
)
    requires
        ver.reserved.len() == 3,
        lm.len() <= 0xffff,
        nt.len() <= 0xffff,
        db.len() <= 0xffff,
        ub.len() <= 0xffff,
        wb.len() <= 0xffff,
        sk.len() <= 0xffff,
    ensures
        ({
            let v = spec_authenticate_body(lm, nt, db, ub, wb, sk, flags, ver);
            let o0: int = 72;
            let o1: int = o0 + lm.len();
            let o2: int = o1 + nt.len();
            let o3: int = o2 + db.len();
            let o4: int = o3 + ub.len();
            let o5: int = o4 + wb.len();
            spec_secbuf_at(v, 24) == (NtlmSecurityBuffer {
                length: ub.len() as u16,
                capacity: ub.len() as u16,
                offset: o3 as u32,
            })
        }),
{
    reveal(spec_authenticate_body);
    let v = spec_authenticate_body(lm, nt, db, ub, wb, sk, flags, ver);
    let o0: int = 72;
    let o1: int = o0 + lm.len();
    let o2: int = o1 + nt.len();
    let o3: int = o2 + db.len();
    let o4: int = o3 + ub.len();
    let o5: int = o4 + wb.len();
    assert(v[24int] == spec_secbuf_for(ub.len() as int, o3)[0]);
    assert(v[25int] == spec_secbuf_for(ub.len() as int, o3)[1]);
    assert(v[26int] == spec_secbuf_for(ub.len() as int, o3)[2]);
    assert(v[27int] == spec_secbuf_for(ub.len() as int, o3)[3]);
    assert(v[28int] == spec_secbuf_for(ub.len() as int, o3)[4]);
    assert(v[29int] == spec_secbuf_for(ub.len() as int, o3)[5]);
    assert(v[30int] == spec_secbuf_for(ub.len() as int, o3)[6]);
    assert(v[31int] == spec_secbuf_for(ub.len() as int, o3)[7]);
    lemma_read_secbuf_for(v, 24, ub.len() as int, o3);
}

/// One security buffer of an encoded Authenticate body, read back.
#[verifier::rlimit(100)]
#[verifier::spinoff_prover]
proof fn lemma_authenticate_secbuf_wb(
    lm: Seq<u8>,
    nt: Seq<u8>,
    db: Seq<u8>,
    ub: Seq<u8>,
    wb: Seq<u8>,
    sk: Seq<u8>,
    flags: NtlmFlags,
    ver: OsVersionModel,
)
    requires
        ver.reserved.len() == 3,
        lm.len() <= 0xffff,
        nt.len() <= 0xffff,
        db.len() <= 0xffff,
        ub.len() <= 0xffff,
        wb.len() <= 0xffff,
        sk.len() <= 0xffff,
    ensures
        ({
            let v = spec_authenticate_body(lm, nt, db, ub, wb, sk, flags, ver);
            let o0: int = 72;
            let o1: int = o0 + lm.len();
            let o2: int = o1 + nt.len();
            let o3: int = o2 + db.len();
            let o4: int = o3 + ub.len();
            let o5: int = o4 + wb.len();
            spec_secbuf_at(v, 32) == (NtlmSecurityBuffer {
                length: wb.len() as u16,
                capacity: wb.len() as u16,
                offset: o4 as u32,
            })
        }),
{
    reveal(spec_authenticate_body);
    let v = spec_authenticate_body(lm, nt, db, ub, wb, sk, flags, ver);
    let o0: int = 72;
    let o1: int = o0 + lm.len();
    let o2: int = o1 + nt.len();
    let o3: int = o2 + db.len();
    let o4: int = o3 + ub.len();
    let o5: int = o4 + wb.len();
    assert(v[32int] == spec_secbuf_for(wb.len() as int, o4)[0]);
    assert(v[33int] == spec_secbuf_for(wb.len() as int, o4)[1]);
    assert(v[34int] == spec_secbuf_for(wb.len() as int, o4)[2]);
    assert(v[35int] == spec_secbuf_for(wb.len() as int, o4)[3]);
    assert(v[36int] == spec_secbuf_for(wb.len() as int, o4)[4]);
    assert(v[37int] == spec_secbuf_for(wb.len() as int, o4)[5]);
    assert(v[38int] == spec_secbuf_for(wb.len() as int, o4)[6]);
    assert(v[39int] == spec_secbuf_for(wb.len() as int, o4)[7]);
    lemma_read_secbuf_for(v, 32, wb.len() as int, o4);
}

/// One security buffer of an encoded Authenticate body, read back.
#[verifier::rlimit(100)]
#[verifier::spinoff_prover]
proof fn lemma_authenticate_secbuf_sk(
    lm: Seq<u8>,
    nt: Seq<u8>,
    db: Seq<u8>,
    ub: Seq<u8>,
    wb: Seq<u8>,
    sk: Seq<u8>,
    flags: NtlmFlags,
    ver: OsVersionModel,
)
    requires
        ver.reserved.len() == 3,
        lm.len() <= 0xffff,
        nt.len() <= 0xffff,
        db.len() <= 0xffff,
        ub.len() <= 0xffff,
        wb.len() <= 0xffff,
        sk.len() <= 0xffff,
    ensures
        ({
            let v = spec_authenticate_body(lm, nt, db, ub, wb, sk, flags, ver);
            let o0: int = 72;
            let o1: int = o0 + lm.len();
            let o2: int = o1 + nt.len();
            let o3: int = o2 + db.len();
            let o4: int = o3 + ub.len();
            let o5: int = o4 + wb.len();
            spec_secbuf_at(v, 40) == (NtlmSecurityBuffer {
                length: sk.len() as u16,
                capacity: sk.len() as u16,
                offset: o5 as u32,
            })
        }),
{
    reveal(spec_authenticate_body);
    let v = spec_authenticate_body(lm, nt, db, ub, wb, sk, flags, ver);
    let o0: int = 72;
    let o1: int = o0 + lm.len();
    let o2: int = o1 + nt.len();
    let o3: int = o2 + db.len();
    let o4: int = o3 + ub.len();
    let o5: int = o4 + wb.len();
    assert(v[40int] == spec_secbuf_for(sk.len() as int, o5)[0]);
    assert(v[41int] == spec_secbuf_for(sk.len() as int, o5)[1]);
    assert(v[42int] == spec_secbuf_for(sk.len() as int, o5)[2]);
    assert(v[43int] == spec_secbuf_for(sk.len() as int, o5)[3]);
    assert(v[44int] == spec_secbuf_for(sk.len() as int, o5)[4]);
    assert(v[45int] == spec_secbuf_for(sk.len() as int, o5)[5]);
    assert(v[46int] == spec_secbuf_for(sk.len() as int, o5)[6]);
    assert(v[47int] == spec_secbuf_for(sk.len() as int, o5)[7]);
    lemma_read_secbuf_for(v, 40, sk.len() as int, o5);
}

/// Round-trip law for an Authenticate body: parsing the encoded body
/// recovers every field.  The hypotheses about `db`, `ub` and `wb` are
/// the contract of the UTF-16 encoder applied to the text fields.
#[verifier::rlimit(100)]
#[verifier::spinoff_prover]
pub proof fn lemma_authenticate_body_round_trip(
    a: AuthenticateModel,
    db: Seq<u8>,
    ub: Seq<u8>,
    wb: Seq<u8>,
)
    requires
        a.flags.has_unicode(),
        db == utf16le_of(a.domain_name),
        db.len() <= 0xffff,
        db.len() % 2 == 0,
        utf16_chars_of(spec_words_le(db)) == Some(a.domain_name),
        ub == utf16le_of(a.user_name),
        ub.len() <= 0xffff,
        ub.len() % 2 == 0,
        utf16_chars_of(spec_words_le(ub)) == Some(a.user_name),
        wb == utf16le_of(a.workstation_name),
        wb.len() <= 0xffff,
        wb.len() % 2 == 0,
        utf16_chars_of(spec_words_le(wb)) == Some(a.workstation_name),
        a.flags.has_version() || a.os_version == spec_os_version_default(),
        a.os_version.reserved.len() == 3,
        a.lm_response.len() <= 0xffff,
        a.ntlm_response.len() <= 0xffff,
        a.session_key.len() <= 0xffff,
    ensures
        spec_parse_authenticate(
            spec_authenticate_body(
                a.lm_response,
                a.ntlm_response,
                db,
                ub,
                wb,
                a.session_key,
                a.flags,
                a.os_version,
            ),
        ) == Ok::<AuthenticateModel, ParseErrModel>(a),
{
    let lm = a.lm_response;
    let nt = a.ntlm_response;
    let sk = a.session_key;
    let v = spec_authenticate_body(lm, nt, db, ub, wb, sk, a.flags, a.os_version);
    lemma_authenticate_data_subranges(lm, nt, db, ub, wb, sk, a.flags, a.os_version);
    lemma_authenticate_flags_version(lm, nt, db, ub, wb, sk, a.flags, a.os_version);
    lemma_authenticate_secbuf_lm(lm, nt, db, ub, wb, sk, a.flags, a.os_version);
    lemma_authenticate_secbuf_nt(lm, nt, db, ub, wb, sk, a.flags, a.os_version);
    lemma_authenticate_secbuf_db(lm, nt, db, ub, wb, sk, a.flags, a.os_version);
    lemma_authenticate_secbuf_ub(lm, nt, db, ub, wb, sk, a.flags, a.os_version);
    lemma_authenticate_secbuf_wb(lm, nt, db, ub, wb, sk, a.flags, a.os_version);
    lemma_authenticate_secbuf_sk(lm, nt, db, ub, wb, sk, a.flags, a.os_version);
    let o0: int = 72;
    let o1: int = o0 + lm.len();
    let o2: int = o1 + nt.len();
    let o3: int = o2 + db.len();
    let o4: int = o3 + ub.len();
    let o5: int = o4 + wb.len();
    crate::secbuf::lemma_resolve_exact(spec_secbuf_at(v, 0), v, -12, o0 - 12, lm);
    crate::secbuf::lemma_resolve_exact(spec_secbuf_at(v, 8), v, -12, o1 - 12, nt);
    crate::secbuf::lemma_resolve_exact(spec_secbuf_at(v, 16), v, -12, o2 - 12, db);
    crate::secbuf::lemma_resolve_exact(spec_secbuf_at(v, 24), v, -12, o3 - 12, ub);
    crate::secbuf::lemma_resolve_exact(spec_secbuf_at(v, 32), v, -12, o4 - 12, wb);
    crate::secbuf::lemma_resolve_exact(spec_secbuf_at(v, 40), v, -12, o5 - 12, sk);
    let flags = NtlmFlags { bits: spec_u32_at(v, 48) };
    assert(flags == a.flags);
    assert(spec_parse_authenticate(v) == Ok::<AuthenticateModel, ParseErrModel>(a));
}

/// Round-trip law for Authenticate, stated like the Negotiate law.
#[verifier::rlimit(100)]
#[verifier::spinoff_prover]
pub proof fn lemma_authenticate_round_trip(a: AuthenticateModel, db: Seq<u8>, ub: Seq<u8>, wb: Seq<
    u8,
>)
    requires
        a.flags.has_unicode(),
        db == utf16le_of(a.domain_name),
        db.len() <= 0xffff,
        db.len() % 2 == 0,
        utf16_chars_of(spec_words_le(db)) == Some(a.domain_name),
        ub == utf16le_of(a.user_name),
        ub.len() <= 0xffff,
        ub.len() % 2 == 0,
        utf16_chars_of(spec_words_le(ub)) == Some(a.user_name),
        wb == utf16le_of(a.workstation_name),
        wb.len() <= 0xffff,
        wb.len() % 2 == 0,
        utf16_chars_of(spec_words_le(wb)) == Some(a.workstation_name),
        a.flags.has_version() || a.os_version == spec_os_version_default(),
        a.os_version.reserved.len() == 3,
        a.lm_response.len() <= 0xffff,
        a.ntlm_response.len() <= 0xffff,
        a.session_key.len() <= 0xffff,
    ensures
        spec_parse_message(spec_message_wire(MessageModel::Authenticate(a))) == Ok::<
            MessageModel,
            ParseErrModel,
        >(MessageModel::Authenticate(a)),
{
    let body = spec_authenticate_body(
        a.lm_response,
        a.ntlm_response,
        db,
        ub,
        wb,
        a.session_key,
        a.flags,
        a.os_version,
    );
    lemma_parse_frame(3, body);
    lemma_authenticate_body_round_trip(a, db, ub, wb);
    assert(body.len() >= 60);
}

/// What the framing contributes: length, signature, type number, body.
#[verifier::rlimit(100)]
pub proof fn lemma_parse_frame(t: u32, body: Seq<u8>)
    ensures
        ({
            let b = spec_message_frame(t, body);
            &&& b.len() == 12 + body.len()
            &&& b.subrange(0, 8) == spec_magic()
            &&& spec_u32_at(b, 8) == t
            &&& b.skip(12) == body
        }),
{
    let b = spec_message_frame(t, body);
    crate::bytes::lemma_le32_roundtrip(t);
    assert(b.subrange(0, 8) =~= spec_magic());
    assert(b[8] == spec_le32(t)[0] && b[9] == spec_le32(t)[1] && b[10] == spec_le32(t)[2] && b[11]
        == spec_le32(t)[3]);
    assert(spec_u32_at(b, 8) == t);
    assert(b.skip(12) =~= body);
}

/// Reading back a security buffer written for `len` bytes at `off`.
proof fn lemma_read_secbuf_for(v: Seq<u8>, i: int, len: int, off: int)
    requires
        0 <= i,
        i + 8 <= v.len(),
        0 <= len <= 0xffff,
        0 <= off <= 0xffff_ffff,
        forall|k: int| 0 <= k < 8 ==> #[trigger] v[i + k] == spec_secbuf_for(len, off)[k],
    ensures
        spec_secbuf_at(v, i) == (NtlmSecurityBuffer {
            length: len as u16,
            capacity: len as u16,
            offset: off as u32,
        }),
{
    crate::bytes::lemma_le16_roundtrip(len as u16);
    crate::bytes::lemma_le32_roundtrip(off as u32);
    let sb = spec_secbuf_for(len, off);
    assert(v[i + 0] == sb[0] && v[i + 1] == sb[1] && v[i + 2] == sb[2] && v[i + 3] == sb[3] && v[i
        + 4] == sb[4] && v[i + 5] == sb[5] && v[i + 6] == sb[6] && v[i + 7] == sb[7]);
    assert(sb[0] == spec_le16(len as u16)[0] && sb[1] == spec_le16(len as u16)[1]);
    assert(sb[2] == spec_le16(len as u16)[0] && sb[3] == spec_le16(len as u16)[1]);
    assert(sb[4] == spec_le32(off as u32)[0] && sb[5] == spec_le32(off as u32)[1] && sb[6]
        == spec_le32(off as u32)[2] && sb[7] == spec_le32(off as u32)[3]);
    assert(v[i] == spec_le16(len as u16)[0] && v[i + 1] == spec_le16(len as u16)[1]);
    assert(v[i + 2] == spec_le16(len as u16)[0] && v[i + 3] == spec_le16(len as u16)[1]);
    assert(v[i + 4] == spec_le32(off as u32)[0] && v[i + 5] == spec_le32(off as u32)[1] && v[i + 6]
        == spec_le32(off as u32)[2] && v[i + 7] == spec_le32(off as u32)[3]);
}

/// Whether the first eight bytes of `value` are the message signature.
fn has_magic(value: &[u8]) -> (r: bool)
    requires
        value@.len() >= 8,
    ensures
        r == (value@.subrange(0, 8) == spec_magic()),
{
    let r = value[0] == 0x4e && value[1] == 0x54 && value[2] == 0x4c && value[3] == 0x4d
        && value[4] == 0x53 && value[5] == 0x53 && value[6] == 0x50 && value[7] == 0x00;
    proof {
        let pre = value@.subrange(0, 8);
        assert(pre[0] == value@[0] && pre[1] == value@[1] && pre[2] == value@[2] && pre[3]
            == value@[3] && pre[4] == value@[4] && pre[5] == value@[5] && pre[6] == value@[6]
            && pre[7] == value@[7]);
        if r {
            assert(pre =~= spec_magic());
        }
    }
    r
}

impl NtlmMessage {
    /// Decodes a whole message from its wire bytes.
    pub fn from_bytes(value: &[u8]) -> (r: Result<Self, NtlmParsingError>)
        ensures
            spec_wire_deterministic(value@) ==> match r {
                Ok(m) => spec_parse_message(value@) == Ok::<MessageModel, ParseErrModel>(m@),
                Err(e) => spec_parse_message(value@) == Err::<MessageModel, ParseErrModel>(e@),
            },
    {
        let vlen: usize = value.len();
        if vlen < 12 {
            return Err(NtlmParsingError::ShortHeader { expected_min_len: 12, obtained_len: vlen });
        }
        if !has_magic(value) {
            return Err(
                NtlmParsingError::MagicMismatch {
                    expected: magic_bytes(),
                    obtained: copy_range(value, 0, 8),
                },
            );
        }
        let message_type = read_u32_le(value, 8);
        let body = copy_range(value, 12, vlen);
        proof {
            assert(body@ =~= value@.skip(12));
        }
        if message_type == 1 {
            match NtlmNegotiateMessage::from_bytes(body.as_slice()) {
                Ok(m) => Ok(NtlmMessage::Negotiate(m)),
                Err(e) => Err(e),
            }
        } else if message_type == 2 {
            match NtlmChallengeMessage::from_bytes(body.as_slice()) {
                Ok(m) => Ok(NtlmMessage::Challenge(m)),
                Err(e) => Err(e),
            }
        } else if message_type == 3 {
            match NtlmAuthenticateMessage::from_bytes(body.as_slice()) {
                Ok(m) => Ok(NtlmMessage::Authenticate(m)),
                Err(e) => Err(e),
            }
        } else {
            Ok(NtlmMessage::Other(message_type, body))
        }
    }

    /// Encodes a whole message to its wire bytes.  A message whose
    /// fields round-trip (see `spec_message_round_trips`) encodes
    /// successfully and decodes back to itself.
    pub fn to_bytes(&self) -> (r: Result<Vec<u8>, NtlmStoringError>)
        requires
            self matches NtlmMessage::Challenge(c) ==> (forall|i: int|
                0 <= i < c.target_information@.len()
                    ==> #[trigger] c.target_information@[i].data@.len() <= 0xffff)
                && spec_entries_bytes(spec_entry_models(c.target_information@)).len() <= 0xffff,
            self matches NtlmMessage::Authenticate(a) ==> a.lm_response@.len() <= 0xffff
                && a.ntlm_response@.len() <= 0xffff && a.session_key@.len() <= 0xffff,
        ensures
            spec_message_unicode(self@) && spec_message_fits(self@) ==> (r matches Ok(v) && v@
                == spec_message_wire(self@)),
            spec_message_neither(self@) ==> (r matches Err(e) && e@
                == StoreErrModel::NeitherUnicodeNorOem),
            spec_message_unicode(self@) && !spec_message_fits(self@) ==> (r matches Err(e) && e@ is
            FieldTooLong),
            r matches Ok(v) ==> v@.len() >= 12 && v@.subrange(0, 8) == spec_magic() && spec_u32_at(
                v@,
                8,
            ) == spec_message_number(self@),
            spec_message_round_trips(self@) ==> (r matches Ok(v) && spec_parse_message(v@) == Ok::<
                MessageModel,
                ParseErrModel,
            >(self@)),
    {
        let mut buf: Vec<u8> = Vec::new();
        let m = magic_bytes();
        append_bytes(&mut buf, m.as_slice());
        push_u32_le(&mut buf, self.message_number());
        match self {
            NtlmMessage::Negotiate(t1m) => {
                let body = match t1m.to_bytes() {
                    Ok(b) => b,
                    Err(e) => {
                        return Err(e);
                    },
                };
                append_bytes(&mut buf, body.as_slice());
                proof {
                    assert(buf@ =~= spec_message_frame(1, body@));
                    lemma_parse_frame(1, body@);
                    if spec_message_round_trips(self@) {
                        lemma_negotiate_round_trip(
                            t1m@,
                            utf16le_of(t1m.supplied_domain@),
                            utf16le_of(t1m.supplied_workstation@),
                        );
                    }
                }
                Ok(buf)
            },
            NtlmMessage::Challenge(t2m) => {
                let body = match t2m.to_bytes() {
                    Ok(b) => b,
                    Err(e) => {
                        return Err(e);
                    },
                };
                append_bytes(&mut buf, body.as_slice());
                proof {
                    assert(buf@ =~= spec_message_frame(2, body@));
                    lemma_parse_frame(2, body@);
                    if spec_message_round_trips(self@) {
                        lemma_challenge_round_trip(t2m@, utf16le_of(t2m.target_name@));
                    }
                }
                Ok(buf)
            },
            NtlmMessage::Authenticate(t3m) => {
                let body = match t3m.to_bytes() {
                    Ok(b) => b,
                    Err(e) => {
                        return Err(e);
                    },
                };
                append_bytes(&mut buf, body.as_slice());
                proof {
                    assert(buf@ =~= spec_message_frame(3, body@));
                    lemma_parse_frame(3, body@);
                    if spec_message_round_trips(self@) {
                        lemma_authenticate_round_trip(
                            t3m@,
                            utf16le_of(t3m.domain_name@),
                            utf16le_of(t3m.user_name@),
                            utf16le_of(t3m.workstation_name@),
                        );
                    }
                }
                Ok(buf)
            },
            NtlmMessage::Other(t, data) => {
                append_bytes(&mut buf, data.as_slice());
                proof {
                    assert(buf@ =~= spec_message_frame(*t, data@));
                    lemma_parse_frame(*t, data@);
                }
                Ok(buf)
            },
        }
    }

    pub fn message_number(&self) -> (r: u32)
        ensures
            r == spec_message_number(self@),
    {
        match self {
            NtlmMessage::Negotiate(_) => 0x0000_0001,
            NtlmMessage::Challenge(_) => 0x0000_0002,
            NtlmMessage::Authenticate(_) => 0x0000_0003,
            NtlmMessage::Other(t, _data) => *t,
        }
    }
}

} // verus!
