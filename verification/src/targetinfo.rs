//! The chained (type, length, data) metadata list embedded in a
//! Challenge message.
//!
//! Entries are concatenated with no explicit terminator appended by the
//! encoder; the decoder simply stops when no bytes remain.  Textual
//! payloads are always UTF-16LE, whatever the negotiated encoding.

use vstd::prelude::*;
use crate::bytes::{
    append_bytes, copy_range, lemma_le16_roundtrip, lemma_u16_le_bytes_roundtrip, push_u16_le,
    read_u16_le, spec_le16, spec_u16_at,
};
use crate::error::{NtlmParsingError, ParseErrModel};
use crate::text::{utf16_chars_of, utf16le_bytes, utf16le_of, spec_words_le};

verus! {

#[derive(Clone, Copy, Debug, PartialEq, Eq, Hash, Structural)]
pub enum NtlmTargetInfoType {
    Terminator,
    NtServer,
    NtDomain,
    DnsDomain,
    DnsServer,
    DnsForest,
    Flags,
    Timestamp,
    SingleHost,
    TargetName,
    ChannelBindings,
    Unknown(u16),
}

/// The 16-bit wire code of an entry type.
pub open spec fn spec_type_code(t: NtlmTargetInfoType) -> u16 {
    match t {
        NtlmTargetInfoType::Terminator => 0x0000,
        NtlmTargetInfoType::NtServer => 0x0001,
        NtlmTargetInfoType::NtDomain => 0x0002,
        NtlmTargetInfoType::DnsServer => 0x0003,
        NtlmTargetInfoType::DnsDomain => 0x0004,
        NtlmTargetInfoType::DnsForest => 0x0005,
        NtlmTargetInfoType::Flags => 0x0006,
        NtlmTargetInfoType::Timestamp => 0x0007,
        NtlmTargetInfoType::SingleHost => 0x0008,
        NtlmTargetInfoType::TargetName => 0x0009,
        NtlmTargetInfoType::ChannelBindings => 0x000a,
        NtlmTargetInfoType::Unknown(w) => w,
    }
}

/// The entry type a 16-bit wire code decodes to.
pub open spec fn spec_type_of_code(w: u16) -> NtlmTargetInfoType {
    if w == 0x0000 {
        NtlmTargetInfoType::Terminator
    } else if w == 0x0001 {
        NtlmTargetInfoType::NtServer
    } else if w == 0x0002 {
        NtlmTargetInfoType::NtDomain
    } else if w == 0x0003 {
        NtlmTargetInfoType::DnsServer
    } else if w == 0x0004 {
        NtlmTargetInfoType::DnsDomain
    } else if w == 0x0005 {
        NtlmTargetInfoType::DnsForest
    } else if w == 0x0006 {
        NtlmTargetInfoType::Flags
    } else if w == 0x0007 {
        NtlmTargetInfoType::Timestamp
    } else if w == 0x0008 {
        NtlmTargetInfoType::SingleHost
    } else if w == 0x0009 {
        NtlmTargetInfoType::TargetName
    } else if w == 0x000a {
        NtlmTargetInfoType::ChannelBindings
    } else {
        NtlmTargetInfoType::Unknown(w)
    }
}

/// Whether a type value re-encodes to the code it was decoded from
/// (an `Unknown` carrying a code with a dedicated variant does not).
pub open spec fn spec_type_canonical(t: NtlmTargetInfoType) -> bool {
    match t {
        NtlmTargetInfoType::Unknown(w) => w > 0x000a,
        _ => true,
    }
}

pub proof fn lemma_type_code_of_code(w: u16)
    ensures
        spec_type_code(spec_type_of_code(w)) == w,
{
}

pub proof fn lemma_type_of_code_of_type(t: NtlmTargetInfoType)
    requires
        spec_type_canonical(t),
    ensures
        spec_type_of_code(spec_type_code(t)) == t,
{
}

impl NtlmTargetInfoType {
    pub fn code(self) -> (r: u16)
        ensures
            r == spec_type_code(self),
    {
        match self {
            NtlmTargetInfoType::Terminator => 0x0000,
            NtlmTargetInfoType::NtServer => 0x0001,
            NtlmTargetInfoType::NtDomain => 0x0002,
            NtlmTargetInfoType::DnsServer => 0x0003,
            NtlmTargetInfoType::DnsDomain => 0x0004,
            NtlmTargetInfoType::DnsForest => 0x0005,
            NtlmTargetInfoType::Flags => 0x0006,
            NtlmTargetInfoType::Timestamp => 0x0007,
            NtlmTargetInfoType::SingleHost => 0x0008,
            NtlmTargetInfoType::TargetName => 0x0009,
            NtlmTargetInfoType::ChannelBindings => 0x000a,
            NtlmTargetInfoType::Unknown(w) => w,
        }
    }

    pub fn from_code(w: u16) -> (r: Self)
        ensures
            r == spec_type_of_code(w),
    {
        if w == 0x0000 {
            NtlmTargetInfoType::Terminator
        } else if w == 0x0001 {
            NtlmTargetInfoType::NtServer
        } else if w == 0x0002 {
            NtlmTargetInfoType::NtDomain
        } else if w == 0x0003 {
            NtlmTargetInfoType::DnsServer
        } else if w == 0x0004 {
            NtlmTargetInfoType::DnsDomain
        } else if w == 0x0005 {
            NtlmTargetInfoType::DnsForest
        } else if w == 0x0006 {
            NtlmTargetInfoType::Flags
        } else if w == 0x0007 {
            NtlmTargetInfoType::Timestamp
        } else if w == 0x0008 {
            NtlmTargetInfoType::SingleHost
        } else if w == 0x0009 {
            NtlmTargetInfoType::TargetName
        } else if w == 0x000a {
            NtlmTargetInfoType::ChannelBindings
        } else {
            NtlmTargetInfoType::Unknown(w)
        }
    }
}

#[derive(Clone, Debug, PartialEq, Eq, Hash)]
pub struct NtlmTargetInfoEntry {
    pub entry_type: NtlmTargetInfoType,
    pub data: Vec<u8>,
}

/// The model of a target-info entry.
pub struct TargetInfoEntryModel {
    pub entry_type: NtlmTargetInfoType,
    pub data: Seq<u8>,
}

impl View for NtlmTargetInfoEntry {
    type V = TargetInfoEntryModel;

    open spec fn view(&self) -> TargetInfoEntryModel {
        TargetInfoEntryModel { entry_type: self.entry_type, data: self.data@ }
    }
}

/// The models of a vector of entries.
pub open spec fn spec_entry_models(s: Seq<NtlmTargetInfoEntry>) -> Seq<TargetInfoEntryModel> {
    s.map_values(|e: NtlmTargetInfoEntry| e@)
}

/// The wire bytes of one entry: 2-byte type code, 2-byte length, payload.
pub open spec fn spec_entry_bytes(e: TargetInfoEntryModel) -> Seq<u8> {
    spec_le16(spec_type_code(e.entry_type)) + spec_le16(e.data.len() as u16) + e.data
}

/// The wire bytes of an entry list: the entries concatenated.
pub open spec fn spec_entries_bytes(l: Seq<TargetInfoEntryModel>) -> Seq<u8>
    decreases l.len(),
{
    if l.len() == 0 {
        Seq::empty()
    } else {
        spec_entry_bytes(l[0]) + spec_entries_bytes(l.skip(1))
    }
}

/// One decoding step: the first entry of `b` and the remaining bytes,
/// or the reason the head of `b` is not an entry.
pub open spec fn spec_parse_entry(b: Seq<u8>) -> Result<
    (TargetInfoEntryModel, Seq<u8>),
    ParseErrModel,
> {
    if b.len() < 4 {
        Err(ParseErrModel::ItemMinLengthMismatch { expected_at_least: 4, obtained: b.len() as int })
    } else {
        let len = spec_u16_at(b, 2) as int;
        if len + 4 > b.len() {
            Err(
                ParseErrModel::ItemMinLengthMismatch {
                    expected_at_least: len + 4,
                    obtained: b.len() as int,
                },
            )
        } else if len % 2 != 0 {
            Err(
                ParseErrModel::ItemLengthNotDivisible {
                    expected_divisor: 2,
                    obtained_length: b.len() as int,
                },
            )
        } else {
            Ok(
                (
                    TargetInfoEntryModel {
                        entry_type: spec_type_of_code(spec_u16_at(b, 0)),
                        data: b.subrange(4, 4 + len),
                    },
                    b.skip(4 + len),
                ),
            )
        }
    }
}

/// The decoding of a whole byte block: entries are consumed until no
/// bytes remain.
pub open spec fn spec_parse_entries(b: Seq<u8>) -> Result<
    Seq<TargetInfoEntryModel>,
    ParseErrModel,
>
    decreases b.len(),
{
    if b.len() == 0 {
        Ok(Seq::empty())
    } else {
        match spec_parse_entry(b) {
            Err(e) => Err(e),
            Ok((entry, rest)) => match spec_parse_entries(rest) {
                Err(e) => Err(e),
                Ok(tail) => Ok(seq![entry] + tail),
            },
        }
    }
}

impl NtlmTargetInfoEntry {
    pub fn to_bytes(&self) -> (r: Vec<u8>)
        requires
            self.data@.len() <= 0xffff,
        ensures
            r@ == spec_entry_bytes(self@),
    {
        let mut ret: Vec<u8> = Vec::new();
        push_u16_le(&mut ret, self.entry_type.code());
        push_u16_le(&mut ret, self.data.len() as u16);
        append_bytes(&mut ret, self.data.as_slice());
        assert(ret@ =~= spec_entry_bytes(self@));
        ret
    }

    /// Decodes the first entry of `bytes`; also returns the bytes that
    /// follow it.
    pub fn try_from_bytes(bytes: &[u8]) -> (r: Result<(Self, Vec<u8>), NtlmParsingError>)
        ensures
            match r {
                Ok((entry, rest)) => spec_parse_entry(bytes@) == Ok::<
                    (TargetInfoEntryModel, Seq<u8>),
                    ParseErrModel,
                >((entry@, rest@)),
                Err(e) => spec_parse_entry(bytes@) == Err::<
                    (TargetInfoEntryModel, Seq<u8>),
                    ParseErrModel,
                >(e@),
            },
    {
        if bytes.len() < 4 {
            return Err(
                NtlmParsingError::ItemMinLengthMismatch {
                    expected_at_least: 4,
                    obtained: bytes.len(),
                },
            );
        }
        let entry_type_u16 = read_u16_le(bytes, 0);
        let length_u16 = read_u16_le(bytes, 2);
        let length = length_u16 as usize;
        if length + 4 > bytes.len() {
            return Err(
                NtlmParsingError::ItemMinLengthMismatch {
                    expected_at_least: length + 4,
                    obtained: bytes.len(),
                },
            );
        }
        if length % 2 != 0 {
            return Err(
                NtlmParsingError::ItemLengthNotDivisible {
                    expected_divisor: 2,
                    obtained_length: bytes.len(),
                },
            );
        }
        let data = copy_range(bytes, 4, 4 + length);
        let rest = copy_range(bytes, 4 + length, bytes.len());
        assert(rest@ =~= bytes@.skip(4 + length as int));
        Ok((Self { entry_type: NtlmTargetInfoType::from_code(entry_type_u16), data }, rest))
    }

    /// The entry's payload decoded as UTF-16LE text.
    pub fn to_string(&self) -> (r: Result<String, NtlmParsingError>)
        ensures
            self.data@.len() % 2 != 0 ==> (r matches Err(e) && e@ == (
            ParseErrModel::ItemLengthNotDivisible {
                expected_divisor: 2,
                obtained_length: self.data@.len() as int,
            })),
            self.data@.len() % 2 == 0 ==> match r {
                Ok(s) => utf16_chars_of(spec_words_le(self.data@)) == Some(s@),
                Err(e) => utf16_chars_of(spec_words_le(self.data@)) is None && e@ == (
                ParseErrModel::InvalidUtf16 { value: spec_words_le(self.data@) }),
            },
    {
        crate::text::utf16_le_bytes_to_string(self.data.as_slice())
    }

    /// An entry whose payload is `string` encoded as UTF-16LE, whatever
    /// the negotiated encoding.
    pub fn from_string(entry_type: NtlmTargetInfoType, string: &str) -> (r: Self)
        ensures
            r.entry_type == entry_type,
            r.data@ == utf16le_of(string@),
            r.data@.len() % 2 == 0,
    {
        let data = utf16le_bytes(string);
        Self { entry_type, data }
    }
}

/// Encodes a whole entry list.
pub fn encode_target_info(entries: &Vec<NtlmTargetInfoEntry>) -> (r: Vec<u8>)
    requires
        forall|i: int| 0 <= i < entries@.len() ==> #[trigger] entries@[i].data@.len() <= 0xffff,
    ensures
        r@ == spec_entries_bytes(spec_entry_models(entries@)),
{
    let mut ret: Vec<u8> = Vec::new();
    let mut i: usize = 0;
    while i < entries.len()
        invariant
            i <= entries@.len(),
            forall|j: int| 0 <= j < entries@.len() ==> #[trigger] entries@[j].data@.len() <= 0xffff,
            ret@ == spec_entries_bytes(spec_entry_models(entries@.subrange(0, i as int))),
        decreases entries@.len() - i,
    {
        let mut eb = entries[i].to_bytes();
        append_bytes(&mut ret, eb.as_slice());
        i = i + 1;
        proof {
            lemma_entries_bytes_snoc(
                spec_entry_models(entries@.subrange(0, i - 1)),
                entries@[i - 1]@,
            );
            assert(spec_entry_models(entries@.subrange(0, i as int)) =~= spec_entry_models(
                entries@.subrange(0, i - 1),
            ).push(entries@[i - 1]@));
        }
    }
    proof {
        assert(entries@.subrange(0, entries@.len() as int) =~= entries@);
    }
    ret
}

/// Appending one entry to a list appends its bytes to the encoding.
pub proof fn lemma_entries_bytes_snoc(l: Seq<TargetInfoEntryModel>, e: TargetInfoEntryModel)
    ensures
        spec_entries_bytes(l.push(e)) == spec_entries_bytes(l) + spec_entry_bytes(e),
    decreases l.len(),
{
    if l.len() == 0 {
        assert(l.push(e).skip(1) =~= Seq::<TargetInfoEntryModel>::empty());
        assert(l.push(e)[0] == e);
        assert(spec_entries_bytes(l.push(e)) == spec_entry_bytes(e) + spec_entries_bytes(
            Seq::<TargetInfoEntryModel>::empty(),
        ));
        assert(spec_entry_bytes(e) + Seq::<u8>::empty() =~= Seq::<u8>::empty() + spec_entry_bytes(
            e,
        ));
    } else {
        assert(l.push(e).skip(1) =~= l.skip(1).push(e));
        lemma_entries_bytes_snoc(l.skip(1), e);
        assert(l.push(e)[0] == l[0]);
        assert(spec_entries_bytes(l.push(e)) == spec_entry_bytes(l[0]) + spec_entries_bytes(
            l.skip(1).push(e),
        ));
        assert(spec_entry_bytes(l[0]) + (spec_entries_bytes(l.skip(1)) + spec_entry_bytes(e))
            =~= (spec_entry_bytes(l[0]) + spec_entries_bytes(l.skip(1))) + spec_entry_bytes(e));
    }
}

/// Decodes a whole byte block to an entry list.
pub fn parse_target_info(bytes: &[u8]) -> (r: Result<Vec<NtlmTargetInfoEntry>, NtlmParsingError>)
    ensures
        match r {
            Ok(entries) => spec_parse_entries(bytes@) == Ok::<
                Seq<TargetInfoEntryModel>,
                ParseErrModel,
            >(spec_entry_models(entries@)),
            Err(e) => spec_parse_entries(bytes@) == Err::<Seq<TargetInfoEntryModel>, ParseErrModel>(
                e@,
            ),
        },
{
    let mut cur: Vec<u8> = crate::bytes::copy_range(bytes, 0, bytes.len());
    assert(cur@ =~= bytes@);
    let mut out: Vec<NtlmTargetInfoEntry> = Vec::new();
    while cur.len() > 0
        invariant
            match spec_parse_entries(cur@) {
                Ok(tail) => spec_parse_entries(bytes@) == Ok::<
                    Seq<TargetInfoEntryModel>,
                    ParseErrModel,
                >(spec_entry_models(out@) + tail),
                Err(e) => spec_parse_entries(bytes@) == Err::<
                    Seq<TargetInfoEntryModel>,
                    ParseErrModel,
                >(e),
            },
        decreases cur@.len(),
    {
        match NtlmTargetInfoEntry::try_from_bytes(cur.as_slice()) {
            Ok((entry, rest)) => {
                let ghost prev = out@;
                let ghost entry_model = entry@;
                out.push(entry);
                cur = rest;
                proof {
                    assert(spec_entry_models(out@) =~= spec_entry_models(prev) + seq![entry_model]);
                    if spec_parse_entries(cur@) is Ok {
                        assert(spec_entry_models(out@) + spec_parse_entries(cur@)->Ok_0
                            =~= spec_entry_models(prev) + (seq![entry_model] + spec_parse_entries(
                            cur@,
                        )->Ok_0));
                    }
                }
            },
            Err(e) => {
                return Err(e);
            },
        }
    }
    proof {
        assert(spec_entry_models(out@) + Seq::<TargetInfoEntryModel>::empty() =~= spec_entry_models(
            out@,
        ));
    }
    Ok(out)
}

/// Re-encoding law: a successfully decoded byte block re-encodes to
/// exactly the bytes it was decoded from, whether or not a terminator
/// entry was physically present.
pub proof fn lemma_target_info_reencode(b: Seq<u8>)
    requires
        spec_parse_entries(b) is Ok,
    ensures
        spec_entries_bytes(spec_parse_entries(b)->Ok_0) == b,
    decreases b.len(),
{
    if b.len() == 0 {
        assert(spec_entries_bytes(spec_parse_entries(b)->Ok_0) =~= b);
    } else {
        let (entry, rest) = spec_parse_entry(b)->Ok_0;
        let len = spec_u16_at(b, 2) as int;
        lemma_target_info_reencode(rest);
        lemma_u16_le_bytes_roundtrip(b[0], b[1]);
        lemma_u16_le_bytes_roundtrip(b[2], b[3]);
        lemma_type_code_of_code(spec_u16_at(b, 0));
        assert(spec_entry_bytes(entry) =~= b.subrange(0, 4 + len));
        assert(spec_parse_entries(b)->Ok_0 == seq![entry] + spec_parse_entries(rest)->Ok_0);
        assert((seq![entry] + spec_parse_entries(rest)->Ok_0).skip(1) =~= spec_parse_entries(
            rest,
        )->Ok_0);
        assert(spec_entries_bytes(spec_parse_entries(b)->Ok_0) =~= b);
    }
}

/// Whether an entry survives one encode-decode round trip: its payload
/// fits the 16-bit length field, has even length, and its type
/// re-encodes to the code it decodes from.
pub open spec fn spec_entry_wf(e: TargetInfoEntryModel) -> bool {
    &&& e.data.len() <= 0xffff
    &&& e.data.len() % 2 == 0
    &&& spec_type_canonical(e.entry_type)
}

/// Round-trip law: a list of well-formed entries decodes from its own
/// encoding unchanged.
pub proof fn lemma_target_info_roundtrip(l: Seq<TargetInfoEntryModel>)
    requires
        forall|i: int| 0 <= i < l.len() ==> #[trigger] spec_entry_wf(l[i]),
    ensures
        spec_parse_entries(spec_entries_bytes(l)) == Ok::<Seq<TargetInfoEntryModel>, ParseErrModel>(
            l,
        ),
    decreases l.len(),
{
    let b = spec_entries_bytes(l);
    if l.len() == 0 {
        assert(spec_parse_entries(b) == Ok::<Seq<TargetInfoEntryModel>, ParseErrModel>(
            Seq::empty(),
        ));
        assert(l =~= Seq::<TargetInfoEntryModel>::empty());
    } else {
        let e = l[0];
        assert(spec_entry_wf(l[0]));
        assert forall|j: int| 0 <= j < l.skip(1).len() implies #[trigger] spec_entry_wf(
            l.skip(1)[j],
        ) by {
            assert(l.skip(1)[j] == l[j + 1]);
        }
        let eb = spec_entry_bytes(e);
        let restb = spec_entries_bytes(l.skip(1));
        assert(b == eb + restb);
        assert(eb.len() == 4 + e.data.len());
        lemma_le16_roundtrip(spec_type_code(e.entry_type));
        lemma_le16_roundtrip(e.data.len() as u16);
        assert(b[0] == eb[0] && b[1] == eb[1] && b[2] == eb[2] && b[3] == eb[3]);
        assert(spec_u16_at(b, 0) == spec_type_code(e.entry_type));
        assert(spec_u16_at(b, 2) == e.data.len());
        lemma_type_of_code_of_type(e.entry_type);
        assert(b.subrange(4, 4 + e.data.len() as int) =~= e.data);
        assert(b.skip(4 + e.data.len() as int) =~= restb);
        lemma_target_info_roundtrip(l.skip(1));
        assert(spec_parse_entry(b) == Ok::<(TargetInfoEntryModel, Seq<u8>), ParseErrModel>(
            (
                TargetInfoEntryModel {
                    entry_type: spec_type_of_code(spec_u16_at(b, 0)),
                    data: b.subrange(4, 4 + spec_u16_at(b, 2) as int),
                },
                b.skip(4 + spec_u16_at(b, 2) as int),
            ),
        ));
        assert(seq![e] + l.skip(1) =~= l);
    }
}

} // verus!
