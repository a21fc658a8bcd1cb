use ntlmclient::{
    NtlmAuthenticateMessage, NtlmChallengeMessage, NtlmFlags, NtlmMessage, NtlmNegotiateMessage,
    NtlmParsingError, NtlmSecurityBuffer, NtlmStoringError, NtlmTargetInfoEntry,
    NtlmTargetInfoType, OsVersion,
};

fn utf16le(s: &str) -> Vec<u8> {
    s.encode_utf16().flat_map(|w| w.to_le_bytes()).collect()
}

#[test]
fn secbuf_encode_bytes() {
    let sb = NtlmSecurityBuffer { length: 0x0102, capacity: 0x0304, offset: 0x0a0b0c0d };
    assert_eq!(sb.to_bytes(), vec![0x02, 0x01, 0x04, 0x03, 0x0d, 0x0c, 0x0b, 0x0a]);
}

#[test]
fn secbuf_decode_roundtrip() {
    let sb = NtlmSecurityBuffer { length: 17, capacity: 17, offset: 4242 };
    let b = sb.to_bytes();
    let back = NtlmSecurityBuffer::from_bytes(&b).expect("eight bytes decode");
    assert_eq!(back, sb);
}

#[test]
fn secbuf_decode_wrong_length() {
    let r = NtlmSecurityBuffer::from_bytes(&[1, 2, 3]);
    assert_eq!(r, Err(NtlmParsingError::ItemLengthMismatch { expected: 8, obtained: 3 }));
}

#[test]
fn secbuf_slice_in_range() {
    let sb = NtlmSecurityBuffer { length: 3, capacity: 3, offset: 14 };
    let backing: Vec<u8> = (0u8..10).collect();
    let got = sb.apply_to_slice(&backing, -12).expect("in range");
    assert_eq!(got, vec![2, 3, 4]);
}

#[test]
fn secbuf_slice_end_out_of_range() {
    // offset + length exceeds the backing buffer: resolution must fail
    let sb = NtlmSecurityBuffer { length: 8, capacity: 8, offset: 5 };
    let backing: Vec<u8> = (0u8..10).collect();
    let got = sb.apply_to_slice(&backing, 0);
    assert_eq!(got, Err(NtlmParsingError::EndOutOfRange { end: 13, length: 10 }));
}

#[test]
fn secbuf_slice_start_out_of_range() {
    let sb = NtlmSecurityBuffer { length: 2, capacity: 2, offset: 50 };
    let backing: Vec<u8> = (0u8..10).collect();
    assert_eq!(
        sb.apply_to_slice(&backing, 0),
        Err(NtlmParsingError::StartOutOfRange { start: 50, length: 10 })
    );
}

#[test]
fn secbuf_slice_negative_start() {
    let sb = NtlmSecurityBuffer { length: 2, capacity: 2, offset: 4 };
    let backing: Vec<u8> = (0u8..10).collect();
    assert_eq!(
        sb.apply_to_slice(&backing, -7),
        Err(NtlmParsingError::StartOutOfRange { start: -3, length: 10 })
    );
}

#[test]
fn secbuf_zero_length_ignores_offset() {
    // a zero-length buffer resolves to the empty slice whatever its offset
    let sb = NtlmSecurityBuffer { length: 0, capacity: 0, offset: 0xdead_beef };
    let backing: Vec<u8> = vec![1, 2, 3];
    assert_eq!(sb.apply_to_slice(&backing, -12).expect("empty"), Vec::<u8>::new());
}

#[test]
fn secbuf_for_slice_sets_both_lengths() {
    let sb = NtlmSecurityBuffer::for_slice(&[9, 9, 9, 9]);
    assert_eq!(sb, NtlmSecurityBuffer { length: 4, capacity: 4, offset: 0 });
}

#[test]
fn target_info_entry_from_string_is_utf16() {
    let e = NtlmTargetInfoEntry::from_string(NtlmTargetInfoType::NtDomain, "AB");
    assert_eq!(e.data, vec![0x41, 0x00, 0x42, 0x00]);
    assert_eq!(e.to_string().expect("valid"), "AB");
}

#[test]
fn target_info_entry_roundtrip() {
    let e = NtlmTargetInfoEntry::from_string(NtlmTargetInfoType::DnsServer, "srv");
    let b = e.to_bytes();
    assert_eq!(&b[0..2], &[0x03, 0x00]);
    assert_eq!(&b[2..4], &[0x06, 0x00]);
    let (back, rest) = NtlmTargetInfoEntry::try_from_bytes(&b).expect("decodes");
    assert_eq!(back, e);
    assert!(rest.is_empty());
}

#[test]
fn target_info_truncated_entry_fails() {
    // declared length exceeds the remaining bytes
    let bytes = vec![0x02, 0x00, 0x0a, 0x00, 0x41, 0x00];
    let r = NtlmTargetInfoEntry::try_from_bytes(&bytes);
    assert_eq!(
        r,
        Err(NtlmParsingError::ItemMinLengthMismatch { expected_at_least: 14, obtained: 6 })
    );
}

#[test]
fn target_info_short_header_fails() {
    let r = NtlmTargetInfoEntry::try_from_bytes(&[0x02, 0x00, 0x04]);
    assert_eq!(
        r,
        Err(NtlmParsingError::ItemMinLengthMismatch { expected_at_least: 4, obtained: 3 })
    );
}

#[test]
fn target_info_odd_length_fails() {
    let bytes = vec![0x02, 0x00, 0x03, 0x00, 0x41, 0x42, 0x43];
    let r = NtlmTargetInfoEntry::try_from_bytes(&bytes);
    assert_eq!(
        r,
        Err(NtlmParsingError::ItemLengthNotDivisible { expected_divisor: 2, obtained_length: 7 })
    );
}

#[test]
fn target_info_unknown_code_kept() {
    let bytes = vec![0x77, 0x00, 0x02, 0x00, 0x10, 0x20];
    let (e, rest) = NtlmTargetInfoEntry::try_from_bytes(&bytes).expect("decodes");
    assert_eq!(e.entry_type, NtlmTargetInfoType::Unknown(0x77));
    assert_eq!(e.data, vec![0x10, 0x20]);
    assert!(rest.is_empty());
    assert_eq!(e.to_bytes(), bytes);
}

#[test]
fn negotiate_roundtrip_empty_fields() {
    let msg = NtlmMessage::Negotiate(NtlmNegotiateMessage {
        flags: NtlmFlags::from_bits(NtlmFlags::NEGOTIATE_UNICODE),
        supplied_domain: String::new(),
        supplied_workstation: String::new(),
        os_version: OsVersion::default(),
    });
    let bytes = msg.to_bytes().expect("encodes");
    let back = NtlmMessage::from_bytes(&bytes).expect("decodes");
    assert_eq!(back, msg);
}

#[test]
fn negotiate_exact_bytes() {
    let msg = NtlmMessage::Negotiate(NtlmNegotiateMessage {
        flags: NtlmFlags::from_bits(NtlmFlags::NEGOTIATE_UNICODE),
        supplied_domain: String::new(),
        supplied_workstation: "AB".to_string(),
        os_version: OsVersion::default(),
    });
    let bytes = msg.to_bytes().expect("encodes");
    let mut expected: Vec<u8> = Vec::new();
    expected.extend_from_slice(b"NTLMSSP\0");
    expected.extend_from_slice(&[0x01, 0, 0, 0]); // type
    expected.extend_from_slice(&[0x01, 0, 0, 0]); // flags
    expected.extend_from_slice(&[0, 0, 0, 0, 32, 0, 0, 0]); // domain: empty at 32
    expected.extend_from_slice(&[4, 0, 4, 0, 32, 0, 0, 0]); // workstation: 4 bytes at 32
    expected.extend_from_slice(&[0x41, 0x00, 0x42, 0x00]);
    assert_eq!(bytes, expected);
}

#[test]
fn negotiate_roundtrip_with_version() {
    let msg = NtlmMessage::Negotiate(NtlmNegotiateMessage {
        flags: NtlmFlags::from_bits(
            NtlmFlags::NEGOTIATE_UNICODE | NtlmFlags::NEGOTIATE_VERSION
                | NtlmFlags::NEGOTIATE_WORKSTATION_SUPPLIED,
        ),
        supplied_domain: "DOM".to_string(),
        supplied_workstation: "ws1".to_string(),
        os_version: OsVersion {
            major_version: 10,
            minor_version: 0,
            build_number: 19045,
            reserved: [0, 0, 0],
            ntlm_revision: 15,
        },
    });
    let bytes = msg.to_bytes().expect("encodes");
    let back = NtlmMessage::from_bytes(&bytes).expect("decodes");
    assert_eq!(back, msg);
}

#[test]
fn challenge_roundtrip() {
    let msg = NtlmMessage::Challenge(NtlmChallengeMessage {
        target_name: "SRV".to_string(),
        flags: NtlmFlags::from_bits(
            NtlmFlags::NEGOTIATE_UNICODE | NtlmFlags::NEGOTIATE_TARGET_INFO,
        ),
        challenge: [1, 2, 3, 4, 5, 6, 7, 8],
        context: (0xaabbccdd, 0x11223344),
        target_information: vec![
            NtlmTargetInfoEntry::from_string(NtlmTargetInfoType::NtDomain, "DOM"),
            NtlmTargetInfoEntry::from_string(NtlmTargetInfoType::NtServer, "SRV"),
            NtlmTargetInfoEntry { entry_type: NtlmTargetInfoType::Terminator, data: vec![] },
        ],
        os_version: OsVersion::default(),
    });
    let bytes = msg.to_bytes().expect("encodes");
    let back = NtlmMessage::from_bytes(&bytes).expect("decodes");
    assert_eq!(back, msg);
}

#[test]
fn challenge_roundtrip_empty_target() {
    let msg = NtlmMessage::Challenge(NtlmChallengeMessage {
        target_name: String::new(),
        flags: NtlmFlags::from_bits(NtlmFlags::NEGOTIATE_UNICODE),
        challenge: [0xef, 0xcd, 0xab, 0x89, 0x67, 0x45, 0x23, 0x01],
        context: (0, 0),
        target_information: vec![],
        os_version: OsVersion::default(),
    });
    let bytes = msg.to_bytes().expect("encodes");
    let back = NtlmMessage::from_bytes(&bytes).expect("decodes");
    assert_eq!(back, msg);
}

#[test]
fn challenge_roundtrip_with_version() {
    let msg = NtlmMessage::Challenge(NtlmChallengeMessage {
        target_name: "SRV".to_string(),
        flags: NtlmFlags::from_bits(
            NtlmFlags::NEGOTIATE_UNICODE | NtlmFlags::NEGOTIATE_VERSION,
        ),
        challenge: [8, 7, 6, 5, 4, 3, 2, 1],
        context: (0, 0),
        target_information: vec![],
        os_version: OsVersion {
            major_version: 6,
            minor_version: 3,
            build_number: 9600,
            reserved: [0, 0, 0],
            ntlm_revision: 15,
        },
    });
    let bytes = msg.to_bytes().expect("encodes");
    let back = NtlmMessage::from_bytes(&bytes).expect("decodes");
    assert_eq!(back, msg);
}

#[test]
fn authenticate_roundtrip_with_version() {
    let msg = NtlmMessage::Authenticate(NtlmAuthenticateMessage {
        lm_response: vec![1; 24],
        ntlm_response: vec![2; 48],
        domain_name: "D".to_string(),
        user_name: "u".to_string(),
        workstation_name: "w".to_string(),
        session_key: vec![3; 16],
        flags: NtlmFlags::from_bits(
            NtlmFlags::NEGOTIATE_UNICODE | NtlmFlags::NEGOTIATE_VERSION,
        ),
        os_version: OsVersion {
            major_version: 10,
            minor_version: 0,
            build_number: 22631,
            reserved: [0, 0, 0],
            ntlm_revision: 15,
        },
    });
    let bytes = msg.to_bytes().expect("encodes");
    let back = NtlmMessage::from_bytes(&bytes).expect("decodes");
    assert_eq!(back, msg);
}

#[test]
fn authenticate_roundtrip() {
    let msg = NtlmMessage::Authenticate(NtlmAuthenticateMessage {
        lm_response: vec![0xaa; 24],
        ntlm_response: vec![0xbb; 24],
        domain_name: "EXAMPLE".to_string(),
        user_name: "alice".to_string(),
        workstation_name: "ws".to_string(),
        session_key: vec![],
        flags: NtlmFlags::from_bits(NtlmFlags::NEGOTIATE_UNICODE | NtlmFlags::NEGOTIATE_NTLM),
        os_version: OsVersion::default(),
    });
    let bytes = msg.to_bytes().expect("encodes");
    let back = NtlmMessage::from_bytes(&bytes).expect("decodes");
    assert_eq!(back, msg);
}

#[test]
fn other_roundtrip() {
    let msg = NtlmMessage::Other(7, vec![1, 2, 3, 4, 5]);
    let bytes = msg.to_bytes().expect("encodes");
    assert_eq!(&bytes[0..8], b"NTLMSSP\0");
    assert_eq!(&bytes[8..12], &[7, 0, 0, 0]);
    let back = NtlmMessage::from_bytes(&bytes).expect("decodes");
    assert_eq!(back, msg);
}

#[test]
fn decode_short_header_fails() {
    let r = NtlmMessage::from_bytes(&[0x4e, 0x54, 0x4c]);
    assert_eq!(r, Err(NtlmParsingError::ShortHeader { expected_min_len: 12, obtained_len: 3 }));
}

#[test]
fn decode_wrong_magic_fails() {
    let mut bytes = vec![0u8; 40];
    bytes[0..8].copy_from_slice(b"NTLMSPP\0");
    let r = NtlmMessage::from_bytes(&bytes);
    match r {
        Err(NtlmParsingError::MagicMismatch { expected, obtained }) => {
            assert_eq!(&expected, b"NTLMSSP\0");
            assert_eq!(obtained, b"NTLMSPP\0".to_vec());
        },
        other => panic!("expected a magic mismatch, got {:?}", other),
    }
}

#[test]
fn decode_neither_encoding_fails() {
    // a well-formed negotiate body whose flag word negotiates no text encoding
    let mut bytes: Vec<u8> = Vec::new();
    bytes.extend_from_slice(b"NTLMSSP\0");
    bytes.extend_from_slice(&[0x01, 0, 0, 0]);
    bytes.extend_from_slice(&[0, 0, 0, 0]); // flags: neither unicode nor legacy
    bytes.extend_from_slice(&[0, 0, 0, 0, 0, 0, 0, 0]); // empty domain
    bytes.extend_from_slice(&[0, 0, 0, 0, 0, 0, 0, 0]); // empty workstation
    let r = NtlmMessage::from_bytes(&bytes);
    assert_eq!(r, Err(NtlmParsingError::NeitherUnicodeNorOem));
}

#[test]
fn encode_neither_encoding_fails() {
    let msg = NtlmMessage::Negotiate(NtlmNegotiateMessage {
        flags: NtlmFlags::from_bits(NtlmFlags::NEGOTIATE_NTLM),
        supplied_domain: String::new(),
        supplied_workstation: String::new(),
        os_version: OsVersion::default(),
    });
    assert_eq!(msg.to_bytes(), Err(NtlmStoringError::NeitherUnicodeNorOem));
}

#[test]
fn decode_invalid_utf16_fails() {
    // a lone high surrogate is not valid UTF-16
    let mut bytes: Vec<u8> = Vec::new();
    bytes.extend_from_slice(b"NTLMSSP\0");
    bytes.extend_from_slice(&[0x01, 0, 0, 0]);
    bytes.extend_from_slice(&[0x01, 0, 0, 0]); // flags: unicode
    bytes.extend_from_slice(&[2, 0, 2, 0, 32, 0, 0, 0]); // domain: 2 bytes at 32
    bytes.extend_from_slice(&[0, 0, 0, 0, 0, 0, 0, 0]); // empty workstation
    bytes.extend_from_slice(&[0x00, 0xd8]);
    let r = NtlmMessage::from_bytes(&bytes);
    assert_eq!(r, Err(NtlmParsingError::InvalidUtf16 { value: vec![0xd800] }));
}

#[test]
fn decode_invalid_legacy_text_fails() {
    // legacy-encoding flag with bytes the platform's narrow decoder rejects
    let mut bytes: Vec<u8> = Vec::new();
    bytes.extend_from_slice(b"NTLMSSP\0");
    bytes.extend_from_slice(&[0x01, 0, 0, 0]);
    bytes.extend_from_slice(&[0x02, 0, 0, 0]); // flags: legacy encoding
    bytes.extend_from_slice(&[2, 0, 2, 0, 32, 0, 0, 0]); // domain: 2 bytes at 32
    bytes.extend_from_slice(&[0, 0, 0, 0, 0, 0, 0, 0]); // empty workstation
    bytes.extend_from_slice(&[0xff, 0xfe]);
    let r = NtlmMessage::from_bytes(&bytes);
    assert_eq!(r, Err(NtlmParsingError::InvalidOemEncoding { value: vec![0xff, 0xfe] }));
}

#[test]
fn encode_overlong_text_field_fails() {
    let long: String = "x".repeat(40_000); // 80 000 UTF-16 bytes
    let msg = NtlmMessage::Negotiate(NtlmNegotiateMessage {
        flags: NtlmFlags::from_bits(NtlmFlags::NEGOTIATE_UNICODE),
        supplied_domain: String::new(),
        supplied_workstation: long,
        os_version: OsVersion::default(),
    });
    assert_eq!(msg.to_bytes(), Err(NtlmStoringError::FieldTooLong { obtained: 80_000 }));
}

#[test]
fn decode_challenge_with_truncated_target_info_fails() {
    // target-info secbuf pointing at a block whose entry declares more
    // bytes than remain
    let flags = NtlmFlags::NEGOTIATE_UNICODE;
    let mut bytes: Vec<u8> = Vec::new();
    bytes.extend_from_slice(b"NTLMSSP\0");
    bytes.extend_from_slice(&[0x02, 0, 0, 0]);
    bytes.extend_from_slice(&[0, 0, 0, 0, 0, 0, 0, 0]); // empty target name
    bytes.extend_from_slice(&flags.to_le_bytes());
    bytes.extend_from_slice(&[1, 2, 3, 4, 5, 6, 7, 8]); // challenge
    bytes.extend_from_slice(&[0; 8]); // context
    bytes.extend_from_slice(&[6, 0, 6, 0, 56, 0, 0, 0]); // target info: 6 bytes at 56
    bytes.extend_from_slice(&[0; 8]); // version area (flag unset)
    bytes.extend_from_slice(&[0x02, 0x00, 0x20, 0x00, 0x41, 0x00]); // declares 32 payload bytes
    let r = NtlmMessage::from_bytes(&bytes);
    assert_eq!(
        r,
        Err(NtlmParsingError::ItemMinLengthMismatch { expected_at_least: 36, obtained: 6 })
    );
}

#[test]
fn reencoding_decoded_challenge_preserves_bytes() {
    // decode then re-encode: the target-info block keeps its bytes even
    // with a terminator entry physically present
    let msg = NtlmMessage::Challenge(NtlmChallengeMessage {
        target_name: "T".to_string(),
        flags: NtlmFlags::from_bits(NtlmFlags::NEGOTIATE_UNICODE),
        challenge: [9, 8, 7, 6, 5, 4, 3, 2],
        context: (1, 2),
        target_information: vec![
            NtlmTargetInfoEntry::from_string(NtlmTargetInfoType::DnsDomain, "d.example"),
            NtlmTargetInfoEntry { entry_type: NtlmTargetInfoType::Terminator, data: vec![] },
        ],
        os_version: OsVersion::default(),
    });
    let bytes = msg.to_bytes().expect("encodes");
    let back = NtlmMessage::from_bytes(&bytes).expect("decodes");
    let again = back.to_bytes().expect("re-encodes");
    assert_eq!(again, bytes);
}

#[test]
fn message_numbers() {
    let n = NtlmMessage::Negotiate(NtlmNegotiateMessage {
        flags: NtlmFlags::from_bits(NtlmFlags::NEGOTIATE_UNICODE),
        supplied_domain: String::new(),
        supplied_workstation: String::new(),
        os_version: OsVersion::default(),
    });
    assert_eq!(n.message_number(), 1);
    assert_eq!(NtlmMessage::Other(0x99, vec![]).message_number(), 0x99);
}

#[test]
fn os_version_codec() {
    let v = OsVersion {
        major_version: 6,
        minor_version: 1,
        build_number: 7601,
        reserved: [0, 0, 0],
        ntlm_revision: 15,
    };
    let b = v.to_bytes();
    assert_eq!(b.len(), 8);
    assert_eq!(OsVersion::from_bytes(&b).expect("decodes"), v);
    assert_eq!(
        OsVersion::from_bytes(&b[0..5]),
        Err(NtlmParsingError::ItemLengthMismatch { expected: 8, obtained: 5 })
    );
}

#[test]
fn text_field_encoding_is_utf16() {
    // the workstation field of an encoded negotiate carries UTF-16 bytes
    let msg = NtlmMessage::Negotiate(NtlmNegotiateMessage {
        flags: NtlmFlags::from_bits(NtlmFlags::NEGOTIATE_UNICODE),
        supplied_domain: String::new(),
        supplied_workstation: "host".to_string(),
        os_version: OsVersion::default(),
    });
    let bytes = msg.to_bytes().expect("encodes");
    let tail = &bytes[bytes.len() - 8..];
    assert_eq!(tail, utf16le("host").as_slice());
}
