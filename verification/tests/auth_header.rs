use ntlmclient::{auth_header_value, challenge_from_header, get_ntlm_time, second_token};

#[test]
fn header_value_is_scheme_and_base64() {
    assert_eq!(auth_header_value(b"abc"), "NTLM YWJj");
    assert_eq!(auth_header_value(b""), "NTLM ");
}

#[test]
fn header_value_of_message_prefix() {
    // base64 of "NTLMSSP\0\x01\0\0\0" is a well-known prefix
    let bytes = b"NTLMSSP\x00\x01\x00\x00\x00";
    assert_eq!(auth_header_value(bytes), "NTLM TlRMTVNTUAABAAAA");
}

#[test]
fn challenge_extraction_decodes_second_token() {
    assert_eq!(challenge_from_header(b"NTLM YWJj"), Some(b"abc".to_vec()));
}

#[test]
fn challenge_extraction_ignores_third_token() {
    assert_eq!(challenge_from_header(b"NTLM YWJj extra"), Some(b"abc".to_vec()));
}

#[test]
fn challenge_extraction_without_token_fails() {
    assert_eq!(challenge_from_header(b"Negotiate"), None);
}

#[test]
fn challenge_extraction_invalid_base64_fails() {
    assert_eq!(challenge_from_header(b"NTLM !!!"), None);
}

#[test]
fn second_token_splits_on_spaces() {
    assert_eq!(second_token(b"a bc d"), Some(b"bc".to_vec()));
    assert_eq!(second_token(b"a "), Some(b"".to_vec()));
    assert_eq!(second_token(b"abc"), None);
}

#[test]
fn ntlm_time_is_in_plausible_range() {
    // ticks since 1601 in 100 ns units: somewhere in the 21st century
    let t = get_ntlm_time();
    assert!(t > 125_000_000_000_000_000);
    assert!(t < 160_000_000_000_000_000);
}
