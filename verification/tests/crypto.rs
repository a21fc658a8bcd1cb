use hmac::Mac;
use ntlmclient::{
    des_long, lm_key_from_oem_bytes, lm_v1_password_func, ntlm_v1_password_func,
    ntlm_v2_password_func, respond_challenge_ntlm_v1, respond_challenge_ntlm_v1_extended,
    respond_challenge_ntlm_v1_extended_with, respond_challenge_ntlm_v1_no_lm,
    respond_challenge_ntlm_v2, respond_challenge_ntlm_v2_with, NtlmCredentials, NtlmFlags,
    NtlmMessage,
};

const SERVER_CHALLENGE: [u8; 8] = [0x01, 0x23, 0x45, 0x67, 0x89, 0xab, 0xcd, 0xef];

fn hex(bytes: &[u8]) -> String {
    bytes.iter().map(|b| format!("{:02x}", b)).collect()
}

fn creds(user: &str, password: &str, domain: &str) -> NtlmCredentials {
    NtlmCredentials {
        username: user.to_string(),
        password: password.to_string(),
        domain: domain.to_string(),
    }
}

fn utf16le(s: &str) -> Vec<u8> {
    s.encode_utf16().flat_map(|w| w.to_le_bytes()).collect()
}

fn hmac_md5(key: &[u8], data: &[u8]) -> Vec<u8> {
    let mut mac = <hmac::Hmac<md5::Md5> as Mac>::new_from_slice(key).unwrap();
    mac.update(data);
    mac.finalize().into_bytes().to_vec()
}

#[test]
fn ntlm_key_of_empty_password() {
    // the MD4 digest of the empty string, a published value
    assert_eq!(hex(&ntlm_v1_password_func("")), "31d6cfe0d16ae931b73c59d7e0c089c0");
}

#[test]
fn ntlm_key_reference_vector() {
    assert_eq!(hex(&ntlm_v1_password_func("Password")), "a4f49c406510bdcab6824ee7c30fd852");
}

#[test]
fn lm_key_reference_vector() {
    assert_eq!(hex(&lm_v1_password_func("Password")), "e52cac67419a9a224a3b108f3fa6cb6d");
}

#[test]
fn lm_key_from_bytes_reference_vector() {
    assert_eq!(
        hex(&lm_key_from_oem_bytes(&b"PASSWORD".to_vec())),
        "e52cac67419a9a224a3b108f3fa6cb6d"
    );
}

#[test]
fn des_long_is_deterministic() {
    let key: [u8; 16] = [
        0, 1, 2, 3, 4, 5, 6, 7, 8, 9, 10, 11, 12, 13, 14, 15,
    ];
    let data: [u8; 8] = [0x00, 0x11, 0x22, 0x33, 0x44, 0x55, 0x66, 0x77];
    let a = des_long(key, data);
    let b = des_long(key, data);
    assert_eq!(a, b);
    assert_eq!(hex(&a), "9d2f53af6852b73c40e8c3539c05347259a55ae2137109cd");
}

#[test]
fn v1_response_reference_vector() {
    let r = respond_challenge_ntlm_v1(SERVER_CHALLENGE, &creds("User", "Password", "Domain"));
    assert_eq!(hex(&r.ntlm_response), "67c43011f30298a2ad35ece64f16331c44bdbed927841f94");
    assert_eq!(hex(&r.lm_response), "98def7b87f88aa5dafe2df779688a172def11c7d5ccdef13");
    assert_eq!(hex(&r.session_key), "d87262b0cde4b1cb7499becccdf10784");
}

#[test]
fn v1_no_lm_copies_ntlm_response() {
    let r = respond_challenge_ntlm_v1_no_lm(SERVER_CHALLENGE, &creds("User", "Password", "Domain"));
    assert_eq!(hex(&r.ntlm_response), "67c43011f30298a2ad35ece64f16331c44bdbed927841f94");
    assert_eq!(r.lm_response, r.ntlm_response);
    assert_eq!(hex(&r.session_key), "d87262b0cde4b1cb7499becccdf10784");
}

#[test]
fn v1_extended_reference_vector() {
    let client: [u8; 8] = [0xaa; 8];
    let r = respond_challenge_ntlm_v1_extended_with(
        SERVER_CHALLENGE,
        client,
        &creds("User", "Password", "Domain"),
    );
    assert_eq!(hex(&r.ntlm_response), "7537f803ae367128ca458204bde7caf81e97ed2683267232");
    let mut lm = client.to_vec();
    lm.extend_from_slice(&[0; 16]);
    assert_eq!(r.lm_response, lm);
    assert_eq!(hex(&r.session_key), "d87262b0cde4b1cb7499becccdf10784");
}

#[test]
fn v1_extended_random_has_structure() {
    let r = respond_challenge_ntlm_v1_extended(
        SERVER_CHALLENGE,
        &creds("User", "Password", "Domain"),
    );
    assert_eq!(r.lm_response.len(), 24);
    assert_eq!(&r.lm_response[8..], &[0u8; 16]);
    assert_eq!(r.ntlm_response.len(), 24);
    let client: [u8; 8] = r.lm_response[0..8].try_into().unwrap();
    let again = respond_challenge_ntlm_v1_extended_with(
        SERVER_CHALLENGE,
        client,
        &creds("User", "Password", "Domain"),
    );
    assert_eq!(r.ntlm_response, again.ntlm_response);
}

#[test]
fn v2_key_reference_vector() {
    assert_eq!(
        hex(&ntlm_v2_password_func(&creds("User", "Password", "Domain"))),
        "0c868a403bfd7a93a3001ef22ef02e3f"
    );
}

#[test]
fn v2_key_folds_username_case() {
    let lower = ntlm_v2_password_func(&creds("user", "Password", "Domain"));
    let upper = ntlm_v2_password_func(&creds("USER", "Password", "Domain"));
    assert_eq!(lower, upper);
}

#[test]
fn v2_response_reference_vector() {
    // AV pairs: NetBIOS domain "Domain", NetBIOS server "Server", terminator
    let mut ti: Vec<u8> = Vec::new();
    ti.extend_from_slice(&[0x02, 0x00, 0x0c, 0x00]);
    ti.extend_from_slice(&utf16le("Domain"));
    ti.extend_from_slice(&[0x01, 0x00, 0x0c, 0x00]);
    ti.extend_from_slice(&utf16le("Server"));
    ti.extend_from_slice(&[0x00, 0x00, 0x00, 0x00]);
    let client: [u8; 8] = [0xaa; 8];
    let r = respond_challenge_ntlm_v2_with(
        SERVER_CHALLENGE,
        &ti,
        0,
        client,
        &creds("User", "Password", "Domain"),
    );
    assert_eq!(hex(&r.ntlm_response[0..16]), "68cd0ab851e51c96aabc927bebef6a1c");
    assert_eq!(hex(&r.session_key), "8de40ccadbc14a82f15cb0ad0de95ca3");
    assert_eq!(hex(&r.lm_response), "86c35097ac9cec102554764a57cccc19aaaaaaaaaaaaaaaa");
}

#[test]
fn v2_response_structure() {
    // the NTLM response is the NT proof followed by the literal temp blob
    let ti: Vec<u8> = vec![0x02, 0x00, 0x02, 0x00, 0x41, 0x00];
    let client: [u8; 8] = [1, 2, 3, 4, 5, 6, 7, 8];
    let time: i64 = 0x0123_4567_89ab_cdef;
    let c = creds("alice", "Secret123", "EXAMPLE");
    let r = respond_challenge_ntlm_v2_with(SERVER_CHALLENGE, &ti, time, client, &c);

    let mut temp: Vec<u8> = Vec::new();
    temp.extend_from_slice(&[0x01, 0x01, 0, 0, 0, 0, 0, 0]);
    temp.extend_from_slice(&time.to_le_bytes());
    temp.extend_from_slice(&client);
    temp.extend_from_slice(&[0, 0, 0, 0]);
    temp.extend_from_slice(&ti);
    temp.extend_from_slice(&[0, 0, 0, 0]);
    assert_eq!(&r.ntlm_response[16..], temp.as_slice());

    let key = ntlm_v2_password_func(&c);
    let mut proof_input = SERVER_CHALLENGE.to_vec();
    proof_input.extend_from_slice(&temp);
    let nt_proof = hmac_md5(&key, &proof_input);
    assert_eq!(&r.ntlm_response[0..16], nt_proof.as_slice());
    assert_eq!(r.session_key, hmac_md5(&key, &nt_proof));
    let mut lm_input = SERVER_CHALLENGE.to_vec();
    lm_input.extend_from_slice(&client);
    let mut lm = hmac_md5(&key, &lm_input);
    lm.extend_from_slice(&client);
    assert_eq!(r.lm_response, lm);
}

#[test]
fn v2_random_variant_has_structure() {
    let ti: Vec<u8> = vec![0x02, 0x00, 0x02, 0x00, 0x41, 0x00];
    let c = creds("alice", "Secret123", "EXAMPLE");
    let r = respond_challenge_ntlm_v2(SERVER_CHALLENGE, &ti, 7, &c);
    assert_eq!(r.lm_response.len(), 24);
    let client: [u8; 8] = r.lm_response[16..24].try_into().unwrap();
    let again = respond_challenge_ntlm_v2_with(SERVER_CHALLENGE, &ti, 7, client, &c);
    assert_eq!(r.ntlm_response, again.ntlm_response);
    assert_eq!(r.lm_response, again.lm_response);
    assert_eq!(r.session_key, again.session_key);
}

#[test]
fn v2_end_to_end_scenario() {
    // fixed inputs; the expected values were computed once when this
    // suite was written and any change signals a regression
    let mut ti: Vec<u8> = Vec::new();
    ti.extend_from_slice(&[0x02, 0x00, 0x0e, 0x00]);
    ti.extend_from_slice(&utf16le("EXAMPLE"));
    ti.extend_from_slice(&[0x00, 0x00, 0x00, 0x00]);
    let time: i64 = 133_000_000_000_000_000;
    let client: [u8; 8] = [0xaa; 8];
    let c = creds("alice", "Secret123", "EXAMPLE");
    assert_eq!(hex(&ntlm_v1_password_func("Secret123")), "63647965f13544c6551d5fdb7ffd13e0");
    assert_eq!(hex(&ntlm_v2_password_func(&c)), "3fa98561f30bec797d47034a7f510a68");
    let r = respond_challenge_ntlm_v2_with(SERVER_CHALLENGE, &ti, time, client, &c);
    assert_eq!(hex(&r.ntlm_response[0..16]), "0bd0f139c378a580a28cebc596c756b0");
    assert_eq!(hex(&r.session_key), "751cbf8b8b3f0d56d36f00c4e12f093d");
    assert_eq!(hex(&r.lm_response), "344d4f19ec15ddcafe13b44a246e0c7caaaaaaaaaaaaaaaa");
}

#[test]
fn response_to_message_packs_fields() {
    let c = creds("alice", "Secret123", "EXAMPLE");
    let r = respond_challenge_ntlm_v1(SERVER_CHALLENGE, &c);
    let flags = NtlmFlags::from_bits(NtlmFlags::NEGOTIATE_UNICODE | NtlmFlags::NEGOTIATE_NTLM);
    let msg = r.to_message(&c, "ws1", flags);
    match &msg {
        NtlmMessage::Authenticate(a) => {
            assert_eq!(a.lm_response, r.lm_response);
            assert_eq!(a.ntlm_response, r.ntlm_response);
            assert_eq!(a.session_key, r.session_key);
            assert_eq!(a.domain_name, "EXAMPLE");
            assert_eq!(a.user_name, "alice");
            assert_eq!(a.workstation_name, "ws1");
            assert_eq!(a.flags, flags);
        },
        other => panic!("expected an authenticate message, got {:?}", other),
    }
    let bytes = msg.to_bytes().expect("encodes");
    let back = NtlmMessage::from_bytes(&bytes).expect("decodes");
    assert_eq!(back, msg);
}
