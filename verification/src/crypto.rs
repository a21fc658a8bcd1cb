//! Password and key derivation and the four challenge-response
//! algorithm variants.
//!
//! Each hash and cipher result carries a name (`md4_of`, `md5_of`,
//! `hmac_md5_of`, `des_block_of`) that the contracts speak about; the
//! variants that draw a random client challenge also exist in a `_with`
//! form taking the challenge as an argument, whose contract is exact.

use vstd::prelude::*;
use vstd::slice::slice_to_vec;
use cipher::{BlockEncrypt, KeyInit};
use digest::Digest;
use hmac::Mac;
use rand::Rng;
use chrono::TimeZone;
use vstd::string::StringExecFns;
use crate::bytes::{append_bytes, copy_range, i64_as_u64, push_u64_le, spec_i64_as_u64, spec_le64};
use crate::flags::NtlmFlags;
use crate::msg::{AuthenticateModel, MessageModel, NtlmAuthenticateMessage, NtlmMessage};
use crate::osver::OsVersion;
use crate::text::{oem_bytes, upper_of, uppercase, utf16le_bytes, utf16le_of};

verus! {

/// One DES block encryption: the ciphertext of `block` under `key`.
pub uninterp spec fn des_block_of(key: Seq<u8>, block: Seq<u8>) -> Seq<u8>;

/// The 16-byte MD4 digest of `data`.
pub uninterp spec fn md4_of(data: Seq<u8>) -> Seq<u8>;

/// The 16-byte MD5 digest of `data`.
pub uninterp spec fn md5_of(data: Seq<u8>) -> Seq<u8>;

/// The 16-byte HMAC-MD5 tag of `data` under `key`.
pub uninterp spec fn hmac_md5_of(key: Seq<u8>, data: Seq<u8>) -> Seq<u8>;

/// Relies on des::Des (through cipher's KeyInit and BlockEncrypt): one
/// block encryption under an 8-byte key, a function of key and block
/// alone.  An 8-byte slice is always an accepted key (the low bit of
/// each byte is parity and is ignored by the cipher).
#[verifier::external_body]
fn des_encrypt_block(key: &[u8; 8], block: &[u8; 8]) -> (r: [u8; 8])
    ensures
        r@ == des_block_of(key@, block@),
{
    let des = des::Des::new_from_slice(key.as_slice()).unwrap();
    let mut buf = cipher::generic_array::GenericArray::clone_from_slice(block.as_slice());
    des.encrypt_block(&mut buf);
    let mut out = [0u8; 8];
    out.copy_from_slice(buf.as_slice());
    out
}

/// Relies on md4::Md4 (through digest::Digest): the digest is a
/// function of the input alone and is 16 bytes long.
#[verifier::external_body]
fn md4_digest(data: &[u8]) -> (r: [u8; 16])
    ensures
        r@ == md4_of(data@),
{
    let mut state = <md4::Md4 as Digest>::new();
    Digest::update(&mut state, data);
    let out = Digest::finalize(state);
    let mut r = [0u8; 16];
    r.copy_from_slice(out.as_slice());
    r
}

/// Relies on md5::Md5 (through digest::Digest): the digest is a
/// function of the input alone and is 16 bytes long.
#[verifier::external_body]
fn md5_digest(data: &[u8]) -> (r: [u8; 16])
    ensures
        r@ == md5_of(data@),
{
    let mut state = <md5::Md5 as Digest>::new();
    Digest::update(&mut state, data);
    let out = Digest::finalize(state);
    let mut r = [0u8; 16];
    r.copy_from_slice(out.as_slice());
    r
}

/// Relies on hmac::Hmac over md5::Md5 (through hmac::Mac): the tag is a
/// function of key and message alone, 16 bytes long, and every key
/// length is accepted.
#[verifier::external_body]
fn hmac_md5_tag(key: &[u8], data: &[u8]) -> (r: [u8; 16])
    ensures
        r@ == hmac_md5_of(key@, data@),
{
    let mut mac = <hmac::Hmac<md5::Md5> as Mac>::new_from_slice(key).unwrap();
    Mac::update(&mut mac, data);
    let out = Mac::finalize(mac).into_bytes();
    let mut r = [0u8; 16];
    r.copy_from_slice(out.as_slice());
    r
}

/// Relies on rand's OsRng, the operating system's secure source: the
/// bytes depend on it alone, so nothing is assumed of them.  Aborts if
/// the source fails; no fixed fallback is ever substituted.
#[verifier::external_body]
fn random_bytes_8() -> (r: [u8; 8]) {
    let mut b = [0u8; 8];
    rand::rngs::OsRng.fill(&mut b);
    b
}

/// Relies on chrono's Utc clock and calendar arithmetic: the count of
/// 100-nanosecond ticks from 1601-01-01 to now.  The value depends on
/// the wall clock, so nothing is assumed of it.
#[verifier::external_body]
pub fn get_ntlm_time() -> (r: i64) {
    let windows_epoch = chrono::Utc.with_ymd_and_hms(1601, 1, 1, 0, 0, 0).unwrap();
    let now = chrono::Utc::now();
    ((now - windows_epoch) * 10_000_000).num_seconds()
}

#[derive(Clone, Debug, PartialEq, Eq, Hash)]
pub struct NtlmCredentials {
    pub username: String,
    pub password: String,
    pub domain: String,
}

#[derive(Clone, Debug, PartialEq, Eq, Hash)]
pub struct ChallengeResponse {
    pub lm_response: Vec<u8>,
    pub ntlm_response: Vec<u8>,
    pub session_key: Vec<u8>,
}

/// Spreads the 56 key bits of a 7-byte chunk over eight bytes, leaving
/// the low (parity) bit of each byte clear for the cipher to ignore.
pub open spec fn spec_expand_des_key(k: Seq<u8>) -> Seq<u8>
    recommends
        k.len() == 7,
{
    seq![
        k[0],
        (k[0] << 7) | (k[1] >> 1),
        (k[1] << 6) | (k[2] >> 2),
        (k[2] << 5) | (k[3] >> 3),
        (k[3] << 4) | (k[4] >> 4),
        (k[4] << 3) | (k[5] >> 5),
        (k[5] << 2) | (k[6] >> 6),
        k[6] << 1,
    ]
}

fn expand_des_key(k: &[u8; 7]) -> (r: [u8; 8])
    ensures
        r@ == spec_expand_des_key(k@),
{
    let ks = k.as_slice();
    let r: [u8; 8] = [
        ks[0],
        (ks[0] << 7) | (ks[1] >> 1),
        (ks[1] << 6) | (ks[2] >> 2),
        (ks[2] << 5) | (ks[3] >> 3),
        (ks[3] << 4) | (ks[4] >> 4),
        (ks[4] << 3) | (ks[5] >> 5),
        (ks[5] << 2) | (ks[6] >> 6),
        ks[6] << 1,
    ];
    proof {
        assert(r@ =~= spec_expand_des_key(k@));
    }
    r
}

/// The 24-byte expansion: the same block encrypted under three 7-byte
/// key chunks (the third padded with zero bytes), concatenated.  This
/// is not standard triple-DES: the three encryptions are independent.
pub open spec fn spec_des_long(key: Seq<u8>, data: Seq<u8>) -> Seq<u8>
    recommends
        key.len() == 16,
        data.len() == 8,
{
    des_block_of(spec_expand_des_key(key.subrange(0, 7)), data) + des_block_of(
        spec_expand_des_key(key.subrange(7, 14)),
        data,
    ) + des_block_of(
        spec_expand_des_key(seq![key[14], key[15], 0u8, 0u8, 0u8, 0u8, 0u8]),
        data,
    )
}

pub fn des_long(key: [u8; 16], data: [u8; 8]) -> (r: [u8; 24])
    ensures
        r@ == spec_des_long(key@, data@),
{
    let ks = key.as_slice();
    let key0: [u8; 7] = [ks[0], ks[1], ks[2], ks[3], ks[4], ks[5], ks[6]];
    let key1: [u8; 7] = [ks[7], ks[8], ks[9], ks[10], ks[11], ks[12], ks[13]];
    let key2: [u8; 7] = [ks[14], ks[15], 0, 0, 0, 0, 0];
    proof {
        assert(key0@ =~= key@.subrange(0, 7));
        assert(key1@ =~= key@.subrange(7, 14));
        assert(key2@ =~= seq![key@[14], key@[15], 0u8, 0u8, 0u8, 0u8, 0u8]);
    }
    let r0 = des_encrypt_block(&expand_des_key(&key0), &data);
    let r1 = des_encrypt_block(&expand_des_key(&key1), &data);
    let r2 = des_encrypt_block(&expand_des_key(&key2), &data);
    let a = r0.as_slice();
    let b = r1.as_slice();
    let c = r2.as_slice();
    let r: [u8; 24] = [
        a[0],
        a[1],
        a[2],
        a[3],
        a[4],
        a[5],
        a[6],
        a[7],
        b[0],
        b[1],
        b[2],
        b[3],
        b[4],
        b[5],
        b[6],
        b[7],
        c[0],
        c[1],
        c[2],
        c[3],
        c[4],
        c[5],
        c[6],
        c[7],
    ];
    proof {
        assert(r@ =~= spec_des_long(key@, data@));
    }
    r
}

/// The fixed plaintext that the legacy key derivation encrypts.
pub open spec fn spec_lm_plaintext() -> Seq<u8> {
    seq![0x4bu8, 0x47u8, 0x53u8, 0x21u8, 0x40u8, 0x23u8, 0x24u8, 0x25u8]
}

/// An all-zero 16-byte key.
pub open spec fn spec_zero_key16() -> Seq<u8> {
    Seq::new(16, |i: int| 0u8)
}

/// The legacy key derived from the narrow-encoded upper-case password
/// bytes: pad to 14 bytes with zeros, split into two 7-byte halves, and
/// encrypt the fixed plaintext under each.
pub open spec fn spec_lm_key_from_bytes(pb: Seq<u8>) -> Seq<u8> {
    let padded = if pb.len() >= 14 {
        pb
    } else {
        pb + Seq::new((14 - pb.len()) as nat, |i: int| 0u8)
    };
    des_block_of(spec_expand_des_key(padded.subrange(0, 7)), spec_lm_plaintext()) + des_block_of(
        spec_expand_des_key(padded.subrange(7, 14)),
        spec_lm_plaintext(),
    )
}

/// The legacy key computed from already narrow-encoded password bytes.
pub fn lm_key_from_oem_bytes(pb: &Vec<u8>) -> (r: [u8; 16])
    ensures
        r@ == spec_lm_key_from_bytes(pb@),
{
    let mut padded = copy_range(pb.as_slice(), 0, pb.len());
    while padded.len() < 14
        invariant
            padded@ == (if pb@.len() >= 14 {
                pb@
            } else {
                pb@ + Seq::new((padded@.len() - pb@.len()) as nat, |i: int| 0u8)
            }),
            padded@.len() >= pb@.len(),
        decreases 14 - padded@.len(),
    {
        padded.push(0);
        proof {
            assert(padded@ =~= pb@ + Seq::new((padded@.len() - pb@.len()) as nat, |i: int| 0u8));
        }
    }
    let ps = padded.as_slice();
    let half0: [u8; 7] = [ps[0], ps[1], ps[2], ps[3], ps[4], ps[5], ps[6]];
    let half1: [u8; 7] = [ps[7], ps[8], ps[9], ps[10], ps[11], ps[12], ps[13]];
    let plaintext: [u8; 8] = [0x4b, 0x47, 0x53, 0x21, 0x40, 0x23, 0x24, 0x25];
    proof {
        let padded_spec = if pb@.len() >= 14 {
            pb@
        } else {
            pb@ + Seq::new((14 - pb@.len()) as nat, |i: int| 0u8)
        };
        assert(half0@ =~= padded_spec.subrange(0, 7));
        assert(half1@ =~= padded_spec.subrange(7, 14));
        assert(plaintext@ =~= spec_lm_plaintext());
    }
    let e0 = des_encrypt_block(&expand_des_key(&half0), &plaintext);
    let e1 = des_encrypt_block(&expand_des_key(&half1), &plaintext);
    let a = e0.as_slice();
    let b = e1.as_slice();
    let r: [u8; 16] = [
        a[0],
        a[1],
        a[2],
        a[3],
        a[4],
        a[5],
        a[6],
        a[7],
        b[0],
        b[1],
        b[2],
        b[3],
        b[4],
        b[5],
        b[6],
        b[7],
    ];
    proof {
        assert(r@ =~= spec_lm_key_from_bytes(pb@));
    }
    r
}

/// The legacy key: the password upper-cased, narrow-encoded, and run
/// through the legacy derivation.  A password the narrow encoding
/// cannot represent yields the all-zero key (fail-closed, matching
/// observed server-tolerant behaviour) rather than an error.
pub fn lm_v1_password_func(password: &str) -> (r: [u8; 16])
    ensures
        (exists|pb: Seq<u8>| r@ == #[trigger] spec_lm_key_from_bytes(pb)) || r@
            == spec_zero_key16(),
{
    let upper = uppercase(password);
    match oem_bytes(upper.as_str()) {
        Some(pb) => lm_key_from_oem_bytes(&pb),
        None => {
            let r: [u8; 16] = [0, 0, 0, 0, 0, 0, 0, 0, 0, 0, 0, 0, 0, 0, 0, 0];
            proof {
                assert(r@ =~= spec_zero_key16());
            }
            r
        },
    }
}

/// The password hash that seeds all newer derivations.
pub open spec fn spec_ntlm_v1_key(password: Seq<char>) -> Seq<u8> {
    md4_of(utf16le_of(password))
}

/// The NTLM key: the MD4 digest of the UTF-16LE password.
pub fn ntlm_v1_password_func(password: &str) -> (r: [u8; 16])
    ensures
        r@ == spec_ntlm_v1_key(password@),
{
    let password_bytes = utf16le_bytes(password);
    md4_digest(password_bytes.as_slice())
}

/// The per-user key of the v2 derivation: HMAC-MD5, keyed with the NTLM
/// key, over the upper-cased user name and the domain, both UTF-16LE.
pub open spec fn spec_ntlm_v2_key(username: Seq<char>, domain: Seq<char>, password: Seq<
    char,
>) -> Seq<u8> {
    hmac_md5_of(spec_ntlm_v1_key(password), utf16le_of(upper_of(username)) + utf16le_of(domain))
}

pub fn ntlm_v2_password_func(creds: &NtlmCredentials) -> (r: [u8; 16])
    ensures
        r@ == spec_ntlm_v2_key(creds.username@, creds.domain@, creds.password@),
{
    let hmac_key = ntlm_v1_password_func(creds.password.as_str());
    let upper_user = uppercase(creds.username.as_str());
    let mut message = utf16le_bytes(upper_user.as_str());
    let dom_bytes = utf16le_bytes(creds.domain.as_str());
    append_bytes(&mut message, dom_bytes.as_slice());
    hmac_md5_tag(hmac_key.as_slice(), message.as_slice())
}

/// The v1 response: both responses are `des_long` expansions applied to
/// the server challenge (under the NTLM key and the legacy key), and
/// the session key is the MD4 digest of the NTLM key.  Which legacy key
/// was used depends on the platform's narrow encoding, so the LM clause
/// only says it was some legacy-derived (or the all-zero) key.
pub fn respond_challenge_ntlm_v1(server_challenge: [u8; 8], creds: &NtlmCredentials) -> (r:
    ChallengeResponse)
    ensures
        r.ntlm_response@ == spec_des_long(spec_ntlm_v1_key(creds.password@), server_challenge@),
        r.session_key@ == md4_of(spec_ntlm_v1_key(creds.password@)),
        (exists|pb: Seq<u8>|
            r.lm_response@ == spec_des_long(
                #[trigger] spec_lm_key_from_bytes(pb),
                server_challenge@,
            )) || r.lm_response@ == spec_des_long(spec_zero_key16(), server_challenge@),
{
    let ntlm_key = ntlm_v1_password_func(creds.password.as_str());
    let ntlm_arr = des_long(ntlm_key, server_challenge);
    let ntlm_response = slice_to_vec(ntlm_arr.as_slice());
    let lm_key = lm_v1_password_func(creds.password.as_str());
    let lm_arr = des_long(lm_key, server_challenge);
    let lm_response = slice_to_vec(lm_arr.as_slice());
    let sk_arr = md4_digest(ntlm_key.as_slice());
    let session_key = slice_to_vec(sk_arr.as_slice());
    proof {
        if exists|pb: Seq<u8>| lm_key@ == #[trigger] spec_lm_key_from_bytes(pb) {
            let pb = choose|pb: Seq<u8>| lm_key@ == #[trigger] spec_lm_key_from_bytes(pb);
            assert(lm_response@ == spec_des_long(spec_lm_key_from_bytes(pb), server_challenge@));
        }
    }
    ChallengeResponse { lm_response, ntlm_response, session_key }
}

/// The v1 variant without a distinct LM response: the LM response is
/// the NTLM response itself.
pub fn respond_challenge_ntlm_v1_no_lm(server_challenge: [u8; 8], creds: &NtlmCredentials) -> (r:
    ChallengeResponse)
    ensures
        r.ntlm_response@ == spec_des_long(spec_ntlm_v1_key(creds.password@), server_challenge@),
        r.lm_response@ == r.ntlm_response@,
        r.session_key@ == md4_of(spec_ntlm_v1_key(creds.password@)),
{
    let ntlm_key = ntlm_v1_password_func(creds.password.as_str());
    let ntlm_arr = des_long(ntlm_key, server_challenge);
    let ntlm_response = slice_to_vec(ntlm_arr.as_slice());
    let lm_response = slice_to_vec(ntlm_arr.as_slice());
    let sk_arr = md4_digest(ntlm_key.as_slice());
    let session_key = slice_to_vec(sk_arr.as_slice());
    ChallengeResponse { lm_response, ntlm_response, session_key }
}

/// The v1 extended-session-security response for a given client
/// challenge: the NTLM response expands the first eight MD5 bytes of
/// (server challenge, client challenge); the LM response is the client
/// challenge padded with sixteen zero bytes.
pub fn respond_challenge_ntlm_v1_extended_with(
    server_challenge: [u8; 8],
    client_challenge: [u8; 8],
    creds: &NtlmCredentials,
) -> (r: ChallengeResponse)
    ensures
        r.ntlm_response@ == spec_des_long(
            spec_ntlm_v1_key(creds.password@),
            md5_of(server_challenge@ + client_challenge@).subrange(0, 8),
        ),
        r.lm_response@ == client_challenge@ + Seq::new(16, |i: int| 0u8),
        r.session_key@ == md4_of(spec_ntlm_v1_key(creds.password@)),
{
    let ntlm_key = ntlm_v1_password_func(creds.password.as_str());
    let mut md5_input = slice_to_vec(server_challenge.as_slice());
    append_bytes(&mut md5_input, client_challenge.as_slice());
    proof {
        assert(md5_input@ =~= server_challenge@ + client_challenge@);
    }
    let digest = md5_digest(md5_input.as_slice());
    let ds = digest.as_slice();
    let desl_plaintext: [u8; 8] = [ds[0], ds[1], ds[2], ds[3], ds[4], ds[5], ds[6], ds[7]];
    proof {
        assert(desl_plaintext@ =~= md5_of(server_challenge@ + client_challenge@).subrange(0, 8));
    }
    let ntlm_arr = des_long(ntlm_key, desl_plaintext);
    let ntlm_response = slice_to_vec(ntlm_arr.as_slice());
    let mut lm_response = slice_to_vec(client_challenge.as_slice());
    let mut i: usize = 0;
    while i < 16
        invariant
            i <= 16,
            lm_response@ == client_challenge@ + Seq::new(i as nat, |j: int| 0u8),
        decreases 16 - i,
    {
        lm_response.push(0);
        i = i + 1;
        proof {
            assert(lm_response@ =~= client_challenge@ + Seq::new(i as nat, |j: int| 0u8));
        }
    }
    let sk_arr = md4_digest(ntlm_key.as_slice());
    let session_key = slice_to_vec(sk_arr.as_slice());
    proof {
        assert(lm_response@ =~= client_challenge@ + Seq::new(16, |j: int| 0u8));
    }
    ChallengeResponse { lm_response, ntlm_response, session_key }
}

/// The v1 extended-session-security response with a fresh random client
/// challenge: the fields relate exactly as in the `_with` form, for
/// some eight random bytes.
pub fn respond_challenge_ntlm_v1_extended(server_challenge: [u8; 8], creds: &NtlmCredentials) -> (r:
    ChallengeResponse)
    ensures
        exists|cc: Seq<u8>|
            {
                &&& cc.len() == 8
                &&& r.ntlm_response@ == spec_des_long(
                    spec_ntlm_v1_key(creds.password@),
                    #[trigger] md5_of(server_challenge@ + cc).subrange(0, 8),
                )
                &&& r.lm_response@ == cc + Seq::new(16, |i: int| 0u8)
                &&& r.session_key@ == md4_of(spec_ntlm_v1_key(creds.password@))
            },
{
    let client_challenge = random_bytes_8();
    let r = respond_challenge_ntlm_v1_extended_with(server_challenge, client_challenge, creds);
    proof {
        assert(client_challenge@.len() == 8);
    }
    r
}

/// The "temp" blob of the v2 derivation: version bytes, reserved zeros,
/// the little-endian timestamp, the client challenge, reserved zeros,
/// the target-info block, and four trailing zero bytes.
pub open spec fn spec_v2_temp(time: i64, client: Seq<u8>, target_info: Seq<u8>) -> Seq<u8> {
    seq![1u8, 1u8, 0u8, 0u8, 0u8, 0u8, 0u8, 0u8] + spec_le64(spec_i64_as_u64(time)) + client + seq![
        0u8,
        0u8,
        0u8,
        0u8,
    ] + target_info + seq![0u8, 0u8, 0u8, 0u8]
}

/// The v2 response for a given client challenge: the NT proof is the
/// keyed hash of (server challenge, temp); the NTLM response is the NT
/// proof followed by temp; the LM response is the keyed hash of
/// (server challenge, client challenge) followed by the client
/// challenge; the session key is the keyed hash of the NT proof.
pub fn respond_challenge_ntlm_v2_with(
    server_challenge: [u8; 8],
    target_info: &[u8],
    time: i64,
    client_challenge: [u8; 8],
    creds: &NtlmCredentials,
) -> (r: ChallengeResponse)
    ensures
        r.ntlm_response@ == hmac_md5_of(
            spec_ntlm_v2_key(creds.username@, creds.domain@, creds.password@),
            server_challenge@ + spec_v2_temp(time, client_challenge@, target_info@),
        ) + spec_v2_temp(time, client_challenge@, target_info@),
        r.lm_response@ == hmac_md5_of(
            spec_ntlm_v2_key(creds.username@, creds.domain@, creds.password@),
            server_challenge@ + client_challenge@,
        ) + client_challenge@,
        r.session_key@ == hmac_md5_of(
            spec_ntlm_v2_key(creds.username@, creds.domain@, creds.password@),
            hmac_md5_of(
                spec_ntlm_v2_key(creds.username@, creds.domain@, creds.password@),
                server_challenge@ + spec_v2_temp(time, client_challenge@, target_info@),
            ),
        ),
{
    let mut temp: Vec<u8> = Vec::new();
    temp.push(0x01);
    temp.push(0x01);
    temp.push(0x00);
    temp.push(0x00);
    temp.push(0x00);
    temp.push(0x00);
    temp.push(0x00);
    temp.push(0x00);
    push_u64_le(&mut temp, i64_as_u64(time));
    append_bytes(&mut temp, client_challenge.as_slice());
    temp.push(0x00);
    temp.push(0x00);
    temp.push(0x00);
    temp.push(0x00);
    append_bytes(&mut temp, target_info);
    temp.push(0x00);
    temp.push(0x00);
    temp.push(0x00);
    temp.push(0x00);
    proof {
        assert(temp@ =~= spec_v2_temp(time, client_challenge@, target_info@));
    }
    let ntlm_key = ntlm_v2_password_func(creds);
    let mut proof_input = slice_to_vec(server_challenge.as_slice());
    append_bytes(&mut proof_input, temp.as_slice());
    proof {
        assert(proof_input@ =~= server_challenge@ + temp@);
    }
    let nt_proof = hmac_md5_tag(ntlm_key.as_slice(), proof_input.as_slice());
    let mut ntlm_response = slice_to_vec(nt_proof.as_slice());
    append_bytes(&mut ntlm_response, temp.as_slice());
    let mut lm_input = slice_to_vec(server_challenge.as_slice());
    append_bytes(&mut lm_input, client_challenge.as_slice());
    proof {
        assert(lm_input@ =~= server_challenge@ + client_challenge@);
    }
    let lm_tag = hmac_md5_tag(ntlm_key.as_slice(), lm_input.as_slice());
    let mut lm_response = slice_to_vec(lm_tag.as_slice());
    append_bytes(&mut lm_response, client_challenge.as_slice());
    let sk_arr = hmac_md5_tag(ntlm_key.as_slice(), nt_proof.as_slice());
    let session_key = slice_to_vec(sk_arr.as_slice());
    ChallengeResponse { lm_response, ntlm_response, session_key }
}

/// The v2 response with a fresh random client challenge: the fields
/// relate exactly as in the `_with` form, for some eight random bytes.
pub fn respond_challenge_ntlm_v2(
    server_challenge: [u8; 8],
    target_info: &[u8],
    time: i64,
    creds: &NtlmCredentials,
) -> (r: ChallengeResponse)
    ensures
        exists|cc: Seq<u8>|
            {
                &&& cc.len() == 8
                &&& r.ntlm_response@ == hmac_md5_of(
                    spec_ntlm_v2_key(creds.username@, creds.domain@, creds.password@),
                    server_challenge@ + #[trigger] spec_v2_temp(time, cc, target_info@),
                ) + spec_v2_temp(time, cc, target_info@)
                &&& r.lm_response@ == hmac_md5_of(
                    spec_ntlm_v2_key(creds.username@, creds.domain@, creds.password@),
                    server_challenge@ + cc,
                ) + cc
                &&& r.session_key@ == hmac_md5_of(
                    spec_ntlm_v2_key(creds.username@, creds.domain@, creds.password@),
                    hmac_md5_of(
                        spec_ntlm_v2_key(creds.username@, creds.domain@, creds.password@),
                        server_challenge@ + spec_v2_temp(time, cc, target_info@),
                    ),
                )
            },
{
    let client_challenge = random_bytes_8();
    let r = respond_challenge_ntlm_v2_with(
        server_challenge,
        target_info,
        time,
        client_challenge,
        creds,
    );
    proof {
        assert(client_challenge@.len() == 8);
    }
    r
}

impl ChallengeResponse {
    /// Packs this response, the credentials and the workstation name
    /// into an Authenticate message with a default (absent) OS version.
    pub fn to_message(&self, creds: &NtlmCredentials, workstation_name: &str, flags: NtlmFlags) -> (r:
        NtlmMessage)
        ensures
            r@ == MessageModel::Authenticate(
                AuthenticateModel {
                    lm_response: self.lm_response@,
                    ntlm_response: self.ntlm_response@,
                    domain_name: creds.domain@,
                    user_name: creds.username@,
                    workstation_name: workstation_name@,
                    session_key: self.session_key@,
                    flags,
                    os_version: crate::osver::spec_os_version_default(),
                },
            ),
    {
        let lm_response = copy_range(self.lm_response.as_slice(), 0, self.lm_response.len());
        let ntlm_response = copy_range(self.ntlm_response.as_slice(), 0, self.ntlm_response.len());
        let session_key = copy_range(self.session_key.as_slice(), 0, self.session_key.len());
        proof {
            assert(lm_response@ =~= self.lm_response@);
            assert(ntlm_response@ =~= self.ntlm_response@);
            assert(session_key@ =~= self.session_key@);
        }
        NtlmMessage::Authenticate(
            NtlmAuthenticateMessage {
                lm_response,
                ntlm_response,
                domain_name: String::from_str(creds.domain.as_str()),
                user_name: String::from_str(creds.username.as_str()),
                workstation_name: String::from_str(workstation_name),
                session_key,
                flags,
                os_version: OsVersion::default(),
            },
        )
    }
}

} // verus!
