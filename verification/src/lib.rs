//! A verified codec and response calculator for a challenge-response
//! authentication protocol: the binary message formats (Negotiate,
//! Challenge, Authenticate), the security-buffer and target-info
//! sub-codecs, the key derivations, and the four response algorithm
//! variants, together with the header framing that carries the messages.

pub mod auth;
pub mod bytes;
pub mod crypto;
pub mod error;
pub mod flags;
pub mod model;
pub mod msg;
pub mod osver;
pub mod secbuf;
pub mod targetinfo;
pub mod text;

pub use auth::{auth_header_value, challenge_from_header, second_token};
pub use crypto::{
    des_long, get_ntlm_time, lm_key_from_oem_bytes, lm_v1_password_func, ntlm_v1_password_func,
    ntlm_v2_password_func, respond_challenge_ntlm_v1, respond_challenge_ntlm_v1_extended,
    respond_challenge_ntlm_v1_extended_with, respond_challenge_ntlm_v1_no_lm,
    respond_challenge_ntlm_v2, respond_challenge_ntlm_v2_with, ChallengeResponse, NtlmCredentials,
};
pub use error::{NtlmParsingError, NtlmStoringError};
pub use flags::NtlmFlags;
pub use model::{Calendar, Config, ExchangeConfig, FolderId, FreeBusyStatus, IdAndChangeKey};
pub use msg::{NtlmAuthenticateMessage, NtlmChallengeMessage, NtlmMessage, NtlmNegotiateMessage};
pub use osver::OsVersion;
pub use secbuf::NtlmSecurityBuffer;
pub use targetinfo::{NtlmTargetInfoEntry, NtlmTargetInfoType};
