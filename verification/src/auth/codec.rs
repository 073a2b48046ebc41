//! The authenticated encryption codec. A token is an opaque PASETO
//! v4.local string sealing three claims — the user identity, the one-time
//! session key, and an RFC 3339 expiration — under the configured
//! symmetric key, with the secondary secret bound into the authentication
//! tag as the implicit assertion. This module alone touches the key
//! material; everything it takes from outside crates stands behind the
//! trusted wrappers below.

use vstd::prelude::*;

use vstd::string::StringSliceAdditionalSpecFns;

use rand::RngCore;

use crate::settings::Secret;
use crate::text::all_hex;
use crate::text::hex_of;
use crate::text::lemma_hex_of_chars;
use crate::text::lemma_hex_of_len;

verus! {

/// The claims sealed inside a token, as the specification sees them.
pub struct ClaimsModel {
    pub user_id: Seq<char>,
    pub session_key: Seq<char>,
    pub expiration: Seq<char>,
}

/// The claims sealed inside a token.
pub struct TokenClaims {
    pub user_id: String,
    pub session_key: String,
    pub expiration: String,
}

impl View for TokenClaims {
    type V = ClaimsModel;

    open spec fn view(&self) -> ClaimsModel {
        ClaimsModel {
            user_id: self.user_id@,
            session_key: self.session_key@,
            expiration: self.expiration@,
        }
    }
}

/// What decrypting a token with a given key and implicit assertion
/// yields: the sealed payload, or nothing when the token is not an
/// authentic v4.local token under that key and assertion.
pub uninterp spec fn opened_payload(token: Seq<char>, key: Seq<u8>, implicit: Seq<u8>) -> Option<
    Seq<char>,
>;

/// Which claim triple an arbitrary payload carries: the `user_id`,
/// `session_key` and `expiration` string fields of the payload read as a
/// JSON object, or nothing when the payload has no such shape.
pub uninterp spec fn payload_claims(payload: Seq<char>) -> Option<ClaimsModel>;

/// Decrypting and then reading the claims out, as one step.
pub open spec fn open_token(token: Seq<char>, key: Seq<u8>, implicit: Seq<u8>) -> Option<
    ClaimsModel,
> {
    match opened_payload(token, key, implicit) {
        Some(p) => payload_claims(p),
        None => None,
    }
}

/// A character that may stand inside a JSON string literal as it is: not
/// a quote, not a backslash, not a control character.
pub open spec fn json_plain_char(c: char) -> bool {
    c != '"' && c != '\\' && c as int >= 32
}

pub open spec fn json_plain(s: Seq<char>) -> bool {
    forall|i: int| 0 <= i < s.len() ==> json_plain_char(#[trigger] s[i])
}

pub open spec fn claims_json_plain(c: ClaimsModel) -> bool {
    json_plain(c.user_id) && json_plain(c.session_key) && json_plain(c.expiration)
}

/// Relies on pasetors (PASETO v4.local): `LocalToken::encrypt` seals a
/// payload such that `LocalToken::decrypt` under the same key and implicit
/// assertion recovers it, and on serde_json reading back the three fields
/// of the claims object written here. The payload is the claims as a JSON
/// object; the field values embed literally because they hold no quote,
/// backslash or control character.
#[verifier::external_body]
fn paseto_seal(key: &Vec<u8>, implicit: &Vec<u8>, claims: &TokenClaims) -> (r: Option<String>)
    requires
        key@.len() == 32,
        claims_json_plain(claims@),
    ensures
        r matches Some(t) ==> open_token(t@, key@, implicit@) == Some(claims@),
{
    let sk = pasetors::keys::SymmetricKey::<pasetors::version4::V4>::from(key.as_slice()).ok()?;
    let payload = format!(
        "{{\"user_id\":\"{}\",\"session_key\":\"{}\",\"expiration\":\"{}\"}}",
        claims.user_id, claims.session_key, claims.expiration,
    );
    pasetors::version4::LocalToken::encrypt(&sk, payload.as_bytes(), None, Some(implicit.as_slice())).ok()
}

/// Relies on pasetors: `UntrustedToken::try_from` and
/// `LocalToken::decrypt` parse, verify the authentication tag and decrypt
/// deterministically from the token, key and implicit assertion alone.
#[verifier::external_body]
fn paseto_open(key: &Vec<u8>, implicit: &Vec<u8>, token: &str) -> (r: Option<String>)
    requires
        key@.len() == 32,
    ensures
        match r {
            Some(p) => opened_payload(token@, key@, implicit@) == Some(p@),
            None => opened_payload(token@, key@, implicit@) is None,
        },
{
    let sk = pasetors::keys::SymmetricKey::<pasetors::version4::V4>::from(key.as_slice()).ok()?;
    let parsed = pasetors::token::UntrustedToken::<pasetors::token::Local, pasetors::version4::V4>::try_from(token).ok()?;
    let trusted = pasetors::version4::LocalToken::decrypt(&sk, &parsed, None, Some(implicit.as_slice())).ok()?;
    Some(trusted.payload().to_string())
}

/// Relies on serde_json: which string fields a payload holds as a JSON
/// object depends on the payload alone.
#[verifier::external_body]
fn extract_claims(payload: &str) -> (r: Option<TokenClaims>)
    ensures
        match r {
            Some(c) => payload_claims(payload@) == Some(c@),
            None => payload_claims(payload@) is None,
        },
{
    let v: serde_json::Value = serde_json::from_str(payload).ok()?;
    let u = v.get("user_id")?.as_str()?;
    let s = v.get("session_key")?.as_str()?;
    let e = v.get("expiration")?.as_str()?;
    Some(TokenClaims { user_id: u.to_string(), session_key: s.to_string(), expiration: e.to_string() })
}

/// Relies on hex::encode: lowercase hexadecimal, two digits per byte,
/// high nibble first.
#[verifier::external_body]
fn hex_encode(bytes: &Vec<u8>) -> (r: String)
    ensures
        r@ == hex_of(bytes@),
{
    hex::encode(bytes.as_slice())
}

/// Relies on rand's `OsRng`: fills the buffer from the operating system's
/// entropy source. A failing source aborts the process; token issuance
/// treats that as fatal rather than recoverable.
#[verifier::external_body]
fn os_random_bytes() -> (r: Vec<u8>)
    ensures
        r@.len() == 128,
{
    let mut buf = vec![0u8; 128];
    rand::rngs::OsRng.fill_bytes(buf.as_mut_slice());
    buf
}

/// A fresh session key: 128 bytes of operating-system entropy, encoded
/// as 256 lowercase hexadecimal digits.
pub fn fresh_session_key() -> (r: String)
    ensures
        r@.len() == 256,
        all_hex(r@),
{
    let raw = os_random_bytes();
    proof {
        lemma_hex_of_len(raw@);
        lemma_hex_of_chars(raw@);
    }
    hex_encode(&raw)
}

/// The encryption key actually used: a configured key longer than the
/// cipher's thirty-two bytes is truncated, deterministically, so issuing
/// and verifying stay consistent; a shorter one cannot be used at all.
pub open spec fn spec_effective_key(key_bytes: Seq<u8>) -> Seq<u8> {
    if key_bytes.len() >= 32 {
        key_bytes.take(32)
    } else {
        key_bytes
    }
}

/// The key a `Secret` yields for the cipher.
pub open spec fn spec_token_key(secret: Secret) -> Seq<u8> {
    spec_effective_key(vstd::utf8::encode_utf8(secret.secret_key@))
}

/// The implicit assertion a `Secret` yields: its secondary secret, as raw
/// bytes.
pub open spec fn spec_aad(secret: Secret) -> Seq<u8> {
    vstd::utf8::encode_utf8(secret.hmac_secret@)
}

/// Whether the configured key is long enough for the cipher.
pub open spec fn spec_key_usable(secret: Secret) -> bool {
    vstd::utf8::encode_utf8(secret.secret_key@).len() >= 32
}

/// The thirty-two cipher-key bytes from the configured key, or nothing
/// when the configured key is too short.
fn effective_key(key: &str) -> (r: Option<Vec<u8>>)
    ensures
        match r {
            Some(v) => key.spec_bytes().len() >= 32 && v@ == spec_effective_key(key.spec_bytes())
                && v@.len() == 32,
            None => key.spec_bytes().len() < 32,
        },
{
    let bytes = key.as_bytes_vec();
    if bytes.len() < 32 {
        return None;
    }
    let mut out: Vec<u8> = Vec::new();
    let mut i: usize = 0;
    while i < 32
        invariant
            i <= 32,
            bytes@.len() >= 32,
            bytes@ == key.spec_bytes(),
            out@ =~= bytes@.take(i as int),
        decreases 32 - i,
    {
        out.push(bytes[i]);
        i = i + 1;
    }
    assert(out@ =~= bytes@.take(32));
    Some(out)
}

/// Seal `claims` into a fresh token under the configured secrets.
///
/// A `None` means the configured key is shorter than the cipher allows,
/// or the cipher itself refused (which only an operating-system entropy
/// failure provokes).
pub fn encode_token(claims: &TokenClaims, secret: &Secret) -> (r: Option<String>)
    requires
        claims_json_plain(claims@),
    ensures
        r matches Some(t) ==> spec_key_usable(*secret) && open_token(
            t@,
            spec_token_key(*secret),
            spec_aad(*secret),
        ) == Some(claims@),
        !spec_key_usable(*secret) ==> r is None,
{
    let key = match effective_key(secret.secret_key.as_str()) {
        Some(k) => k,
        None => {
            return None;
        },
    };
    let implicit = secret.hmac_secret.as_str().as_bytes_vec();
    paseto_seal(&key, &implicit, claims)
}

/// Open a token under the configured secrets and read its claims back
/// out. Fails exactly when the configured key is unusable, the token is
/// not authentic under it, or the sealed payload does not carry the three
/// claims.
pub fn decode_token(token: &str, secret: &Secret) -> (r: Option<TokenClaims>)
    ensures
        match r {
            Some(c) => spec_key_usable(*secret) && open_token(
                token@,
                spec_token_key(*secret),
                spec_aad(*secret),
            ) == Some(c@),
            None => !spec_key_usable(*secret) || open_token(
                token@,
                spec_token_key(*secret),
                spec_aad(*secret),
            ) is None,
        },
{
    let key = match effective_key(secret.secret_key.as_str()) {
        Some(k) => k,
        None => {
            return None;
        },
    };
    let implicit = secret.hmac_secret.as_str().as_bytes_vec();
    let payload = match paseto_open(&key, &implicit, token) {
        Some(p) => p,
        None => {
            return None;
        },
    };
    extract_claims(payload.as_str())
}

} // verus!
