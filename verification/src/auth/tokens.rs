//! The confirmation-token manager: issues single-use confirmation tokens
//! and redeems them at most once.
//!
//! Issuing writes a marker entry into the redemption registry under a key
//! derived from a fresh 256-digit session key, gives it the policy's
//! time-to-live, and seals the claims into an opaque token. Verifying
//! decodes the token, looks the marker up and deletes it; the deletion is
//! what makes redemption effective-once. A redeemed marker and an
//! expired one look alike to the verifier: both are simply absent.

use vstd::prelude::*;

use crate::auth::codec::encode_token;
use crate::auth::codec::decode_token;
use crate::auth::codec::fresh_session_key;
use crate::auth::codec::json_plain;
use crate::auth::codec::json_plain_char;
use crate::auth::codec::open_token;
use crate::auth::codec::spec_aad;
use crate::auth::codec::spec_key_usable;
use crate::auth::codec::spec_token_key;
use crate::auth::codec::ClaimsModel;
use crate::auth::codec::TokenClaims;
use crate::registry::spec_get;
use crate::registry::spec_lookup;
use crate::registry::EntryModel;
use crate::registry::Registry;
use crate::rfc3339::format_rfc3339;
use crate::rfc3339::is_digit;
use crate::rfc3339::parse_rfc3339;
use crate::rfc3339::timestamp_of_rfc3339;
use crate::settings::Secret;
use crate::text::all_hex;
use crate::text::is_hex_char;
use crate::types::tokens::is_hex_digit_any_case;
use crate::types::tokens::user_id_canonical;
use crate::types::tokens::user_id_norm;
use crate::types::tokens::ConfirmationToken;
use crate::types::tokens::UserId;

verus! {

/// Why issuing or verifying a confirmation token failed.
#[derive(Clone, Copy, PartialEq, Eq, Structural, Debug)]
pub enum TokenError {
    /// The token could not be decoded: not an authentic token under the
    /// configured secrets, or its embedded expiration has passed.
    TokenInvalid,
    /// No live redemption marker: the token was already redeemed, or its
    /// marker expired. The two are deliberately indistinguishable.
    TokenAlreadyUsedOrExpired,
    /// The token decrypted but its claims were missing or malformed.
    ClaimExtractionError,
    /// The user identity inside the claims did not parse.
    InvalidUserId,
    /// The registry could not be read or written.
    RegistryError,
    /// The claims could not be sealed into a token.
    EncodingFailure,
}

impl TokenError {
    /// A display-friendly description.
    pub fn message(&self) -> (r: &'static str)
        ensures
            *self is TokenInvalid ==> r@ == "token invalid"@,
            *self is TokenAlreadyUsedOrExpired ==> r@ == "token already used or expired"@,
            *self is ClaimExtractionError ==> r@ == "token claims missing or malformed"@,
            *self is InvalidUserId ==> r@ == "token user id invalid"@,
            *self is RegistryError ==> r@ == "registry unavailable"@,
            *self is EncodingFailure ==> r@ == "token could not be issued"@,
    {
        match self {
            TokenError::TokenInvalid => "token invalid",
            TokenError::TokenAlreadyUsedOrExpired => "token already used or expired",
            TokenError::ClaimExtractionError => "token claims missing or malformed",
            TokenError::InvalidUserId => "token user id invalid",
            TokenError::RegistryError => "registry unavailable",
            TokenError::EncodingFailure => "token could not be issued",
        }
    }
}

/// The registry key a session key and purpose derive: a fixed prefix, the
/// session key, and a suffix for the password-change purpose.
pub open spec fn spec_registry_key(session_key: Seq<char>, is_password: bool) -> Seq<char> {
    if is_password {
        "aj_studying_{}"@ + session_key + "is_for_password_change"@
    } else {
        "aj_studying_{}"@ + session_key
    }
}

/// Build the registry key for a session key and purpose.
pub fn registry_key(session_key: &str, is_password: bool) -> (r: String)
    ensures
        r@ == spec_registry_key(session_key@, is_password),
{
    let mut k = String::new();
    k.append("aj_studying_{}");
    k.append(session_key);
    if is_password {
        k.append("is_for_password_change");
    }
    assert(k@ =~= spec_registry_key(session_key@, is_password));
    k
}

/// The marker's time-to-live in seconds: one hour for a password change,
/// otherwise the configured expiration read as minutes.
pub open spec fn spec_ttl_seconds(is_password: bool, token_expiration: int) -> int {
    if is_password {
        3600
    } else {
        token_expiration * 60
    }
}

/// The claim expiration: one hour ahead for a password change, otherwise
/// the configured expiration read as hours.
pub open spec fn spec_expiry_time(is_password: bool, token_expiration: int, now: int) -> int {
    if is_password {
        now + 3600
    } else {
        now + token_expiration * 3600
    }
}

/// The bounds under which issuing cannot overflow its time arithmetic or
/// leave the formattable range of expirations: clocks up to the year 9955
/// or so, and configured expirations up to ten years of hours.
pub open spec fn spec_issue_bounds(secret: Secret, now: int) -> bool {
    0 <= now <= 252_000_000_000 && 0 <= secret.token_expiration <= 87_600
}

/// What a successful issuance leaves behind, for the session key `sk` the
/// issuer drew: the token opens to claims carrying the user identity, the
/// session key and an expiration that reads back as the policy's expiry
/// time; and the registry gained exactly one marker, keyed by the session
/// key and purpose, empty, with the policy's deadline.
pub open spec fn issued_state(
    t: Seq<char>,
    sk: Seq<char>,
    user: Seq<char>,
    secret: Secret,
    now: int,
    is_password: bool,
    reg_old: Seq<EntryModel>,
    reg_new: Seq<EntryModel>,
) -> bool {
    &&& sk.len() == 256
    &&& all_hex(sk)
    &&& (open_token(t, spec_token_key(secret), spec_aad(secret)) matches Some(c) && c.user_id
        == user && c.session_key == sk && timestamp_of_rfc3339(c.expiration) == Some(
        spec_expiry_time(is_password, secret.token_expiration as int, now),
    ))
    &&& spec_get(reg_new, spec_registry_key(sk, is_password)) == Some(
        EntryModel {
            key: spec_registry_key(sk, is_password),
            value: Seq::<char>::empty(),
            deadline: Some(now + spec_ttl_seconds(is_password, secret.token_expiration as int)),
        },
    )
    &&& forall|k: Seq<char>|
        k != spec_registry_key(sk, is_password) ==> spec_get(reg_new, k) == spec_get(reg_old, k)
}

/// The issuing contract, over both outcomes: a token that decodes to the
/// issued claims with its marker in place, or a failure that left the
/// registry as it was found.
pub open spec fn issue_post(
    r: Result<String, TokenError>,
    user: Seq<char>,
    secret: Secret,
    now: int,
    is_password: bool,
    reg_old: Seq<EntryModel>,
    reg_new: Seq<EntryModel>,
) -> bool {
    match r {
        Ok(t) => exists|sk: Seq<char>|
            #[trigger] issued_state(t@, sk, user, secret, now, is_password, reg_old, reg_new),
        Err(e) => e == TokenError::EncodingFailure && (exists|sk: Seq<char>|
            #[trigger] issue_failed_state(sk, is_password, reg_old, reg_new)),
    }
}

/// What a failed issuance leaves behind: the marker written for the drawn
/// session key was deleted again, and nothing else changed.
pub open spec fn issue_failed_state(
    sk: Seq<char>,
    is_password: bool,
    reg_old: Seq<EntryModel>,
    reg_new: Seq<EntryModel>,
) -> bool {
    &&& spec_get(reg_new, spec_registry_key(sk, is_password)) is None
    &&& forall|k: Seq<char>|
        k != spec_registry_key(sk, is_password) ==> spec_get(reg_new, k) == spec_get(reg_old, k)
}

/// Lowercase hexadecimal digits embed literally in a JSON string.
proof fn lemma_hex_json_plain(s: Seq<char>)
    requires
        all_hex(s),
    ensures
        json_plain(s),
{
    assert forall|i: int| 0 <= i < s.len() implies json_plain_char(#[trigger] s[i]) by {
        assert(is_hex_char(s[i]));
    }
}

/// Hexadecimal digits of either case embed literally in a JSON string.
proof fn lemma_any_hex_json_plain(s: Seq<char>)
    requires
        forall|i: int| 0 <= i < s.len() ==> is_hex_digit_any_case(#[trigger] s[i]),
    ensures
        json_plain(s),
{
    assert forall|i: int| 0 <= i < s.len() implies json_plain_char(#[trigger] s[i]) by {
        assert(is_hex_digit_any_case(s[i]));
    }
}

/// A well-formed RFC 3339 string embeds literally in a JSON string: it
/// holds only digits and the separators `-`, `:`, `T`, `Z`.
proof fn lemma_rfc3339_json_plain(s: Seq<char>)
    requires
        timestamp_of_rfc3339(s) is Some,
    ensures
        json_plain(s),
{
    assert forall|i: int| 0 <= i < s.len() implies json_plain_char(#[trigger] s[i]) by {
        assert(s.len() == 20);
        assert(is_digit(s[i]) || s[i] == '-' || s[i] == ':' || s[i] == 'T' || s[i] == 'Z');
    }
}

/// Issue a confirmation token for `user_id`.
///
/// A fresh session key is drawn from the operating system's entropy and
/// hex-encoded; a marker entry is written to the registry under the key it
/// derives with the purpose, and given the policy's time-to-live; the
/// identity, session key and expiration are sealed into the returned
/// token. If sealing fails, the marker is deleted again before the error
/// is returned, so no un-expiring entry is left behind.
#[verifier::rlimit(50)]
pub fn issue_confirmation_token(
    user_id: &UserId,
    registry: &mut Registry,
    secret: &Secret,
    now: i64,
    is_for_password_change: Option<bool>,
) -> (r: Result<String, TokenError>)
    requires
        old(registry).wf(),
        user_id.wf(),
        spec_issue_bounds(*secret, now as int),
    ensures
        final(registry).wf(),
        issue_post(
            r,
            user_id@,
            *secret,
            now as int,
            is_for_password_change is Some,
            old(registry)@,
            final(registry)@,
        ),
        !spec_key_usable(*secret) ==> r is Err,
{
    let session_key = fresh_session_key();
    let is_password = is_for_password_change.is_some();
    let rkey = registry_key(session_key.as_str(), is_password);
    registry.set(rkey.clone(), String::new());
    let ghost reg_set = registry@;
    let ttl: i64 = if is_password {
        3600
    } else {
        secret.token_expiration * 60
    };
    let _was_live = registry.expire(rkey.as_str(), ttl, now);
    let ghost reg_exp = registry@;
    let expiry: i64 = if is_password {
        now + 3600
    } else {
        now + secret.token_expiration * 3600
    };
    let expiration = format_rfc3339(expiry);
    let claims = TokenClaims {
        user_id: user_id.as_str().to_owned(),
        session_key: session_key,
        expiration: expiration,
    };
    proof {
        lemma_any_hex_json_plain(claims@.user_id);
        lemma_hex_json_plain(claims@.session_key);
        lemma_rfc3339_json_plain(claims@.expiration);
    }
    match encode_token(&claims, secret) {
        Some(t) => {
            let ghost tview = t@;
            let result: Result<String, TokenError> = Ok(t);
            proof {
                let sk = claims@.session_key;
                assert(spec_lookup(reg_set, spec_registry_key(sk, is_password), now as int)
                    is Some);
                assert(issued_state(
                    result->Ok_0@,
                    sk,
                    user_id@,
                    *secret,
                    now as int,
                    is_for_password_change is Some,
                    old(registry)@,
                    registry@,
                ));
                assert(issue_post(
                    result,
                    user_id@,
                    *secret,
                    now as int,
                    is_for_password_change is Some,
                    old(registry)@,
                    registry@,
                ));
            }
            result
        },
        None => {
            let _ = registry.del(rkey.as_str(), now);
            let result: Result<String, TokenError> = Err(TokenError::EncodingFailure);
            proof {
                assert(issue_failed_state(
                    claims@.session_key,
                    is_for_password_change is Some,
                    old(registry)@,
                    registry@,
                ));
                assert(issue_post(
                    result,
                    user_id@,
                    *secret,
                    now as int,
                    is_for_password_change is Some,
                    old(registry)@,
                    registry@,
                ));
            }
            result
        },
    }
}

/// The claims a verifier works from: what the token opens to under the
/// configured secrets, or nothing when the configured key is unusable.
pub open spec fn spec_opened(token: Seq<char>, secret: Secret) -> Option<ClaimsModel> {
    if spec_key_usable(secret) {
        open_token(token, spec_token_key(secret), spec_aad(secret))
    } else {
        None
    }
}

/// The verifier's decision, as a function of the registry, the opened
/// claims, the purpose and the time. The checks run in this order: an
/// unopenable token is invalid; claims without a readable expiration are
/// malformed; a missing or expired marker means the token was already
/// used or expired; a live marker with a passed claim expiration is
/// invalid (the redundant, defense-in-depth expiry guard); and only then
/// is the identity parsed.
pub open spec fn verify_outcome(
    reg: Seq<EntryModel>,
    opened: Option<ClaimsModel>,
    is_password: bool,
    now: int,
) -> Result<Seq<char>, TokenError> {
    match opened {
        None => Err(TokenError::TokenInvalid),
        Some(c) => match timestamp_of_rfc3339(c.expiration) {
            None => Err(TokenError::ClaimExtractionError),
            Some(exp) => {
                if spec_lookup(reg, spec_registry_key(c.session_key, is_password), now) is None {
                    Err(TokenError::TokenAlreadyUsedOrExpired)
                } else if exp <= now {
                    Err(TokenError::TokenInvalid)
                } else {
                    match user_id_norm(c.user_id) {
                        None => Err(TokenError::InvalidUserId),
                        Some(u) => Ok(u),
                    }
                }
            },
        },
    }
}

/// Whether verification reaches the destructive step: the marker is
/// deleted exactly when the token opened, its expiration read back, the
/// marker was live, and the claim expiration lay ahead.
pub open spec fn verify_consumes(
    reg: Seq<EntryModel>,
    opened: Option<ClaimsModel>,
    is_password: bool,
    now: int,
) -> bool {
    match opened {
        Some(c) => timestamp_of_rfc3339(c.expiration) is Some && spec_lookup(
            reg,
            spec_registry_key(c.session_key, is_password),
            now,
        ) is Some && timestamp_of_rfc3339(c.expiration)->Some_0 > now,
        None => false,
    }
}

/// How verification changes the registry: when it consumes, the marker's
/// key is gone and every other key is untouched; otherwise nothing
/// changed.
pub open spec fn verify_registry_relation(
    reg_old: Seq<EntryModel>,
    reg_new: Seq<EntryModel>,
    opened: Option<ClaimsModel>,
    is_password: bool,
    now: int,
) -> bool {
    if verify_consumes(reg_old, opened, is_password, now) {
        let k0 = spec_registry_key(opened->Some_0.session_key, is_password);
        &&& spec_get(reg_new, k0) is None
        &&& forall|k: Seq<char>| k != k0 ==> spec_get(reg_new, k) == spec_get(reg_old, k)
    } else {
        reg_new == reg_old
    }
}

/// Verify a confirmation token and redeem it.
///
/// On success the marker entry has been deleted, so a second attempt with
/// the same token finds no marker and fails; the returned value carries
/// the identity the token was issued for, in canonical form.
pub fn verify_confirmation_token_pasetor(
    token: &str,
    registry: &mut Registry,
    secret: &Secret,
    now: i64,
    is_password: Option<bool>,
) -> (r: Result<ConfirmationToken, TokenError>)
    requires
        old(registry).wf(),
    ensures
        final(registry).wf(),
        match r {
            Ok(ct) => verify_outcome(
                old(registry)@,
                spec_opened(token@, *secret),
                is_password is Some,
                now as int,
            ) == Ok::<Seq<char>, TokenError>(ct.user_id@) && ct.user_id.wf(),
            Err(e) => verify_outcome(
                old(registry)@,
                spec_opened(token@, *secret),
                is_password is Some,
                now as int,
            ) == Err::<Seq<char>, TokenError>(e),
        },
        verify_registry_relation(
            old(registry)@,
            final(registry)@,
            spec_opened(token@, *secret),
            is_password is Some,
            now as int,
        ),
{
    let pw = is_password.is_some();
    let claims = match decode_token(token, secret) {
        Some(c) => c,
        None => {
            return Err(TokenError::TokenInvalid);
        },
    };
    let exp = match parse_rfc3339(claims.expiration.as_str()) {
        Some(e) => e,
        None => {
            return Err(TokenError::ClaimExtractionError);
        },
    };
    let rkey = registry_key(claims.session_key.as_str(), pw);
    match registry.get(rkey.as_str(), now) {
        Some(_) => {},
        None => {
            return Err(TokenError::TokenAlreadyUsedOrExpired);
        },
    }
    if exp <= now {
        return Err(TokenError::TokenInvalid);
    }
    let _removed = registry.del(rkey.as_str(), now);
    match UserId::parse_str(claims.user_id.as_str()) {
        Some(u) => Ok(ConfirmationToken { user_id: u }),
        None => Err(TokenError::InvalidUserId),
    }
}

/// Round trip: claims carrying a canonical identity, a readable
/// expiration that lies ahead, and a session key whose marker is live —
/// exactly what a successful issuance establishes — verify to that same
/// identity, unchanged.
pub proof fn lemma_round_trip(reg: Seq<EntryModel>, c: ClaimsModel, is_password: bool, now: int)
    requires
        user_id_canonical(c.user_id),
        timestamp_of_rfc3339(c.expiration) is Some,
        timestamp_of_rfc3339(c.expiration)->Some_0 > now,
        spec_lookup(reg, spec_registry_key(c.session_key, is_password), now) is Some,
    ensures
        verify_outcome(reg, Some(c), is_password, now) == Ok::<Seq<char>, TokenError>(c.user_id),
{
}

/// Round trip, end to end: what a successful issuance leaves behind —
/// the token, the marker, the deadlines — verifies to the issued
/// identity, unchanged, at any time before both the claim expiration and
/// the marker's deadline.
pub proof fn lemma_issue_then_verify(
    t: Seq<char>,
    sk: Seq<char>,
    user: Seq<char>,
    secret: Secret,
    now_issue: int,
    is_password: bool,
    reg_old: Seq<EntryModel>,
    reg_new: Seq<EntryModel>,
    now_verify: int,
)
    requires
        issued_state(t, sk, user, secret, now_issue, is_password, reg_old, reg_new),
        user_id_canonical(user),
        spec_key_usable(secret),
        now_verify < spec_expiry_time(is_password, secret.token_expiration as int, now_issue),
        now_verify < now_issue + spec_ttl_seconds(is_password, secret.token_expiration as int),
    ensures
        verify_outcome(reg_new, spec_opened(t, secret), is_password, now_verify) == Ok::<
            Seq<char>,
            TokenError,
        >(user),
{
}

/// At-most-once: after a verification that consumed the marker, a second
/// verification of the same claims — at any later or earlier time, with
/// the same purpose — fails with `TokenAlreadyUsedOrExpired`.
pub proof fn lemma_at_most_once(
    reg1: Seq<EntryModel>,
    reg2: Seq<EntryModel>,
    c: ClaimsModel,
    is_password: bool,
    now1: int,
    now2: int,
)
    requires
        verify_consumes(reg1, Some(c), is_password, now1),
        verify_registry_relation(reg1, reg2, Some(c), is_password, now1),
    ensures
        verify_outcome(reg2, Some(c), is_password, now2) == Err::<Seq<char>, TokenError>(
            TokenError::TokenAlreadyUsedOrExpired,
        ),
{
}

/// Expiry enforcement: a claim expiration at or before the verification
/// time is rejected as invalid even while the marker is still live, and
/// the marker is left in place.
pub proof fn lemma_expired_claim_rejected(
    reg: Seq<EntryModel>,
    c: ClaimsModel,
    is_password: bool,
    now: int,
)
    requires
        timestamp_of_rfc3339(c.expiration) is Some,
        timestamp_of_rfc3339(c.expiration)->Some_0 <= now,
        spec_lookup(reg, spec_registry_key(c.session_key, is_password), now) is Some,
    ensures
        verify_outcome(reg, Some(c), is_password, now) == Err::<Seq<char>, TokenError>(
            TokenError::TokenInvalid,
        ),
        !verify_consumes(reg, Some(c), is_password, now),
{
}

/// The two purposes derive different registry keys from the same session
/// key.
pub proof fn lemma_purpose_keys_differ(session_key: Seq<char>)
    ensures
        spec_registry_key(session_key, true) != spec_registry_key(session_key, false),
{
    reveal_strlit("aj_studying_{}");
    reveal_strlit("is_for_password_change");
    assert(spec_registry_key(session_key, true).len() != spec_registry_key(
        session_key,
        false,
    ).len());
}

/// Purpose isolation: when the registry holds markers only under the key
/// the issuing purpose derived, verifying under the other purpose finds
/// no marker and fails with `TokenAlreadyUsedOrExpired`.
pub proof fn lemma_purpose_isolation(
    reg: Seq<EntryModel>,
    c: ClaimsModel,
    issued_for_password: bool,
    now: int,
)
    requires
        forall|k: Seq<char>|
            k != spec_registry_key(c.session_key, issued_for_password) ==> spec_get(reg, k) is None,
        timestamp_of_rfc3339(c.expiration) is Some,
    ensures
        verify_outcome(reg, Some(c), !issued_for_password, now) == Err::<Seq<char>, TokenError>(
            TokenError::TokenAlreadyUsedOrExpired,
        ),
{
    lemma_purpose_keys_differ(c.session_key);
}

/// A token that does not open — tampered with, or sealed under other
/// secrets — is rejected as invalid, whatever the registry holds.
pub proof fn lemma_unopenable_rejected(reg: Seq<EntryModel>, is_password: bool, now: int)
    ensures
        verify_outcome(reg, None, is_password, now) == Err::<Seq<char>, TokenError>(
            TokenError::TokenInvalid,
        ),
        !verify_consumes(reg, None, is_password, now),
{
}

/// Eviction: once the marker is gone or past its deadline — as after its
/// time-to-live has lapsed — verification fails with
/// `TokenAlreadyUsedOrExpired`, whatever the claim expiration says.
pub proof fn lemma_evicted_rejected(reg: Seq<EntryModel>, c: ClaimsModel, is_password: bool, now: int)
    requires
        timestamp_of_rfc3339(c.expiration) is Some,
        spec_lookup(reg, spec_registry_key(c.session_key, is_password), now) is None,
    ensures
        verify_outcome(reg, Some(c), is_password, now) == Err::<Seq<char>, TokenError>(
            TokenError::TokenAlreadyUsedOrExpired,
        ),
{
}

} // verus!
