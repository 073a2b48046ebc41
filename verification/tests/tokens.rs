use aj_studying::auth::codec::encode_token;
use aj_studying::auth::codec::decode_token;
use aj_studying::auth::codec::TokenClaims;
use aj_studying::auth::tokens::issue_confirmation_token;
use aj_studying::auth::tokens::registry_key;
use aj_studying::auth::tokens::verify_confirmation_token_pasetor;
use aj_studying::auth::tokens::TokenError;
use aj_studying::registry::Registry;
use aj_studying::rfc3339::format_rfc3339;
use aj_studying::settings::Secret;
use aj_studying::types::tokens::UserId;

const NOW: i64 = 1_700_000_000;
const USER: &str = "507f1f77bcf86cd799439011";

fn secret() -> Secret {
    Secret {
        secret_key: String::from("0123456789abcdef0123456789abcdef"),
        token_expiration: 24,
        hmac_secret: String::from("a-second-independent-secret"),
    }
}

fn user() -> UserId {
    UserId::parse_str(USER).unwrap()
}

#[test]
fn round_trip_returns_the_user_id_unchanged() {
    let mut reg = Registry::new();
    let s = secret();
    let token = issue_confirmation_token(&user(), &mut reg, &s, NOW, None).unwrap();
    let ct = verify_confirmation_token_pasetor(token.as_str(), &mut reg, &s, NOW, None).unwrap();
    assert_eq!(ct.user_id.as_str(), USER);
}

#[test]
fn round_trip_for_password_change() {
    let mut reg = Registry::new();
    let s = secret();
    let token = issue_confirmation_token(&user(), &mut reg, &s, NOW, Some(true)).unwrap();
    let ct =
        verify_confirmation_token_pasetor(token.as_str(), &mut reg, &s, NOW + 30, Some(true))
            .unwrap();
    assert_eq!(ct.user_id.as_str(), USER);
}

#[test]
fn concrete_scenario_second_verify_fails() {
    let mut reg = Registry::new();
    let s = secret();
    let token = issue_confirmation_token(&user(), &mut reg, &s, NOW, None).unwrap();
    let first = verify_confirmation_token_pasetor(token.as_str(), &mut reg, &s, NOW, None);
    assert_eq!(first.unwrap().user_id.as_str(), "507f1f77bcf86cd799439011");
    let second = verify_confirmation_token_pasetor(token.as_str(), &mut reg, &s, NOW, None);
    assert!(matches!(
        second.unwrap_err(),
        TokenError::TokenAlreadyUsedOrExpired
    ));
}

#[test]
fn second_verify_fails_even_later() {
    let mut reg = Registry::new();
    let s = secret();
    let token = issue_confirmation_token(&user(), &mut reg, &s, NOW, None).unwrap();
    verify_confirmation_token_pasetor(token.as_str(), &mut reg, &s, NOW, None).unwrap();
    let later = verify_confirmation_token_pasetor(token.as_str(), &mut reg, &s, NOW + 600, None);
    assert!(matches!(
        later.unwrap_err(),
        TokenError::TokenAlreadyUsedOrExpired
    ));
}

#[test]
fn expired_claim_is_rejected_while_marker_is_live() {
    let mut reg = Registry::new();
    let s = secret();
    let session_key: String = "ab".repeat(128);
    let claims = TokenClaims {
        user_id: String::from(USER),
        session_key: session_key.clone(),
        expiration: format_rfc3339(NOW - 10),
    };
    let token = encode_token(&claims, &s).unwrap();
    // Plant a live marker by hand, as issuance would have.
    reg.set(registry_key(session_key.as_str(), false), String::new());
    let r = verify_confirmation_token_pasetor(token.as_str(), &mut reg, &s, NOW, None);
    assert!(matches!(r.unwrap_err(), TokenError::TokenInvalid));
    // The marker was not consumed by the failed attempt.
    assert_eq!(reg.len(), 1);
}

#[test]
fn password_change_token_is_not_redeemable_as_normal() {
    let mut reg = Registry::new();
    let s = secret();
    let token = issue_confirmation_token(&user(), &mut reg, &s, NOW, Some(true)).unwrap();
    let wrong = verify_confirmation_token_pasetor(token.as_str(), &mut reg, &s, NOW, None);
    assert!(matches!(
        wrong.unwrap_err(),
        TokenError::TokenAlreadyUsedOrExpired
    ));
    // The marker is untouched: the right purpose still succeeds.
    let right = verify_confirmation_token_pasetor(token.as_str(), &mut reg, &s, NOW, Some(true));
    assert_eq!(right.unwrap().user_id.as_str(), USER);
}

#[test]
fn normal_token_is_not_redeemable_as_password_change() {
    let mut reg = Registry::new();
    let s = secret();
    let token = issue_confirmation_token(&user(), &mut reg, &s, NOW, None).unwrap();
    let wrong = verify_confirmation_token_pasetor(token.as_str(), &mut reg, &s, NOW, Some(true));
    assert!(matches!(
        wrong.unwrap_err(),
        TokenError::TokenAlreadyUsedOrExpired
    ));
}

#[test]
fn flipping_any_character_invalidates_the_token() {
    let mut reg = Registry::new();
    let s = secret();
    let token = issue_confirmation_token(&user(), &mut reg, &s, NOW, None).unwrap();
    for i in 0..token.len() {
        let mut tampered: Vec<char> = token.chars().collect();
        tampered[i] = if tampered[i] == 'A' { 'B' } else { 'A' };
        let tampered: String = tampered.into_iter().collect();
        if tampered == token {
            continue;
        }
        let r = verify_confirmation_token_pasetor(tampered.as_str(), &mut reg, &s, NOW, None);
        assert!(matches!(r.unwrap_err(), TokenError::TokenInvalid));
    }
    // The untampered token still redeems: nothing above consumed it.
    let ok = verify_confirmation_token_pasetor(token.as_str(), &mut reg, &s, NOW, None);
    assert_eq!(ok.unwrap().user_id.as_str(), USER);
}

#[test]
fn password_change_ttl_is_exactly_an_hour() {
    let s = secret();
    // One second before the hour is up, the marker is still live.
    let mut reg = Registry::new();
    let token = issue_confirmation_token(&user(), &mut reg, &s, NOW, Some(true)).unwrap();
    let r = verify_confirmation_token_pasetor(token.as_str(), &mut reg, &s, NOW + 3599, Some(true));
    assert_eq!(r.unwrap().user_id.as_str(), USER);
    // After 3601 simulated seconds the marker has been evicted.
    let mut reg = Registry::new();
    let token = issue_confirmation_token(&user(), &mut reg, &s, NOW, Some(true)).unwrap();
    let r = verify_confirmation_token_pasetor(token.as_str(), &mut reg, &s, NOW + 3601, Some(true));
    assert!(matches!(
        r.unwrap_err(),
        TokenError::TokenAlreadyUsedOrExpired
    ));
}

#[test]
fn normal_ttl_reads_the_configuration_as_minutes() {
    let s = secret();
    // token_expiration = 24 gives the marker 24 minutes = 1440 seconds.
    let mut reg = Registry::new();
    let token = issue_confirmation_token(&user(), &mut reg, &s, NOW, None).unwrap();
    let r = verify_confirmation_token_pasetor(token.as_str(), &mut reg, &s, NOW + 1439, None);
    assert_eq!(r.unwrap().user_id.as_str(), USER);
    let mut reg = Registry::new();
    let token = issue_confirmation_token(&user(), &mut reg, &s, NOW, None).unwrap();
    let r = verify_confirmation_token_pasetor(token.as_str(), &mut reg, &s, NOW + 1441, None);
    assert!(matches!(
        r.unwrap_err(),
        TokenError::TokenAlreadyUsedOrExpired
    ));
}

#[test]
fn garbage_token_is_invalid() {
    let mut reg = Registry::new();
    let s = secret();
    let r = verify_confirmation_token_pasetor("not-a-token", &mut reg, &s, NOW, None);
    assert!(matches!(r.unwrap_err(), TokenError::TokenInvalid));
    assert_eq!(reg.len(), 0);
}

#[test]
fn unreadable_expiration_is_a_claim_extraction_error() {
    let mut reg = Registry::new();
    let s = secret();
    let claims = TokenClaims {
        user_id: String::from(USER),
        session_key: "ab".repeat(128),
        expiration: String::from("soon"),
    };
    let token = encode_token(&claims, &s).unwrap();
    let r = verify_confirmation_token_pasetor(token.as_str(), &mut reg, &s, NOW, None);
    assert!(matches!(r.unwrap_err(), TokenError::ClaimExtractionError));
}

#[test]
fn malformed_user_id_is_rejected_after_consuming_the_marker() {
    let mut reg = Registry::new();
    let s = secret();
    let session_key: String = "cd".repeat(128);
    let claims = TokenClaims {
        user_id: String::from("not-an-identity"),
        session_key: session_key.clone(),
        expiration: format_rfc3339(NOW + 3600),
    };
    let token = encode_token(&claims, &s).unwrap();
    reg.set(registry_key(session_key.as_str(), false), String::new());
    let r = verify_confirmation_token_pasetor(token.as_str(), &mut reg, &s, NOW, None);
    assert!(matches!(r.unwrap_err(), TokenError::InvalidUserId));
    assert_eq!(reg.len(), 0);
}

#[test]
fn short_key_cannot_issue() {
    let mut reg = Registry::new();
    let s = Secret {
        secret_key: String::from("too-short"),
        token_expiration: 24,
        hmac_secret: String::from("aad"),
    };
    let r = issue_confirmation_token(&user(), &mut reg, &s, NOW, None);
    assert!(matches!(r.unwrap_err(), TokenError::EncodingFailure));
    // The compensating delete left no orphaned marker behind.
    assert_eq!(reg.len(), 0);
}

#[test]
fn overlong_key_is_truncated_consistently() {
    let mut reg = Registry::new();
    let long = Secret {
        secret_key: String::from("0123456789abcdef0123456789abcdef-and-then-some"),
        token_expiration: 24,
        hmac_secret: String::from("aad"),
    };
    let token = issue_confirmation_token(&user(), &mut reg, &long, NOW, None).unwrap();
    // The first thirty-two bytes alone verify the same token.
    let trimmed = Secret {
        secret_key: String::from("0123456789abcdef0123456789abcdef"),
        token_expiration: 24,
        hmac_secret: String::from("aad"),
    };
    let ct =
        verify_confirmation_token_pasetor(token.as_str(), &mut reg, &trimmed, NOW, None).unwrap();
    assert_eq!(ct.user_id.as_str(), USER);
}

#[test]
fn wrong_aad_invalidates_the_token() {
    let mut reg = Registry::new();
    let s = secret();
    let token = issue_confirmation_token(&user(), &mut reg, &s, NOW, None).unwrap();
    let other = Secret {
        secret_key: s.secret_key.clone(),
        token_expiration: 24,
        hmac_secret: String::from("a-different-secret"),
    };
    let r = verify_confirmation_token_pasetor(token.as_str(), &mut reg, &other, NOW, None);
    assert!(matches!(r.unwrap_err(), TokenError::TokenInvalid));
}

#[test]
fn session_key_is_long_lowercase_hex() {
    let s = secret();
    let mut reg = Registry::new();
    let token = issue_confirmation_token(&user(), &mut reg, &s, NOW, None).unwrap();
    let claims = decode_token(token.as_str(), &s).unwrap();
    assert_eq!(claims.session_key.len(), 256);
    assert!(claims
        .session_key
        .chars()
        .all(|c| c.is_ascii_digit() || ('a'..='f').contains(&c)));
    assert_eq!(claims.user_id, USER);
    assert_eq!(claims.expiration, format_rfc3339(NOW + 24 * 3600));
}

#[test]
fn two_issues_produce_distinct_tokens_and_markers() {
    let s = secret();
    let mut reg = Registry::new();
    let t1 = issue_confirmation_token(&user(), &mut reg, &s, NOW, None).unwrap();
    let t2 = issue_confirmation_token(&user(), &mut reg, &s, NOW, None).unwrap();
    assert_ne!(t1, t2);
    assert_eq!(reg.len(), 2);
    // Each redeems independently, once.
    assert!(verify_confirmation_token_pasetor(t1.as_str(), &mut reg, &s, NOW, None).is_ok());
    assert!(verify_confirmation_token_pasetor(t2.as_str(), &mut reg, &s, NOW, None).is_ok());
    assert!(verify_confirmation_token_pasetor(t1.as_str(), &mut reg, &s, NOW, None).is_err());
}

#[test]
fn error_messages_are_stable() {
    assert_eq!(TokenError::TokenInvalid.message(), "token invalid");
    assert_eq!(
        TokenError::TokenAlreadyUsedOrExpired.message(),
        "token already used or expired"
    );
    assert_eq!(
        TokenError::ClaimExtractionError.message(),
        "token claims missing or malformed"
    );
    assert_eq!(TokenError::InvalidUserId.message(), "token user id invalid");
    assert_eq!(TokenError::RegistryError.message(), "registry unavailable");
    assert_eq!(
        TokenError::EncodingFailure.message(),
        "token could not be issued"
    );
}

#[test]
fn registry_keys_separate_purposes() {
    let k_normal = registry_key("deadbeef", false);
    let k_password = registry_key("deadbeef", true);
    assert_eq!(k_normal, "aj_studying_{}deadbeef");
    assert_eq!(k_password, "aj_studying_{}deadbeefis_for_password_change");
    assert_ne!(k_normal, k_password);
}
