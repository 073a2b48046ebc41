use aj_studying::auth::hash::pw;
use aj_studying::auth::hash::verify_pw;
use aj_studying::auth::hash::HashError;

#[test]
fn hashing_then_verifying_succeeds() {
    let hash = pw(String::from("hunter2")).unwrap();
    assert!(hash.starts_with("$argon2id$"));
    assert!(verify_pw(hash, String::from("hunter2")).is_ok());
}

#[test]
fn a_wrong_attempt_is_refused() {
    let hash = pw(String::from("hunter2")).unwrap();
    assert!(verify_pw(hash, String::from("hunter3")).is_err());
}

#[test]
fn two_hashes_of_one_password_differ_but_both_verify() {
    let h1 = pw(String::from("pw")).unwrap();
    let h2 = pw(String::from("pw")).unwrap();
    assert_ne!(h1, h2);
    assert!(verify_pw(h1, String::from("pw")).is_ok());
    assert!(verify_pw(h2, String::from("pw")).is_ok());
}

#[test]
fn an_unparsable_hash_is_an_error_not_a_panic() {
    let r = verify_pw(String::from("not-a-phc-string"), String::from("pw"));
    assert!(matches!(r.unwrap_err(), HashError::Failure));
    assert_eq!(HashError::Failure.message(), "password hashing failed");
}
