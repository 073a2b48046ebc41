//! Password hashing, delegated whole to the argon2 crate: a memory-hard,
//! salted scheme whose parameters travel inside the produced hash string.
//! Nothing here is novel logic, so both operations are trusted wrappers;
//! their contracts are tied together by [`pw_matches`].

use vstd::prelude::*;

verus! {

/// Whether argon2's verifier accepts `attempt` against the hash string
/// `creds`: a function of the two strings alone, since the salt and
/// parameters travel inside `creds`.
pub uninterp spec fn pw_matches(creds: Seq<char>, attempt: Seq<char>) -> bool;

/// A password could not be hashed, or a hash string could not be used.
#[derive(Clone, Copy, PartialEq, Eq, Structural, Debug)]
pub enum HashError {
    Failure,
}

impl HashError {
    /// A display-friendly description.
    pub fn message(&self) -> (r: &'static str)
        ensures
            r@ == "password hashing failed"@,
    {
        "password hashing failed"
    }
}

/// Hash a password for storage.
///
/// Relies on argon2: `hash_password` (Argon2id, version 0x13, a fresh
/// random salt) produces a self-describing hash string that the default
/// verifier accepts against the same password.
#[verifier::external_body]
pub fn pw(password: String) -> (r: Result<String, HashError>)
    ensures
        r matches Ok(h) ==> pw_matches(h@, password@),
{
    let params = match argon2::Params::new(15_000, 2, 1, None) {
        Ok(p) => p,
        Err(_) => {
            return Err(HashError::Failure);
        },
    };
    let hasher = argon2::Argon2::new(argon2::Algorithm::Argon2id, argon2::Version::V0x13, params);
    match argon2::PasswordHasher::hash_password(&hasher, password.as_bytes()) {
        Ok(h) => Ok(h.to_string()),
        Err(_) => Err(HashError::Failure),
    }
}

/// Check an attempted password against registered credentials.
///
/// Relies on argon2: `verify_password` parses the hash string and
/// recomputes the hash from the attempt with the embedded salt and
/// parameters, succeeding exactly when they agree.
#[verifier::external_body]
pub fn verify_pw(registered_creds: String, user_attempt: String) -> (r: Result<(), HashError>)
    ensures
        r is Ok <==> pw_matches(registered_creds@, user_attempt@),
{
    let verifier = argon2::Argon2::default();
    match argon2::PasswordVerifier::verify_password(
        &verifier,
        user_attempt.as_bytes(),
        registered_creds.as_str(),
    ) {
        Ok(()) => Ok(()),
        Err(_) => Err(HashError::Failure),
    }
}

} // verus!
