//! Form payloads for logging in and registering.

use vstd::prelude::*;

verus! {

/// A login attempt.
pub struct Login {
    pub email: String,
    pub password: String,
}

/// A registration request.
pub struct Registration {
    pub email: String,
    pub password: String,
    pub password_confirm: String,
}

} // verus!
