//! The registration payload and its one rule: the two password fields
//! must agree before an account is created.

use vstd::prelude::*;

use crate::text::str_eq;

verus! {

/// A new-user form submission.
pub struct CreateNewUser {
    pub email: String,
    pub password: String,
    pub password_2: String,
    pub first_name: String,
    pub last_name: String,
}

impl CreateNewUser {
    /// Whether the two password fields agree.
    pub fn passwords_match(&self) -> (r: bool)
        ensures
            r == (self.password@ == self.password_2@),
    {
        str_eq(self.password.as_str(), self.password_2.as_str())
    }
}

} // verus!
