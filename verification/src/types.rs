//! Shared value types: the session-entry names and the confirmation-token
//! types under [`tokens`].

pub mod tokens;

use vstd::prelude::*;

verus! {

/// The names under which values are kept in a login session.
pub enum Types {
    UserIdKey,
    UserEmailKey,
}

impl Types {
    /// The wire name of this session entry.
    pub fn as_str(&self) -> (r: &'static str)
        ensures
            self is UserIdKey ==> r@ == "user_id"@,
            self is UserEmailKey ==> r@ == "email"@,
    {
        match self {
            Types::UserIdKey => "user_id",
            Types::UserEmailKey => "email",
        }
    }
}

} // verus!
