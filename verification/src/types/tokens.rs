//! The user identity carried inside confirmation tokens, and the value a
//! successful verification hands back.

use vstd::prelude::*;

use crate::text::push_char;

verus! {

/// Whether `c` is a hexadecimal digit, either case.
pub open spec fn is_hex_digit_any_case(c: char) -> bool {
    ('0' <= c && c <= '9') || ('a' <= c && c <= 'f') || ('A' <= c && c <= 'F')
}

/// `c` with an uppercase hex letter folded to lowercase.
pub open spec fn lower_hex_char(c: char) -> char {
    if 'A' <= c && c <= 'F' {
        ((c as int + 32) as u8) as char
    } else {
        c
    }
}

/// The canonical (lowercase) form of a user-identity string: defined
/// exactly when the string is twenty-four hexadecimal digits.
pub open spec fn user_id_norm(s: Seq<char>) -> Option<Seq<char>> {
    if s.len() == 24 && (forall|i: int|
        0 <= i < s.len() ==> is_hex_digit_any_case(#[trigger] s[i])) {
        Some(Seq::new(s.len(), |i: int| lower_hex_char(s[i])))
    } else {
        None
    }
}

/// A canonical user identity is already lowercase, so it normalizes to
/// itself.
pub open spec fn user_id_canonical(s: Seq<char>) -> bool {
    user_id_norm(s) == Some(s)
}

/// A user identity: twenty-four lowercase hexadecimal digits, the textual
/// form of a twelve-byte database key.
#[derive(Debug)]
pub struct UserId {
    hex: String,
}

impl View for UserId {
    type V = Seq<char>;

    closed spec fn view(&self) -> Seq<char> {
        self.hex@
    }
}

impl UserId {
    /// The identity this value holds is in canonical form.
    pub open spec fn wf(&self) -> bool {
        user_id_canonical(self@)
    }

    /// Parse an identity from its textual form, accepting hexadecimal
    /// digits of either case and folding them to lowercase.
    pub fn parse_str(s: &str) -> (r: Option<UserId>)
        ensures
            match r {
                Some(u) => user_id_norm(s@) == Some(u@) && u.wf(),
                None => user_id_norm(s@) is None,
            },
    {
        let n = s.unicode_len();
        if n != 24 {
            return None;
        }
        let mut hex = String::new();
        let mut i: usize = 0;
        while i < n
            invariant
                i <= n,
                n == 24,
                n == s@.len(),
                forall|j: int| 0 <= j < i ==> is_hex_digit_any_case(#[trigger] s@[j]),
                hex@.len() == i,
                forall|j: int| 0 <= j < i ==> hex@[j] == lower_hex_char(#[trigger] s@[j]),
                forall|j: int| 0 <= j < i ==> !('A' <= #[trigger] hex@[j] && hex@[j] <= 'F'),
                forall|j: int| 0 <= j < i ==> is_hex_digit_any_case(#[trigger] hex@[j]),
            decreases n - i,
        {
            let c = s.get_char(i);
            let lowered: char = if 'A' <= c && c <= 'F' {
                (c as u8 + 32) as char
            } else if ('0' <= c && c <= '9') || ('a' <= c && c <= 'f') {
                c
            } else {
                return None;
            };
            assert(lowered == lower_hex_char(s@[i as int]));
            push_char(&mut hex, lowered);
            i = i + 1;
        }
        proof {
            let norm = Seq::new(s@.len(), |j: int| lower_hex_char(s@[j]));
            assert(hex@ =~= norm);
            assert(user_id_norm(s@) == Some(hex@));
            assert(Seq::new(hex@.len(), |j: int| lower_hex_char(hex@[j])) =~= hex@);
        }
        Some(UserId { hex })
    }

    /// The textual form of this identity.
    pub fn as_str(&self) -> (r: &str)
        ensures
            r@ == self@,
    {
        self.hex.as_str()
    }

    /// A copy of this identity.
    pub fn clone_id(&self) -> (r: UserId)
        ensures
            r@ == self@,
    {
        UserId { hex: self.hex.clone() }
    }
}

/// What a successful token verification returns: the identity the token
/// was issued for.
#[derive(Debug)]
pub struct ConfirmationToken {
    pub user_id: UserId,
}

} // verus!
