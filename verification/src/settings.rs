//! Configuration values, passed explicitly to the components that need
//! them. The secrets and expiry policy live in [`Secret`]; the other
//! structs describe the surrounding services.

use vstd::prelude::*;

use crate::text::dec_digits;
use crate::text::format_u64;

verus! {

/// Application-wide settings.
pub struct Settings {
    pub application: Application,
    pub debug: bool,
    pub mongo: Mongo,
    pub redis: Redis,
    pub secret: Secret,
    pub email: Email,
    pub frontend_url: String,
}

/// Key material and expiry policy for the confirmation-token subsystem:
/// the symmetric encryption key, the configured expiration (read as hours
/// for the claim embedded in a token and as minutes for its redemption
/// marker's time-to-live), and the secondary secret bound into every
/// token's authentication tag.
pub struct Secret {
    pub secret_key: String,
    pub token_expiration: i64,
    pub hmac_secret: String,
}

/// Mail relay settings.
pub struct Email {
    pub host: String,
    pub host_user: String,
    pub host_user_password: String,
}

/// Connection settings for the redemption registry's backing cache.
pub struct Redis {
    pub url: String,
    pub pool_max_open: u64,
    pub pool_max_idle: u64,
    pub pool_timeout_seconds: u64,
    pub pool_expire_seconds: u64,
}

/// Connection settings for the user database.
pub struct Mongo {
    pub username: String,
    pub password: String,
    pub port: u16,
    pub host: String,
    pub db: String,
    pub collection: String,
    pub require_auth: bool,
}

/// Where the application itself is served.
pub struct Application {
    pub port: u16,
    pub host: String,
    pub base_url: String,
    pub protocol: String,
}

/// The connection string for the user database: credentials are included
/// exactly when the settings require authentication.
pub open spec fn spec_connection_string(m: Mongo) -> Seq<char> {
    let tail = m.host@ + ":"@ + dec_digits(m.port as int) + "/"@ + m.db@
        + "?directConnection=true&serverSelectionTimeoutMS=2000&appName=mongosh+2.3.0"@;
    if m.require_auth {
        "mongodb://"@ + m.username@ + ":"@ + m.password@ + "@"@ + tail
    } else {
        "mongodb://"@ + tail
    }
}

impl Mongo {
    /// Build the database connection string from these settings.
    pub fn connection_string(&self) -> (r: String)
        ensures
            r@ == spec_connection_string(*self),
    {
        let mut s = String::new();
        s.append("mongodb://");
        if self.require_auth {
            s.append(self.username.as_str());
            s.append(":");
            s.append(self.password.as_str());
            s.append("@");
        }
        s.append(self.host.as_str());
        s.append(":");
        let port = format_u64(self.port as u64);
        s.append(port.as_str());
        s.append("/");
        s.append(self.db.as_str());
        s.append("?directConnection=true&serverSelectionTimeoutMS=2000&appName=mongosh+2.3.0");
        assert(s@ =~= spec_connection_string(*self));
        s
    }
}

/// The runtime environment the application was started for.
pub enum Environment {
    Development,
    Production,
}

impl Environment {
    /// The environment's conventional name.
    pub fn as_str(&self) -> (r: &'static str)
        ensures
            self is Development ==> r@ == "development"@,
            self is Production ==> r@ == "production"@,
    {
        match self {
            Environment::Development => "development",
            Environment::Production => "production",
        }
    }

    /// Recognize an environment name, ASCII case-insensitively.
    pub fn from_name(s: &str) -> (r: Option<Environment>)
        ensures
            match r {
                Some(e) => (e is Development ==> ascii_lower(s@) == "development"@) && (e
                    is Production ==> ascii_lower(s@) == "production"@),
                None => ascii_lower(s@) != "development"@ && ascii_lower(s@) != "production"@,
            },
    {
        let lowered = ascii_to_lower(s);
        if crate::text::str_eq(lowered.as_str(), "development") {
            Some(Environment::Development)
        } else if crate::text::str_eq(lowered.as_str(), "production") {
            Some(Environment::Production)
        } else {
            None
        }
    }
}

/// `c` with an ASCII uppercase letter folded to lowercase.
pub open spec fn ascii_lower_char(c: char) -> char {
    if 'A' <= c && c <= 'Z' {
        ((c as int + 32) as u8) as char
    } else {
        c
    }
}

/// The string with every ASCII uppercase letter folded to lowercase.
pub open spec fn ascii_lower(s: Seq<char>) -> Seq<char> {
    Seq::new(s.len(), |i: int| ascii_lower_char(s[i]))
}

/// Fold ASCII uppercase letters to lowercase.
pub fn ascii_to_lower(s: &str) -> (r: String)
    ensures
        r@ == ascii_lower(s@),
{
    let n = s.unicode_len();
    let mut out = String::new();
    let mut i: usize = 0;
    while i < n
        invariant
            i <= n,
            n == s@.len(),
            out@.len() == i,
            forall|j: int| 0 <= j < i ==> out@[j] == ascii_lower_char(#[trigger] s@[j]),
        decreases n - i,
    {
        let c = s.get_char(i);
        let lowered: char = if 'A' <= c && c <= 'Z' {
            (c as u8 + 32) as char
        } else {
            c
        };
        assert(lowered == ascii_lower_char(s@[i as int]));
        crate::text::push_char(&mut out, lowered);
        i = i + 1;
    }
    assert(out@ =~= ascii_lower(s@));
    out
}

} // verus!
