//! Composing the account-confirmation email: the address the link points
//! at, the link itself, and the page values the mail template is rendered
//! from. Sending the mail is the application shell's business.

use vstd::prelude::*;

use crate::endpoints::templates::EmailPage;
use crate::rfc3339::civil_of_days;
use crate::rfc3339::format_long_date;
use crate::rfc3339::spec_long_date;
use crate::rfc3339::days_of_date;
use crate::rfc3339::valid_date;
use crate::settings::Settings;
use crate::text::dec_digits;
use crate::text::format_u64;
use crate::text::push_u64;
use crate::text::str_eq;

verus! {

/// The address links point at: the base URL, with the port appended while
/// debugging.
pub open spec fn spec_web_address(s: Settings) -> Seq<char> {
    if s.debug {
        s.application.base_url@ + ":"@ + dec_digits(s.application.port as int)
    } else {
        s.application.base_url@
    }
}

/// Build the address links point at.
pub fn web_address(settings: &Settings) -> (r: String)
    ensures
        r@ == spec_web_address(*settings),
{
    let mut s = String::new();
    s.append(settings.application.base_url.as_str());
    if settings.debug {
        s.append(":");
        push_u64(&mut s, settings.application.port as u64);
    }
    assert(s@ =~= spec_web_address(*settings));
    s
}

/// The confirmation link a token is embedded into: the password-reset
/// template points at the password-change path, everything else at the
/// registration-confirmation path.
pub open spec fn spec_confirmation_link(
    address: Seq<char>,
    template_name: Seq<char>,
    token: Seq<char>,
) -> Seq<char> {
    if template_name == "password_reset_email.html"@ {
        address + "/users/password/confirm/change_password?token="@ + token
    } else {
        address + "/users/register/confirm/?token="@ + token
    }
}

/// Build the confirmation link for a freshly issued token.
pub fn confirmation_link(address: &str, template_name: &str, token: &str) -> (r: String)
    ensures
        r@ == spec_confirmation_link(address@, template_name@, token@),
{
    let mut s = String::new();
    s.append(address);
    if str_eq(template_name, "password_reset_email.html") {
        s.append("/users/password/confirm/change_password?token=");
    } else {
        s.append("/users/register/confirm/?token=");
    }
    s.append(token);
    assert(s@ =~= spec_confirmation_link(address@, template_name@, token@));
    s
}

/// The string is the long display form of the moment `shown`: some valid
/// calendar date reaching that moment's day, shown with its time of day.
pub open spec fn exact_time_shows(s: Seq<char>, shown: int) -> bool {
    exists|y: int, m: int, d: int|
        valid_date(y, m, d) && #[trigger] days_of_date(y, m, d) == shown / 86400 && s
            == spec_long_date(
            shown / 86400,
            y,
            m,
            d,
            (shown % 86400) / 3600,
            ((shown % 86400) % 3600) / 60,
            ((shown % 86400) % 3600) % 60,
        )
}

/// Compose the values the confirmation-email template is rendered from.
/// The displayed expiry moment reads the configured expiration as
/// minutes from `now`, in keeping with the marker's time-to-live.
pub fn compose_confirmation_email(
    subject: String,
    token: &str,
    template_name: &str,
    settings: &Settings,
    now: i64,
) -> (r: EmailPage)
    requires
        0 <= now <= 252_000_000_000,
        0 <= settings.secret.token_expiration <= 87_600,
    ensures
        r.title@ == subject@,
        r.confirmation_link@ == spec_confirmation_link(
            spec_web_address(*settings),
            template_name@,
            token@,
        ),
        r.domain@ == settings.frontend_url@,
        r.expiration_time@ == dec_digits(settings.secret.token_expiration as int),
        exact_time_shows(r.exact_time@, now + settings.secret.token_expiration * 60),
{
    let address = web_address(settings);
    let link = confirmation_link(address.as_str(), template_name, token);
    let shown = now + settings.secret.token_expiration * 60;
    let days = shown / 86400;
    let rem = shown % 86400;
    let (y, m, d) = civil_of_days(days);
    let h = rem / 3600;
    let rem2 = rem - h * 3600;
    let mi = rem2 / 60;
    let sec = rem2 - mi * 60;
    let exact_time = format_long_date(days, y, m, d, h, mi, sec);
    proof {
        assert(h == (shown as int % 86400) / 3600);
        assert(mi == ((shown as int % 86400) % 3600) / 60);
        assert(sec == ((shown as int % 86400) % 3600) % 60);
        assert(valid_date(y as int, m as int, d as int) && days_of_date(
            y as int,
            m as int,
            d as int,
        ) == shown as int / 86400 && exact_time@ == spec_long_date(
            shown as int / 86400,
            y as int,
            m as int,
            d as int,
            (shown as int % 86400) / 3600,
            ((shown as int % 86400) % 3600) / 60,
            ((shown as int % 86400) % 3600) % 60,
        ));
        assert(exact_time_shows(exact_time@, shown as int));
    }
    EmailPage {
        title: subject,
        confirmation_link: link,
        domain: settings.frontend_url.clone(),
        expiration_time: format_u64(settings.secret.token_expiration as u64),
        exact_time: exact_time,
    }
}

} // verus!
