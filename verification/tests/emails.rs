use aj_studying::settings::Application;
use aj_studying::settings::Email;
use aj_studying::settings::Mongo;
use aj_studying::settings::Redis;
use aj_studying::settings::Secret;
use aj_studying::settings::Settings;
use aj_studying::utils::emails::compose_confirmation_email;

fn settings(debug: bool, token_expiration: i64) -> Settings {
    Settings {
        application: Application {
            port: 5000,
            host: String::from("127.0.0.1"),
            base_url: String::from("http://localhost"),
            protocol: String::from("http"),
        },
        debug,
        mongo: Mongo {
            username: String::from("u"),
            password: String::from("p"),
            port: 27017,
            host: String::from("127.0.0.1"),
            db: String::from("family"),
            collection: String::from("users"),
            require_auth: false,
        },
        redis: Redis {
            url: String::from("redis://127.0.0.1:6379"),
            pool_max_open: 16,
            pool_max_idle: 8,
            pool_timeout_seconds: 1,
            pool_expire_seconds: 60,
        },
        secret: Secret {
            secret_key: String::from("0123456789abcdef0123456789abcdef"),
            token_expiration,
            hmac_secret: String::from("aad"),
        },
        email: Email {
            host: String::from("smtp.example.org"),
            host_user: String::from("mailer"),
            host_user_password: String::from("SECRET-REDACTED"),
        },
        frontend_url: String::from("example.org"),
    }
}

#[test]
fn composes_the_confirmation_email_at_the_epoch() {
    let s = settings(true, 0);
    let page = compose_confirmation_email(
        String::from("Let's get you verified"),
        "TOK",
        "verification_email.html",
        &s,
        0,
    );
    assert_eq!(page.title, "Let's get you verified");
    assert_eq!(
        page.confirmation_link,
        "http://localhost:5000/users/register/confirm/?token=TOK"
    );
    assert_eq!(page.domain, "example.org");
    assert_eq!(page.expiration_time, "0");
    assert_eq!(page.exact_time, "Thursday January 01, 1970 at 12:00:00 AM");
}

#[test]
fn shows_the_expiry_moment_in_minutes_from_now() {
    // 1_700_000_000 is 2023-11-14T22:13:20Z; sixty minutes later it is
    // 23:13:20 on the same Tuesday.
    let s = settings(false, 60);
    let page = compose_confirmation_email(
        String::from("subject"),
        "T",
        "password_reset_email.html",
        &s,
        1_700_000_000,
    );
    assert_eq!(
        page.confirmation_link,
        "http://localhost/users/password/confirm/change_password?token=T"
    );
    assert_eq!(page.expiration_time, "60");
    assert_eq!(page.exact_time, "Tuesday November 14, 2023 at 11:13:20 PM");
}
