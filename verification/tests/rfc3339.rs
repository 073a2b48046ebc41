use aj_studying::rfc3339::format_rfc3339;
use aj_studying::rfc3339::parse_rfc3339;
use aj_studying::rfc3339::MAX_UNIX_SECONDS;

#[test]
fn formats_the_epoch() {
    assert_eq!(format_rfc3339(0), "1970-01-01T00:00:00Z");
}

#[test]
fn formats_a_leap_day() {
    assert_eq!(format_rfc3339(951_782_400), "2000-02-29T00:00:00Z");
}

#[test]
fn formats_a_known_moment() {
    assert_eq!(format_rfc3339(1_700_000_000), "2023-11-14T22:13:20Z");
}

#[test]
fn formats_the_last_second_of_a_year() {
    assert_eq!(format_rfc3339(1_704_067_199), "2023-12-31T23:59:59Z");
    assert_eq!(format_rfc3339(1_704_067_200), "2024-01-01T00:00:00Z");
}

#[test]
fn parses_what_it_formats() {
    for &secs in &[
        0,
        1,
        86_399,
        86_400,
        951_782_400,
        1_700_000_000,
        4_102_444_800,
        MAX_UNIX_SECONDS,
    ] {
        let s = format_rfc3339(secs);
        assert_eq!(parse_rfc3339(s.as_str()), Some(secs));
    }
}

#[test]
fn parses_known_strings() {
    assert_eq!(parse_rfc3339("1970-01-01T00:00:00Z"), Some(0));
    assert_eq!(parse_rfc3339("2023-11-14T22:13:20Z"), Some(1_700_000_000));
}

#[test]
fn rejects_malformed_strings() {
    assert_eq!(parse_rfc3339(""), None);
    assert_eq!(parse_rfc3339("2023-11-14 22:13:20Z"), None);
    assert_eq!(parse_rfc3339("2023-11-14T22:13:20z"), None);
    assert_eq!(parse_rfc3339("2023-11-14T22:13:20"), None);
    assert_eq!(parse_rfc3339("2023-13-01T00:00:00Z"), None);
    assert_eq!(parse_rfc3339("2023-02-29T00:00:00Z"), None);
    assert_eq!(parse_rfc3339("2023-00-10T00:00:00Z"), None);
    assert_eq!(parse_rfc3339("2023-01-00T00:00:00Z"), None);
    assert_eq!(parse_rfc3339("2023-01-01T24:00:00Z"), None);
    assert_eq!(parse_rfc3339("2023-01-01T00:60:00Z"), None);
    assert_eq!(parse_rfc3339("2023-01-01T00:00:60Z"), None);
    assert_eq!(parse_rfc3339("1969-12-31T23:59:59Z"), None);
    assert_eq!(parse_rfc3339("not a timestamp at all"), None);
}

#[test]
fn accepts_a_valid_leap_day_only_in_leap_years() {
    assert_eq!(parse_rfc3339("2024-02-29T12:00:00Z"), Some(1_709_208_000));
    assert_eq!(parse_rfc3339("1900-02-29T00:00:00Z"), None);
}
