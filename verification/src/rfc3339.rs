//! Conversion between unix timestamps (seconds since 1970-01-01T00:00:00Z)
//! and RFC 3339 strings in UTC of the fixed shape `YYYY-MM-DDTHH:MM:SSZ`.
//! Token expirations are carried on the wire in this form and compared as
//! plain seconds by the verifier.

use vstd::prelude::*;

use crate::text::digit_char;
use crate::text::push_char;
use crate::text::push_digit;
use crate::text::push_u64;
use crate::text::dec_digits;

verus! {

/// The largest timestamp this module accepts; it stays comfortably inside
/// the years this calendar covers (1970 to 9999).
pub const MAX_UNIX_SECONDS: i64 = 253_234_079_999;

pub open spec fn is_leap_year(y: int) -> bool {
    y % 4 == 0 && (y % 100 != 0 || y % 400 == 0)
}

pub open spec fn days_in_year(y: int) -> int {
    if is_leap_year(y) {
        366
    } else {
        365
    }
}

pub open spec fn days_in_month(y: int, m: int) -> int {
    if m == 2 {
        if is_leap_year(y) {
            29
        } else {
            28
        }
    } else if m == 4 || m == 6 || m == 9 || m == 11 {
        30
    } else {
        31
    }
}

/// Days between 1970-01-01 and the first day of year `y`.
pub open spec fn days_before_year(y: int) -> int
    decreases y,
{
    if y <= 1970 {
        0
    } else {
        days_before_year(y - 1) + days_in_year(y - 1)
    }
}

/// Days between the first of January and the first day of month `m` of
/// year `y`.
pub open spec fn days_before_month(y: int, m: int) -> int
    decreases m,
{
    if m <= 1 {
        0
    } else {
        days_before_month(y, m - 1) + days_in_month(y, m - 1)
    }
}

pub open spec fn valid_date(y: int, m: int, d: int) -> bool {
    1970 <= y <= 9999 && 1 <= m <= 12 && 1 <= d <= days_in_month(y, m)
}

/// Days between 1970-01-01 and the given date.
pub open spec fn days_of_date(y: int, m: int, d: int) -> int {
    days_before_year(y) + days_before_month(y, m) + (d - 1)
}

/// Seconds between the epoch and the given date and time of day.
pub open spec fn datetime_secs(y: int, m: int, d: int, h: int, mi: int, s: int) -> int {
    days_of_date(y, m, d) * 86400 + h * 3600 + mi * 60 + s
}

pub open spec fn is_digit(c: char) -> bool {
    '0' <= c && c <= '9'
}

/// The numeric value of a decimal digit character.
pub open spec fn digit_val(c: char) -> int {
    c as int - 48
}

/// The timestamp an RFC 3339 string of the shape `YYYY-MM-DDTHH:MM:SSZ`
/// denotes, if it is well-formed; `None` otherwise.
pub open spec fn timestamp_of_rfc3339(s: Seq<char>) -> Option<int> {
    if s.len() == 20 && is_digit(s[0]) && is_digit(s[1]) && is_digit(s[2]) && is_digit(s[3]) && s[4]
        == '-' && is_digit(s[5]) && is_digit(s[6]) && s[7] == '-' && is_digit(s[8]) && is_digit(
        s[9],
    ) && s[10] == 'T' && is_digit(s[11]) && is_digit(s[12]) && s[13] == ':' && is_digit(s[14])
        && is_digit(s[15]) && s[16] == ':' && is_digit(s[17]) && is_digit(s[18]) && s[19] == 'Z' {
        let y = 1000 * digit_val(s[0]) + 100 * digit_val(s[1]) + 10 * digit_val(s[2]) + digit_val(
            s[3],
        );
        let m = 10 * digit_val(s[5]) + digit_val(s[6]);
        let d = 10 * digit_val(s[8]) + digit_val(s[9]);
        let h = 10 * digit_val(s[11]) + digit_val(s[12]);
        let mi = 10 * digit_val(s[14]) + digit_val(s[15]);
        let sec = 10 * digit_val(s[17]) + digit_val(s[18]);
        if valid_date(y, m, d) && h <= 23 && mi <= 59 && sec <= 59 {
            Some(datetime_secs(y, m, d, h, mi, sec))
        } else {
            None
        }
    } else {
        None
    }
}

/// Years accumulate at least 365 days each.
proof fn lemma_days_before_year_lower(y: int)
    requires
        y >= 1970,
    ensures
        days_before_year(y) >= 365 * (y - 1970),
    decreases y,
{
    if y > 1970 {
        lemma_days_before_year_lower(y - 1);
    }
}

/// Years accumulate at most 366 days each.
proof fn lemma_days_before_year_upper(y: int)
    requires
        y >= 1970,
    ensures
        days_before_year(y) <= 366 * (y - 1970),
    decreases y,
{
    if y > 1970 {
        lemma_days_before_year_upper(y - 1);
    }
}

/// The twelve months of a year sum to the year's length.
proof fn lemma_months_total(y: int)
    ensures
        days_before_month(y, 13) == days_in_year(y),
{
    reveal_with_fuel(days_before_month, 14);
}

fn is_leap_year_x(y: i64) -> (r: bool)
    requires
        y >= 0,
    ensures
        r == is_leap_year(y as int),
{
    y % 4 == 0 && (y % 100 != 0 || y % 400 == 0)
}

fn days_in_year_x(y: i64) -> (r: i64)
    requires
        y >= 0,
    ensures
        r == days_in_year(y as int),
{
    if is_leap_year_x(y) {
        366
    } else {
        365
    }
}

fn days_in_month_x(y: i64, m: i64) -> (r: i64)
    requires
        y >= 0,
    ensures
        r == days_in_month(y as int, m as int),
{
    if m == 2 {
        if is_leap_year_x(y) {
            29
        } else {
            28
        }
    } else if m == 4 || m == 6 || m == 9 || m == 11 {
        30
    } else {
        31
    }
}

/// The date that lies `z` days after 1970-01-01.
pub fn civil_of_days(z: i64) -> (r: (i64, i64, i64))
    requires
        0 <= z <= 2_930_949,
    ensures
        valid_date(r.0 as int, r.1 as int, r.2 as int),
        days_of_date(r.0 as int, r.1 as int, r.2 as int) == z,
{
    let mut y: i64 = 1970;
    let mut rem: i64 = z;
    loop
        invariant
            1970 <= y <= 9999,
            0 <= rem,
            days_before_year(y as int) + rem == z,
            z <= 2_930_949,
        ensures
            1970 <= y <= 9999,
            0 <= rem < days_in_year(y as int),
            days_before_year(y as int) + rem == z,
        decreases rem,
    {
        let len = days_in_year_x(y);
        if rem < len {
            break ;
        }
        rem = rem - len;
        y = y + 1;
        proof {
            lemma_days_before_year_lower(y as int);
            assert(365 * (y - 1970) <= days_before_year(y as int) <= z);
            assert(y <= 9999) by {
                if y >= 10000 {
                    assert(365 * (y - 1970) >= 365 * 8030) by (nonlinear_arith)
                        requires
                            y >= 10000,
                    ;
                }
            }
        }
    }
    assert(rem < days_in_year(y as int));
    let mut m: i64 = 1;
    loop
        invariant
            1 <= m <= 12,
            0 <= rem,
            days_before_month(y as int, m as int) + rem < days_in_year(y as int),
            days_before_year(y as int) + days_before_month(y as int, m as int) + rem == z,
            1970 <= y <= 9999,
        ensures
            1 <= m <= 12,
            0 <= rem < days_in_month(y as int, m as int),
            days_before_year(y as int) + days_before_month(y as int, m as int) + rem == z,
        decreases 12 - m,
    {
        let len = days_in_month_x(y, m);
        if rem < len {
            break ;
        }
        rem = rem - len;
        m = m + 1;
        proof {
            lemma_months_total(y as int);
            assert(m <= 12) by {
                if m == 13 {
                    assert(days_before_month(y as int, 13) + rem >= days_in_year(y as int));
                }
            }
        }
    }
    assert(rem < days_in_month(y as int, m as int));
    (y, m, rem + 1)
}

/// A pushed digit character reads back as its value.
proof fn lemma_digit_roundtrip(d: int)
    requires
        0 <= d <= 9,
    ensures
        is_digit(digit_char(d)),
        digit_val(digit_char(d)) == d,
{
}

/// Format `secs` as an RFC 3339 UTC string, `YYYY-MM-DDTHH:MM:SSZ`.
pub fn format_rfc3339(secs: i64) -> (r: String)
    requires
        0 <= secs <= MAX_UNIX_SECONDS,
    ensures
        timestamp_of_rfc3339(r@) == Some(secs as int),
        r@.len() == 20,
{
    let days = secs / 86400;
    let rem = secs % 86400;
    let (y, m, d) = civil_of_days(days);
    let h = rem / 3600;
    let rem2 = rem - h * 3600;
    let mi = rem2 / 60;
    let sec = rem2 - mi * 60;
    let y0 = y / 1000;
    let y1 = (y - y0 * 1000) / 100;
    let y2 = (y - y0 * 1000 - y1 * 100) / 10;
    let y3 = y - y0 * 1000 - y1 * 100 - y2 * 10;
    let mut out = String::new();
    push_digit(&mut out, y0 as u64);
    push_digit(&mut out, y1 as u64);
    push_digit(&mut out, y2 as u64);
    push_digit(&mut out, y3 as u64);
    push_char(&mut out, '-');
    push_digit(&mut out, (m / 10) as u64);
    push_digit(&mut out, (m - (m / 10) * 10) as u64);
    push_char(&mut out, '-');
    push_digit(&mut out, (d / 10) as u64);
    push_digit(&mut out, (d - (d / 10) * 10) as u64);
    push_char(&mut out, 'T');
    push_digit(&mut out, (h / 10) as u64);
    push_digit(&mut out, (h - (h / 10) * 10) as u64);
    push_char(&mut out, ':');
    push_digit(&mut out, (mi / 10) as u64);
    push_digit(&mut out, (mi - (mi / 10) * 10) as u64);
    push_char(&mut out, ':');
    push_digit(&mut out, (sec / 10) as u64);
    push_digit(&mut out, (sec - (sec / 10) * 10) as u64);
    push_char(&mut out, 'Z');
    proof {
        lemma_digit_roundtrip(y0 as int);
        lemma_digit_roundtrip(y1 as int);
        lemma_digit_roundtrip(y2 as int);
        lemma_digit_roundtrip(y3 as int);
        lemma_digit_roundtrip(m as int / 10);
        lemma_digit_roundtrip(m as int - (m as int / 10) * 10);
        lemma_digit_roundtrip(d as int / 10);
        lemma_digit_roundtrip(d as int - (d as int / 10) * 10);
        lemma_digit_roundtrip(h as int / 10);
        lemma_digit_roundtrip(h as int - (h as int / 10) * 10);
        lemma_digit_roundtrip(mi as int / 10);
        lemma_digit_roundtrip(mi as int - (mi as int / 10) * 10);
        lemma_digit_roundtrip(sec as int / 10);
        lemma_digit_roundtrip(sec as int - (sec as int / 10) * 10);
        assert(out@.len() == 20);
        assert(days * 86400 + rem == secs);
        assert(h * 3600 + mi * 60 + sec == rem);
        assert(timestamp_of_rfc3339(out@) == Some(secs as int));
    }
    out
}

fn digit_of(c: char) -> (r: Option<i64>)
    ensures
        match r {
            Some(v) => is_digit(c) && v == digit_val(c) && 0 <= v <= 9,
            None => !is_digit(c),
        },
{
    let u = c as u32;
    if 48 <= u && u <= 57 {
        Some((u - 48) as i64)
    } else {
        None
    }
}

/// Days between 1970-01-01 and the first day of year `y`, computed.
fn days_before_year_x(y: i64) -> (r: i64)
    requires
        1970 <= y <= 9999,
    ensures
        r == days_before_year(y as int),
        0 <= r <= 366 * (y - 1970),
{
    let mut cur: i64 = 1970;
    let mut acc: i64 = 0;
    while cur < y
        invariant
            1970 <= cur <= y <= 9999,
            acc == days_before_year(cur as int),
            0 <= acc <= 366 * (cur - 1970),
        decreases y - cur,
    {
        proof {
            lemma_days_before_year_upper(cur as int);
        }
        acc = acc + days_in_year_x(cur);
        cur = cur + 1;
        proof {
            lemma_days_before_year_upper(cur as int);
        }
    }
    acc
}

/// Days between the first of January and the first day of month `m`.
fn days_before_month_x(y: i64, m: i64) -> (r: i64)
    requires
        1970 <= y <= 9999,
        1 <= m <= 12,
    ensures
        r == days_before_month(y as int, m as int),
        0 <= r <= 341,
{
    let mut cur: i64 = 1;
    let mut acc: i64 = 0;
    while cur < m
        invariant
            1 <= cur <= m <= 12,
            acc == days_before_month(y as int, cur as int),
            0 <= acc <= 31 * (cur - 1),
            1970 <= y <= 9999,
        decreases m - cur,
    {
        acc = acc + days_in_month_x(y, cur);
        cur = cur + 1;
    }
    acc
}

/// Parse a string of the exact shape `YYYY-MM-DDTHH:MM:SSZ` into the
/// timestamp it denotes; anything else yields `None`.
pub fn parse_rfc3339(s: &str) -> (r: Option<i64>)
    ensures
        match r {
            Some(v) => timestamp_of_rfc3339(s@) == Some(v as int) && 0 <= v,
            None => timestamp_of_rfc3339(s@) is None,
        },
{
    if s.unicode_len() != 20 {
        return None;
    }
    let c4 = s.get_char(4);
    let c7 = s.get_char(7);
    let c10 = s.get_char(10);
    let c13 = s.get_char(13);
    let c16 = s.get_char(16);
    let c19 = s.get_char(19);
    if !(c4 == '-' && c7 == '-' && c10 == 'T' && c13 == ':' && c16 == ':' && c19 == 'Z') {
        return None;
    }
    let d0 = digit_of(s.get_char(0));
    let d1 = digit_of(s.get_char(1));
    let d2 = digit_of(s.get_char(2));
    let d3 = digit_of(s.get_char(3));
    let d5 = digit_of(s.get_char(5));
    let d6 = digit_of(s.get_char(6));
    let d8 = digit_of(s.get_char(8));
    let d9 = digit_of(s.get_char(9));
    let d11 = digit_of(s.get_char(11));
    let d12 = digit_of(s.get_char(12));
    let d14 = digit_of(s.get_char(14));
    let d15 = digit_of(s.get_char(15));
    let d17 = digit_of(s.get_char(17));
    let d18 = digit_of(s.get_char(18));
    match (d0, d1, d2, d3, d5, d6, d8, d9, d11, d12, d14, d15, d17, d18) {
        (
            Some(v0),
            Some(v1),
            Some(v2),
            Some(v3),
            Some(v5),
            Some(v6),
            Some(v8),
            Some(v9),
            Some(v11),
            Some(v12),
            Some(v14),
            Some(v15),
            Some(v17),
            Some(v18),
        ) => {
            let y = 1000 * v0 + 100 * v1 + 10 * v2 + v3;
            let m = 10 * v5 + v6;
            let d = 10 * v8 + v9;
            let h = 10 * v11 + v12;
            let mi = 10 * v14 + v15;
            let sec = 10 * v17 + v18;
            if !(1970 <= y && 1 <= m && m <= 12) {
                return None;
            }
            if !(1 <= d && d <= days_in_month_x(y, m)) {
                return None;
            }
            if !(h <= 23 && mi <= 59 && sec <= 59) {
                return None;
            }
            let days = days_before_year_x(y) + days_before_month_x(y, m) + (d - 1);
            proof {
                lemma_days_before_year_upper(y as int);
            }
            Some(days * 86400 + h * 3600 + mi * 60 + sec)
        },
        _ => None,
    }
}


/// The weekday of a day count, with Sunday as zero; the epoch fell on a
/// Thursday.
pub open spec fn weekday_index(days: int) -> int {
    (days + 4) % 7
}

pub open spec fn weekday_name(w: int) -> Seq<char> {
    if w == 0 {
        "Sunday"@
    } else if w == 1 {
        "Monday"@
    } else if w == 2 {
        "Tuesday"@
    } else if w == 3 {
        "Wednesday"@
    } else if w == 4 {
        "Thursday"@
    } else if w == 5 {
        "Friday"@
    } else {
        "Saturday"@
    }
}

pub open spec fn month_name(m: int) -> Seq<char> {
    if m == 1 {
        "January"@
    } else if m == 2 {
        "February"@
    } else if m == 3 {
        "March"@
    } else if m == 4 {
        "April"@
    } else if m == 5 {
        "May"@
    } else if m == 6 {
        "June"@
    } else if m == 7 {
        "July"@
    } else if m == 8 {
        "August"@
    } else if m == 9 {
        "September"@
    } else if m == 10 {
        "October"@
    } else if m == 11 {
        "November"@
    } else {
        "December"@
    }
}

/// Two decimal digits, zero-padded.
pub open spec fn two_digits(v: int) -> Seq<char> {
    seq![digit_char(v / 10), digit_char(v % 10)]
}

/// The hour on a twelve-hour clock.
pub open spec fn hour12(h: int) -> int {
    if h % 12 == 0 {
        12
    } else {
        h % 12
    }
}

/// The long display form of a date and time of day, as it appears in the
/// confirmation email: weekday, month, zero-padded day, year, and a
/// twelve-hour clock time.
pub open spec fn spec_long_date(days: int, y: int, m: int, d: int, h: int, mi: int, s: int) -> Seq<
    char,
> {
    weekday_name(weekday_index(days)) + " "@ + month_name(m) + " "@ + two_digits(d) + ", "@
        + dec_digits(y) + " at "@ + two_digits(hour12(h)) + ":"@ + two_digits(mi) + ":"@
        + two_digits(s) + " "@ + (if h < 12 {
        "AM"@
    } else {
        "PM"@
    })
}

fn push_two_digits(out: &mut String, v: i64)
    requires
        0 <= v <= 99,
    ensures
        final(out)@ == old(out)@ + two_digits(v as int),
{
    push_digit(out, (v / 10) as u64);
    push_digit(out, (v - (v / 10) * 10) as u64);
    assert(final(out)@ =~= old(out)@ + two_digits(v as int));
}

/// Format a date and time of day in the long display form,
/// `Thursday January 01, 1970 at 12:00:00 AM`.
pub fn format_long_date(days: i64, y: i64, m: i64, d: i64, h: i64, mi: i64, s: i64) -> (r: String)
    requires
        0 <= days <= 2_930_949,
        valid_date(y as int, m as int, d as int),
        0 <= h <= 23,
        0 <= mi <= 59,
        0 <= s <= 59,
    ensures
        r@ == spec_long_date(days as int, y as int, m as int, d as int, h as int, mi as int, s as int),
{
    let mut out = String::new();
    let w = (days + 4) % 7;
    match w {
        0 => out.append("Sunday"),
        1 => out.append("Monday"),
        2 => out.append("Tuesday"),
        3 => out.append("Wednesday"),
        4 => out.append("Thursday"),
        5 => out.append("Friday"),
        _ => out.append("Saturday"),
    }
    out.append(" ");
    match m {
        1 => out.append("January"),
        2 => out.append("February"),
        3 => out.append("March"),
        4 => out.append("April"),
        5 => out.append("May"),
        6 => out.append("June"),
        7 => out.append("July"),
        8 => out.append("August"),
        9 => out.append("September"),
        10 => out.append("October"),
        11 => out.append("November"),
        _ => out.append("December"),
    }
    out.append(" ");
    push_two_digits(&mut out, d);
    out.append(", ");
    push_u64(&mut out, y as u64);
    out.append(" at ");
    let h12 = if h % 12 == 0 {
        12
    } else {
        h % 12
    };
    push_two_digits(&mut out, h12);
    out.append(":");
    push_two_digits(&mut out, mi);
    out.append(":");
    push_two_digits(&mut out, s);
    out.append(" ");
    if h < 12 {
        out.append("AM");
    } else {
        out.append("PM");
    }
    assert(out@ =~= spec_long_date(
        days as int,
        y as int,
        m as int,
        d as int,
        h as int,
        mi as int,
        s as int,
    ));
    out
}

} // verus!
