//! Parsing of timestamp strings in the fixed format `YYYY-MM-DD HH:MM:SS`
//! (24-hour clock, read as UTC) into seconds since the Unix epoch.
//!
//! A string is accepted exactly when it has that shape, names a real
//! calendar date (proleptic Gregorian, with leap years, years 0000 through
//! 9999), and a real time of day. The result is a signed count of seconds
//! since the epoch: negative for moments before 1970.

use vstd::prelude::*;

verus! {

/// Whether `c` is a decimal digit.
pub open spec fn is_dec_digit(c: char) -> bool {
    48 <= (c as u32) && (c as u32) <= 57
}

/// Numeric value of a decimal digit character.
pub open spec fn dec_digit_value(c: char) -> int {
    (c as u32) - 48
}

/// Value of the two-digit field of `s` starting at index `i`.
pub open spec fn two_digit_value(s: Seq<char>, i: int) -> int {
    dec_digit_value(s[i]) * 10 + dec_digit_value(s[i + 1])
}

/// Value of the four-digit field of `s` starting at index `i`.
pub open spec fn four_digit_value(s: Seq<char>, i: int) -> int {
    dec_digit_value(s[i]) * 1000 + dec_digit_value(s[i + 1]) * 100 + dec_digit_value(s[i + 2])
        * 10 + dec_digit_value(s[i + 3])
}

/// Whether `s` spells `YYYY-MM-DD HH:MM:SS`: nineteen characters, digits in
/// the six numeric fields, and the fixed separators between them.
pub open spec fn timestamp_shape(s: Seq<char>) -> bool {
    &&& s.len() == 19
    &&& is_dec_digit(s[0])
    &&& is_dec_digit(s[1])
    &&& is_dec_digit(s[2])
    &&& is_dec_digit(s[3])
    &&& s[4] == '-'
    &&& is_dec_digit(s[5])
    &&& is_dec_digit(s[6])
    &&& s[7] == '-'
    &&& is_dec_digit(s[8])
    &&& is_dec_digit(s[9])
    &&& s[10] == ' '
    &&& is_dec_digit(s[11])
    &&& is_dec_digit(s[12])
    &&& s[13] == ':'
    &&& is_dec_digit(s[14])
    &&& is_dec_digit(s[15])
    &&& s[16] == ':'
    &&& is_dec_digit(s[17])
    &&& is_dec_digit(s[18])
}

/// Gregorian leap-year rule.
pub open spec fn is_leap_year(y: int) -> bool {
    y % 4 == 0 && (y % 100 != 0 || y % 400 == 0)
}

/// Number of days in month `m` of year `y`, with months counted from 1.
pub open spec fn days_in_month(y: int, m: int) -> int {
    if m == 2 {
        if is_leap_year(y) {
            29
        } else {
            28
        }
    } else if m == 4 || m == 6 || m == 9 || m == 11 {
        30
    } else {
        31
    }
}

/// Number of days in year `y`.
pub open spec fn days_in_year(y: int) -> int {
    if is_leap_year(y) {
        366
    } else {
        365
    }
}

/// Number of days from 1970-01-01 to the start of year `y`: negative for
/// years before 1970.
pub open spec fn days_before_year(y: int) -> int
    decreases (if y < 1970 { 1970 - y } else { y - 1970 }),
{
    if y == 1970 {
        0
    } else if y > 1970 {
        days_before_year(y - 1) + days_in_year(y - 1)
    } else {
        days_before_year(y + 1) - days_in_year(y)
    }
}

/// Number of days from the start of year `y` up to the start of month `m`.
pub open spec fn days_before_month(y: int, m: int) -> int
    decreases m,
{
    if m <= 1 {
        0
    } else {
        days_before_month(y, m - 1) + days_in_month(y, m - 1)
    }
}

/// Whether the six fields name a real UTC moment this parser accepts.
pub open spec fn valid_datetime(y: int, m: int, d: int, h: int, mi: int, sec: int) -> bool {
    &&& 0 <= y <= 9999
    &&& 1 <= m <= 12
    &&& 1 <= d <= days_in_month(y, m)
    &&& 0 <= h <= 23
    &&& 0 <= mi <= 59
    &&& 0 <= sec <= 59
}

/// Seconds since 1970-01-01 00:00:00 UTC of the given calendar moment.
pub open spec fn epoch_seconds(y: int, m: int, d: int, h: int, mi: int, sec: int) -> int {
    (days_before_year(y) + days_before_month(y, m) + (d - 1)) * 86400 + h * 3600 + mi * 60 + sec
}

/// Whether `s` is a timestamp string this parser accepts.
pub open spec fn valid_timestamp_text(s: Seq<char>) -> bool {
    &&& timestamp_shape(s)
    &&& valid_datetime(
        four_digit_value(s, 0),
        two_digit_value(s, 5),
        two_digit_value(s, 8),
        two_digit_value(s, 11),
        two_digit_value(s, 14),
        two_digit_value(s, 17),
    )
}

/// Epoch seconds spelled by a timestamp string of valid shape.
pub open spec fn parsed_epoch(s: Seq<char>) -> int {
    epoch_seconds(
        four_digit_value(s, 0),
        two_digit_value(s, 5),
        two_digit_value(s, 8),
        two_digit_value(s, 11),
        two_digit_value(s, 14),
        two_digit_value(s, 17),
    )
}

fn read_digit(s: &str, i: usize) -> (r: Option<u32>)
    requires
        i < s@.len(),
    ensures
        r is Some <==> is_dec_digit(s@[i as int]),
        r is Some ==> r == Some(dec_digit_value(s@[i as int]) as u32),
{
    let cv = s.get_char(i) as u32;
    if 48 <= cv && cv <= 57 {
        Some(cv - 48)
    } else {
        None
    }
}

fn expect_char(s: &str, i: usize, c: char) -> (r: bool)
    requires
        i < s@.len(),
    ensures
        r == (s@[i as int] == c),
{
    s.get_char(i) == c
}

fn days_in_month_x(y: u32, m: u32) -> (r: u32)
    requires
        1 <= m <= 12,
    ensures
        r == days_in_month(y as int, m as int),
        28 <= r <= 31,
{
    if m == 2 {
        if y % 4 == 0 && (y % 100 != 0 || y % 400 == 0) {
            29
        } else {
            28
        }
    } else if m == 4 || m == 6 || m == 9 || m == 11 {
        30
    } else {
        31
    }
}

fn days_in_year_x(y: u32) -> (r: u32)
    ensures
        r == days_in_year(y as int),
        365 <= r <= 366,
{
    if y % 4 == 0 && (y % 100 != 0 || y % 400 == 0) {
        366
    } else {
        365
    }
}

fn days_before_year_x(y: u32) -> (r: i64)
    requires
        y <= 9999,
    ensures
        r == days_before_year(y as int),
        -721020 <= r <= 2938614,
{
    if y >= 1970 {
        let mut yr: u32 = 1970;
        let mut acc: i64 = 0;
        while yr < y
            invariant
                1970 <= yr <= y <= 9999,
                acc == days_before_year(yr as int),
                0 <= acc <= 366 * (yr - 1970),
            decreases y - yr,
        {
            acc = acc + days_in_year_x(yr) as i64;
            yr = yr + 1;
        }
        acc
    } else {
        let mut yr: u32 = 1970;
        let mut acc: i64 = 0;
        while yr > y
            invariant
                y <= yr <= 1970,
                acc == days_before_year(yr as int),
                -366 * (1970 - yr) <= acc <= 0,
            decreases yr,
        {
            acc = acc - days_in_year_x(yr - 1) as i64;
            yr = yr - 1;
        }
        acc
    }
}

fn days_before_month_x(y: u32, m: u32) -> (r: u32)
    requires
        1 <= m <= 12,
    ensures
        r == days_before_month(y as int, m as int),
        r <= 366,
{
    let mut mo: u32 = 1;
    let mut acc: u32 = 0;
    while mo < m
        invariant
            1 <= mo <= m <= 12,
            acc == days_before_month(y as int, mo as int),
            acc <= 31 * (mo - 1),
        decreases m - mo,
    {
        acc = acc + days_in_month_x(y, mo);
        mo = mo + 1;
    }
    acc
}

/// Parses a `YYYY-MM-DD HH:MM:SS` string into seconds since the Unix epoch.
///
/// Returns `Some` exactly when the string has that shape and names a real
/// calendar date and a real time of day; the result is then the
/// corresponding UTC epoch-seconds value, negative for moments before
/// 1970. Returns `None` on any malformed string, impossible date (such as
/// February 30th) or impossible time of day.
pub fn parse_timestamp(s: &str) -> (r: Option<i64>)
    ensures
        r is Some <==> valid_timestamp_text(s@),
        r is Some ==> r == Some(parsed_epoch(s@) as i64),
{
    if s.unicode_len() != 19 {
        return None;
    }
    if !expect_char(s, 4, '-') || !expect_char(s, 7, '-') || !expect_char(s, 10, ' ')
        || !expect_char(s, 13, ':') || !expect_char(s, 16, ':') {
        return None;
    }
    let d0 = match read_digit(s, 0) {
        Some(d) => d,
        None => { return None; },
    };
    let d1 = match read_digit(s, 1) {
        Some(d) => d,
        None => { return None; },
    };
    let d2 = match read_digit(s, 2) {
        Some(d) => d,
        None => { return None; },
    };
    let d3 = match read_digit(s, 3) {
        Some(d) => d,
        None => { return None; },
    };
    let d5 = match read_digit(s, 5) {
        Some(d) => d,
        None => { return None; },
    };
    let d6 = match read_digit(s, 6) {
        Some(d) => d,
        None => { return None; },
    };
    let d8 = match read_digit(s, 8) {
        Some(d) => d,
        None => { return None; },
    };
    let d9 = match read_digit(s, 9) {
        Some(d) => d,
        None => { return None; },
    };
    let d11 = match read_digit(s, 11) {
        Some(d) => d,
        None => { return None; },
    };
    let d12 = match read_digit(s, 12) {
        Some(d) => d,
        None => { return None; },
    };
    let d14 = match read_digit(s, 14) {
        Some(d) => d,
        None => { return None; },
    };
    let d15 = match read_digit(s, 15) {
        Some(d) => d,
        None => { return None; },
    };
    let d17 = match read_digit(s, 17) {
        Some(d) => d,
        None => { return None; },
    };
    let d18 = match read_digit(s, 18) {
        Some(d) => d,
        None => { return None; },
    };
    let y = d0 * 1000 + d1 * 100 + d2 * 10 + d3;
    let mo = d5 * 10 + d6;
    let dy = d8 * 10 + d9;
    let h = d11 * 10 + d12;
    let mi = d14 * 10 + d15;
    let sec = d17 * 10 + d18;
    if mo < 1 || mo > 12 {
        return None;
    }
    if dy < 1 || dy > days_in_month_x(y, mo) {
        return None;
    }
    if h > 23 || mi > 59 || sec > 59 {
        return None;
    }
    let days: i64 = days_before_year_x(y) + days_before_month_x(y, mo) as i64 + (dy - 1) as i64;
    let total: i64 = days * 86400 + (h as i64) * 3600 + (mi as i64) * 60 + (sec as i64);
    Some(total)
}

} // verus!
