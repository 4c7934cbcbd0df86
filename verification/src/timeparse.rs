//! Calendar arithmetic and the date/time string formats the providers
//! publish: a day-only ISO date normalized to midnight, and a month-name
//! date with a separate hour:minute label.

use vstd::prelude::*;
use chrono::offset::{LocalResult, TimeZone};
use crate::types::LockError;
use crate::strutil::{all_digits, dec_value, find_char_from, idx_of_from, parse_u64, str_eq};
use vstd::string::StrSliceExecFns;

verus! {

pub open spec fn is_leap_year(y: int) -> bool {
    y % 4 == 0 && (y % 100 != 0 || y % 400 == 0)
}

pub open spec fn days_in_month(y: int, m: int) -> int {
    if m == 2 {
        if is_leap_year(y) {
            29
        } else {
            28
        }
    } else if m == 4 || m == 6 || m == 9 || m == 11 {
        30
    } else {
        31
    }
}

/// Days of year `y` that lie before the first day of month `m`.
pub open spec fn days_before_month(y: int, m: int) -> int
    decreases m when m >= 0
{
    if m <= 1 {
        0
    } else {
        days_before_month(y, m - 1) + days_in_month(y, m - 1)
    }
}

/// Leap years among the positive years below `y`.
pub open spec fn leap_count_before(y: int) -> int {
    (y - 1) / 4 - (y - 1) / 100 + (y - 1) / 400
}

/// Days from 1970-01-01 to the civil date y-m-d in the proleptic
/// Gregorian calendar.
pub open spec fn days_from_epoch(y: int, m: int, d: int) -> int {
    365 * (y - 1970) + leap_count_before(y) - leap_count_before(1970) + days_before_month(y, m) + (
    d - 1)
}

/// The fields name a real calendar date and time of day.
pub open spec fn valid_civil(y: int, m: int, d: int, hh: int, mm: int, ss: int) -> bool {
    1 <= m <= 12 && 1 <= d <= days_in_month(y, m) && 0 <= hh < 24 && 0 <= mm < 60 && 0 <= ss < 60
}

/// Seconds from 1970-01-01 00:00:00 UTC to the given civil instant,
/// leap seconds not counted.
pub open spec fn epoch_of_civil(y: int, m: int, d: int, hh: int, mm: int, ss: int) -> int {
    days_from_epoch(y, m, d) * 86400 + hh * 3600 + mm * 60 + ss
}

/// Relies on chrono's `TimeZone::with_ymd_and_hms` on `Utc` and
/// `DateTime::timestamp`: a valid proleptic-Gregorian date with an
/// in-range time of day yields the count of non-leap seconds since
/// 1970-01-01 00:00:00 UTC; invalid fields yield nothing.
#[verifier::external_body]
pub fn ymd_hms_to_epoch(y: i32, mo: u32, d: u32, hh: u32, mi: u32, ss: u32) -> (r: Option<i64>)
    requires
        1600 <= y <= 9999,
    ensures
        r is Some <==> valid_civil(
            y as int,
            mo as int,
            d as int,
            hh as int,
            mi as int,
            ss as int,
        ),
        r is Some ==> r->0 == epoch_of_civil(
            y as int,
            mo as int,
            d as int,
            hh as int,
            mi as int,
            ss as int,
        ),
{
    match chrono::Utc.with_ymd_and_hms(y, mo, d, hh, mi, ss) {
        LocalResult::Single(t) => Some(t.timestamp()),
        _ => None,
    }
}

/// Converts a civil instant to unsigned epoch seconds. Years outside
/// 1970 to 9999, invalid calendar fields, and instants before the epoch
/// are parse failures.
pub fn civil_to_timestamp(y: u64, mo: u64, d: u64, hh: u64, mi: u64, ss: u64) -> (r: Result<
    u64,
    LockError,
>)
    ensures
        r is Ok <==> (1970 <= y <= 9999 && valid_civil(
            y as int,
            mo as int,
            d as int,
            hh as int,
            mi as int,
            ss as int,
        ) && epoch_of_civil(y as int, mo as int, d as int, hh as int, mi as int, ss as int) >= 0),
        r is Ok ==> r->Ok_0 == epoch_of_civil(
            y as int,
            mo as int,
            d as int,
            hh as int,
            mi as int,
            ss as int,
        ),
        r is Err ==> r->Err_0 == LockError::ParseError,
{
    if y < 1970 || y > 9999 {
        return Err(LockError::ParseError);
    }
    if mo > 12 || d > 31 || hh > 23 || mi > 59 || ss > 59 {
        return Err(LockError::ParseError);
    }
    match ymd_hms_to_epoch(y as i32, mo as u32, d as u32, hh as u32, mi as u32, ss as u32) {
        Some(e) => if e >= 0 {
            Ok(e as u64)
        } else {
            Err(LockError::ParseError)
        },
        None => Err(LockError::ParseError),
    }
}

/// The year, month and day of a string of the exact shape `YYYY-MM-DD`.
pub open spec fn ymd_parts(s: Seq<char>) -> Option<(int, int, int)> {
    if s.len() == 10 && s[4] == '-' && s[7] == '-' && all_digits(s.subrange(0, 4)) && all_digits(
        s.subrange(5, 7),
    ) && all_digits(s.subrange(8, 10)) {
        Some((dec_value(s.subrange(0, 4)), dec_value(s.subrange(5, 7)), dec_value(s.subrange(8, 10))))
    } else {
        None
    }
}

/// Ten to the power `n`.
pub open spec fn ten_pow(n: nat) -> int
    decreases n,
{
    if n == 0 {
        1
    } else {
        10 * ten_pow((n - 1) as nat)
    }
}

pub proof fn lemma_dec_value_bound(s: Seq<char>)
    requires
        all_digits(s),
    ensures
        0 <= dec_value(s) < ten_pow(s.len()),
    decreases s.len(),
{
    if s.len() > 0 {
        assert(all_digits(s.drop_last())) by {
            assert(forall|i: int| 0 <= i < s.drop_last().len() ==> s.drop_last()[i] == s[i]
                && crate::strutil::is_digit(#[trigger] s[i]));
        }
        lemma_dec_value_bound(s.drop_last());
        let pre = dec_value(s.drop_last());
        let d = digit_val_of(s.last());
        assert(0 <= d <= 9) by {
            assert(crate::strutil::is_digit(s[s.len() - 1]));
        }
        assert(ten_pow(s.len()) == 10 * ten_pow(s.drop_last().len()));
        assert(0 <= pre * 10 + d < 10 * ten_pow(s.drop_last().len())) by (nonlinear_arith)
            requires
                0 <= pre < ten_pow(s.drop_last().len()),
                0 <= d <= 9,
        ;
    }
}

proof fn lemma_dec_value_bound4(s: Seq<char>)
    requires
        all_digits(s),
        s.len() <= 4,
    ensures
        0 <= dec_value(s) <= 9999,
{
    lemma_dec_value_bound(s);
    assert(ten_pow(0) == 1);
    assert(ten_pow(1) == 10);
    assert(ten_pow(2) == 100);
    assert(ten_pow(3) == 1000);
    assert(ten_pow(4) == 10000);
}

/// The numeric value of one digit character (a reading aid for proofs).
pub open spec fn digit_val_of(c: char) -> int {
    crate::strutil::digit_val(c)
}

/// Reads a `YYYY-MM-DD` string into its three fields.
pub fn parse_ymd(s: &str) -> (r: Option<(u64, u64, u64)>)
    ensures
        r is Some <==> ymd_parts(s@) is Some,
        r is Some ==> ({
            let p = ymd_parts(s@)->0;
            (r->0).0 == p.0 && (r->0).1 == p.1 && (r->0).2 == p.2
        }),
{
    if s.unicode_len() != 10 {
        return None;
    }
    if s.get_char(4) != '-' || s.get_char(7) != '-' {
        return None;
    }
    let ys = s.substring_char(0, 4);
    let ms = s.substring_char(5, 7);
    let ds = s.substring_char(8, 10);
    proof {
        if all_digits(s@.subrange(0, 4)) {
            lemma_dec_value_bound4(s@.subrange(0, 4));
        }
        if all_digits(s@.subrange(5, 7)) {
            lemma_dec_value_bound4(s@.subrange(5, 7));
        }
        if all_digits(s@.subrange(8, 10)) {
            lemma_dec_value_bound4(s@.subrange(8, 10));
        }
    }
    match (parse_u64(ys), parse_u64(ms), parse_u64(ds)) {
        (Some(y), Some(m), Some(d)) => Some((y, m, d)),
        _ => None,
    }
}

/// The month named by a three-letter English abbreviation.
pub open spec fn month_num(s: Seq<char>) -> Option<int> {
    if s == "Jan"@ {
        Some(1)
    } else if s == "Feb"@ {
        Some(2)
    } else if s == "Mar"@ {
        Some(3)
    } else if s == "Apr"@ {
        Some(4)
    } else if s == "May"@ {
        Some(5)
    } else if s == "Jun"@ {
        Some(6)
    } else if s == "Jul"@ {
        Some(7)
    } else if s == "Aug"@ {
        Some(8)
    } else if s == "Sep"@ {
        Some(9)
    } else if s == "Oct"@ {
        Some(10)
    } else if s == "Nov"@ {
        Some(11)
    } else if s == "Dec"@ {
        Some(12)
    } else {
        None
    }
}

/// Reads a three-letter month abbreviation.
pub fn month_from_abbr(s: &str) -> (r: Option<u64>)
    ensures
        r is Some <==> month_num(s@) is Some,
        r is Some ==> r->0 == month_num(s@)->0,
{
    if str_eq(s, "Jan") {
        Some(1)
    } else if str_eq(s, "Feb") {
        Some(2)
    } else if str_eq(s, "Mar") {
        Some(3)
    } else if str_eq(s, "Apr") {
        Some(4)
    } else if str_eq(s, "May") {
        Some(5)
    } else if str_eq(s, "Jun") {
        Some(6)
    } else if str_eq(s, "Jul") {
        Some(7)
    } else if str_eq(s, "Aug") {
        Some(8)
    } else if str_eq(s, "Sep") {
        Some(9)
    } else if str_eq(s, "Oct") {
        Some(10)
    } else if str_eq(s, "Nov") {
        Some(11)
    } else if str_eq(s, "Dec") {
        Some(12)
    } else {
        None
    }
}

/// The year, month and day of a date written `Mon D, YYYY`: a month
/// abbreviation, a day of one or two digits (an extra leading space
/// tolerated), a comma and a year of up to four digits.
pub open spec fn tuk_date_parts(s: Seq<char>) -> Option<(int, int, int)> {
    if s.len() < 5 || month_num(s.subrange(0, 3)) is None || s[3] != ' ' {
        None
    } else {
        let ds: int = if s[4] == ' ' {
            5
        } else {
            4
        };
        let ci = idx_of_from(s, ',', ds);
        if ci >= s.len() || ci == ds || ci - ds > 2 || !all_digits(s.subrange(ds, ci)) {
            None
        } else if ci + 2 >= s.len() || s[ci + 1] != ' ' {
            None
        } else {
            let ys = s.subrange(ci + 2, s.len() as int);
            if ys.len() > 4 || !all_digits(ys) {
                None
            } else {
                Some((dec_value(ys), month_num(s.subrange(0, 3))->0, dec_value(s.subrange(ds, ci))))
            }
        }
    }
}

/// Reads a `Mon D, YYYY` date into year, month and day.
pub fn parse_tuk_date(s: &str) -> (r: Option<(u64, u64, u64)>)
    ensures
        r is Some <==> tuk_date_parts(s@) is Some,
        r is Some ==> ({
            let p = tuk_date_parts(s@)->0;
            (r->0).0 == p.0 && (r->0).1 == p.1 && (r->0).2 == p.2
        }),
{
    let n = s.unicode_len();
    if n < 5 {
        return None;
    }
    let mon = s.substring_char(0, 3);
    let m = match month_from_abbr(mon) {
        Some(m) => m,
        None => {
            return None;
        },
    };
    if s.get_char(3) != ' ' {
        return None;
    }
    let ds: usize = if s.get_char(4) == ' ' {
        5
    } else {
        4
    };
    let ci = find_char_from(s, ',', ds);
    if ci >= n || ci == ds || ci - ds > 2 {
        return None;
    }
    let day_str = s.substring_char(ds, ci);
    proof {
        if all_digits(s@.subrange(ds as int, ci as int)) {
            lemma_dec_value_bound4(s@.subrange(ds as int, ci as int));
        }
    }
    let day = match parse_u64(day_str) {
        Some(d) => d,
        None => {
            return None;
        },
    };
    if ci + 2 >= n || s.get_char(ci + 1) != ' ' {
        return None;
    }
    let year_str = s.substring_char(ci + 2, n);
    if year_str.unicode_len() > 4 {
        return None;
    }
    proof {
        if all_digits(s@.subrange(ci + 2, s@.len() as int)) {
            lemma_dec_value_bound4(s@.subrange(ci + 2, s@.len() as int));
        }
    }
    let year = match parse_u64(year_str) {
        Some(y) => y,
        None => {
            return None;
        },
    };
    Some((year, m, day))
}

/// The hour and minute of a label written `H:MM` or `HH:MM`.
pub open spec fn tuk_time_parts(s: Seq<char>) -> Option<(int, int)> {
    let ci = idx_of_from(s, ':', 0);
    if ci == 0 || ci > 2 || ci >= s.len() {
        None
    } else {
        let hs = s.subrange(0, ci);
        let ms = s.subrange(ci + 1, s.len() as int);
        if all_digits(hs) && 1 <= ms.len() <= 2 && all_digits(ms) {
            Some((dec_value(hs), dec_value(ms)))
        } else {
            None
        }
    }
}

/// Reads an `H:MM` label into hour and minute.
pub fn parse_tuk_time(s: &str) -> (r: Option<(u64, u64)>)
    ensures
        r is Some <==> tuk_time_parts(s@) is Some,
        r is Some ==> ({
            let p = tuk_time_parts(s@)->0;
            (r->0).0 == p.0 && (r->0).1 == p.1
        }),
{
    let n = s.unicode_len();
    let ci = find_char_from(s, ':', 0);
    if ci == 0 || ci > 2 || ci >= n {
        return None;
    }
    let hs = s.substring_char(0, ci);
    let ms = s.substring_char(ci + 1, n);
    let ml = ms.unicode_len();
    if ml < 1 || ml > 2 {
        return None;
    }
    proof {
        if all_digits(s@.subrange(0, ci as int)) {
            lemma_dec_value_bound4(s@.subrange(0, ci as int));
        }
        if all_digits(s@.subrange(ci + 1, s@.len() as int)) {
            lemma_dec_value_bound4(s@.subrange(ci + 1, s@.len() as int));
        }
    }
    match (parse_u64(hs), parse_u64(ms)) {
        (Some(h), Some(m)) => Some((h, m)),
        _ => None,
    }
}

} // verus!
