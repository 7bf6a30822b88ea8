use vstd::prelude::*;
use vstd::arithmetic::div_mod::{lemma_div_is_ordered, lemma_fundamental_div_mod};

verus! {

// Instants are seconds since 1970-01-01T00:00:00Z; day numbers count civil
// days since that date. All arithmetic is in UTC; weeks are ISO-8601 weeks,
// Monday through Sunday.

/// The day number of the instant `t`.
pub open spec fn epoch_day_of(t: u64) -> int {
    t as int / 86400
}

pub open spec fn is_digit_char(c: char) -> bool {
    48 <= c as u32 <= 57
}

pub open spec fn digit_val(c: char) -> int {
    c as u32 - 48
}

pub open spec fn year_of_str(s: Seq<char>) -> int {
    1000 * digit_val(s[0]) + 100 * digit_val(s[1]) + 10 * digit_val(s[2]) + digit_val(s[3])
}

pub open spec fn month_of_str(s: Seq<char>) -> int {
    10 * digit_val(s[5]) + digit_val(s[6])
}

pub open spec fn day_of_str(s: Seq<char>) -> int {
    10 * digit_val(s[8]) + digit_val(s[9])
}

pub open spec fn is_leap_year(y: int) -> bool {
    (y % 4 == 0 && y % 100 != 0) || y % 400 == 0
}

/// Days of the year `y` that lie before month `m`.
pub open spec fn days_before_month(y: int, m: int) -> int
    recommends
        1 <= m <= 12,
{
    let base: int = if m == 1 { 0 }
        else if m == 2 { 31 }
        else if m == 3 { 59 }
        else if m == 4 { 90 }
        else if m == 5 { 120 }
        else if m == 6 { 151 }
        else if m == 7 { 181 }
        else if m == 8 { 212 }
        else if m == 9 { 243 }
        else if m == 10 { 273 }
        else if m == 11 { 304 }
        else { 334 };
    if m > 2 && is_leap_year(y) { base + 1 } else { base }
}

pub open spec fn days_in_month(y: int, m: int) -> int
    recommends
        1 <= m <= 12,
{
    if m == 2 {
        if is_leap_year(y) { 29 } else { 28 }
    } else if m == 4 || m == 6 || m == 9 || m == 11 {
        30
    } else {
        31
    }
}

/// A proleptic-Gregorian civil date this library accepts.
pub open spec fn valid_date(y: int, m: int, d: int) -> bool {
    1970 <= y <= 9999 && 1 <= m <= 12 && 1 <= d <= days_in_month(y, m)
}

/// The day number of the civil date `(y, m, d)`: days from the start of year 1
/// plus leap days, shifted so that 1970-01-01 is day 0.
pub open spec fn epoch_day_of_date(y: int, m: int, d: int) -> int {
    let py = y - 1;
    365 * py + py / 4 - py / 100 + py / 400 + days_before_month(y, m) + (d - 1) - 719162
}

/// `s` has the shape `YYYY-MM-DD` and names a date this library accepts.
pub open spec fn valid_date_str(s: Seq<char>) -> bool {
    &&& s.len() == 10
    &&& is_digit_char(s[0]) && is_digit_char(s[1]) && is_digit_char(s[2]) && is_digit_char(s[3])
    &&& s[4] == '-'
    &&& is_digit_char(s[5]) && is_digit_char(s[6])
    &&& s[7] == '-'
    &&& is_digit_char(s[8]) && is_digit_char(s[9])
    &&& valid_date(year_of_str(s), month_of_str(s), day_of_str(s))
}

/// The instant of UTC midnight of the date that `s` names.
pub open spec fn date_str_secs(s: Seq<char>) -> int {
    86400 * epoch_day_of_date(year_of_str(s), month_of_str(s), day_of_str(s))
}

#[derive(Debug, Clone, PartialEq, Eq, Structural)]
pub enum DateParseError {
    InvalidFormat,
    OutOfRange,
}

fn digit(c: char) -> (r: Option<u64>)
    ensures
        r is Some <==> is_digit_char(c),
        is_digit_char(c) ==> r == Some((digit_val(c)) as u64),
{
    let v: u32 = c as u32;
    if 48 <= v && v <= 57 {
        Some((v - 48) as u64)
    } else {
        None
    }
}

fn days_in_month_exec(y: u64, m: u64) -> (r: u64)
    requires
        1 <= m <= 12,
    ensures
        r == days_in_month(y as int, m as int),
{
    if m == 2 {
        if (y % 4 == 0 && y % 100 != 0) || y % 400 == 0 { 29 } else { 28 }
    } else if m == 4 || m == 6 || m == 9 || m == 11 {
        30
    } else {
        31
    }
}

fn days_before_month_exec(y: u64, m: u64) -> (r: u64)
    requires
        1 <= m <= 12,
    ensures
        r == days_before_month(y as int, m as int),
{
    let base: u64 = if m == 1 { 0 }
        else if m == 2 { 31 }
        else if m == 3 { 59 }
        else if m == 4 { 90 }
        else if m == 5 { 120 }
        else if m == 6 { 151 }
        else if m == 7 { 181 }
        else if m == 8 { 212 }
        else if m == 9 { 243 }
        else if m == 10 { 273 }
        else if m == 11 { 304 }
        else { 334 };
    if m > 2 && ((y % 4 == 0 && y % 100 != 0) || y % 400 == 0) { base + 1 } else { base }
}

/// From 1969 on, a year's day count (365 per year plus accumulated leap days)
/// has reached the epoch offset 719162, so day numbers from 1970 on are not
/// negative.
proof fn lemma_leap_sum_ge(py: int)
    requires
        1969 <= py,
    ensures
        365 * py + py / 4 - py / 100 + py / 400 >= 719162,
        py / 100 <= py / 4,
    decreases py,
{
    vstd::arithmetic::div_mod::lemma_div_is_ordered_by_denominator(py, 4, 100);
    if py > 1969 {
        lemma_leap_sum_ge(py - 1);
        lemma_div_is_ordered(py - 1, py, 4);
        lemma_div_is_ordered(py - 1, py, 400);
        vstd::arithmetic::div_mod::lemma_div_plus_one(py - 1, 100);
        lemma_div_is_ordered(py, 99 + py, 100);
    }
}

/// `s` has the shape `YYYY-MM-DD`, whatever date it names.
pub open spec fn date_str_shape(s: Seq<char>) -> bool {
    &&& s.len() == 10
    &&& is_digit_char(s[0]) && is_digit_char(s[1]) && is_digit_char(s[2]) && is_digit_char(s[3])
    &&& s[4] == '-'
    &&& is_digit_char(s[5]) && is_digit_char(s[6])
    &&& s[7] == '-'
    &&& is_digit_char(s[8]) && is_digit_char(s[9])
}

/// Parses `YYYY-MM-DD` as UTC midnight, in seconds since the epoch.
pub fn parse(s: &str) -> (r: Result<u64, DateParseError>)
    ensures
        r is Ok <==> valid_date_str(s@),
        valid_date_str(s@) ==> r == Ok::<u64, DateParseError>((date_str_secs(s@)) as u64),
        !date_str_shape(s@) ==> r == Err::<u64, DateParseError>(DateParseError::InvalidFormat),
        date_str_shape(s@) && !valid_date_str(s@) ==> r == Err::<u64, DateParseError>(
            DateParseError::OutOfRange,
        ),
{
    let n: usize = s.unicode_len();
    if n != 10 {
        return Err(DateParseError::InvalidFormat);
    }
    if s.get_char(4) != '-' || s.get_char(7) != '-' {
        return Err(DateParseError::InvalidFormat);
    }
    let d0 = digit(s.get_char(0));
    let d1 = digit(s.get_char(1));
    let d2 = digit(s.get_char(2));
    let d3 = digit(s.get_char(3));
    let m0 = digit(s.get_char(5));
    let m1 = digit(s.get_char(6));
    let a0 = digit(s.get_char(8));
    let a1 = digit(s.get_char(9));
    match (d0, d1, d2, d3, m0, m1, a0, a1) {
        (Some(d0), Some(d1), Some(d2), Some(d3), Some(m0), Some(m1), Some(a0), Some(a1)) => {
            let y: u64 = 1000 * d0 + 100 * d1 + 10 * d2 + d3;
            let m: u64 = 10 * m0 + m1;
            let d: u64 = 10 * a0 + a1;
            if y < 1970 || m < 1 || m > 12 || d < 1 || d > days_in_month_exec(y, m) {
                return Err(DateParseError::OutOfRange);
            }
            let py: u64 = y - 1;
            proof {
                lemma_leap_sum_ge(py as int);
            }
            let leaps: u64 = py / 4 - py / 100 + py / 400;
            let day: u64 = 365 * py + leaps + days_before_month_exec(y, m) + (d - 1) - 719162;
            Ok(86400 * day)
        },
        _ => Err(DateParseError::InvalidFormat),
    }
}

// --- ISO week arithmetic ---

/// The Monday-start day number of the week containing day `d`.
/// Day 0 (1970-01-01) was a Thursday, so `(d + 3) % 7 == 0` exactly on Mondays.
pub open spec fn week_start_of_day(d: int) -> int {
    d - ((d + 3) % 7)
}

/// The Monday-start day number of the ISO week containing the instant `t`.
pub open spec fn week_of(t: u64) -> int {
    week_start_of_day(epoch_day_of(t))
}

/// The Monday-start day number of the ISO week containing the instant `t`.
pub fn week_start_day(t: u64) -> (r: i64)
    ensures
        r == week_of(t),
{
    let day: i64 = (t / 86400) as i64;
    day - ((day + 3) % 7)
}

pub proof fn lemma_week_start_props(d: int)
    requires
        0 <= d,
    ensures
        week_start_of_day(d) <= d <= week_start_of_day(d) + 6,
        week_start_of_day(d) % 7 == 4,
        week_start_of_day(d) == 7 * ((d + 3) / 7) - 3,
{
    lemma_fundamental_div_mod(d + 3, 7);
    assert(week_start_of_day(d) == 7 * ((d + 3) / 7) - 3);
    assert((7 * ((d + 3) / 7) - 3) % 7 == 4) by {
        let q = (d + 3) / 7;
        vstd::arithmetic::div_mod::lemma_mod_multiples_vanish(q, -3, 7);
    }
}

pub proof fn lemma_week_monotone(t1: u64, t2: u64)
    requires
        t1 <= t2,
    ensures
        week_of(t1) <= week_of(t2),
{
    lemma_div_is_ordered(t1 as int, t2 as int, 86400);
    let d1 = epoch_day_of(t1);
    let d2 = epoch_day_of(t2);
    lemma_week_start_props(d1);
    lemma_week_start_props(d2);
    lemma_div_is_ordered(d1 + 3, d2 + 3, 7);
}

/// An instant lies inside the week whose Monday its week starts on.
pub proof fn lemma_instant_in_own_week(t: u64)
    ensures
        week_of(t) <= epoch_day_of(t) <= week_of(t) + 6,
        week_of(t) % 7 == 4,
{
    lemma_week_start_props(epoch_day_of(t));
}

/// Two Monday day numbers differ by a whole number of weeks, so an instant's
/// week has exactly one index in a run of consecutive weeks starting at `w0`.
pub proof fn lemma_week_index_unique(w0: int, w: int)
    requires
        w0 % 7 == 4,
        w % 7 == 4,
        w0 <= w,
    ensures
        (w - w0) % 7 == 0,
        w == w0 + 7 * ((w - w0) / 7),
        forall|k: int| w == w0 + #[trigger] (7 * k) ==> k == (w - w0) / 7,
{
    let diff = w - w0;
    assert(diff % 7 == 0) by {
        vstd::arithmetic::div_mod::lemma_sub_mod_noop(w, w0, 7);
    }
    lemma_fundamental_div_mod(diff, 7);
    assert forall|k: int| w == w0 + #[trigger] (7 * k) implies k == (w - w0) / 7 by {
        assert(7 * k == diff);
        assert(7 * ((w - w0) / 7) == diff);
    }
}

} // verus!
