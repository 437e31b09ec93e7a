//! Days of the calendar.

use crate::clock::unix_seconds;
use crate::text::{padded_decimal, padded_decimal_string};
use vstd::prelude::*;

verus! {

broadcast use vstd::string::group_string_axioms;

/// Whether a year has a leap day.
pub open spec fn is_leap(year: int) -> bool {
    year % 4 == 0 && (year % 100 != 0 || year % 400 == 0)
}

/// The days of a year.
pub open spec fn days_in_year(year: int) -> int {
    if is_leap(year) {
        366
    } else {
        365
    }
}

/// The days of a month.
pub open spec fn days_in_month(year: int, month: int) -> int {
    if month == 2 {
        if is_leap(year) {
            29
        } else {
            28
        }
    } else if month == 4 || month == 6 || month == 9 || month == 11 {
        30
    } else {
        31
    }
}

/// The days from the first of January 1970 to that of a later year.
pub open spec fn days_before_year(year: int) -> int
    decreases year,
{
    if year <= 1970 {
        0
    } else {
        days_before_year(year - 1) + days_in_year(year - 1)
    }
}

/// The days of a year before a month.
pub open spec fn days_before_month(year: int, month: int) -> int
    decreases month,
{
    if month <= 1 {
        0
    } else {
        days_before_month(year, month - 1) + days_in_month(year, month - 1)
    }
}

/// Whether there is such a day, from 1970 on.
pub open spec fn is_date(year: int, month: int, day: int) -> bool {
    1970 <= year && 1 <= month <= 12 && 1 <= day <= days_in_month(year, month)
}

/// The days from the first of January 1970 to a day.
pub open spec fn day_number(year: int, month: int, day: int) -> int {
    days_before_year(year) + days_before_month(year, month) + day - 1
}

proof fn months_fill_year(year: int)
    ensures
        days_before_month(year, 13) == days_in_year(year),
{
    reveal_with_fuel(days_before_month, 14);
}

proof fn month_ends_in_year(year: int, month: int)
    requires
        1 <= month <= 12,
    ensures
        0 <= days_before_month(year, month),
        days_before_month(year, month) + days_in_month(year, month) <= days_in_year(year),
{
    reveal_with_fuel(days_before_month, 14);
}

proof fn years_grow(a: int, b: int)
    requires
        1970 <= a < b,
    ensures
        days_before_year(a) + days_in_year(a) <= days_before_year(b),
    decreases b,
{
    if a < b - 1 {
        years_grow(a, b - 1);
    }
}

proof fn months_grow(year: int, a: int, b: int)
    requires
        1 <= a < b,
    ensures
        days_before_month(year, a) + days_in_month(year, a) <= days_before_month(year, b),
    decreases b,
{
    if a < b - 1 {
        months_grow(year, a, b - 1);
    }
}

/// Different days have different numbers, so that a number tells the day.
pub proof fn day_numbers_differ(y1: int, m1: int, d1: int, y2: int, m2: int, d2: int)
    requires
        is_date(y1, m1, d1),
        is_date(y2, m2, d2),
        day_number(y1, m1, d1) == day_number(y2, m2, d2),
    ensures
        y1 == y2 && m1 == m2 && d1 == d2,
{
    month_ends_in_year(y1, m1);
    month_ends_in_year(y2, m2);
    if y1 < y2 {
        years_grow(y1, y2);
    } else if y2 < y1 {
        years_grow(y2, y1);
    } else if m1 < m2 {
        months_grow(y1, m1, m2);
    } else if m2 < m1 {
        months_grow(y1, m2, m1);
    }
}

fn month_length(year: u64, month: u64) -> (r: u64)
    ensures
        r == days_in_month(year as int, month as int),
{
    if month == 2 {
        if year % 4 == 0 && (year % 100 != 0 || year % 400 == 0) {
            29
        } else {
            28
        }
    } else if month == 4 || month == 6 || month == 9 || month == 11 {
        30
    } else {
        31
    }
}

/// The year, month and day of a number of days since the first of January 1970.
pub fn unix_days_to_ymd(days: u64) -> (r: (u64, u64, u64))
    ensures
        is_date(r.0 as int, r.1 as int, r.2 as int),
        day_number(r.0 as int, r.1 as int, r.2 as int) == days,
{
    let mut n: u64 = days;
    let mut y: u64 = 1970;
    loop
        invariant_except_break
            days == days_before_year(y as int) + n,
        invariant
            1970 <= y,
            (y - 1970) * 365 + n <= days,
        ensures
            days == days_before_year(y as int) + n,
            n < days_in_year(y as int),
        decreases n,
    {
        let length: u64 = if y % 4 == 0 && (y % 100 != 0 || y % 400 == 0) {
            366
        } else {
            365
        };
        if n < length {
            break;
        }
        n = n - length;
        y = y + 1;
    }
    let mut month: u64 = 1;
    proof {
        months_fill_year(y as int);
    }
    let ghost in_year = n;
    while month < 12 && n >= month_length(y, month)
        invariant
            1 <= month <= 12,
            in_year == days_before_month(y as int, month as int) + n,
            in_year < days_in_year(y as int),
            days_before_month(y as int, 13) == days_in_year(y as int),
        ensures
            1 <= month <= 12,
            in_year == days_before_month(y as int, month as int) + n,
            n < days_in_month(y as int, month as int),
        decreases 12 - month,
    {
        n = n - month_length(y, month);
        month = month + 1;
    }
    (y, month, n + 1)
}

/// A time in the form `2026-03-05T14:07:09Z`, from the seconds since the epoch.
pub open spec fn is_iso8601(text: Seq<char>, seconds: u64) -> bool {
    exists|y: int, m: int, d: int|
        #[trigger] is_date(y, m, d) && day_number(y, m, d) == seconds / 86400 && text
            == iso8601_text(y as nat, m as nat, d as nat, seconds)
}

/// The day and the time of day in the form `2026-03-05T14:07:09Z`.
pub open spec fn iso8601_text(y: nat, m: nat, d: nat, seconds: u64) -> Seq<char> {
    padded_decimal(y, 4) + "-"@ + padded_decimal(m, 2) + "-"@ + padded_decimal(d, 2) + "T"@
        + padded_decimal(((seconds % 86400) / 3600) as nat, 2) + ":"@ + padded_decimal(
        ((seconds % 3600) / 60) as nat,
        2,
    ) + ":"@ + padded_decimal((seconds % 60) as nat, 2) + "Z"@
}

/// Writes a time, from the seconds since the epoch.
pub fn iso8601_at(seconds: u64) -> (r: String)
    ensures
        is_iso8601(r@, seconds),
{
    let (y, m, d): (u64, u64, u64) = unix_days_to_ymd(seconds / 86400);
    let mut r: String = padded_decimal_string(y, 4);
    r.push_str("-");
    r.push_str(padded_decimal_string(m, 2).as_str());
    r.push_str("-");
    r.push_str(padded_decimal_string(d, 2).as_str());
    r.push_str("T");
    r.push_str(padded_decimal_string((seconds % 86400) / 3600, 2).as_str());
    r.push_str(":");
    r.push_str(padded_decimal_string((seconds % 3600) / 60, 2).as_str());
    r.push_str(":");
    r.push_str(padded_decimal_string(seconds % 60, 2).as_str());
    r.push_str("Z");
    assert(is_date(y as int, m as int, d as int));
    assert(r@ == iso8601_text(y as nat, m as nat, d as nat, seconds));
    r
}

/// Writes the time by the clock; the epoch where the clock is before it.
pub fn now_iso8601() -> (r: String)
    ensures
        exists|seconds: u64| is_iso8601(r@, seconds),
{
    let now: i64 = unix_seconds();
    iso8601_at(if now > 0 {
        now as u64
    } else {
        0
    })
}

/// One day follows the other: the next day of the month, the first of the next month
/// after the last of one, the first of the next year after the last of one.
pub proof fn days_follow_each_other(year: int, month: int, day: int)
    requires
        is_date(year, month, day),
    ensures
        day_number(1970, 1, 1) == 0,
        day < days_in_month(year, month) ==> day_number(year, month, day + 1) == day_number(
            year,
            month,
            day,
        ) + 1,
        day == days_in_month(year, month) && month < 12 ==> day_number(year, month + 1, 1)
            == day_number(year, month, day) + 1,
        day == days_in_month(year, month) && month == 12 ==> day_number(year + 1, 1, 1)
            == day_number(year, month, day) + 1,
        is_leap(year) <==> year % 400 == 0 || (year % 4 == 0 && year % 100 != 0),
{
    reveal_with_fuel(days_before_month, 14);
}

/// A moment has one text: two texts of the same seconds are the same.
pub proof fn moments_have_one_text(a: Seq<char>, b: Seq<char>, seconds: u64)
    requires
        is_iso8601(a, seconds),
        is_iso8601(b, seconds),
    ensures
        a == b,
{
    let (y1, m1, d1) = choose|y: int, m: int, d: int|
        #[trigger] is_date(y, m, d) && day_number(y, m, d) == seconds / 86400 && a == iso8601_text(
            y as nat,
            m as nat,
            d as nat,
            seconds,
        );
    let (y2, m2, d2) = choose|y: int, m: int, d: int|
        #[trigger] is_date(y, m, d) && day_number(y, m, d) == seconds / 86400 && b == iso8601_text(
            y as nat,
            m as nat,
            d as nat,
            seconds,
        );
    day_numbers_differ(y1, m1, d1, y2, m2, d2);
}

/// The time of day is told by its hours, minutes and seconds.
pub proof fn times_of_day_are_told(
    y: nat,
    m: nat,
    d: nat,
    days: nat,
    hours: nat,
    minutes: nat,
    secs: nat,
    seconds: u64,
)
    requires
        hours < 24,
        minutes < 60,
        secs < 60,
        seconds as nat == 86400 * days + 3600 * hours + 60 * minutes + secs,
    ensures
        iso8601_text(y, m, d, seconds) == padded_decimal(y, 4) + "-"@ + padded_decimal(m, 2) + "-"@
            + padded_decimal(d, 2) + "T"@ + padded_decimal(hours, 2) + ":"@ + padded_decimal(
            minutes,
            2,
        ) + ":"@ + padded_decimal(secs, 2) + "Z"@,
        seconds / 86400 == days,
{
    let n = seconds as nat;
    let rest = 3600 * hours + 60 * minutes + secs;
    assert(n / 86400 == days && n % 86400 == rest) by (nonlinear_arith)
        requires
            n == 86400 * days + rest,
            rest < 86400,
    ;
    assert(rest / 3600 == hours);
    let whole = 24 * days + hours;
    assert(n % 3600 == 60 * minutes + secs) by (nonlinear_arith)
        requires
            n == 3600 * whole + 60 * minutes + secs,
            60 * minutes + secs < 3600,
    ;
    assert((60 * minutes + secs) / 60 == minutes);
    let more = 60 * whole + minutes;
    assert(n % 60 == secs) by (nonlinear_arith)
        requires
            n == 60 * more + secs,
            secs < 60,
    ;
}

} // verus!
