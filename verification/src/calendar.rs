//! Calendar arithmetic for month-based queries: leap years, month lengths
//! and the half-open range of dates that a month covers.

use crate::text::append_zero_padded;
use crate::text::zero_padded;
use vstd::prelude::*;
use vstd::string::StringExecFns;

verus! {

/// The month length that is used when `month` is not one of 1 to 12.
pub const FALLBACK_DAYS: u8 = 30;

/// The leap-year rule of the Gregorian calendar.
pub open spec fn is_leap_year(year: int) -> bool {
    (year % 4 == 0 && year % 100 != 0) || year % 400 == 0
}

/// The number of days of `month` in `year`; `FALLBACK_DAYS` where `month`
/// names no month.
pub open spec fn month_length(year: int, month: int) -> int {
    if month == 1 || month == 3 || month == 5 || month == 7 || month == 8 || month == 10 || month
        == 12 {
        31
    } else if month == 4 || month == 6 || month == 9 || month == 11 {
        30
    } else if month == 2 {
        if is_leap_year(year) {
            29
        } else {
            28
        }
    } else {
        FALLBACK_DAYS as int
    }
}

/// The first day of `month` in `year`, written `YYYY-MM-01`.
pub open spec fn month_start(year: int, month: int) -> Seq<char> {
    zero_padded(year, 4) + seq!['-'] + zero_padded(month, 2) + seq!['-', '0', '1']
}

/// The first day of the month after `month` in `year`: January of the next
/// year after December.
pub open spec fn next_month_start(year: int, month: int) -> Seq<char> {
    if month == 12 {
        month_start(year + 1, 1)
    } else {
        month_start(year, month + 1)
    }
}

/// Whether `year` is a leap year.
pub fn leap_year(year: i64) -> (r: bool)
    ensures
        r == is_leap_year(year as int),
{
    // A number and its negation have the same divisors.
    let wide: i128 = year as i128;
    let magnitude: i128 = if wide < 0 {
        -wide
    } else {
        wide
    };
    (magnitude % 4 == 0 && magnitude % 100 != 0) || magnitude % 400 == 0
}

/// The number of days of `month` in `year`.
pub fn days_in_month(year: i64, month: i64) -> (days: u8)
    ensures
        days == month_length(year as int, month as int),
        28 <= days <= 31,
{
    if month == 1 || month == 3 || month == 5 || month == 7 || month == 8 || month == 10 || month
        == 12 {
        31
    } else if month == 4 || month == 6 || month == 9 || month == 11 {
        30
    } else if month == 2 {
        if leap_year(year) {
            29
        } else {
            28
        }
    } else {
        FALLBACK_DAYS
    }
}

fn first_of_month(year: i128, month: i128) -> (r: String)
    ensures
        r@ == month_start(year as int, month as int),
{
    let mut out = String::new();
    append_zero_padded(&mut out, year, 4);
    proof {
        reveal_strlit("-");
        reveal_strlit("-01");
    }
    out.append("-");
    append_zero_padded(&mut out, month, 2);
    out.append("-01");
    assert(out@ =~= month_start(year as int, month as int));
    out
}

/// The half-open range of dates that `month` of `year` covers: its first
/// day, and the first day of the month after it.
pub fn month_range(year: i64, month: i64) -> (range: (String, String))
    ensures
        range.0@ == month_start(year as int, month as int),
        range.1@ == next_month_start(year as int, month as int),
{
    let start = first_of_month(year as i128, month as i128);
    let end = if month == 12 {
        first_of_month(year as i128 + 1, 1)
    } else {
        first_of_month(year as i128, month as i128 + 1)
    };
    (start, end)
}

} // verus!
