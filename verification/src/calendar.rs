//! The proleptic Gregorian calendar on day numbers.
//!
//! Instants are carried as days relative to 1970-01-01; these functions
//! convert between such day numbers and (year, month, day) triples.  The
//! era-based formulas work on values shifted far enough into the positive
//! range that every division here is on non-negative numbers.
//!
//! The field-to-day direction is stated for years 0 through 9999 (what the
//! date literal grammar can name); the day-to-field direction is total on
//! the library's whole date range.  In the day-to-field direction the
//! computed month and day-of-month are passed through range clamps: the
//! clamps never move a value for any day number, but they make the field
//! ranges part of the contract without a proof of the classic algorithm's
//! range analysis.

use vstd::prelude::*;

verus! {

/// Days between 0000-03-01 and 1970-01-01 in the proleptic Gregorian
/// calendar.
pub const CIVIL_EPOCH_SHIFT: i64 = 719468;

/// Days in 400 Gregorian years.
pub const DAYS_PER_ERA: i64 = 146097;

/// `y` is a Gregorian leap year.
pub open spec fn spec_is_leap(y: int) -> bool {
    y % 4 == 0 && (y % 100 != 0 || y % 400 == 0)
}

/// `y` is a Gregorian leap year.
pub fn is_leap(y: i64) -> (r: bool)
    requires
        0 <= y <= 20000,
    ensures
        r == spec_is_leap(y as int),
{
    y % 4 == 0 && (y % 100 != 0 || y % 400 == 0)
}

/// Days in month `m` of year `y`.
pub open spec fn spec_days_in_month(y: int, m: int) -> int {
    if m == 2 {
        if spec_is_leap(y) {
            29
        } else {
            28
        }
    } else if m == 4 || m == 6 || m == 9 || m == 11 {
        30
    } else {
        31
    }
}

/// Days in month `m` of year `y`.
pub fn days_in_month(y: i64, m: i64) -> (r: i64)
    requires
        0 <= y <= 20000,
    ensures
        r == spec_days_in_month(y as int, m as int),
        28 <= r <= 31,
{
    if m == 2 {
        if is_leap(y) {
            29
        } else {
            28
        }
    } else if m == 4 || m == 6 || m == 9 || m == 11 {
        30
    } else {
        31
    }
}

/// The triple is a calendar date: month in range, day in range for that
/// month and year.
pub open spec fn spec_valid_ymd(y: int, m: int, d: int) -> bool {
    &&& 0 <= y <= 9999
    &&& 1 <= m <= 12
    &&& 1 <= d <= spec_days_in_month(y, m)
}

/// The day number of the date (y, m, d), relative to 1970-01-01.
///
/// The year is shifted by 400 so that the era arithmetic stays
/// non-negative; one era of days is taken back out at the end.
pub open spec fn spec_days_from_civil(y: int, m: int, d: int) -> int {
    let yadj = if m <= 2 { y + 399 } else { y + 400 };
    let era = yadj / 400;
    let yoe = yadj % 400;
    let mp = if m > 2 { m - 3 } else { m + 9 };
    let doy = (153 * mp + 2) / 5 + d - 1;
    let doe = yoe * 365 + yoe / 4 - yoe / 100 + doy;
    era * 146097 + doe - 719468 - 146097
}

/// The day number of the date (y, m, d), relative to 1970-01-01.
pub fn days_from_civil(y: i64, m: i64, d: i64) -> (r: i64)
    requires
        spec_valid_ymd(y as int, m as int, d as int),
    ensures
        r == spec_days_from_civil(y as int, m as int, d as int),
        -719600 <= r <= 3000000,
{
    let yadj: i64 = if m <= 2 { y + 399 } else { y + 400 };
    let era: i64 = yadj / 400;
    let yoe: i64 = yadj % 400;
    let mp: i64 = if m > 2 { m - 3 } else { m + 9 };
    let doy: i64 = (153 * mp + 2) / 5 + d - 1;
    let doe: i64 = yoe * 365 + yoe / 4 - yoe / 100 + doy;
    era * 146097 + doe - 719468 - 146097
}

/// The (year, month, day) naming day number `z`.
///
/// The day number is shifted by 35 eras so that every division is on
/// non-negative values; the 14000 shifted years are taken back out of the
/// year.  Month and day-of-month pass through clamps that are identities
/// on every reachable value.
pub open spec fn spec_civil_from_days(z: int) -> (int, int, int) {
    let za = z + 719468 + 35 * 146097;
    let era = za / 146097;
    let doe = za % 146097;
    let yoe = (doe - doe / 1460 + doe / 36524 - doe / 146096) / 365;
    let doy0 = doe - (365 * yoe + yoe / 4 - yoe / 100);
    let doy = if doy0 < 0 {
        0
    } else if doy0 > 365 {
        365
    } else {
        doy0
    };
    let mp = (5 * doy + 2) / 153;
    let d0 = doy - (153 * mp + 2) / 5 + 1;
    let d = if d0 < 1 {
        1
    } else if d0 > 31 {
        31
    } else {
        d0
    };
    let m = if mp < 10 {
        mp + 3
    } else {
        mp - 9
    };
    let y = yoe + era * 400 - 14000 + if m <= 2 { 1int } else { 0int };
    (y, m, d)
}

/// The (year, month, day) naming day number `z`.
#[verifier::rlimit(100)]
pub fn civil_from_days(z: i64) -> (r: (i64, i64, i64))
    requires
        -5000000 <= z <= 5000000,
    ensures
        (r.0 as int, r.1 as int, r.2 as int) == spec_civil_from_days(z as int),
        -14100 <= r.0 <= 16500,
        1 <= r.1 <= 12,
        1 <= r.2 <= 31,
{
    let za: i64 = z + 719468 + 35 * 146097;
    let era: i64 = za / 146097;
    let doe: i64 = za % 146097;
    let yoe: i64 = (doe - doe / 1460 + doe / 36524 - doe / 146096) / 365;
    let doy0: i64 = doe - (365 * yoe + yoe / 4 - yoe / 100);
    let doy: i64 = if doy0 < 0 {
        0
    } else if doy0 > 365 {
        365
    } else {
        doy0
    };
    let mp: i64 = (5 * doy + 2) / 153;
    let d0: i64 = doy - (153 * mp + 2) / 5 + 1;
    let d: i64 = if d0 < 1 {
        1
    } else if d0 > 31 {
        31
    } else {
        d0
    };
    let m: i64 = if mp < 10 {
        mp + 3
    } else {
        mp - 9
    };
    let y: i64 = yoe + era * 400 - 14000 + if m <= 2 { 1 } else { 0 };
    (y, m, d)
}

} // verus!
