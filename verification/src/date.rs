//! Instants and time steps.
//!
//! An instant is carried as microseconds since the Unix epoch, which makes
//! every supported date form exact: one Julian microday is exactly 86400
//! microseconds, so Julian-day literals, Unix literals and calendar fields
//! all land on the same grid.  The library's date range is about twelve
//! thousand years either side of the epoch; stepping clamps into it.
//!
//! A step is either a fixed span of microseconds or a whole number of
//! calendar months.  Month arithmetic (day-of-month clamping included) is
//! delegated to `chrono` through the trusted declarations below, never
//! reimplemented; fixed spans are plain addition here.

use vstd::prelude::*;

verus! {

/// Largest magnitude of an instant, in microseconds from the Unix epoch.
pub const MAX_DATE_MICROS: i64 = 400000000000000000;

/// Largest magnitude of an instant, in whole seconds from the Unix epoch.
pub const MAX_DATE_SECS: i64 = 400000000000;

/// Microseconds in a day.
pub const MICROS_PER_DAY: i64 = 86400000000;

/// Microseconds between the Julian-day epoch and the Unix epoch:
/// 2440587.5 days.
pub const JULIAN_EPOCH_MICROS: i64 = 210866760000000000;

/// An instant in continuous time: microseconds since 1970-01-01T00:00:00
/// UTC, on the proleptic Gregorian calendar.
#[derive(Clone, Copy, Debug, PartialEq, Eq, Structural)]
pub struct Date {
    pub micros: i64,
}

/// The instant lies in the library's date range.
pub open spec fn date_ok(d: Date) -> bool {
    -MAX_DATE_MICROS <= d.micros <= MAX_DATE_MICROS
}

/// A step in time: a fixed span of microseconds (`S`), or a whole number
/// of calendar months (`M`).  A year is twelve months; weeks, days, hours
/// and minutes reduce to microseconds.  The sign of a fixed span is kept
/// from the literal, but stepping moves by its magnitude; the direction
/// comes from the caller.
#[derive(Clone, Copy, Debug, PartialEq, Eq, Structural)]
pub enum Step {
    S(i64),
    M(u32),
}

/// Largest magnitude of a fixed step, in microseconds.
pub const MAX_STEP_MICROS: i64 = 900000000000000000;

/// Largest month count of a calendar step.
pub const MAX_STEP_MONTHS: u32 = 1200000;

/// The step lies in the range stepping accepts.
pub open spec fn step_ok(s: Step) -> bool {
    match s {
        Step::S(v) => -MAX_STEP_MICROS <= v <= MAX_STEP_MICROS,
        Step::M(m) => m <= MAX_STEP_MONTHS,
    }
}

/// The step moves every date: a fixed span other than zero, or at least
/// one month.
pub open spec fn step_progresses(s: Step) -> bool {
    match s {
        Step::S(v) => v != 0,
        Step::M(m) => m >= 1,
    }
}

/// What `chrono` answers when `months` calendar months are added to the
/// instant `secs` seconds from the Unix epoch (day-of-month clamped to
/// the target month's length, time of day kept).
pub uninterp spec fn month_add_of(secs: int, months: int) -> int;

/// What `chrono` answers when `months` calendar months are subtracted.
pub uninterp spec fn month_sub_of(secs: int, months: int) -> int;

/// Relies on `chrono::DateTime::checked_add_months` (with
/// `chrono::DateTime::from_timestamp` and `timestamp` converting at the
/// boundary): calendar month addition with day-of-month clamping.  The
/// admitted ranges stay far inside chrono's ±262000-year span, so the
/// checked calls cannot come back empty; adding at least one month moves
/// the date forward by at least a day.
#[verifier::external_body]
fn chrono_month_add(secs: i64, months: u32) -> (r: i64)
    requires
        -MAX_DATE_SECS <= secs <= MAX_DATE_SECS,
        months <= MAX_STEP_MONTHS,
    ensures
        r == month_add_of(secs as int, months as int),
        months >= 1 ==> r >= secs + 86400,
{
    chrono::DateTime::from_timestamp(secs, 0)
        .and_then(|d| d.checked_add_months(chrono::Months::new(months)))
        .map(|d| d.timestamp())
        .expect("in range by construction")
}

/// Relies on `chrono::DateTime::checked_sub_months` (with
/// `chrono::DateTime::from_timestamp` and `timestamp` converting at the
/// boundary): calendar month subtraction with day-of-month clamping.
#[verifier::external_body]
fn chrono_month_sub(secs: i64, months: u32) -> (r: i64)
    requires
        -MAX_DATE_SECS <= secs <= MAX_DATE_SECS,
        months <= MAX_STEP_MONTHS,
    ensures
        r == month_sub_of(secs as int, months as int),
        months >= 1 ==> r <= secs - 86400,
{
    chrono::DateTime::from_timestamp(secs, 0)
        .and_then(|d| d.checked_sub_months(chrono::Months::new(months)))
        .map(|d| d.timestamp())
        .expect("in range by construction")
}

/// Relies on `chrono::Utc::now` (with `timestamp` converting): the system
/// clock as seconds from the Unix epoch.  Nothing is promised of a clock.
#[verifier::external_body]
fn chrono_now_secs() -> i64 {
    chrono::Utc::now().timestamp()
}

/// The current instant, clamped into the library's date range.
pub fn now_date() -> (r: Date)
    ensures
        date_ok(r),
{
    let s: i64 = chrono_now_secs();
    let c: i64 = if s > MAX_DATE_SECS {
        MAX_DATE_SECS
    } else if s < -MAX_DATE_SECS {
        -MAX_DATE_SECS
    } else {
        s
    };
    Date { micros: c * 1000000 }
}

/// `x` clamped into the library's microsecond range.
pub open spec fn clamp_micros(x: int) -> int {
    if x > MAX_DATE_MICROS {
        MAX_DATE_MICROS as int
    } else if x < -MAX_DATE_MICROS {
        -MAX_DATE_MICROS as int
    } else {
        x
    }
}

/// The instant's whole seconds, rounded toward zero (sub-second detail is
/// dropped before month arithmetic, as the Unix interface of the
/// underlying date type drops it).
pub open spec fn trunc_secs(micros: int) -> int {
    if micros >= 0 {
        micros / 1000000
    } else {
        -((-micros) / 1000000)
    }
}

/// Where stepping `d` forward by `s` lands: magnitude of a fixed span
/// added, or chrono's month addition on whole seconds, clamped into the
/// date range.
pub open spec fn spec_step_forward(d: Date, s: Step) -> int {
    match s {
        Step::S(v) => clamp_micros(d.micros + if v >= 0 { v as int } else { -(v as int) }),
        Step::M(m) => clamp_micros(month_add_of(trunc_secs(d.micros as int), m as int) * 1000000),
    }
}

/// Where stepping `d` backward by `s` lands.
pub open spec fn spec_step_back(d: Date, s: Step) -> int {
    match s {
        Step::S(v) => clamp_micros(d.micros - if v >= 0 { v as int } else { -(v as int) }),
        Step::M(m) => clamp_micros(month_sub_of(trunc_secs(d.micros as int), m as int) * 1000000),
    }
}

/// The instant's whole seconds, rounded toward zero.
fn micros_to_secs_trunc(micros: i64) -> (r: i64)
    requires
        -MAX_DATE_MICROS <= micros <= MAX_DATE_MICROS,
    ensures
        r == trunc_secs(micros as int),
        -MAX_DATE_SECS <= r <= MAX_DATE_SECS,
{
    if micros >= 0 {
        micros / 1000000
    } else {
        -((-micros) / 1000000)
    }
}

/// Seconds clamped to the date range, then widened to microseconds.
fn secs_to_clamped_micros(secs: i64) -> (r: i64)
    ensures
        r == clamp_micros(secs as int * 1000000),
        -MAX_DATE_MICROS <= r <= MAX_DATE_MICROS,
{
    if secs > MAX_DATE_SECS {
        MAX_DATE_MICROS
    } else if secs < -MAX_DATE_SECS {
        -MAX_DATE_MICROS
    } else {
        proof {
            assert(secs * 1000000 <= MAX_DATE_SECS * 1000000) by (nonlinear_arith)
                requires secs <= MAX_DATE_SECS,
            ;
            assert(-(MAX_DATE_SECS as int) * 1000000 <= secs * 1000000) by (nonlinear_arith)
                requires secs >= -(MAX_DATE_SECS as int),
            ;
        }
        secs * 1000000
    }
}

/// Steps a date forward: a fixed span moves by its magnitude; a month
/// step is calendar arithmetic on whole seconds.  The result is clamped
/// into the library's date range.
pub fn step_forward_date(d: Date, s: Step) -> (r: Date)
    requires
        date_ok(d),
        step_ok(s),
    ensures
        r.micros == spec_step_forward(d, s),
        date_ok(r),
        step_progresses(s) && d.micros < MAX_DATE_MICROS ==> r.micros > d.micros,
{
    match s {
        Step::S(v) => {
            let mag: i64 = if v >= 0 { v } else { -v };
            let sum: i64 = d.micros + mag;
            let c: i64 = if sum > MAX_DATE_MICROS { MAX_DATE_MICROS } else { sum };
            Date { micros: c }
        },
        Step::M(m) => {
            let secs: i64 = micros_to_secs_trunc(d.micros);
            let shifted: i64 = chrono_month_add(secs, m);
            let r: i64 = secs_to_clamped_micros(shifted);
            proof {
                if m >= 1 && d.micros < MAX_DATE_MICROS {
                    assert(shifted >= secs + 86400);
                    assert(secs * 1000000 >= d.micros - 999999) by (nonlinear_arith)
                        requires secs == trunc_secs(d.micros as int),
                    ;
                    assert(shifted as int * 1000000 >= (secs + 86400) * 1000000)
                        by (nonlinear_arith)
                        requires shifted >= secs + 86400,
                    ;
                }
            }
            Date { micros: r }
        },
    }
}

/// Steps a date backward; the mirror of `step_forward_date`.
pub fn step_back_date(d: Date, s: Step) -> (r: Date)
    requires
        date_ok(d),
        step_ok(s),
    ensures
        r.micros == spec_step_back(d, s),
        date_ok(r),
{
    match s {
        Step::S(v) => {
            let mag: i64 = if v >= 0 { v } else { -v };
            let diff: i64 = d.micros - mag;
            let c: i64 = if diff < -MAX_DATE_MICROS { -MAX_DATE_MICROS } else { diff };
            Date { micros: c }
        },
        Step::M(m) => {
            let secs: i64 = micros_to_secs_trunc(d.micros);
            let shifted: i64 = chrono_month_sub(secs, m);
            Date { micros: secs_to_clamped_micros(shifted) }
        },
    }
}

} // verus!
