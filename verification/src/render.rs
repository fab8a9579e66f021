//! Rendering resolved values as text.
//!
//! `render` is total: every constructible `Value` has a text form, and
//! the exact text is stated against spec-level renderers.  Quantities
//! out of the library's ranges — which resolution never produces — are
//! clamped into them first, so no rendering path can fail.
//!
//! Conventions: fractional digits are truncated, not rounded; dates
//! print as `YYYY-MM-DDThh:mm:ss` UTC (years outside 0000–9999 keep
//! their sign and width); angles wrap into [0°, 360°) and latitudes
//! into (-180°, 180°] before printing.

use vstd::prelude::*;
use vstd::string::StringExecFns;
use crate::astro;
use crate::calendar::{spec_civil_from_days, civil_from_days};
use crate::date::{Date, MAX_DATE_MICROS, MICROS_PER_DAY};
use crate::fmt::{dec_digits, pad_digits, fixed6, push_uint, push_uint_pad, push_sign};
use crate::num::{div_floor, mod_floor};
use crate::value::{AngView, Coord, CrdView, PhaseView, RefFrame, Value};

verus! {

/// `x` clamped into the range the arithmetic helpers accept.
pub open spec fn clamp18(x: int) -> int {
    if x > 1000000000000000000 {
        1000000000000000000
    } else if x < -1000000000000000000 {
        -1000000000000000000
    } else {
        x
    }
}

/// `x` clamped into the library's date range.
pub open spec fn clamp_date(x: int) -> int {
    if x > MAX_DATE_MICROS {
        MAX_DATE_MICROS as int
    } else if x < -MAX_DATE_MICROS {
        -(MAX_DATE_MICROS as int)
    } else {
        x
    }
}

fn clamp18_exec(x: i64) -> (r: i64)
    ensures
        r == clamp18(x as int),
{
    if x > 1000000000000000000 {
        1000000000000000000
    } else if x < -1000000000000000000 {
        -1000000000000000000
    } else {
        x
    }
}

fn clamp_date_exec(x: i64) -> (r: i64)
    ensures
        r == clamp_date(x as int),
{
    if x > MAX_DATE_MICROS {
        MAX_DATE_MICROS
    } else if x < -MAX_DATE_MICROS {
        -MAX_DATE_MICROS
    } else {
        x
    }
}

/// An angle wrapped into [0°, 360°), microdegrees.
pub open spec fn norm360(x: int) -> int {
    clamp18(x) % 360000000
}

fn norm360_exec(x: i64) -> (r: i64)
    ensures
        r == norm360(x as int),
        0 <= r < 360000000,
{
    mod_floor(clamp18_exec(x), 360000000)
}

/// The illuminated fraction derived from a cosine in millionths:
/// (1 - cos) / 2, in millionths.
pub open spec fn spec_illum_frac(cos_micro: int) -> int {
    let c = if cos_micro > 1000000 {
        1000000
    } else if cos_micro < -1000000 {
        -1000000
    } else {
        cos_micro
    };
    (1000000 - c) / 2
}

/// The illuminated fraction from a cosine in millionths; always a
/// fraction, zero through one, in millionths.
pub fn illum_frac(cos_micro: i64) -> (r: i64)
    ensures
        r == spec_illum_frac(cos_micro as int),
        0 <= r <= 1000000,
{
    let c: i64 = if cos_micro > 1000000 {
        1000000
    } else if cos_micro < -1000000 {
        -1000000
    } else {
        cos_micro
    };
    (1000000 - c) / 2
}

/// The eight-bucket phase index from an illuminated fraction in
/// millionths and the phase angle: 0 new, 1 waxing crescent, 2 first
/// quarter, 3 waxing gibbous, 4 full, 5 waning gibbous, 6 last quarter,
/// 7 waning crescent.  The waning half is taken when the phase angle,
/// wrapped into [0°, 360°), exceeds 90°.
pub open spec fn spec_phase_index(frac_micro: int, angle_micro: int) -> int {
    let waning = norm360(angle_micro) > 90000000;
    if frac_micro < 40000 {
        0
    } else if frac_micro < 460000 {
        if waning {
            7
        } else {
            1
        }
    } else if frac_micro < 540000 {
        if waning {
            6
        } else {
            2
        }
    } else if frac_micro < 960000 {
        if waning {
            5
        } else {
            3
        }
    } else {
        4
    }
}

/// Buckets an illuminated fraction and phase angle into the eight phase
/// indices.  Total: every input lands in exactly one bucket, and the
/// boundaries 0.04, 0.46, 0.54 and 0.96 each belong to the bucket above
/// them.
pub fn phase_index(frac_micro: i64, angle_micro: i64) -> (r: u8)
    ensures
        r == spec_phase_index(frac_micro as int, angle_micro as int),
        r <= 7,
{
    let waning: bool = norm360_exec(angle_micro) > 90000000;
    if frac_micro < 40000 {
        0
    } else if frac_micro < 460000 {
        if waning {
            7
        } else {
            1
        }
    } else if frac_micro < 540000 {
        if waning {
            6
        } else {
            2
        }
    } else if frac_micro < 960000 {
        if waning {
            5
        } else {
            3
        }
    } else {
        4
    }
}

/// The name of phase `i`.
pub open spec fn spec_phase_name(i: int) -> Seq<char> {
    if i == 0 {
        "New"@
    } else if i == 1 {
        "Waxing Crescent"@
    } else if i == 2 {
        "First Quarter"@
    } else if i == 3 {
        "Waxing Gibbous"@
    } else if i == 4 {
        "Full"@
    } else if i == 5 {
        "Waning Gibbous"@
    } else if i == 6 {
        "Last Quarter"@
    } else {
        "Waning Crescent"@
    }
}

/// The name of phase `i`.
pub fn phase_name(i: u8) -> (r: &'static str)
    ensures
        r@ == spec_phase_name(i as int),
{
    if i == 0 {
        "New"
    } else if i == 1 {
        "Waxing Crescent"
    } else if i == 2 {
        "First Quarter"
    } else if i == 3 {
        "Waxing Gibbous"
    } else if i == 4 {
        "Full"
    } else if i == 5 {
        "Waning Gibbous"
    } else if i == 6 {
        "Last Quarter"
    } else {
        "Waning Crescent"
    }
}

/// The emoji of phase `i` for a northern observer; a southern observer
/// sees the mirrored table (index 8 - i, modulo 8).
pub open spec fn spec_phase_emoji(i: int, northern: bool) -> Seq<char> {
    let j = if northern {
        i
    } else {
        (8 - i) % 8
    };
    if j == 0 {
        "🌑"@
    } else if j == 1 {
        "🌒"@
    } else if j == 2 {
        "🌓"@
    } else if j == 3 {
        "🌔"@
    } else if j == 4 {
        "🌕"@
    } else if j == 5 {
        "🌖"@
    } else if j == 6 {
        "🌗"@
    } else {
        "🌘"@
    }
}

/// The emoji of phase `i` for the observer's hemisphere.
pub fn phase_emoji(i: u8, northern: bool) -> (r: &'static str)
    requires
        i <= 7,
    ensures
        r@ == spec_phase_emoji(i as int, northern),
{
    let j: u8 = if northern {
        i
    } else {
        (8 - i) % 8
    };
    if j == 0 {
        "🌑"
    } else if j == 1 {
        "🌒"
    } else if j == 2 {
        "🌓"
    } else if j == 3 {
        "🌔"
    } else if j == 4 {
        "🌕"
    } else if j == 5 {
        "🌖"
    } else if j == 6 {
        "🌗"
    } else {
        "🌘"
    }
}

/// A date as `YYYY-MM-DDThh:mm:ss` UTC: calendar fields of the day, a
/// `T`, then the time of day, seconds truncated.  Years before 0 carry
/// a minus sign; years are at least four digits.
pub open spec fn spec_render_date(micros: int) -> Seq<char> {
    let m = clamp_date(micros);
    let day = m / (MICROS_PER_DAY as int);
    let ymd = spec_civil_from_days(day);
    let sod = (m % (MICROS_PER_DAY as int)) / 1000000;
    let neg_y: Seq<char> = if ymd.0 < 0 {
        seq!['-']
    } else {
        Seq::empty()
    };
    let ya = if ymd.0 < 0 {
        -ymd.0
    } else {
        ymd.0
    };
    neg_y + pad_digits(ya as nat, 4) + seq!['-'] + pad_digits(ymd.1 as nat, 2) + seq!['-']
        + pad_digits(ymd.2 as nat, 2) + seq!['T'] + pad_digits((sod / 3600) as nat, 2)
        + seq![':'] + pad_digits(((sod / 60) % 60) as nat, 2) + seq![':'] + pad_digits(
        (sod % 60) as nat,
        2,
    )
}

/// The date text from its already-split fields.
pub open spec fn spec_date_fields(
    neg: bool,
    ya: int,
    mo: int,
    dd: int,
    hh: int,
    mi: int,
    ss: int,
) -> Seq<char> {
    (if neg {
        seq!['-']
    } else {
        Seq::<char>::empty()
    }) + pad_digits(ya as nat, 4) + seq!['-'] + pad_digits(mo as nat, 2) + seq!['-'] + pad_digits(
        dd as nat,
        2,
    ) + seq!['T'] + pad_digits(hh as nat, 2) + seq![':'] + pad_digits(mi as nat, 2) + seq![':']
        + pad_digits(ss as nat, 2)
}

/// Renders already-split date fields into the output.
#[verifier::rlimit(100)]
#[verifier::spinoff_prover]
fn push_date_fields(out: &mut String, neg: bool, ya: u64, mo: u64, dd: u64, hh: u64, mi: u64, ss: u64)
    ensures
        final(out)@ == old(out)@ + spec_date_fields(
            neg,
            ya as int,
            mo as int,
            dd as int,
            hh as int,
            mi as int,
            ss as int,
        ),
{
    proof {
        reveal_strlit("-");
        reveal_strlit("T");
        reveal_strlit(":");
        assert(("-")@ =~= seq!['-']);
        assert(("T")@ =~= seq!['T']);
        assert((":")@ =~= seq![':']);
    }
    let ghost base = out@;
    let ghost sgn: Seq<char> = if neg { seq!['-'] } else { Seq::<char>::empty() };
    push_sign(out, neg);
    push_uint_pad(out, ya, 4);
    proof {
        assert(out@ =~= base + (sgn + pad_digits(ya as nat, 4)));
    }
    out.append("-");
    push_uint_pad(out, mo, 2);
    proof {
        assert(out@ =~= base + (sgn + pad_digits(ya as nat, 4) + seq!['-'] + pad_digits(
            mo as nat,
            2,
        )));
    }
    out.append("-");
    push_uint_pad(out, dd, 2);
    proof {
        assert(out@ =~= base + (sgn + pad_digits(ya as nat, 4) + seq!['-'] + pad_digits(
            mo as nat,
            2,
        ) + seq!['-'] + pad_digits(dd as nat, 2)));
    }
    out.append("T");
    push_uint_pad(out, hh, 2);
    proof {
        assert(out@ =~= base + (sgn + pad_digits(ya as nat, 4) + seq!['-'] + pad_digits(
            mo as nat,
            2,
        ) + seq!['-'] + pad_digits(dd as nat, 2) + seq!['T'] + pad_digits(hh as nat, 2)));
    }
    out.append(":");
    push_uint_pad(out, mi, 2);
    proof {
        assert(out@ =~= base + (sgn + pad_digits(ya as nat, 4) + seq!['-'] + pad_digits(
            mo as nat,
            2,
        ) + seq!['-'] + pad_digits(dd as nat, 2) + seq!['T'] + pad_digits(hh as nat, 2)
            + seq![':'] + pad_digits(mi as nat, 2)));
    }
    out.append(":");
    push_uint_pad(out, ss, 2);
    proof {
        assert(out@ =~= base + (sgn + pad_digits(ya as nat, 4) + seq!['-'] + pad_digits(
            mo as nat,
            2,
        ) + seq!['-'] + pad_digits(dd as nat, 2) + seq!['T'] + pad_digits(hh as nat, 2)
            + seq![':'] + pad_digits(mi as nat, 2) + seq![':'] + pad_digits(ss as nat, 2)));
        assert(out@ == base + spec_date_fields(
            neg,
            ya as int,
            mo as int,
            dd as int,
            hh as int,
            mi as int,
            ss as int,
        ));
    }
}

/// Renders a date into the output.
#[verifier::rlimit(100)]
#[verifier::spinoff_prover]
pub fn push_date(out: &mut String, micros: i64)
    ensures
        final(out)@ == old(out)@ + spec_render_date(micros as int),
{
    let m: i64 = clamp_date_exec(micros);
    let day: i64 = div_floor(m, MICROS_PER_DAY);
    let (y, mo, dd) = civil_from_days(day);
    let sod: i64 = mod_floor(m, MICROS_PER_DAY) / 1000000;
    let neg: bool = y < 0;
    let ya: i64 = if y < 0 {
        -y
    } else {
        y
    };
    push_date_fields(
        out,
        neg,
        ya as u64,
        mo as u64,
        dd as u64,
        (sod / 3600) as u64,
        ((sod / 60) % 60) as u64,
        (sod % 60) as u64,
    );
    proof {
        assert(out@ =~= old(out)@ + spec_render_date(micros as int));
    }
}

/// An angle as unsigned degrees, arcminutes and truncated tenths of
/// arcseconds: `D°M′S.t″`, wrapped into [0°, 360°).
pub open spec fn spec_render_dms(micro: int) -> Seq<char> {
    let a = norm360(micro);
    let d = a / 1000000;
    let rem_arcmin = (a % 1000000) * 60;
    let m = rem_arcmin / 1000000;
    let rem_arcsec = (rem_arcmin % 1000000) * 60;
    let s = rem_arcsec / 1000000;
    let tenth = (rem_arcsec % 1000000) / 100000;
    dec_digits(d as nat) + seq!['°'] + dec_digits(m as nat) + seq!['′'] + dec_digits(s as nat)
        + seq!['.'] + dec_digits(tenth as nat) + seq!['″']
}

/// Renders an unsigned degrees-minutes-seconds angle into the output.
#[verifier::rlimit(100)]
pub fn push_dms(out: &mut String, micro: i64)
    ensures
        final(out)@ == old(out)@ + spec_render_dms(micro as int),
{
    proof {
        reveal_strlit("°");
        reveal_strlit("′");
        reveal_strlit(".");
        reveal_strlit("″");
    }
    let a: i64 = norm360_exec(micro);
    let d: i64 = a / 1000000;
    let rem_arcmin: i64 = (a % 1000000) * 60;
    let m: i64 = rem_arcmin / 1000000;
    let rem_arcsec: i64 = (rem_arcmin % 1000000) * 60;
    let s: i64 = rem_arcsec / 1000000;
    let tenth: i64 = (rem_arcsec % 1000000) / 100000;
    push_uint(out, d as u64);
    out.append("°");
    push_uint(out, m as u64);
    out.append("′");
    push_uint(out, s as u64);
    out.append(".");
    push_uint(out, tenth as u64);
    out.append("″");
    proof {
        assert(("°")@ =~= seq!['°']);
        assert(("′")@ =~= seq!['′']);
        assert((".")@ =~= seq!['.']);
        assert(("″")@ =~= seq!['″']);
        assert(out@ =~= old(out)@ + spec_render_dms(micro as int));
    }
}

/// An angle read as a latitude: wrapped into (-180°, 180°], printed with
/// an explicit sign and then as degrees-minutes-seconds.
pub open spec fn spec_render_latitude(micro: int) -> Seq<char> {
    let a = norm360(micro);
    let lat = if a > 180000000 {
        a - 360000000
    } else {
        a
    };
    let sign: Seq<char> = if lat < 0 {
        seq!['-']
    } else {
        seq!['+']
    };
    let mag = if lat < 0 {
        -lat
    } else {
        lat
    };
    sign + spec_render_dms(mag)
}

/// Renders a signed latitude into the output.
pub fn push_latitude(out: &mut String, micro: i64)
    ensures
        final(out)@ == old(out)@ + spec_render_latitude(micro as int),
{
    proof {
        reveal_strlit("-");
        reveal_strlit("+");
    }
    let a: i64 = norm360_exec(micro);
    let lat: i64 = if a > 180000000 {
        a - 360000000
    } else {
        a
    };
    if lat < 0 {
        out.append("-");
    } else {
        out.append("+");
    }
    let mag: i64 = if lat < 0 {
        -lat
    } else {
        lat
    };
    push_dms(out, mag);
    proof {
        assert(("-")@ =~= seq!['-']);
        assert(("+")@ =~= seq!['+']);
        assert(out@ =~= old(out)@ + spec_render_latitude(micro as int));
    }
}

/// An angle as a clock-style hour angle `HHhMMmSSs` (fifteen degrees to
/// the hour, seconds truncated).
pub open spec fn spec_render_time(micro: int) -> Seq<char> {
    let a = norm360(micro);
    let tod = a * 240;  // microseconds of a day: one microdegree is 240
    let h = tod / 3600000000;
    let mi = (tod / 60000000) % 60;
    let s = (tod / 1000000) % 60;
    pad_digits(h as nat, 2) + seq!['h'] + pad_digits(mi as nat, 2) + seq!['m'] + pad_digits(
        s as nat,
        2,
    ) + seq!['s']
}

/// Renders a clock-style hour angle into the output.
#[verifier::rlimit(100)]
pub fn push_time_angle(out: &mut String, micro: i64)
    ensures
        final(out)@ == old(out)@ + spec_render_time(micro as int),
{
    proof {
        reveal_strlit("h");
        reveal_strlit("m");
        reveal_strlit("s");
    }
    let a: i64 = norm360_exec(micro);
    let tod: i64 = a * 240;
    push_uint_pad(out, (tod / 3600000000) as u64, 2);
    out.append("h");
    push_uint_pad(out, ((tod / 60000000) % 60) as u64, 2);
    out.append("m");
    push_uint_pad(out, ((tod / 1000000) % 60) as u64, 2);
    out.append("s");
    proof {
        assert(("h")@ =~= seq!['h']);
        assert(("m")@ =~= seq!['m']);
        assert(("s")@ =~= seq!['s']);
        assert(out@ =~= old(out)@ + spec_render_time(micro as int));
    }
}

/// An angle as raw decimal degrees to five fractional digits, wrapped
/// into [0°, 360°).
pub open spec fn spec_render_raw(micro: int) -> Seq<char> {
    let a = norm360(micro);
    dec_digits((a / 1000000) as nat) + seq!['.'] + pad_digits(((a % 1000000) / 10) as nat, 5)
}

/// Renders raw decimal degrees into the output.
pub fn push_raw_degrees(out: &mut String, micro: i64)
    ensures
        final(out)@ == old(out)@ + spec_render_raw(micro as int),
{
    proof {
        reveal_strlit(".");
    }
    let a: i64 = norm360_exec(micro);
    push_uint(out, (a / 1000000) as u64);
    out.append(".");
    push_uint_pad(out, ((a % 1000000) / 10) as u64, 5);
    proof {
        assert((".")@ =~= seq!['.']);
        assert(out@ =~= old(out)@ + spec_render_raw(micro as int));
    }
}

/// A dimensionless number in millionths, to two truncated decimal
/// places.
pub open spec fn spec_render_num(micro: int) -> Seq<char> {
    let c = clamp18(micro);
    let sign: Seq<char> = if c < 0 {
        seq!['-']
    } else {
        Seq::empty()
    };
    let mag = if c < 0 {
        -c
    } else {
        c
    };
    sign + dec_digits((mag / 1000000) as nat) + seq!['.'] + pad_digits(
        ((mag % 1000000) / 10000) as nat,
        2,
    )
}

/// Renders a two-decimal number into the output.
pub fn push_num(out: &mut String, micro: i64)
    ensures
        final(out)@ == old(out)@ + spec_render_num(micro as int),
{
    proof {
        reveal_strlit(".");
    }
    let c: i64 = clamp18_exec(micro);
    let neg: bool = c < 0;
    let mag: i64 = if c < 0 {
        -c
    } else {
        c
    };
    push_sign(out, neg);
    push_uint(out, (mag / 1000000) as u64);
    out.append(".");
    push_uint_pad(out, ((mag % 1000000) / 10000) as u64, 2);
    proof {
        assert((".")@ =~= seq!['.']);
        assert(out@ =~= old(out)@ + spec_render_num(micro as int));
    }
}

/// An angle under its view.
pub open spec fn spec_render_angle(micro: int, view: AngView) -> Seq<char> {
    match view {
        AngView::Angle => spec_render_dms(micro),
        AngView::Latitude => spec_render_latitude(micro),
        AngView::Raw => spec_render_raw(micro),
        AngView::Time => spec_render_time(micro),
    }
}

/// A phase value under its view, derived from the phase angle: the
/// illuminated fraction is (1 - cos angle) / 2, bucketed into the eight
/// phases.
pub open spec fn spec_render_phase(angle_micro: int, view: PhaseView) -> Seq<char> {
    let a = clamp18(angle_micro);
    let frac = spec_illum_frac(astro::spec_cos(a as i64) as int);
    let idx = spec_phase_index(frac, a);
    match view {
        PhaseView::Default(northern) => spec_phase_emoji(idx, northern) + seq![' ']
            + spec_phase_name(idx) + seq![' ', '('] + dec_digits((frac / 10000) as nat) + seq![
            '%',
            ')',
        ],
        PhaseView::Emoji(northern) => spec_phase_emoji(idx, northern),
        PhaseView::PhaseName => spec_phase_name(idx),
        PhaseView::Illumfrac => dec_digits((frac / 10000) as nat) + seq!['.'] + dec_digits(
            ((frac / 1000) % 10) as nat,
        ),
    }
}

/// A coordinate pair under its view: equatorial as hour angle and
/// latitude; horizontal and ecliptic transformed by the astronomy
/// library and shown as angle and latitude.  A horizontal view whose
/// carried frame lacks a location falls back to latitude and longitude
/// zero (resolution never builds such a view).
pub open spec fn spec_render_coord(c: Coord, view: CrdView) -> Seq<char> {
    match view {
        CrdView::Equatorial => spec_render_time(c.ra as int) + seq![' ']
            + spec_render_latitude(c.dec as int),
        CrdView::Horizontal(rf) => {
            let lat = match rf.latlong {
                Some(l) => clamp18(l.lat as int),
                None => 0int,
            };
            let long = match rf.latlong {
                Some(l) => clamp18(l.long as int),
                None => 0int,
            };
            let cc = Coord { ra: clamp18(c.ra as int) as i64, dec: clamp18(c.dec as int) as i64 };
            let d = Date { micros: clamp_date(rf.date.micros as int) as i64 };
            let hz = astro::spec_horizontal(cc, d, lat as i64, long as i64);
            spec_render_dms(hz.0 as int) + seq![' '] + spec_render_latitude(hz.1 as int)
        },
        CrdView::Ecliptic(date) => {
            let cc = Coord { ra: clamp18(c.ra as int) as i64, dec: clamp18(c.dec as int) as i64 };
            let d = Date { micros: clamp_date(date.micros as int) as i64 };
            let ec = astro::spec_ecliptic(cc, d);
            spec_render_dms(ec.0 as int) + seq![' '] + spec_render_latitude(ec.1 as int)
        },
    }
}

/// The text of a value: §-by-§ the date rule for rise/set instants, the
/// angle rules per view, distance with a literal ` AU`, numbers to two
/// decimals, phases per view, and `never` for an event that does not
/// happen.
pub open spec fn spec_render(v: Value) -> Seq<char> {
    match v {
        Value::Crd(c, view) => spec_render_coord(c, view),
        Value::Ang(a, view) => spec_render_angle(a as int, view),
        Value::Dist(d) => fixed6(clamp18(d as int)) + seq![' ', 'A', 'U'],
        Value::Num(n) => spec_render_num(n as int),
        Value::Phase(a, view) => spec_render_phase(a as int, view),
        Value::RsTime(None) => "never"@,
        Value::RsTime(Some(d)) => spec_render_date(d.micros as int),
    }
}

/// Renders a value as text.  Total: every value renders, and a
/// `RsTime(None)` always renders as the `never` sentinel.
#[verifier::rlimit(100)]
pub fn render(v: &Value) -> (r: String)
    ensures
        r@ == spec_render(*v),
        *v matches Value::RsTime(None) ==> r@ == "never"@,
{
    let mut out = String::new();
    match v {
        Value::Crd(c, view) => {
            match view {
                CrdView::Equatorial => {
                    proof {
                        reveal_strlit(" ");
                    }
                    push_time_angle(&mut out, c.ra);
                    out.append(" ");
                    push_latitude(&mut out, c.dec);
                    proof {
                        assert((" ")@ =~= seq![' ']);
                        assert(out@ =~= spec_render(*v));
                    }
                },
                CrdView::Horizontal(rf) => {
                    proof {
                        reveal_strlit(" ");
                    }
                    let (lat, long): (i64, i64) = match rf.latlong {
                        Some(l) => (clamp18_exec(l.lat), clamp18_exec(l.long)),
                        None => (0, 0),
                    };
                    let cc = Coord { ra: clamp18_exec(c.ra), dec: clamp18_exec(c.dec) };
                    let d = Date { micros: clamp_date_exec(rf.date.micros) };
                    let (azi, alt) = astro::horizontal(cc, d, lat, long);
                    push_dms(&mut out, azi);
                    out.append(" ");
                    push_latitude(&mut out, alt);
                    proof {
                        assert((" ")@ =~= seq![' ']);
                        assert(out@ =~= spec_render(*v));
                    }
                },
                CrdView::Ecliptic(date) => {
                    proof {
                        reveal_strlit(" ");
                    }
                    let cc = Coord { ra: clamp18_exec(c.ra), dec: clamp18_exec(c.dec) };
                    let d = Date { micros: clamp_date_exec(date.micros) };
                    let (lon, lat) = astro::ecliptic(cc, d);
                    push_dms(&mut out, lon);
                    out.append(" ");
                    push_latitude(&mut out, lat);
                    proof {
                        assert((" ")@ =~= seq![' ']);
                        assert(out@ =~= spec_render(*v));
                    }
                },
            }
        },
        Value::Ang(a, view) => {
            match view {
                AngView::Angle => push_dms(&mut out, *a),
                AngView::Latitude => push_latitude(&mut out, *a),
                AngView::Raw => push_raw_degrees(&mut out, *a),
                AngView::Time => push_time_angle(&mut out, *a),
            }
            proof {
                assert(out@ =~= spec_render(*v));
            }
        },
        Value::Dist(dv) => {
            proof {
                reveal_strlit(" AU");
            }
            let s = crate::fmt::fixed6_string(clamp18_exec(*dv));
            out.append(s.as_str());
            out.append(" AU");
            proof {
                assert((" AU")@ =~= seq![' ', 'A', 'U']);
                assert(out@ =~= spec_render(*v));
            }
        },
        Value::Num(n) => {
            push_num(&mut out, *n);
            proof {
                assert(out@ =~= spec_render(*v));
            }
        },
        Value::Phase(a, view) => {
            let ac: i64 = clamp18_exec(*a);
            let frac: i64 = illum_frac(astro::cos_micro(ac));
            let idx: u8 = phase_index(frac, ac);
            match view {
                PhaseView::Default(northern) => {
                    proof {
                        reveal_strlit(" ");
                        reveal_strlit(" (");
                        reveal_strlit("%)");
                    }
                    out.append(phase_emoji(idx, *northern));
                    out.append(" ");
                    out.append(phase_name(idx));
                    out.append(" (");
                    push_uint(&mut out, (frac / 10000) as u64);
                    out.append("%)");
                    proof {
                        assert((" ")@ =~= seq![' ']);
                        assert((" (")@ =~= seq![' ', '(']);
                        assert(("%)")@ =~= seq!['%', ')']);
                        assert(out@ =~= spec_render(*v));
                    }
                },
                PhaseView::Emoji(northern) => {
                    out.append(phase_emoji(idx, *northern));
                    proof {
                        assert(out@ =~= spec_render(*v));
                    }
                },
                PhaseView::PhaseName => {
                    out.append(phase_name(idx));
                    proof {
                        assert(out@ =~= spec_render(*v));
                    }
                },
                PhaseView::Illumfrac => {
                    proof {
                        reveal_strlit(".");
                    }
                    push_uint(&mut out, (frac / 10000) as u64);
                    out.append(".");
                    push_uint(&mut out, ((frac / 1000) % 10) as u64);
                    proof {
                        assert((".")@ =~= seq!['.']);
                        assert(out@ =~= spec_render(*v));
                    }
                },
            }
        },
        Value::RsTime(od) => {
            match od {
                None => {
                    out.append("never");
                    proof {
                        assert(out@ =~= spec_render(*v));
                    }
                },
                Some(d) => {
                    push_date(&mut out, d.micros);
                    proof {
                        assert(out@ =~= spec_render(*v));
                    }
                },
            }
        },
    }
    out
}

} // verus!
