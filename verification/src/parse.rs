//! The literal parser: heterogeneous text tokens into typed values.
//!
//! Tokens are taken as bytes, ASCII-lowercased first, so matching is
//! case-insensitive for ASCII.  Each parser either produces exactly one
//! kind of value or fails with one named error; none coerces
//! between kinds.
//!
//! Conventions this parser fixes (each also said at the function):
//! - numbers are plain signed decimals; exponent forms are not numbers;
//! - the `s` (south) and `w` (west) angle suffixes negate, in every path
//!   that reads an angle, the latitude side of a location included;
//! - a latitude is rejected when the magnitude of the parsed value
//!   exceeds 90°, whatever suffix wrote it;
//! - comma-separated forms take their exact field count, no extras.

use vstd::prelude::*;
use crate::astro;
use crate::calendar::{spec_days_from_civil, spec_days_in_month, days_from_civil, days_in_month};
use crate::date::{
    Date, Step, date_ok, step_ok, spec_step_back, spec_step_forward, step_back_date,
    step_forward_date, MAX_DATE_MICROS, MAX_STEP_MICROS, MAX_STEP_MONTHS, JULIAN_EPOCH_MICROS,
};
use crate::errors::Error;
use crate::num::{is_digit, spec_parse_scaled, parse_scaled};
use crate::query::Property;
use crate::value::{CelObj, LatLong, Planet};

verus! {

/// The ASCII-lowercased byte.
pub open spec fn lower_byte(b: u8) -> u8 {
    if 65 <= b <= 90 {
        (b + 32) as u8
    } else {
        b
    }
}

/// The token ASCII-lowercased.
pub open spec fn spec_lower(s: Seq<u8>) -> Seq<u8> {
    Seq::new(s.len(), |i: int| lower_byte(s[i]))
}

/// ASCII-lowercases a token.
#[verifier::loop_isolation(false)]
fn to_lower(s: &[u8]) -> (r: Vec<u8>)
    ensures
        r@ == spec_lower(s@),
{
    let mut out: Vec<u8> = Vec::new();
    let mut i: usize = 0;
    while i < s.len()
        invariant
            0 <= i <= s@.len(),
            out@ =~= spec_lower(s@).take(i as int),
        decreases s@.len() - i,
    {
        let b: u8 = s[i];
        if 65 <= b && b <= 90 {
            out.push(b + 32);
        } else {
            out.push(b);
        }
        proof {
            assert(out@ =~= spec_lower(s@).take(i as int + 1));
        }
        i = i + 1;
    }
    proof {
        assert(out@ =~= spec_lower(s@));
    }
    out
}

/// Byte-for-byte equality of two tokens.
#[verifier::loop_isolation(false)]
fn bytes_eq(a: &[u8], b: &[u8]) -> (r: bool)
    ensures
        r == (a@ == b@),
{
    if a.len() != b.len() {
        return false;
    }
    let mut i: usize = 0;
    while i < a.len()
        invariant
            0 <= i <= a@.len() == b@.len(),
            forall|j: int| 0 <= j < i ==> a@[j] == b@[j],
        decreases a@.len() - i,
    {
        if a[i] != b[i] {
            return false;
        }
        i = i + 1;
    }
    proof {
        assert(a@ =~= b@);
    }
    true
}

/// The token before the suffix, where the token ends in it.
pub open spec fn strip_suffix(s: Seq<u8>, suf: Seq<u8>) -> Option<Seq<u8>> {
    if s.len() >= suf.len() && s.skip(s.len() - suf.len()) == suf {
        Some(s.take(s.len() - suf.len()))
    } else {
        None
    }
}

/// The suffix-stripped number at scale six: the signed decimal before
/// `suf`, where the token ends in `suf` and a number stands before it.
pub open spec fn suffix_num6(s: Seq<u8>, suf: Seq<u8>) -> Option<int> {
    match strip_suffix(s, suf) {
        Some(body) => spec_parse_scaled(body, 6),
        None => None,
    }
}

/// The suffix-stripped whole number (scale zero).
pub open spec fn suffix_num0(s: Seq<u8>, suf: Seq<u8>) -> Option<int> {
    match strip_suffix(s, suf) {
        Some(body) => spec_parse_scaled(body, 0),
        None => None,
    }
}

/// Strips `suf` and reads the number before it at scale `k`.
#[verifier::loop_isolation(false)]
fn suffix_num_exec(s: &[u8], suf: &[u8], k: usize) -> (r: Option<i64>)
    requires
        k <= 6,
    ensures
        (match r {
            Some(v) => {
                &&& (match strip_suffix(s@, suf@) {
                    Some(body) => spec_parse_scaled(body, k as nat) == Some(v as int),
                    None => false,
                })
                &&& -1000000000000000000 < v < 1000000000000000000
            },
            None => (match strip_suffix(s@, suf@) {
                Some(body) => spec_parse_scaled(body, k as nat) is None,
                None => true,
            }),
        }),
{
    if s.len() < suf.len() {
        return None;
    }
    let cut: usize = s.len() - suf.len();
    let tail: &[u8] = vstd::slice::slice_subrange(s, cut, s.len());
    if !bytes_eq(tail, suf) {
        return None;
    }
    let body: &[u8] = vstd::slice::slice_subrange(s, 0, cut);
    parse_scaled(body, k)
}

/// The angle in microdegrees a lowercased token names: a signed decimal
/// with a degree suffix (`e`, `w`, `n`, `s`, `d`, `deg`, `°`; `w` and
/// `s` negate) or a radian suffix (`rad`, reduced into [0°, 360°) by the
/// astronomy library's angle normalization).
pub open spec fn spec_angle(s: Seq<u8>) -> Option<int> {
    if suffix_num6(s, seq![101u8]) is Some {  // e
        suffix_num6(s, seq![101u8])
    } else if suffix_num6(s, seq![119u8]) is Some {  // w
        Some(-suffix_num6(s, seq![119u8]).unwrap())
    } else if suffix_num6(s, seq![110u8]) is Some {  // n
        suffix_num6(s, seq![110u8])
    } else if suffix_num6(s, seq![115u8]) is Some {  // s
        Some(-suffix_num6(s, seq![115u8]).unwrap())
    } else if suffix_num6(s, seq![100u8]) is Some {  // d
        suffix_num6(s, seq![100u8])
    } else if suffix_num6(s, seq![100u8, 101u8, 103u8]) is Some {  // deg
        suffix_num6(s, seq![100u8, 101u8, 103u8])
    } else if suffix_num6(s, seq![194u8, 176u8]) is Some {  // °
        suffix_num6(s, seq![194u8, 176u8])
    } else if suffix_num6(s, seq![114u8, 97u8, 100u8]) is Some {  // rad
        Some(astro::spec_deg_of_rad(suffix_num6(s, seq![114u8, 97u8, 100u8]).unwrap() as i64) as int)
    } else {
        None
    }
}

/// Parses an angle token into microdegrees.
pub fn angle(s: &[u8]) -> (r: Result<i64, Error>)
    ensures
        (match r {
            Ok(v) => {
                &&& spec_angle(spec_lower(s@)) == Some(v as int)
                &&& -1000000000000000000 < v < 1000000000000000000
            },
            Err(e) => {
                &&& e == Error::InvalidAngle
                &&& spec_angle(spec_lower(s@)) is None
            },
        }),
{
    let low = to_lower(s);
    angle_lowered(low.as_slice())
}

/// Parses an already-lowercased angle token into microdegrees.
fn angle_lowered(low: &[u8]) -> (r: Result<i64, Error>)
    ensures
        (match r {
            Ok(v) => {
                &&& spec_angle(low@) == Some(v as int)
                &&& -1000000000000000000 < v < 1000000000000000000
            },
            Err(e) => {
                &&& e == Error::InvalidAngle
                &&& spec_angle(low@) is None
            },
        }),
{
    let suf_e: [u8; 1] = [101];
    let suf_w: [u8; 1] = [119];
    let suf_n: [u8; 1] = [110];
    let suf_s: [u8; 1] = [115];
    let suf_d: [u8; 1] = [100];
    let suf_deg: [u8; 3] = [100, 101, 103];
    let suf_degsign: [u8; 2] = [194, 176];
    let suf_rad: [u8; 3] = [114, 97, 100];
    proof {
        assert(suf_e@ =~= seq![101u8]);
        assert(suf_w@ =~= seq![119u8]);
        assert(suf_n@ =~= seq![110u8]);
        assert(suf_s@ =~= seq![115u8]);
        assert(suf_d@ =~= seq![100u8]);
        assert(suf_deg@ =~= seq![100u8, 101u8, 103u8]);
        assert(suf_degsign@ =~= seq![194u8, 176u8]);
        assert(suf_rad@ =~= seq![114u8, 97u8, 100u8]);
    }
    if let Some(v) = suffix_num_exec(low, suf_e.as_slice(), 6) {
        Ok(v)
    } else if let Some(v) = suffix_num_exec(low, suf_w.as_slice(), 6) {
        Ok(-v)
    } else if let Some(v) = suffix_num_exec(low, suf_n.as_slice(), 6) {
        Ok(v)
    } else if let Some(v) = suffix_num_exec(low, suf_s.as_slice(), 6) {
        Ok(-v)
    } else if let Some(v) = suffix_num_exec(low, suf_d.as_slice(), 6) {
        Ok(v)
    } else if let Some(v) = suffix_num_exec(low, suf_deg.as_slice(), 6) {
        Ok(v)
    } else if let Some(v) = suffix_num_exec(low, suf_degsign.as_slice(), 6) {
        Ok(v)
    } else if let Some(v) = suffix_num_exec(low, suf_rad.as_slice(), 6) {
        Ok(astro::rad_to_microdeg(v))
    } else {
        Err(Error::InvalidAngle)
    }
}

/// The value of one side of a location: a bare signed decimal read as
/// degrees, or any angle token.
pub open spec fn spec_location_side(f: Seq<u8>) -> Option<int> {
    match spec_parse_scaled(f, 6) {
        Some(v) => Some(v),
        None => spec_angle(f),
    }
}

/// Parses one side of a location token.
fn location_side(f: &[u8]) -> (r: Result<i64, Error>)
    ensures
        (match r {
            Ok(v) => {
                &&& spec_location_side(f@) == Some(v as int)
                &&& -1000000000000000000 < v < 1000000000000000000
            },
            Err(e) => {
                &&& e == Error::InvalidAngle
                &&& spec_location_side(f@) is None
            },
        }),
{
    if let Some(v) = parse_scaled(f, 6) {
        Ok(v)
    } else {
        angle_lowered(f)
    }
}

/// Position of the first occurrence of `b` in `s`, or `s.len()`.
pub open spec fn first_pos(s: Seq<u8>, b: u8) -> int
    decreases s.len(),
{
    if s.len() == 0 {
        0
    } else if s[0] == b {
        0
    } else {
        1 + first_pos(s.drop_first(), b)
    }
}

/// Pins `first_pos` to the position an executable scan found.
pub proof fn lemma_first_pos_at(s: Seq<u8>, b: u8, i: int)
    requires
        0 <= i <= s.len(),
        forall|j: int| 0 <= j < i ==> s[j] != b,
        i < s.len() ==> s[i] == b,
    ensures
        first_pos(s, b) == i,
    decreases s.len(),
{
    if s.len() > 0 && s[0] != b {
        assert(forall|j: int| 0 <= j < i - 1 ==> s.drop_first()[j] == #[trigger] s[j + 1]);
        lemma_first_pos_at(s.drop_first(), b, i - 1);
    }
}

/// Finds the first occurrence of `b` in `s`, or `s.len()`.
#[verifier::loop_isolation(false)]
fn find_byte(s: &[u8], b: u8) -> (r: usize)
    ensures
        r == first_pos(s@, b),
        0 <= r <= s@.len(),
        r < s@.len() ==> s@[r as int] == b,
        forall|j: int| 0 <= j < r ==> s@[j] != b,
{
    let mut i: usize = 0;
    while i < s.len() && s[i] != b
        invariant
            0 <= i <= s@.len(),
            forall|j: int| 0 <= j < i ==> s@[j] != b,
        decreases s@.len() - i,
    {
        i = i + 1;
    }
    proof {
        lemma_first_pos_at(s@, b, i as int);
    }
    i
}

/// What a location token names: `none` for an absent location, else an
/// exactly two-field `LAT,LONG` pair.  A latitude whose magnitude
/// exceeds 90° is rejected whatever suffix wrote it.
pub open spec fn spec_latlong(s: Seq<u8>) -> Result<Option<LatLong>, Error> {
    if s == seq![110u8, 111u8, 110u8, 101u8] {  // none
        Ok(None)
    } else {
        let c1 = first_pos(s, 44);
        if c1 == s.len() {
            Err(Error::BadCsv)
        } else {
            let latf = s.take(c1);
            let rest = s.skip(c1 + 1);
            if first_pos(rest, 44) != rest.len() {
                Err(Error::BadCsv)
            } else {
                match spec_location_side(latf) {
                    None => Err(Error::InvalidAngle),
                    Some(la) => if la > 90000000 || la < -90000000 {
                        Err(Error::LatitudeOutOfRange)
                    } else {
                        match spec_location_side(rest) {
                            None => Err(Error::InvalidAngle),
                            Some(lo) => Ok(
                                Some(LatLong { lat: la as i64, long: lo as i64 }),
                            ),
                        }
                    },
                }
            }
        }
    }
}

/// Parses a location token: `none`, or a `LAT,LONG` pair whose sides are
/// bare degree numbers or angle tokens.  The latitude must not exceed
/// 90° in magnitude.
pub fn latlong(s: &[u8]) -> (r: Result<Option<LatLong>, Error>)
    ensures
        r == spec_latlong(spec_lower(s@)),
        (match r {
            Ok(Some(l)) => -90000000 <= l.lat <= 90000000,
            _ => true,
        }),
{
    let low = to_lower(s);
    let kw_none: [u8; 4] = [110, 111, 110, 101];
    proof {
        assert(kw_none@ =~= seq![110u8, 111u8, 110u8, 101u8]);
    }
    if bytes_eq(low.as_slice(), kw_none.as_slice()) {
        return Ok(None);
    }
    let c1: usize = find_byte(low.as_slice(), 44);
    if c1 == low.len() {
        return Err(Error::BadCsv);
    }
    let latf: &[u8] = vstd::slice::slice_subrange(low.as_slice(), 0, c1);
    let rest: &[u8] = vstd::slice::slice_subrange(low.as_slice(), c1 + 1, low.len());
    if find_byte(rest, 44) != rest.len() {
        return Err(Error::BadCsv);
    }
    match location_side(latf) {
        Err(_) => Err(Error::InvalidAngle),
        Ok(la) => {
            if la > 90000000 || la < -90000000 {
                Err(Error::LatitudeOutOfRange)
            } else {
                match location_side(rest) {
                    Err(_) => Err(Error::InvalidAngle),
                    Ok(lo) => Ok(Some(LatLong { lat: la, long: lo })),
                }
            }
        },
    }
}

/// What a time-step token names: a signed decimal with exactly one unit
/// suffix.  Years and months are calendar-relative; a negative or
/// fractional count of months is truncated toward zero months, as the
/// month count is unsigned.  The other units reduce to microseconds and
/// keep their sign.  A step beyond the library's ranges is a bad
/// interval.
pub open spec fn spec_step(s: Seq<u8>) -> Result<Step, Error> {
    if suffix_num0(s, seq![121u8]) is Some {  // y
        let years = suffix_num0(s, seq![121u8]).unwrap();
        let months = if years <= 0 { 0int } else { years * 12 };
        if months > MAX_STEP_MONTHS {
            Err(Error::BadInterval)
        } else {
            Ok(Step::M(months as u32))
        }
    } else if suffix_num0(s, seq![109u8, 111u8, 110u8]) is Some {  // mon
        let months = suffix_num0(s, seq![109u8, 111u8, 110u8]).unwrap();
        let m2 = if months <= 0 { 0int } else { months };
        if m2 > MAX_STEP_MONTHS {
            Err(Error::BadInterval)
        } else {
            Ok(Step::M(m2 as u32))
        }
    } else if suffix_num6(s, seq![119u8]) is Some {  // w
        spec_fixed_step(suffix_num6(s, seq![119u8]).unwrap(), 604800)
    } else if suffix_num6(s, seq![100u8]) is Some {  // d
        spec_fixed_step(suffix_num6(s, seq![100u8]).unwrap(), 86400)
    } else if suffix_num6(s, seq![104u8]) is Some {  // h
        spec_fixed_step(suffix_num6(s, seq![104u8]).unwrap(), 3600)
    } else if suffix_num6(s, seq![109u8, 105u8, 110u8]) is Some {  // min
        spec_fixed_step(suffix_num6(s, seq![109u8, 105u8, 110u8]).unwrap(), 60)
    } else if suffix_num6(s, seq![115u8]) is Some {  // s
        spec_fixed_step(suffix_num6(s, seq![115u8]).unwrap(), 1)
    } else {
        Err(Error::BadInterval)
    }
}

/// A fixed step of `v` micro-units of `unit` seconds each, where it fits
/// the step range.
pub open spec fn spec_fixed_step(v: int, unit: int) -> Result<Step, Error> {
    let total = v * unit;
    if -MAX_STEP_MICROS <= total <= MAX_STEP_MICROS {
        Ok(Step::S(total as i64))
    } else {
        Err(Error::BadInterval)
    }
}

/// `v * unit` fits the step range exactly when the magnitude of `v`
/// stays under the unit's cap.
proof fn lemma_unit_cap(v: int, unit: int, cap: int)
    requires
        unit >= 1,
        cap >= 0,
        cap * unit <= MAX_STEP_MICROS,
        (cap + 1) * unit > MAX_STEP_MICROS,
        v >= 0,
    ensures
        (v * unit <= MAX_STEP_MICROS) <==> (v <= cap),
        v <= cap ==> v * unit >= 0,
{
    assert((v <= cap ==> v * unit <= cap * unit) && (v >= cap + 1 ==> v * unit >= (cap + 1)
        * unit) && (v >= 0 ==> v * unit >= 0)) by (nonlinear_arith)
        requires unit >= 1, cap >= 0,
    ;
}

/// Builds a fixed step from a signed micro-count and a unit, guarding
/// the multiplication by the unit's cap.
fn fixed_step(v: i64, unit: i64, cap: i64) -> (r: Result<Step, Error>)
    requires
        1 <= unit,
        0 <= cap,
        cap * unit <= MAX_STEP_MICROS,
        (cap + 1) * unit > MAX_STEP_MICROS,
        -1000000000000000000 < v < 1000000000000000000,
        cap < 1000000000000000000,
    ensures
        r == spec_fixed_step(v as int, unit as int),
        (match r {
            Ok(st) => step_ok(st),
            Err(_) => true,
        }),
{
    let mag: i64 = if v >= 0 { v } else { -v };
    proof {
        lemma_unit_cap(mag as int, unit as int, cap as int);
        assert((v as int) * (unit as int) == if v >= 0 { (mag as int) * (unit as int) } else {
            -((mag as int) * (unit as int))
        }) by (nonlinear_arith)
            requires mag == if v >= 0 { v as int } else { -(v as int) },
        ;
    }
    if mag > cap {
        return Err(Error::BadInterval);
    }
    Ok(Step::S(v * unit))
}

/// Parses a time-step token.
pub fn step(s: &[u8]) -> (r: Result<Step, Error>)
    ensures
        r == spec_step(spec_lower(s@)),
        (match r {
            Ok(st) => step_ok(st),
            Err(e) => e == Error::BadInterval,
        }),
{
    let low = to_lower(s);
    step_lowered(low.as_slice())
}

/// Parses an already-lowercased time-step token.
fn step_lowered(low: &[u8]) -> (r: Result<Step, Error>)
    ensures
        r == spec_step(low@),
        (match r {
            Ok(st) => step_ok(st),
            Err(e) => e == Error::BadInterval,
        }),
{
    let suf_y: [u8; 1] = [121];
    let suf_mon: [u8; 3] = [109, 111, 110];
    let suf_w: [u8; 1] = [119];
    let suf_d: [u8; 1] = [100];
    let suf_h: [u8; 1] = [104];
    let suf_min: [u8; 3] = [109, 105, 110];
    let suf_s: [u8; 1] = [115];
    proof {
        assert(suf_y@ =~= seq![121u8]);
        assert(suf_mon@ =~= seq![109u8, 111u8, 110u8]);
        assert(suf_w@ =~= seq![119u8]);
        assert(suf_d@ =~= seq![100u8]);
        assert(suf_h@ =~= seq![104u8]);
        assert(suf_min@ =~= seq![109u8, 105u8, 110u8]);
        assert(suf_s@ =~= seq![115u8]);
    }
    if let Some(years) = suffix_num_exec(low, suf_y.as_slice(), 0) {
        let months: i64 = if years <= 0 { 0 } else { years };
        if months > (MAX_STEP_MONTHS as i64) / 12 {
            Err(Error::BadInterval)
        } else {
            proof {
                assert(months * 12 <= MAX_STEP_MONTHS ==> months <= (MAX_STEP_MONTHS as int)
                    / 12) by (nonlinear_arith);
                assert(months <= (MAX_STEP_MONTHS as int) / 12 ==> months * 12
                    <= MAX_STEP_MONTHS) by (nonlinear_arith);
            }
            Ok(Step::M((months * 12) as u32))
        }
    } else if let Some(months) = suffix_num_exec(low, suf_mon.as_slice(), 0) {
        let m2: i64 = if months <= 0 { 0 } else { months };
        if m2 > MAX_STEP_MONTHS as i64 {
            Err(Error::BadInterval)
        } else {
            Ok(Step::M(m2 as u32))
        }
    } else if let Some(v) = suffix_num_exec(low, suf_w.as_slice(), 6) {
        fixed_step(v, 604800, 1488095238095)
    } else if let Some(v) = suffix_num_exec(low, suf_d.as_slice(), 6) {
        fixed_step(v, 86400, 10416666666666)
    } else if let Some(v) = suffix_num_exec(low, suf_h.as_slice(), 6) {
        fixed_step(v, 3600, 250000000000000)
    } else if let Some(v) = suffix_num_exec(low, suf_min.as_slice(), 6) {
        fixed_step(v, 60, 15000000000000000)
    } else if let Some(v) = suffix_num_exec(low, suf_s.as_slice(), 6) {
        fixed_step(v, 1, 900000000000000000)
    } else {
        Err(Error::BadInterval)
    }
}


/// Two ASCII digits stand at `i`.
pub open spec fn two_digits(s: Seq<u8>, i: int) -> bool {
    is_digit(s[i]) && is_digit(s[i + 1])
}

/// The number the two digits at `i` write.
pub open spec fn num2(s: Seq<u8>, i: int) -> int {
    (s[i] - 48) * 10 + (s[i + 1] - 48)
}

/// Four ASCII digits stand at `i`.
pub open spec fn four_digits(s: Seq<u8>, i: int) -> bool {
    is_digit(s[i]) && is_digit(s[i + 1]) && is_digit(s[i + 2]) && is_digit(s[i + 3])
}

/// The number the four digits at `i` write.
pub open spec fn num4(s: Seq<u8>, i: int) -> int {
    (s[i] - 48) * 1000 + (s[i + 1] - 48) * 100 + (s[i + 2] - 48) * 10 + (s[i + 3] - 48)
}

/// Reads two digits at `i`.
fn read2(s: &[u8], i: usize) -> (r: Option<i64>)
    requires
        i + 2 <= s@.len(),
    ensures
        (match r {
            Some(v) => two_digits(s@, i as int) && v == num2(s@, i as int) && 0 <= v <= 99,
            None => !two_digits(s@, i as int),
        }),
{
    let a: u8 = s[i];
    let b: u8 = s[i + 1];
    if 48 <= a && a <= 57 && 48 <= b && b <= 57 {
        Some((a - 48) as i64 * 10 + (b - 48) as i64)
    } else {
        None
    }
}

/// Reads four digits at `i`.
fn read4(s: &[u8], i: usize) -> (r: Option<i64>)
    requires
        i + 4 <= s@.len(),
    ensures
        (match r {
            Some(v) => four_digits(s@, i as int) && v == num4(s@, i as int) && 0 <= v <= 9999,
            None => !four_digits(s@, i as int),
        }),
{
    let n: usize = s.len();
    proof {
        assert(i + 2 <= n);
    }
    let a = read2(s, i);
    let b = read2(s, i + 2);
    match (a, b) {
        (Some(x), Some(y)) => Some(x * 100 + y),
        _ => None,
    }
}

/// How many leading ASCII digits `s` has.
pub open spec fn digits_run(s: Seq<u8>) -> int
    decreases s.len(),
{
    if s.len() == 0 {
        0
    } else if !is_digit(s[0]) {
        0
    } else {
        1 + digits_run(s.drop_first())
    }
}

/// Pins `digits_run` to the count an executable scan found.
proof fn lemma_digits_run_at(s: Seq<u8>, i: int)
    requires
        0 <= i <= s.len(),
        forall|j: int| 0 <= j < i ==> is_digit(#[trigger] s[j]),
        i < s.len() ==> !is_digit(s[i]),
    ensures
        digits_run(s) == i,
    decreases s.len(),
{
    if s.len() > 0 && is_digit(s[0]) {
        assert(forall|j: int| 0 <= j < i - 1 ==> s.drop_first()[j] == #[trigger] s[j + 1]);
        lemma_digits_run_at(s.drop_first(), i - 1);
    }
}

/// Counts the leading ASCII digits of `s`.
#[verifier::loop_isolation(false)]
fn count_digits(s: &[u8]) -> (r: usize)
    ensures
        r == digits_run(s@),
        0 <= r <= s@.len(),
{
    let mut i: usize = 0;
    while i < s.len() && 48 <= s[i] && s[i] <= 57
        invariant
            0 <= i <= s@.len(),
            forall|j: int| 0 <= j < i ==> is_digit(#[trigger] s@[j]),
        decreases s@.len() - i,
    {
        i = i + 1;
    }
    proof {
        lemma_digits_run_at(s@, i as int);
    }
    i
}

/// The offset in seconds the tail of a timestamp names: an optional
/// fraction (a dot and at least one digit, read and discarded as the
/// whole-second reading of a timestamp drops it), then `z` or a signed
/// `HH:MM` zone.
pub open spec fn spec_offset(t: Seq<u8>) -> Option<int> {
    let zone = if t.len() >= 1 && t[0] == 46 {
        let k = digits_run(t.skip(1));
        if k == 0 {
            Seq::<u8>::empty()
        } else {
            t.skip(1 + k)
        }
    } else {
        t
    };
    if t.len() >= 1 && t[0] == 46 && digits_run(t.skip(1)) == 0 {
        None
    } else if zone == seq![122u8] {  // z
        Some(0)
    } else if zone.len() == 6 && (zone[0] == 43 || zone[0] == 45) && two_digits(zone, 1)
        && zone[3] == 58 && two_digits(zone, 4) {
        let oh = num2(zone, 1);
        let om = num2(zone, 4);
        if oh > 23 || om > 59 {
            None
        } else if zone[0] == 45 {
            Some(-(oh * 3600 + om * 60))
        } else {
            Some(oh * 3600 + om * 60)
        }
    } else {
        None
    }
}

/// Reads the fraction-and-zone tail of a timestamp.
fn parse_offset(t: &[u8]) -> (r: Option<i64>)
    ensures
        (match r {
            Some(v) => spec_offset(t@) == Some(v as int) && -86400 < v < 86400,
            None => spec_offset(t@) is None,
        }),
{
    let zone: &[u8] = if t.len() >= 1 && t[0] == 46 {
        let rest: &[u8] = vstd::slice::slice_subrange(t, 1, t.len());
        let k: usize = count_digits(rest);
        if k == 0 {
            return None;
        }
        proof {
            assert(t@.skip(1 + k as int) =~= rest@.skip(k as int));
        }
        vstd::slice::slice_subrange(t, 1 + k, t.len())
    } else {
        t
    };
    let kw_z: [u8; 1] = [122];
    proof {
        assert(kw_z@ =~= seq![122u8]);
    }
    if bytes_eq(zone, kw_z.as_slice()) {
        return Some(0);
    }
    if zone.len() == 6 && (zone[0] == 43 || zone[0] == 45) && zone[3] == 58 {
        let oh = read2(zone, 1);
        let om = read2(zone, 4);
        match (oh, om) {
            (Some(h), Some(m)) => {
                if h > 23 || m > 59 {
                    None
                } else if zone[0] == 45 {
                    Some(-(h * 3600 + m * 60))
                } else {
                    Some(h * 3600 + m * 60)
                }
            },
            _ => None,
        }
    } else {
        None
    }
}

/// The instant a calendar timestamp names, in microseconds: the forms
/// `YYYY-MM-DD`, `YYYY-MM-DDtHH:MM`, `YYYY-MM-DDtHH:MM:SS`, and the
/// last with a fraction and/or a `z` or `±HH:MM` zone (the full
/// timestamp form; a fraction or zone without seconds is not a date).
/// Fields are fixed-width, the month and day must exist in the year's
/// calendar, and seconds run 0 to 59.
pub open spec fn spec_calendar(s: Seq<u8>) -> Option<int> {
    if s.len() < 10 {
        None
    } else if !(four_digits(s, 0) && s[4] == 45 && two_digits(s, 5) && s[7] == 45 && two_digits(
        s,
        8,
    )) {
        None
    } else {
        let y = num4(s, 0);
        let mo = num2(s, 5);
        let dd = num2(s, 8);
        if !(1 <= mo <= 12 && 1 <= dd <= spec_days_in_month(y, mo)) {
            None
        } else {
            let base = spec_days_from_civil(y, mo, dd) * 86400;
            if s.len() == 10 {
                Some(base * 1000000)
            } else if s.len() >= 16 && s[10] == 116 && two_digits(s, 11) && s[13] == 58
                && two_digits(s, 14) {
                let h = num2(s, 11);
                let mi = num2(s, 14);
                if h > 23 || mi > 59 {
                    None
                } else {
                    let withm = base + h * 3600 + mi * 60;
                    if s.len() == 16 {
                        Some(withm * 1000000)
                    } else if s.len() >= 19 && s[16] == 58 && two_digits(s, 17) {
                        let ss = num2(s, 17);
                        if ss > 59 {
                            None
                        } else {
                            let withs = withm + ss;
                            if s.len() == 19 {
                                Some(withs * 1000000)
                            } else {
                                match spec_offset(s.skip(19)) {
                                    Some(off) => Some((withs - off) * 1000000),
                                    None => None,
                                }
                            }
                        }
                    } else {
                        None
                    }
                }
            } else {
                None
            }
        }
    }
}

/// Reads a calendar timestamp into microseconds from the Unix epoch.
fn parse_calendar(s: &[u8]) -> (r: Option<i64>)
    ensures
        (match r {
            Some(v) => spec_calendar(s@) == Some(v as int) && -MAX_DATE_MICROS <= v
                <= MAX_DATE_MICROS,
            None => spec_calendar(s@) is None,
        }),
{
    if s.len() < 10 {
        return None;
    }
    let y = match read4(s, 0) {
        Some(v) => v,
        None => { return None; },
    };
    if s[4] != 45 || s[7] != 45 {
        return None;
    }
    let mo = match read2(s, 5) {
        Some(v) => v,
        None => { return None; },
    };
    let dd = match read2(s, 8) {
        Some(v) => v,
        None => { return None; },
    };
    if !(1 <= mo && mo <= 12) {
        return None;
    }
    if !(1 <= dd && dd <= days_in_month(y, mo)) {
        return None;
    }
    let base: i64 = days_from_civil(y, mo, dd) * 86400;
    if s.len() == 10 {
        return Some(base * 1000000);
    }
    if !(s.len() >= 16 && s[10] == 116 && s[13] == 58) {
        return None;
    }
    let h = match read2(s, 11) {
        Some(v) => v,
        None => { return None; },
    };
    let mi = match read2(s, 14) {
        Some(v) => v,
        None => { return None; },
    };
    if h > 23 || mi > 59 {
        return None;
    }
    let withm: i64 = base + h * 3600 + mi * 60;
    if s.len() == 16 {
        return Some(withm * 1000000);
    }
    if !(s.len() >= 19 && s[16] == 58) {
        return None;
    }
    let ss = match read2(s, 17) {
        Some(v) => v,
        None => { return None; },
    };
    if ss > 59 {
        return None;
    }
    let withs: i64 = withm + ss;
    if s.len() == 19 {
        return Some(withs * 1000000);
    }
    let tail: &[u8] = vstd::slice::slice_subrange(s, 19, s.len());
    match parse_offset(tail) {
        Some(off) => Some((withs - off) * 1000000),
        None => None,
    }
}

/// The instant a Julian-day count names: `v` microdays on the Julian
/// scale, taken to the Unix microsecond scale, where that lies in the
/// library's date range.
pub open spec fn spec_julian_micros(v: int) -> Result<Date, Error> {
    let micros = v * 86400 - JULIAN_EPOCH_MICROS;
    if -MAX_DATE_MICROS <= micros <= MAX_DATE_MICROS {
        Ok(Date { micros: micros as i64 })
    } else {
        Err(Error::InvalidDate)
    }
}

/// Builds a date from a Julian-day reading, guarding the scale change.
fn julian_micros(v: i64) -> (r: Result<Date, Error>)
    requires
        -1000000000000000000 < v < 1000000000000000000,
    ensures
        r == spec_julian_micros(v as int),
        (match r {
            Ok(d) => date_ok(d),
            Err(_) => true,
        }),
{
    if v > 8000000000000 || v < -8000000000000 {
        proof {
            assert(v > 8000000000000 ==> (v as int) * 86400 > 691200000000000000)
                by (nonlinear_arith);
            assert(v < -8000000000000 ==> (v as int) * 86400 < -691200000000000000)
                by (nonlinear_arith);
        }
        return Err(Error::InvalidDate);
    }
    let micros: i64 = v * 86400 - JULIAN_EPOCH_MICROS;
    if -MAX_DATE_MICROS <= micros && micros <= MAX_DATE_MICROS {
        Ok(Date { micros })
    } else {
        Err(Error::InvalidDate)
    }
}

/// The instant a Unix-second reading names, where it lies in the
/// library's date range.
pub open spec fn spec_unix_micros(v: int) -> Result<Date, Error> {
    if -MAX_DATE_MICROS <= v <= MAX_DATE_MICROS {
        Ok(Date { micros: v as i64 })
    } else {
        Err(Error::InvalidDate)
    }
}

/// The date a lowercased token names, against the current instant
/// `now`:
/// - `now` is the current instant;
/// - a leading `-` or `+` steps `now` by the time-step after it;
/// - `@N` and `Nu` are Unix-epoch seconds;
/// - `Njd` and `Nj` are Julian-day counts;
/// - otherwise the calendar forms of `spec_calendar`.
pub open spec fn spec_date(s: Seq<u8>, now: Date) -> Result<Date, Error> {
    if s == seq![110u8, 111u8, 119u8] {  // now
        Ok(now)
    } else if s.len() > 0 && s[0] == 45 {  // -
        match spec_step(s.drop_first()) {
            Ok(st) => Ok(Date { micros: spec_step_back(now, st) as i64 }),
            Err(e) => Err(e),
        }
    } else if s.len() > 0 && s[0] == 43 {  // +
        match spec_step(s.drop_first()) {
            Ok(st) => Ok(Date { micros: spec_step_forward(now, st) as i64 }),
            Err(e) => Err(e),
        }
    } else if s.len() > 0 && s[0] == 64 {  // @
        match spec_parse_scaled(s.drop_first(), 6) {
            Some(v) => spec_unix_micros(v),
            None => Err(Error::InvalidDate),
        }
    } else if suffix_num6(s, seq![117u8]) is Some {  // u
        spec_unix_micros(suffix_num6(s, seq![117u8]).unwrap())
    } else if suffix_num6(s, seq![106u8, 100u8]) is Some {  // jd
        spec_julian_micros(suffix_num6(s, seq![106u8, 100u8]).unwrap())
    } else if suffix_num6(s, seq![106u8]) is Some {  // j
        spec_julian_micros(suffix_num6(s, seq![106u8]).unwrap())
    } else {
        match spec_calendar(s) {
            Some(micros) => Ok(Date { micros: micros as i64 }),
            None => Err(Error::InvalidDate),
        }
    }
}

/// Parses a date token against the current instant `now`.
pub fn date(s: &[u8], now: Date) -> (r: Result<Date, Error>)
    requires
        date_ok(now),
    ensures
        r == spec_date(spec_lower(s@), now),
        (match r {
            Ok(d) => date_ok(d),
            Err(_) => true,
        }),
{
    let low = to_lower(s);
    date_lowered(low.as_slice(), now)
}

/// Parses an already-lowercased date token.
fn date_lowered(low: &[u8], now: Date) -> (r: Result<Date, Error>)
    requires
        date_ok(now),
    ensures
        r == spec_date(low@, now),
        (match r {
            Ok(d) => date_ok(d),
            Err(_) => true,
        }),
{
    let kw_now: [u8; 3] = [110, 111, 119];
    let suf_u: [u8; 1] = [117];
    let suf_jd: [u8; 2] = [106, 100];
    let suf_j: [u8; 1] = [106];
    proof {
        assert(kw_now@ =~= seq![110u8, 111u8, 119u8]);
        assert(suf_u@ =~= seq![117u8]);
        assert(suf_jd@ =~= seq![106u8, 100u8]);
        assert(suf_j@ =~= seq![106u8]);
    }
    if bytes_eq(low, kw_now.as_slice()) {
        return Ok(now);
    }
    if low.len() > 0 && low[0] == 45 {
        let rest: &[u8] = vstd::slice::slice_subrange(low, 1, low.len());
        proof {
            assert(rest@ =~= low@.drop_first());
        }
        return match step_lowered(rest) {
            Ok(st) => Ok(step_back_date(now, st)),
            Err(e) => Err(e),
        };
    }
    if low.len() > 0 && low[0] == 43 {
        let rest: &[u8] = vstd::slice::slice_subrange(low, 1, low.len());
        proof {
            assert(rest@ =~= low@.drop_first());
        }
        return match step_lowered(rest) {
            Ok(st) => Ok(step_forward_date(now, st)),
            Err(e) => Err(e),
        };
    }
    if low.len() > 0 && low[0] == 64 {
        let rest: &[u8] = vstd::slice::slice_subrange(low, 1, low.len());
        proof {
            assert(rest@ =~= low@.drop_first());
        }
        return match parse_scaled(rest, 6) {
            Some(v) => {
                if -MAX_DATE_MICROS <= v && v <= MAX_DATE_MICROS {
                    Ok(Date { micros: v })
                } else {
                    Err(Error::InvalidDate)
                }
            },
            None => Err(Error::InvalidDate),
        };
    }
    if let Some(v) = suffix_num_exec(low, suf_u.as_slice(), 6) {
        return if -MAX_DATE_MICROS <= v && v <= MAX_DATE_MICROS {
            Ok(Date { micros: v })
        } else {
            Err(Error::InvalidDate)
        };
    }
    if let Some(v) = suffix_num_exec(low, suf_jd.as_slice(), 6) {
        return julian_micros(v);
    }
    if let Some(v) = suffix_num_exec(low, suf_j.as_slice(), 6) {
        return julian_micros(v);
    }
    match parse_calendar(low) {
        Some(micros) => Ok(Date { micros }),
        None => Err(Error::InvalidDate),
    }
}

/// What an ephemeris-range token names: exactly three comma-separated
/// fields `START,STEP,END`, the dates read against `now`, the first
/// failing field's error kept.
pub open spec fn spec_ephemq(s: Seq<u8>, now: Date) -> Result<(Date, Step, Date), Error> {
    let c1 = first_pos(s, 44);
    if c1 == s.len() {
        Err(Error::BadCsv)
    } else {
        let f1 = s.take(c1);
        let r1 = s.skip(c1 + 1);
        let c2 = first_pos(r1, 44);
        if c2 == r1.len() {
            Err(Error::BadCsv)
        } else {
            let f2 = r1.take(c2);
            let f3 = r1.skip(c2 + 1);
            if first_pos(f3, 44) != f3.len() {
                Err(Error::BadCsv)
            } else {
                match spec_date(f1, now) {
                    Err(e) => Err(e),
                    Ok(start) => match spec_step(f2) {
                        Err(e) => Err(e),
                        Ok(st) => match spec_date(f3, now) {
                            Err(e) => Err(e),
                            Ok(end) => Ok((start, st, end)),
                        },
                    },
                }
            }
        }
    }
}

/// Parses an ephemeris range `START,STEP,END` against the current
/// instant `now`.
pub fn ephemq(s: &[u8], now: Date) -> (r: Result<(Date, Step, Date), Error>)
    requires
        date_ok(now),
    ensures
        r == spec_ephemq(spec_lower(s@), now),
        (match r {
            Ok(t) => date_ok(t.0) && step_ok(t.1) && date_ok(t.2),
            Err(_) => true,
        }),
{
    let low = to_lower(s);
    let c1: usize = find_byte(low.as_slice(), 44);
    if c1 == low.len() {
        return Err(Error::BadCsv);
    }
    let f1: &[u8] = vstd::slice::slice_subrange(low.as_slice(), 0, c1);
    let r1: &[u8] = vstd::slice::slice_subrange(low.as_slice(), c1 + 1, low.len());
    let c2: usize = find_byte(r1, 44);
    if c2 == r1.len() {
        return Err(Error::BadCsv);
    }
    let f2: &[u8] = vstd::slice::slice_subrange(r1, 0, c2);
    let f3: &[u8] = vstd::slice::slice_subrange(r1, c2 + 1, r1.len());
    if find_byte(f3, 44) != f3.len() {
        return Err(Error::BadCsv);
    }
    match date_lowered(f1, now) {
        Err(e) => Err(e),
        Ok(start) => match step_lowered(f2) {
            Err(e) => Err(e),
            Ok(st) => match date_lowered(f3, now) {
                Err(e) => Err(e),
                Ok(end) => Ok((start, st, end)),
            },
        },
    }
}

/// The property a lowercased token names, by canonical name or alias.
pub open spec fn spec_property(s: Seq<u8>) -> Result<Property, Error> {
    if s == seq![101u8, 113u8, 117u8] {  // equ
        Ok(Property::Equatorial)
    } else if s == seq![101u8, 113u8, 117u8, 97u8] {  // equa
        Ok(Property::Equatorial)
    } else if s == seq![101u8, 113u8, 117u8, 97u8, 116u8, 111u8, 114u8, 105u8, 97u8, 108u8] {  // equatorial
        Ok(Property::Equatorial)
    } else if s == seq![104u8, 111u8, 114u8, 105u8, 122u8] {  // horiz
        Ok(Property::Horizontal)
    } else if s == seq![104u8, 111u8, 114u8, 105u8, 122u8, 111u8, 110u8, 116u8, 97u8, 108u8] {  // horizontal
        Ok(Property::Horizontal)
    } else if s == seq![101u8, 99u8, 108u8] {  // ecl
        Ok(Property::Ecliptic)
    } else if s == seq![101u8, 99u8, 108u8, 105u8, 112u8, 116u8, 105u8, 99u8] {  // ecliptic
        Ok(Property::Ecliptic)
    } else if s == seq![100u8, 105u8, 115u8, 116u8] {  // dist
        Ok(Property::Distance)
    } else if s == seq![100u8, 105u8, 115u8, 116u8, 97u8, 110u8, 99u8, 101u8] {  // distance
        Ok(Property::Distance)
    } else if s == seq![109u8, 97u8, 103u8] {  // mag
        Ok(Property::Magnitude)
    } else if s == seq![109u8, 97u8, 103u8, 110u8, 105u8, 116u8, 117u8, 100u8, 101u8] {  // magnitude
        Ok(Property::Magnitude)
    } else if s == seq![98u8, 114u8, 105u8, 103u8, 104u8, 116u8, 110u8, 101u8, 115u8, 115u8] {  // brightness
        Ok(Property::Magnitude)
    } else if s == seq![112u8, 104u8, 97u8, 115u8, 101u8] {  // phase
        Ok(Property::PhaseDefault)
    } else if s == seq![112u8, 104u8, 97u8, 115u8, 101u8, 101u8, 109u8, 111u8, 106u8, 105u8] {  // phaseemoji
        Ok(Property::PhaseEmoji)
    } else if s == seq![112u8, 104u8, 97u8, 115u8, 101u8, 110u8, 97u8, 109u8, 101u8] {  // phasename
        Ok(Property::PhaseName)
    } else if s == seq![97u8, 110u8, 103u8, 100u8, 105u8, 97u8] {  // angdia
        Ok(Property::AngDia)
    } else if s == seq![112u8, 104u8, 97u8, 115u8, 101u8, 112u8, 114u8, 101u8, 99u8, 101u8, 110u8, 116u8] {  // phaseprecent
        Ok(Property::IllumFrac)
    } else if s == seq![105u8, 108u8, 108u8, 117u8, 109u8, 102u8, 114u8, 97u8, 99u8] {  // illumfrac
        Ok(Property::IllumFrac)
    } else if s == seq![114u8, 105u8, 115u8, 101u8] {  // rise
        Ok(Property::Rise)
    } else if s == seq![115u8, 101u8, 116u8] {  // set
        Ok(Property::SetTime)
    } else {
        Err(Error::UnknownProperty)
    }
}

/// Parses a property name or alias, ASCII case-insensitively.
pub fn property(s: &[u8]) -> (r: Result<Property, Error>)
    ensures
        r == spec_property(spec_lower(s@)),
{
    let low = to_lower(s);
    let kw0: [u8; 3] = [101, 113, 117];
    let kw1: [u8; 4] = [101, 113, 117, 97];
    let kw2: [u8; 10] = [101, 113, 117, 97, 116, 111, 114, 105, 97, 108];
    let kw3: [u8; 5] = [104, 111, 114, 105, 122];
    let kw4: [u8; 10] = [104, 111, 114, 105, 122, 111, 110, 116, 97, 108];
    let kw5: [u8; 3] = [101, 99, 108];
    let kw6: [u8; 8] = [101, 99, 108, 105, 112, 116, 105, 99];
    let kw7: [u8; 4] = [100, 105, 115, 116];
    let kw8: [u8; 8] = [100, 105, 115, 116, 97, 110, 99, 101];
    let kw9: [u8; 3] = [109, 97, 103];
    let kw10: [u8; 9] = [109, 97, 103, 110, 105, 116, 117, 100, 101];
    let kw11: [u8; 10] = [98, 114, 105, 103, 104, 116, 110, 101, 115, 115];
    let kw12: [u8; 5] = [112, 104, 97, 115, 101];
    let kw13: [u8; 10] = [112, 104, 97, 115, 101, 101, 109, 111, 106, 105];
    let kw14: [u8; 9] = [112, 104, 97, 115, 101, 110, 97, 109, 101];
    let kw15: [u8; 6] = [97, 110, 103, 100, 105, 97];
    let kw16: [u8; 12] = [112, 104, 97, 115, 101, 112, 114, 101, 99, 101, 110, 116];
    let kw17: [u8; 9] = [105, 108, 108, 117, 109, 102, 114, 97, 99];
    let kw18: [u8; 4] = [114, 105, 115, 101];
    let kw19: [u8; 3] = [115, 101, 116];
    proof {
        assert(kw0@ =~= seq![101u8, 113u8, 117u8]);
        assert(kw1@ =~= seq![101u8, 113u8, 117u8, 97u8]);
        assert(kw2@ =~= seq![101u8, 113u8, 117u8, 97u8, 116u8, 111u8, 114u8, 105u8, 97u8, 108u8]);
        assert(kw3@ =~= seq![104u8, 111u8, 114u8, 105u8, 122u8]);
        assert(kw4@ =~= seq![104u8, 111u8, 114u8, 105u8, 122u8, 111u8, 110u8, 116u8, 97u8, 108u8]);
        assert(kw5@ =~= seq![101u8, 99u8, 108u8]);
        assert(kw6@ =~= seq![101u8, 99u8, 108u8, 105u8, 112u8, 116u8, 105u8, 99u8]);
        assert(kw7@ =~= seq![100u8, 105u8, 115u8, 116u8]);
        assert(kw8@ =~= seq![100u8, 105u8, 115u8, 116u8, 97u8, 110u8, 99u8, 101u8]);
        assert(kw9@ =~= seq![109u8, 97u8, 103u8]);
        assert(kw10@ =~= seq![109u8, 97u8, 103u8, 110u8, 105u8, 116u8, 117u8, 100u8, 101u8]);
        assert(kw11@ =~= seq![98u8, 114u8, 105u8, 103u8, 104u8, 116u8, 110u8, 101u8, 115u8, 115u8]);
        assert(kw12@ =~= seq![112u8, 104u8, 97u8, 115u8, 101u8]);
        assert(kw13@ =~= seq![112u8, 104u8, 97u8, 115u8, 101u8, 101u8, 109u8, 111u8, 106u8, 105u8]);
        assert(kw14@ =~= seq![112u8, 104u8, 97u8, 115u8, 101u8, 110u8, 97u8, 109u8, 101u8]);
        assert(kw15@ =~= seq![97u8, 110u8, 103u8, 100u8, 105u8, 97u8]);
        assert(kw16@ =~= seq![112u8, 104u8, 97u8, 115u8, 101u8, 112u8, 114u8, 101u8, 99u8, 101u8, 110u8, 116u8]);
        assert(kw17@ =~= seq![105u8, 108u8, 108u8, 117u8, 109u8, 102u8, 114u8, 97u8, 99u8]);
        assert(kw18@ =~= seq![114u8, 105u8, 115u8, 101u8]);
        assert(kw19@ =~= seq![115u8, 101u8, 116u8]);
    }
    if bytes_eq(low.as_slice(), kw0.as_slice()) {
        Ok(Property::Equatorial)
    } else if bytes_eq(low.as_slice(), kw1.as_slice()) {
        Ok(Property::Equatorial)
    } else if bytes_eq(low.as_slice(), kw2.as_slice()) {
        Ok(Property::Equatorial)
    } else if bytes_eq(low.as_slice(), kw3.as_slice()) {
        Ok(Property::Horizontal)
    } else if bytes_eq(low.as_slice(), kw4.as_slice()) {
        Ok(Property::Horizontal)
    } else if bytes_eq(low.as_slice(), kw5.as_slice()) {
        Ok(Property::Ecliptic)
    } else if bytes_eq(low.as_slice(), kw6.as_slice()) {
        Ok(Property::Ecliptic)
    } else if bytes_eq(low.as_slice(), kw7.as_slice()) {
        Ok(Property::Distance)
    } else if bytes_eq(low.as_slice(), kw8.as_slice()) {
        Ok(Property::Distance)
    } else if bytes_eq(low.as_slice(), kw9.as_slice()) {
        Ok(Property::Magnitude)
    } else if bytes_eq(low.as_slice(), kw10.as_slice()) {
        Ok(Property::Magnitude)
    } else if bytes_eq(low.as_slice(), kw11.as_slice()) {
        Ok(Property::Magnitude)
    } else if bytes_eq(low.as_slice(), kw12.as_slice()) {
        Ok(Property::PhaseDefault)
    } else if bytes_eq(low.as_slice(), kw13.as_slice()) {
        Ok(Property::PhaseEmoji)
    } else if bytes_eq(low.as_slice(), kw14.as_slice()) {
        Ok(Property::PhaseName)
    } else if bytes_eq(low.as_slice(), kw15.as_slice()) {
        Ok(Property::AngDia)
    } else if bytes_eq(low.as_slice(), kw16.as_slice()) {
        Ok(Property::IllumFrac)
    } else if bytes_eq(low.as_slice(), kw17.as_slice()) {
        Ok(Property::IllumFrac)
    } else if bytes_eq(low.as_slice(), kw18.as_slice()) {
        Ok(Property::Rise)
    } else if bytes_eq(low.as_slice(), kw19.as_slice()) {
        Ok(Property::SetTime)
    } else {
        Err(Error::UnknownProperty)
    }
}

/// The catalog object a lowercased token names.
pub open spec fn spec_object(s: Seq<u8>) -> Result<CelObj, Error> {
    if s == seq![115u8, 117u8, 110u8] {  // sun
        Ok(CelObj::Sun)
    } else if s == seq![109u8, 111u8, 111u8, 110u8] {  // moon
        Ok(CelObj::Moon)
    } else if s == seq![109u8, 101u8, 114u8, 99u8, 117u8, 114u8, 121u8] {  // mercury
        Ok(CelObj::Planet(Planet::Mercury))
    } else if s == seq![118u8, 101u8, 110u8, 117u8, 115u8] {  // venus
        Ok(CelObj::Planet(Planet::Venus))
    } else if s == seq![109u8, 97u8, 114u8, 115u8] {  // mars
        Ok(CelObj::Planet(Planet::Mars))
    } else if s == seq![106u8, 117u8, 112u8, 105u8, 116u8, 101u8, 114u8] {  // jupiter
        Ok(CelObj::Planet(Planet::Jupiter))
    } else if s == seq![115u8, 97u8, 116u8, 117u8, 114u8, 110u8] {  // saturn
        Ok(CelObj::Planet(Planet::Saturn))
    } else if s == seq![117u8, 114u8, 97u8, 110u8, 117u8, 115u8] {  // uranus
        Ok(CelObj::Planet(Planet::Uranus))
    } else if s == seq![110u8, 101u8, 112u8, 116u8, 117u8, 110u8, 101u8] {  // neptune
        Ok(CelObj::Planet(Planet::Neptune))
    } else if s == seq![112u8, 108u8, 117u8, 116u8, 111u8] {  // pluto
        Ok(CelObj::Planet(Planet::Pluto))
    } else {
        Err(Error::UnknownObject)
    }
}

/// Parses a catalog object's name, ASCII case-insensitively.
pub fn object(s: &[u8]) -> (r: Result<CelObj, Error>)
    ensures
        r == spec_object(spec_lower(s@)),
{
    let low = to_lower(s);
    let kw0: [u8; 3] = [115, 117, 110];
    let kw1: [u8; 4] = [109, 111, 111, 110];
    let kw2: [u8; 7] = [109, 101, 114, 99, 117, 114, 121];
    let kw3: [u8; 5] = [118, 101, 110, 117, 115];
    let kw4: [u8; 4] = [109, 97, 114, 115];
    let kw5: [u8; 7] = [106, 117, 112, 105, 116, 101, 114];
    let kw6: [u8; 6] = [115, 97, 116, 117, 114, 110];
    let kw7: [u8; 6] = [117, 114, 97, 110, 117, 115];
    let kw8: [u8; 7] = [110, 101, 112, 116, 117, 110, 101];
    let kw9: [u8; 5] = [112, 108, 117, 116, 111];
    proof {
        assert(kw0@ =~= seq![115u8, 117u8, 110u8]);
        assert(kw1@ =~= seq![109u8, 111u8, 111u8, 110u8]);
        assert(kw2@ =~= seq![109u8, 101u8, 114u8, 99u8, 117u8, 114u8, 121u8]);
        assert(kw3@ =~= seq![118u8, 101u8, 110u8, 117u8, 115u8]);
        assert(kw4@ =~= seq![109u8, 97u8, 114u8, 115u8]);
        assert(kw5@ =~= seq![106u8, 117u8, 112u8, 105u8, 116u8, 101u8, 114u8]);
        assert(kw6@ =~= seq![115u8, 97u8, 116u8, 117u8, 114u8, 110u8]);
        assert(kw7@ =~= seq![117u8, 114u8, 97u8, 110u8, 117u8, 115u8]);
        assert(kw8@ =~= seq![110u8, 101u8, 112u8, 116u8, 117u8, 110u8, 101u8]);
        assert(kw9@ =~= seq![112u8, 108u8, 117u8, 116u8, 111u8]);
    }
    if bytes_eq(low.as_slice(), kw0.as_slice()) {
        Ok(CelObj::Sun)
    } else if bytes_eq(low.as_slice(), kw1.as_slice()) {
        Ok(CelObj::Moon)
    } else if bytes_eq(low.as_slice(), kw2.as_slice()) {
        Ok(CelObj::Planet(Planet::Mercury))
    } else if bytes_eq(low.as_slice(), kw3.as_slice()) {
        Ok(CelObj::Planet(Planet::Venus))
    } else if bytes_eq(low.as_slice(), kw4.as_slice()) {
        Ok(CelObj::Planet(Planet::Mars))
    } else if bytes_eq(low.as_slice(), kw5.as_slice()) {
        Ok(CelObj::Planet(Planet::Jupiter))
    } else if bytes_eq(low.as_slice(), kw6.as_slice()) {
        Ok(CelObj::Planet(Planet::Saturn))
    } else if bytes_eq(low.as_slice(), kw7.as_slice()) {
        Ok(CelObj::Planet(Planet::Uranus))
    } else if bytes_eq(low.as_slice(), kw8.as_slice()) {
        Ok(CelObj::Planet(Planet::Neptune))
    } else if bytes_eq(low.as_slice(), kw9.as_slice()) {
        Ok(CelObj::Planet(Planet::Pluto))
    } else {
        Err(Error::UnknownObject)
    }
}

} // verus!
