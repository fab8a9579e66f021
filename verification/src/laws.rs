//! Laws the library keeps, stated and proved over the same spec
//! functions the public contracts use.

use vstd::prelude::*;
use crate::date::{Date, Step, date_ok, spec_step_forward, MAX_DATE_MICROS};
use crate::num::{all_digits, spec_parse_scaled, is_digit};
use crate::parse::{spec_angle, spec_date, spec_unix_micros, suffix_num6, strip_suffix};
use crate::render::spec_phase_index;

verus! {

/// The `@N` and `Nu` date forms name the same instant: for any digit
/// string, prefixing `@` and suffixing `u` parse to the same date.
pub proof fn lemma_date_unix_forms_agree(s: Seq<u8>, now: Date)
    requires
        s.len() >= 1,
        all_digits(s),
    ensures
        spec_date(seq![64u8] + s, now) == spec_date(s + seq![117u8], now),
{
    let at_form = seq![64u8] + s;
    let u_form = s + seq![117u8];
    // the @ form: the marker, then the digits
    assert(at_form[0] == 64);
    assert(at_form.drop_first() =~= s);
    assert(at_form != seq![110u8, 111u8, 119u8]);
    // the u form starts with a digit, so no earlier date form matches it
    assert(u_form[0] == s[0]);
    assert(is_digit(s[0]));
    assert(u_form != seq![110u8, 111u8, 119u8]) by {
        if u_form == seq![110u8, 111u8, 119u8] {
            assert(u_form[0] == 110);
        }
    }
    assert(u_form[0] != 45 && u_form[0] != 43 && u_form[0] != 64);
    // stripping the u suffix gives the digits back
    assert(u_form.skip(u_form.len() - 1) =~= seq![117u8]);
    assert(strip_suffix(u_form, seq![117u8]) == Some(u_form.take(u_form.len() - 1)));
    assert(u_form.take(u_form.len() - 1) =~= s);
    assert(suffix_num6(u_form, seq![117u8]) == spec_parse_scaled(s, 6));
    match spec_parse_scaled(s, 6) {
        Some(v) => {
            assert(spec_date(at_form, now) == spec_unix_micros(v));
            assert(spec_date(u_form, now) == spec_unix_micros(v));
        },
        None => {
            assert(spec_date(at_form, now) == Err::<Date, crate::errors::Error>(
                crate::errors::Error::InvalidDate,
            ));
            assert(suffix_num6(u_form, seq![106u8, 100u8]) is None) by {
                if strip_suffix(u_form, seq![106u8, 100u8]) is Some {
                    assert(u_form.skip(u_form.len() - 2)[1] == 117);
                }
            }
            assert(suffix_num6(u_form, seq![106u8]) is None) by {
                if strip_suffix(u_form, seq![106u8]) is Some {
                    assert(u_form.skip(u_form.len() - 1)[0] == 117);
                }
            }
            assert(crate::parse::spec_calendar(u_form) is None) by {
                if u_form.len() >= 10 {
                    assert(!is_digit(117u8));
                    if crate::parse::four_digits(u_form, 0) && u_form[4] == 45 {
                        if u_form.len() == 10 {
                            assert(u_form[9] == 117);
                            assert(!crate::parse::two_digits(u_form, 8));
                        }
                    }
                }
            }
        },
    }
}

/// The epoch-equivalent calendar form agrees with the Unix forms: the
/// day after the epoch, written as a calendar date, is the instant the
/// `@86400` and `86400u` forms name.
pub proof fn lemma_epoch_day_forms_agree(now: Date)
    ensures
        spec_date(
            seq![49u8, 57u8, 55u8, 48u8, 45u8, 48u8, 49u8, 45u8, 48u8, 50u8],  // 1970-01-02
            now,
        ) == Ok::<Date, crate::errors::Error>(Date { micros: 86400000000 }),
        spec_date(seq![64u8, 56u8, 54u8, 52u8, 48u8, 48u8], now)  // @86400
            == Ok::<Date, crate::errors::Error>(Date { micros: 86400000000 }),
{
    let cal = seq![49u8, 57u8, 55u8, 48u8, 45u8, 48u8, 49u8, 45u8, 48u8, 50u8];
    assert(crate::parse::spec_calendar(cal) == Some(86400000000int)) by {
        assert(crate::parse::num4(cal, 0) == 1970);
        assert(crate::parse::num2(cal, 5) == 1);
        assert(crate::parse::num2(cal, 8) == 2);
        assert(crate::calendar::spec_days_from_civil(1970, 1, 2) == 1);
    }
    assert(strip_suffix(cal, seq![117u8]) is None) by {
        assert(cal.skip(9)[0] == 50);
    }
    assert(strip_suffix(cal, seq![106u8, 100u8]) is None) by {
        assert(cal.skip(8)[0] == 48);
    }
    assert(strip_suffix(cal, seq![106u8]) is None) by {
        assert(cal.skip(9)[0] == 50);
    }
    let at = seq![64u8, 56u8, 54u8, 52u8, 48u8, 48u8];
    assert(at.drop_first() =~= seq![56u8, 54u8, 52u8, 48u8, 48u8]);
    let digits = seq![56u8, 54u8, 52u8, 48u8, 48u8];
    assert(spec_parse_scaled(digits, 6) == Some(86400000000int)) by {
        crate::num::lemma_first_dot_at(digits, 5);
        assert(crate::num::int_part(digits) =~= digits);
        assert(crate::num::frac_part(digits) =~= Seq::<u8>::empty());
        assert(crate::num::digits_val(digits) == 86400) by {
            assert(seq![56u8].drop_last() =~= Seq::<u8>::empty());
            assert(crate::num::digits_val(seq![56u8]) == 8);
            assert(seq![56u8, 54u8].drop_last() =~= seq![56u8]);
            assert(crate::num::digits_val(seq![56u8, 54u8]) == 86);
            assert(seq![56u8, 54u8, 52u8].drop_last() =~= seq![56u8, 54u8]);
            assert(crate::num::digits_val(seq![56u8, 54u8, 52u8]) == 864);
            assert(seq![56u8, 54u8, 52u8, 48u8].drop_last() =~= seq![56u8, 54u8, 52u8]);
            assert(crate::num::digits_val(seq![56u8, 54u8, 52u8, 48u8]) == 8640);
            assert(digits.drop_last() =~= seq![56u8, 54u8, 52u8, 48u8]);
        }
        assert(crate::num::pow10(6) == 1000000) by {
            reveal_with_fuel(crate::num::pow10, 8);
        }
    }
}

/// Angle parsing is sign-consistent: on any numeric body, the `w` (west)
/// suffix names the negation of the `e` (east) suffix, and the `s`
/// (south) suffix the negation of the `n` (north) suffix.  The same
/// reading applies wherever an angle token is read, the latitude side of
/// a location included.
pub proof fn lemma_angle_sign_symmetry(body: Seq<u8>, v: int)
    requires
        spec_parse_scaled(body, 6) == Some(v),
    ensures
        spec_angle(body + seq![101u8]) == Some(v),
        spec_angle(body + seq![119u8]) == Some(-v),
        spec_angle(body + seq![110u8]) == Some(v),
        spec_angle(body + seq![115u8]) == Some(-v),
{
    lemma_single_suffix(body, 101, v);
    lemma_single_suffix(body, 119, v);
    lemma_single_suffix(body, 110, v);
    lemma_single_suffix(body, 115, v);
}

/// A token made of a numeric body and one suffix byte strips exactly at
/// that byte: a single-byte suffix matches when it is the last byte, and
/// none of the degree words can match a token ending in one of the four
/// direction letters.
proof fn lemma_single_suffix(body: Seq<u8>, suf: u8, v: int)
    requires
        spec_parse_scaled(body, 6) == Some(v),
        suf == 101 || suf == 119 || suf == 110 || suf == 115,
    ensures
        suffix_num6(body + seq![suf], seq![suf]) == Some(v),
        forall|other: u8|
            (other == 101 || other == 119 || other == 110 || other == 115 || other == 100)
                && other != suf ==> #[trigger] suffix_num6(body + seq![suf], seq![other]) is None,
{
    let t = body + seq![suf];
    assert(t.skip(t.len() - 1) =~= seq![suf]);
    assert(t.take(t.len() - 1) =~= body);
    assert(suffix_num6(t, seq![suf]) == spec_parse_scaled(body, 6));
    assert forall|other: u8|
        (other == 101 || other == 119 || other == 110 || other == 115 || other == 100) && other
            != suf implies #[trigger] suffix_num6(t, seq![other]) is None by {
        if strip_suffix(t, seq![other]) is Some {
            assert(t.skip(t.len() - 1) == seq![other]);
            assert(seq![suf][0] == suf);
        }
    }
}

/// Phase bucketing is total and boundary-exact: every fraction lands in
/// exactly one bucket, the boundaries 0.04, 0.46, 0.54 and 0.96 (here
/// in millionths) belong to the bucket above them, and all eight
/// indices are reachable.
pub proof fn lemma_phase_buckets()
    ensures
        // boundaries, waxing side (phase angle at most 90°)
        spec_phase_index(39999, 0) == 0,
        spec_phase_index(40000, 0) == 1,
        spec_phase_index(459999, 0) == 1,
        spec_phase_index(460000, 0) == 2,
        spec_phase_index(539999, 0) == 2,
        spec_phase_index(540000, 0) == 3,
        spec_phase_index(959999, 0) == 3,
        spec_phase_index(960000, 0) == 4,
        // boundaries, waning side (phase angle past 90°)
        spec_phase_index(39999, 180000000) == 0,
        spec_phase_index(40000, 180000000) == 7,
        spec_phase_index(460000, 180000000) == 6,
        spec_phase_index(540000, 180000000) == 5,
        spec_phase_index(960000, 180000000) == 4,
        // every fraction lands in a bucket
        forall|f: int, a: int| 0 <= #[trigger] spec_phase_index(f, a) <= 7,
{
    assert(1000000int % 360000000 == 1000000);
}

/// A fixed-span step moves a date by exactly the span's magnitude in
/// microseconds whenever no clamping at the edge of the date range is
/// involved, so consecutive ephemeris dates under a fixed step differ by
/// exactly the step.
pub proof fn lemma_fixed_step_exact(d: Date, v: int)
    requires
        date_ok(d),
        -MAX_DATE_MICROS <= v <= MAX_DATE_MICROS,
        d.micros + (if v >= 0 { v } else { -v }) <= MAX_DATE_MICROS,
    ensures
        spec_step_forward(d, Step::S(v as i64)) == d.micros + (if v >= 0 {
            v
        } else {
            -v
        }),
{
}

} // verus!
