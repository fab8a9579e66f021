//! Decimal literals and decimal text.
//!
//! The literal parser reads signed decimal numbers (`-12`, `3.5`, `.25`)
//! into fixed-point integers at a caller-chosen scale, truncating fraction
//! digits beyond the scale.  The renderers in `fmt` turn such integers
//! back into digit strings.  Exponent forms, `inf` and `nan` are not
//! numbers here, and a number whose integer part has more than twelve
//! digits is out of range.

use vstd::prelude::*;

verus! {

/// Most integer digits a decimal literal may carry.
pub const MAX_INT_DIGITS: usize = 12;

/// `b` is an ASCII digit.
pub open spec fn is_digit(b: u8) -> bool {
    48 <= b && b <= 57
}

/// Every byte of `s` is an ASCII digit.
pub open spec fn all_digits(s: Seq<u8>) -> bool {
    forall|i: int| 0 <= i < s.len() ==> is_digit(#[trigger] s[i])
}

/// The number named by a digit string, read left to right.
pub open spec fn digits_val(s: Seq<u8>) -> int
    decreases s.len(),
{
    if s.len() == 0 {
        0
    } else {
        digits_val(s.drop_last()) * 10 + (s.last() - 48)
    }
}

/// Ten to the `k`.
pub open spec fn pow10(k: nat) -> int
    decreases k,
{
    if k == 0 {
        1
    } else {
        10 * pow10((k - 1) as nat)
    }
}

pub proof fn lemma_pow10_pos(k: nat)
    ensures
        pow10(k) >= 1,
    decreases k,
{
    if k > 0 {
        lemma_pow10_pos((k - 1) as nat);
    }
}

/// Powers of ten grow with the exponent.
pub proof fn lemma_pow10_mono(a: nat, b: nat)
    requires
        a <= b,
    ensures
        pow10(a) <= pow10(b),
    decreases b,
{
    if a < b {
        lemma_pow10_mono(a, (b - 1) as nat);
        lemma_pow10_pos((b - 1) as nat);
    }
}

/// A digit string names a value below ten to its length.
pub proof fn lemma_digits_val_bound(s: Seq<u8>)
    requires
        all_digits(s),
    ensures
        0 <= digits_val(s) < pow10(s.len()),
    decreases s.len(),
{
    if s.len() > 0 {
        assert(all_digits(s.drop_last())) by {
            assert(forall|i: int|
                0 <= i < s.len() - 1 ==> s.drop_last()[i] == #[trigger] s[i]);
        }
        lemma_digits_val_bound(s.drop_last());
    }
}

/// Appending a digit multiplies the value by ten and adds the digit.
proof fn lemma_digits_val_push(s: Seq<u8>, i: int)
    requires
        0 <= i < s.len(),
    ensures
        digits_val(s.take(i + 1)) == digits_val(s.take(i)) * 10 + (s[i] - 48),
{
    assert(s.take(i + 1).drop_last() =~= s.take(i));
    assert(s.take(i + 1).last() == s[i]);
}

/// Position of the first `.` in `s`, or `s.len()` if there is none.
pub open spec fn first_dot(s: Seq<u8>) -> int
    decreases s.len(),
{
    if s.len() == 0 {
        0
    } else if s[0] == 46 {
        0
    } else {
        1 + first_dot(s.drop_first())
    }
}

/// Pins `first_dot` to the position an executable scan found.
pub proof fn lemma_first_dot_at(s: Seq<u8>, i: int)
    requires
        0 <= i <= s.len(),
        forall|j: int| 0 <= j < i ==> s[j] != 46,
        i < s.len() ==> s[i] == 46,
    ensures
        first_dot(s) == i,
    decreases s.len(),
{
    if s.len() > 0 && s[0] != 46 {
        assert(forall|j: int| 0 <= j < i - 1 ==> s.drop_first()[j] == #[trigger] s[j + 1]);
        lemma_first_dot_at(s.drop_first(), i - 1);
    }
}

/// The sign byte of `s`, if any, and what follows it.
pub open spec fn split_sign(s: Seq<u8>) -> (bool, Seq<u8>) {
    if s.len() > 0 && (s[0] == 43 || s[0] == 45) {
        (s[0] == 45, s.drop_first())
    } else {
        (false, s)
    }
}

/// The integer part of an unsigned decimal body (what stands before the
/// first dot).
pub open spec fn int_part(t: Seq<u8>) -> Seq<u8> {
    t.take(first_dot(t))
}

/// The fraction part of an unsigned decimal body (what stands after the
/// first dot; empty if there is no dot).
pub open spec fn frac_part(t: Seq<u8>) -> Seq<u8> {
    if first_dot(t) < t.len() {
        t.skip(first_dot(t) + 1)
    } else {
        Seq::empty()
    }
}

/// `t` is an unsigned decimal body: digits around at most one dot, at
/// least one digit in all, and at most `MAX_INT_DIGITS` before the dot.
pub open spec fn valid_decimal_body(t: Seq<u8>) -> bool {
    &&& all_digits(int_part(t))
    &&& all_digits(frac_part(t))
    &&& int_part(t).len() + frac_part(t).len() >= 1
    &&& int_part(t).len() <= MAX_INT_DIGITS
}

/// The value of the fraction digits `fp` at scale `k`: the first `k`
/// digits, zero-padded on the right to exactly `k` digits.
pub open spec fn frac_val(fp: Seq<u8>, k: nat) -> int {
    if fp.len() >= k {
        digits_val(fp.take(k as int))
    } else {
        digits_val(fp) * pow10((k - fp.len()) as nat)
    }
}

/// The fixed-point reading of a signed decimal literal at scale `k`
/// (the value times ten to the `k`, fraction digits past `k` dropped),
/// or nothing where `s` is not such a literal.
pub open spec fn spec_parse_scaled(s: Seq<u8>, k: nat) -> Option<int> {
    let (neg, t) = split_sign(s);
    if valid_decimal_body(t) {
        let v = digits_val(int_part(t)) * pow10(k) + frac_val(frac_part(t), k);
        Some(if neg { -v } else { v })
    } else {
        None
    }
}

/// Ten to the `k`, executable.
#[verifier::loop_isolation(false)]
pub fn pow10_exec(k: usize) -> (r: i64)
    requires
        k <= 18,
    ensures
        r == pow10(k as nat),
{
    let mut r: i64 = 1;
    let mut i: usize = 0;
    while i < k
        invariant
            0 <= i <= k <= 18,
            r == pow10(i as nat),
        decreases k - i,
    {
        proof {
            lemma_pow10_bound_18((i + 1) as nat);
            assert(pow10((i + 1) as nat) == 10 * pow10(i as nat));
        }
        r = r * 10;
        i = i + 1;
    }
    r
}

/// Ten to at most the eighteenth fits a machine word.
pub proof fn lemma_pow10_bound_18(k: nat)
    requires
        k <= 18,
    ensures
        1 <= pow10(k) <= 1000000000000000000,
    decreases k,
{
    reveal_with_fuel(pow10, 20);
    assert(pow10(18) == 1000000000000000000);
    lemma_pow10_pos(k);
    lemma_pow10_mono(k, 18);
}

/// Reads a signed decimal literal at scale `k`: the result is the value
/// times ten to the `k`, truncated; nothing where `s` is not a decimal
/// literal or its integer part is longer than twelve digits.
#[verifier::loop_isolation(false)]
#[verifier::rlimit(100)]
pub fn parse_scaled(s: &[u8], k: usize) -> (r: Option<i64>)
    requires
        k <= 6,
    ensures
        (match r {
            Some(v) => {
                &&& spec_parse_scaled(s@, k as nat) == Some(v as int)
                &&& -1000000000000000000 < v < 1000000000000000000
            },
            None => spec_parse_scaled(s@, k as nat) is None,
        }),
{
    let ghost gs = s@;
    let n: usize = s.len();
    let mut start: usize = 0;
    let mut neg: bool = false;
    if n > 0 && (s[0] == 43 || s[0] == 45) {
        neg = s[0] == 45;
        start = 1;
    }
    let ghost t = gs.skip(start as int);
    proof {
        assert(t =~= split_sign(gs).1);
        assert(neg == split_sign(gs).0);
    }
    // find the first dot of the body
    let mut d: usize = start;
    while d < n && s[d] != 46
        invariant
            start <= d <= n == s@.len(),
            gs == s@,
            forall|j: int| start <= j < d ==> gs[j] != 46,
        decreases n - d,
    {
        d = d + 1;
    }
    proof {
        assert(forall|j: int| 0 <= j < d - start ==> t[j] == #[trigger] gs[j + start]);
        lemma_first_dot_at(t, d - start as int);
        assert(int_part(t) =~= gs.subrange(start as int, d as int));
        if (d as int) < n {
            assert(frac_part(t) =~= gs.subrange(d as int + 1, n as int));
        } else {
            assert(frac_part(t) =~= Seq::<u8>::empty());
        }
    }
    // shape checks
    if d - start > MAX_INT_DIGITS {
        return None;
    }
    let fstart: usize = if d < n { d + 1 } else { n };
    if d - start == 0 && n - fstart == 0 {
        return None;
    }
    let mut i: usize = start;
    while i < d
        invariant
            start <= i <= d <= n == s@.len(),
            gs == s@,
            forall|j: int| start <= j < i ==> is_digit(#[trigger] gs[j]),
        decreases d - i,
    {
        let b: u8 = s[i];
        if b < 48 || b > 57 {
            proof {
                assert(!is_digit(int_part(t)[i - start as int]));
            }
            return None;
        }
        i = i + 1;
    }
    let mut j: usize = fstart;
    while j < n
        invariant
            fstart <= j <= n == s@.len(),
            gs == s@,
            forall|q: int| fstart <= q < j ==> is_digit(#[trigger] gs[q]),
        decreases n - j,
    {
        let b: u8 = s[j];
        if b < 48 || b > 57 {
            proof {
                assert(!is_digit(frac_part(t)[j - fstart as int]));
            }
            return None;
        }
        j = j + 1;
    }
    proof {
        assert(valid_decimal_body(t));
    }
    let ival: i64 = digit_run_value(s, start, d);
    let flen: usize = n - fstart;
    let fmax: usize = if flen < k { flen } else { k };
    let fval: i64 = digit_run_value(s, fstart, fstart + fmax);
    let p: i64 = pow10_exec(k);
    let pleft: i64 = pow10_exec(k - fmax);
    proof {
        lemma_pow10_pos(k as nat);
        lemma_pow10_pos((k - fmax) as nat);
        lemma_pow10_split(fmax as nat, (k - fmax) as nat);
        lemma_pow10_split(12, k as nat);
        lemma_pow10_bound_18((12 + k) as nat);
        lemma_pow10_bound_18(12);
        lemma_pow10_mono((d - start) as nat, 12);
        assert(0 <= ival * p <= (pow10(12) - 1) * pow10(k as nat)) by (nonlinear_arith)
            requires
                0 <= ival <= pow10(12) - 1,
                0 < p == pow10(k as nat),
        ;
        assert(0 <= fval * pleft <= pow10(k as nat) - pleft) by (nonlinear_arith)
            requires
                0 <= fval <= pow10(fmax as nat) - 1,
                pleft >= 1,
                pow10(k as nat) == pow10(fmax as nat) * pleft,
        ;
        assert((pow10(12) - 1) * pow10(k as nat) + pow10(k as nat)
            == pow10(12) * pow10(k as nat)) by (nonlinear_arith);
    }
    let scaled: i64 = ival * p + fval * pleft;
    proof {
        let fp = frac_part(t);
        assert(ival == digits_val(int_part(t)));
        if fp.len() >= k {
            assert(fmax == k);
            assert(fp.take(k as int) =~= gs.subrange(fstart as int, fstart as int + k as int));
            assert(fval == digits_val(fp.take(k as int)));
            assert(pleft == 1);
            assert(fval * 1 == fval) by (nonlinear_arith);
        } else {
            assert(fmax == fp.len());
            assert(fp =~= gs.subrange(fstart as int, n as int));
            assert(fval == digits_val(fp));
        }
        assert(scaled as int == digits_val(int_part(t)) * pow10(k as nat) + frac_val(fp, k as nat));
    }
    if neg {
        Some(-scaled)
    } else {
        Some(scaled)
    }
}

/// The number named by the digits of `s` between `lo` and `hi`.
#[verifier::loop_isolation(false)]
fn digit_run_value(s: &[u8], lo: usize, hi: usize) -> (r: i64)
    requires
        lo <= hi <= s@.len(),
        hi - lo <= 12,
        forall|j: int| lo <= j < hi ==> is_digit(#[trigger] s@[j]),
    ensures
        r == digits_val(s@.subrange(lo as int, hi as int)),
        0 <= r < pow10((hi - lo) as nat),
{
    let mut r: i64 = 0;
    let mut i: usize = lo;
    while i < hi
        invariant
            lo <= i <= hi,
            r == digits_val(s@.subrange(lo as int, i as int)),
            0 <= r < pow10((i - lo) as nat),
        decreases hi - i,
    {
        proof {
            lemma_pow10_bound_18((i - lo + 1) as nat);
            lemma_digits_val_push(s@.subrange(lo as int, hi as int), i - lo as int);
            assert(s@.subrange(lo as int, hi as int).take(i - lo as int)
                =~= s@.subrange(lo as int, i as int));
            assert(s@.subrange(lo as int, hi as int).take(i - lo as int + 1)
                =~= s@.subrange(lo as int, i as int + 1));
            assert(pow10((i - lo + 1) as nat) == 10 * pow10((i - lo) as nat));
        }
        r = r * 10 + (s[i] - 48) as i64;
        i = i + 1;
    }
    r
}

/// Floor division by a positive divisor, as an executable function.
///
/// Spec-level `/` on `int` rounds toward minus infinity for positive
/// divisors; machine division truncates toward zero, so the negative
/// case is taken through non-negative operands.
pub fn div_floor(x: i64, m: i64) -> (r: i64)
    requires
        1 <= m,
        -1000000000000000000 <= x <= 1000000000000000000,
        m <= 1000000000000000000,
    ensures
        r == (x as int) / (m as int),
{
    if x >= 0 {
        x / m
    } else {
        let p: i64 = -x;
        let q: i64 = p / m;
        let rem: i64 = p % m;
        proof {
            lemma_floor_div_neg(x as int, m as int);
        }
        if rem == 0 {
            -q
        } else {
            -q - 1
        }
    }
}

/// Remainder for `div_floor`: always in `[0, m)`.
pub fn mod_floor(x: i64, m: i64) -> (r: i64)
    requires
        1 <= m,
        -1000000000000000000 <= x <= 1000000000000000000,
        m <= 1000000000000000000,
    ensures
        r == (x as int) % (m as int),
        0 <= r < m,
{
    let q: i64 = div_floor(x, m);
    proof {
        vstd::arithmetic::div_mod::lemma_fundamental_div_mod(x as int, m as int);
        vstd::arithmetic::div_mod::lemma_mod_bound(x as int, m as int);
        assert(q * m == m * q) by (nonlinear_arith);
        assert(-2000000000000000000 <= (q as int) * (m as int) <= 2000000000000000000) by {
            assert((q as int) * (m as int) == x as int - (x as int) % (m as int));
        }
    }
    x - q * m
}

/// Relates truncating and floor division for a negative dividend.
proof fn lemma_floor_div_neg(x: int, m: int)
    requires
        x < 0,
        m >= 1,
    ensures
        (-x) % m == 0 ==> x / m == -((-x) / m),
        (-x) % m != 0 ==> x / m == -((-x) / m) - 1,
{
    let p = -x;
    vstd::arithmetic::div_mod::lemma_fundamental_div_mod(p, m);
    vstd::arithmetic::div_mod::lemma_mod_bound(p, m);
    let q = p / m;
    let r = p % m;
    if r == 0 {
        assert(x == (-q) * m + 0) by (nonlinear_arith)
            requires p == m * q + r, r == 0, x == -p,
        ;
        vstd::arithmetic::div_mod::lemma_fundamental_div_mod_converse_div(x, m, -q, 0);
    } else {
        assert(x == (-q - 1) * m + (m - r)) by (nonlinear_arith)
            requires p == m * q + r, x == -p,
        ;
        vstd::arithmetic::div_mod::lemma_fundamental_div_mod_converse_div(x, m, -q - 1, m - r);
    }
}

/// Splitting an exponent splits the power.
pub proof fn lemma_pow10_split(a: nat, b: nat)
    ensures
        pow10(a + b) == pow10(a) * pow10(b),
    decreases a,
{
    if a > 0 {
        lemma_pow10_split((a - 1) as nat, b);
        assert(pow10(((a - 1) + b) as nat) == pow10((a - 1) as nat) * pow10(b));
        assert(pow10(a + b) == 10 * pow10((a + b - 1) as nat));
        assert(10 * (pow10((a - 1) as nat) * pow10(b)) == (10 * pow10((a - 1) as nat)) * pow10(b))
            by (nonlinear_arith);
    }
}

} // verus!
