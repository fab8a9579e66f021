//! Decimal text for the library's scaled integers.
//!
//! Values cross the trusted astronomy boundary as decimal strings; these
//! functions render a micro-scaled integer as `[-]INT.FFFFFF` and read
//! such text back, each against an exact specification.  They also serve
//! the value renderers.

use vstd::prelude::*;
use vstd::string::StringExecFns;
use crate::num::{
    pow10, lemma_pow10_bound_18, lemma_pow10_pos, spec_parse_scaled, parse_scaled,
};

verus! {

/// The digit character for `d`.
pub open spec fn digit_char(d: int) -> char {
    if d == 0 {
        '0'
    } else if d == 1 {
        '1'
    } else if d == 2 {
        '2'
    } else if d == 3 {
        '3'
    } else if d == 4 {
        '4'
    } else if d == 5 {
        '5'
    } else if d == 6 {
        '6'
    } else if d == 7 {
        '7'
    } else if d == 8 {
        '8'
    } else {
        '9'
    }
}

/// The decimal digits of `n`, most significant first.
pub open spec fn dec_digits(n: nat) -> Seq<char>
    decreases n,
{
    if n < 10 {
        seq![digit_char(n as int)]
    } else {
        dec_digits(n / 10).push(digit_char((n % 10) as int))
    }
}

/// The decimal digits of `n`, left-padded with zeros to at least `w`
/// characters.
pub open spec fn pad_digits(n: nat, w: nat) -> Seq<char> {
    let body = dec_digits(n);
    if body.len() >= w {
        body
    } else {
        Seq::new((w - body.len()) as nat, |i: int| '0') + body
    }
}

/// A micro-scaled integer as decimal text: sign, whole part, a dot, six
/// fraction digits.
pub open spec fn fixed6(v: int) -> Seq<char> {
    let m = if v < 0 { -v } else { v };
    let sign: Seq<char> = if v < 0 { seq!['-'] } else { Seq::empty() };
    sign + dec_digits((m / 1000000) as nat) + seq!['.'] + pad_digits((m % 1000000) as nat, 6)
}

/// The single-character string for digit `d`.
fn digit_str(d: u64) -> (r: &'static str)
    requires
        d <= 9,
    ensures
        r@ == seq![digit_char(d as int)],
{
    proof {
        reveal_strlit("0");
        reveal_strlit("1");
        reveal_strlit("2");
        reveal_strlit("3");
        reveal_strlit("4");
        reveal_strlit("5");
        reveal_strlit("6");
        reveal_strlit("7");
        reveal_strlit("8");
        reveal_strlit("9");
    }
    match d {
        0 => "0",
        1 => "1",
        2 => "2",
        3 => "3",
        4 => "4",
        5 => "5",
        6 => "6",
        7 => "7",
        8 => "8",
        _ => "9",
    }
}

/// Appends the decimal digits of `n`.
pub fn push_uint(out: &mut String, n: u64)
    ensures
        final(out)@ == old(out)@ + dec_digits(n as nat),
    decreases n,
{
    if n >= 10 {
        push_uint(out, n / 10);
        out.append(digit_str(n % 10));
    } else {
        out.append(digit_str(n));
    }
}

/// How many characters the decimal digits of `n` take.
fn uint_width(n: u64) -> (r: usize)
    ensures
        r == dec_digits(n as nat).len(),
        1 <= r <= 20,
{
    proof {
        lemma_dec_digits_len_cap(n as nat);
        lemma_dec_digits_len_pos(n as nat);
    }
    let mut x: u64 = n;
    let mut cnt: usize = 1;
    while x >= 10
        invariant
            1 <= cnt,
            cnt + dec_digits(x as nat).len() == dec_digits(n as nat).len() + 1,
            dec_digits(n as nat).len() <= 20,
            dec_digits(x as nat).len() >= 1,
        decreases x,
    {
        proof {
            lemma_dec_digits_len_pos((x / 10) as nat);
        }
        x = x / 10;
        cnt = cnt + 1;
    }
    cnt
}

/// A digit string is never empty.
proof fn lemma_dec_digits_len_pos(n: nat)
    ensures
        dec_digits(n).len() >= 1,
    decreases n,
{
    if n >= 10 {
        lemma_dec_digits_len_pos(n / 10);
    }
}

/// A string of `w` digits names a number of at least ten to the `w - 1`.
proof fn lemma_dec_digits_len_lower(n: nat)
    requires
        n >= 1,
    ensures
        n >= pow10((dec_digits(n).len() - 1) as nat),
    decreases n,
{
    lemma_dec_digits_len_pos(n);
    if n >= 10 {
        lemma_dec_digits_len_lower(n / 10);
        lemma_dec_digits_len_pos(n / 10);
        vstd::arithmetic::div_mod::lemma_fundamental_div_mod(n as int, 10);
        vstd::arithmetic::div_mod::lemma_mod_bound(n as int, 10);
        assert(n >= 10 * (n / 10));
        let l = dec_digits(n / 10).len();
        let p = pow10((l - 1) as nat);
        assert(n / 10 >= p);
        assert(10 * (n / 10) >= 10 * p) by (nonlinear_arith)
            requires n / 10 >= p,
        ;
        assert(dec_digits(n).len() == l + 1);
        assert(pow10(l) == 10 * pow10((l - 1) as nat));
        assert(n >= pow10(l));
    }
}

/// A 64-bit number has at most twenty digits.
proof fn lemma_dec_digits_len_cap(n: nat)
    requires
        n < 0x10000000000000000,
    ensures
        dec_digits(n).len() <= 20,
{
    if n == 0 {
        return ;
    }
    lemma_dec_digits_len_lower(n);
    if dec_digits(n).len() > 20 {
        crate::num::lemma_pow10_mono(20, (dec_digits(n).len() - 1) as nat);
        assert(pow10(20) == 100000000000000000000) by {
            reveal_with_fuel(pow10, 22);
        }
    }
}

/// Appends the decimal digits of `n`, left-padded with zeros to at least
/// `w` characters.
#[verifier::loop_isolation(false)]
pub fn push_uint_pad(out: &mut String, n: u64, w: usize)
    requires
        w <= 20,
    ensures
        final(out)@ == old(out)@ + pad_digits(n as nat, w as nat),
{
    proof {
        reveal_strlit("0");
    }
    let body_len: usize = uint_width(n);
    let mut i: usize = 0;
    while body_len < w && i < w - body_len
        invariant
            0 <= i,
            body_len < w ==> i <= w - body_len,
            body_len >= w ==> i == 0,
            out@ == old(out)@ + Seq::new(i as nat, |j: int| '0'),
        decreases w - body_len - i,
    {
        let ghost prev = out@;
        out.append("0");
        proof {
            assert(prev + "0"@ =~= old(out)@ + Seq::new((i + 1) as nat, |j: int| '0'));
        }
        i = i + 1;
    }
    push_uint(out, n);
    proof {
        if dec_digits(n as nat).len() >= w {
            assert(out@ =~= old(out)@ + pad_digits(n as nat, w as nat));
        } else {
            assert(i == w - body_len);
            assert(out@ =~= old(out)@ + pad_digits(n as nat, w as nat));
        }
    }
}

/// Appends a minus sign when `neg`.
pub fn push_sign(out: &mut String, neg: bool)
    ensures
        final(out)@ == old(out)@ + if neg { seq!['-'] } else { Seq::<char>::empty() },
{
    proof {
        reveal_strlit("-");
    }
    if neg {
        let ghost prev = out@;
        out.append("-");
        proof {
            assert(prev + "-"@ =~= old(out)@ + seq!['-']);
        }
    } else {
        proof {
            assert(out@ =~= old(out)@ + Seq::<char>::empty());
        }
    }
}

/// Renders a micro-scaled integer as `[-]INT.FFFFFF`.
pub fn fixed6_string(v: i64) -> (r: String)
    requires
        -1000000000000000000 <= v <= 1000000000000000000,
    ensures
        r@ == fixed6(v as int),
{
    proof {
        reveal_strlit(".");
    }
    let mut out = String::new();
    let neg: bool = v < 0;
    let m: i64 = if v < 0 { -v } else { v };
    push_sign(&mut out, neg);
    push_uint(&mut out, (m / 1000000) as u64);
    let ghost before_dot = out@;
    out.append(".");
    proof {
        assert(before_dot + "."@ =~= before_dot + seq!['.']);
    }
    push_uint_pad(&mut out, (m % 1000000) as u64, 6);
    proof {
        assert(out@ =~= fixed6(v as int));
    }
    out
}

/// The micro-scaled integer a piece of decimal text names; zero where
/// the text is not decimal.
pub open spec fn micro_of_text(t: Seq<char>) -> int {
    match spec_parse_scaled(vstd::utf8::encode_utf8(t), 6) {
        Some(v) => v,
        None => 0,
    }
}

/// Reads decimal text back into a micro-scaled integer.
pub fn text_to_micro(s: &str) -> (r: i64)
    ensures
        r == micro_of_text(s@),
        -1000000000000000000 < r < 1000000000000000000,
{
    let b: &[u8] = s.as_bytes();
    match parse_scaled(b, 6) {
        Some(v) => v,
        None => 0,
    }
}

} // verus!
