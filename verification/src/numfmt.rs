//! Exact decimal text rendering of the engine's fixed-point numbers.
//!
//! Tick labels, path data and transform attributes all need numbers as
//! text.  Everything here is integer arithmetic on micro-unit values, so
//! each function's output is pinned down exactly by a spec function.

use vstd::prelude::*;
use vstd::math::abs;
use vstd::string::StringExecFns;
use crate::coord::COORD_LIMIT;

verus! {

/// The decimal digit character for `d` (meaningful for `0 <= d <= 9`).
pub open spec fn spec_digit_char(d: int) -> char {
    if d == 0 {
        '0'
    } else if d == 1 {
        '1'
    } else if d == 2 {
        '2'
    } else if d == 3 {
        '3'
    } else if d == 4 {
        '4'
    } else if d == 5 {
        '5'
    } else if d == 6 {
        '6'
    } else if d == 7 {
        '7'
    } else if d == 8 {
        '8'
    } else {
        '9'
    }
}

/// The decimal digit string of a non-negative number, most significant
/// digit first, no leading zeros (a lone zero for 0).
pub open spec fn spec_digits(n: int) -> Seq<char>
    recommends
        n >= 0,
    decreases n,
{
    if n < 10 {
        seq![spec_digit_char(n)]
    } else {
        spec_digits(n / 10).push(spec_digit_char(n % 10))
    }
}

/// The decimal rendering of a signed number.
pub open spec fn spec_int_str(v: int) -> Seq<char> {
    if v < 0 {
        seq!['-'] + spec_digits(-v)
    } else {
        spec_digits(v)
    }
}

/// The last `w` decimal digits of `n`, zero-padded to exactly `w`
/// characters.
pub open spec fn spec_padded(n: int, w: nat) -> Seq<char>
    recommends
        n >= 0,
    decreases w,
{
    if w == 0 {
        Seq::empty()
    } else {
        spec_padded(n / 10, (w - 1) as nat).push(spec_digit_char(n % 10))
    }
}

/// `s` with every trailing `'0'` removed.
pub open spec fn spec_trim_zeros(s: Seq<char>) -> Seq<char>
    decreases s.len(),
{
    if s.len() > 0 && s.last() == '0' {
        spec_trim_zeros(s.drop_last())
    } else {
        s
    }
}

/// Ten to the `k`.
pub open spec fn pow10(k: nat) -> int
    decreases k,
{
    if k == 0 {
        1
    } else {
        10 * pow10((k - 1) as nat)
    }
}

/// The number of decimal digits of a non-negative number (one for 0).
pub open spec fn spec_num_digits(n: int) -> nat
    recommends
        n >= 0,
    decreases n,
{
    if n < 10 {
        1
    } else {
        1 + spec_num_digits(n / 10)
    }
}

/// The decimal rendering of a coordinate's exact value: optional sign,
/// whole units, and when the fractional part is non-zero a point followed
/// by the fractional digits with trailing zeros trimmed.
pub open spec fn spec_coord_str(micros: int) -> Seq<char> {
    let a = abs(micros) as int;
    let sign: Seq<char> = if micros < 0 {
        seq!['-']
    } else {
        Seq::empty()
    };
    let whole = spec_digits(a / 1_000_000);
    let fr = a % 1_000_000;
    if fr == 0 {
        sign + whole
    } else {
        sign + whole + seq!['.'] + spec_trim_zeros(spec_padded(fr, 6))
    }
}

pub proof fn lemma_pow10_pos(k: nat)
    ensures
        pow10(k) >= 1,
    decreases k,
{
    if k > 0 {
        lemma_pow10_pos((k - 1) as nat);
    }
}

pub proof fn lemma_pow10_mono(i: nat, j: nat)
    requires
        i <= j,
    ensures
        pow10(i) <= pow10(j),
    decreases j,
{
    if i < j {
        lemma_pow10_mono(i, (j - 1) as nat);
        lemma_pow10_pos((j - 1) as nat);
    }
}

/// A number with `d` digits lies between `pow10(d-1)` and `pow10(d)`.
pub proof fn lemma_num_digits_bounds(n: int)
    requires
        n >= 0,
    ensures
        pow10((spec_num_digits(n) - 1) as nat) <= if n == 0 { 1 } else { n },
        n < pow10(spec_num_digits(n)),
    decreases n,
{
    if n < 10 {
        assert(pow10(0) == 1);
        assert(pow10(1) == 10);
    } else {
        lemma_num_digits_bounds(n / 10);
        let d = spec_num_digits(n / 10);
        assert(pow10((d - 1) as nat) <= n / 10 && n / 10 < pow10(d));
        assert(pow10(d) == 10 * pow10((d - 1) as nat));
        assert(n < 10 * (n / 10) + 10) by {
            assert(n == 10 * (n / 10) + n % 10);
            assert(0 <= n % 10 < 10);
        }
        assert(10 * (n / 10) < 10 * pow10(d)) by (nonlinear_arith)
            requires n / 10 < pow10(d);
        assert(10 * (n / 10) + 10 <= 10 * pow10(d)) by (nonlinear_arith)
            requires n / 10 < pow10(d);
        assert(10 * pow10((d - 1) as nat) <= 10 * (n / 10)) by (nonlinear_arith)
            requires pow10((d - 1) as nat) <= n / 10;
        assert(10 * (n / 10) <= n);
    }
}

/// The single-character string of one decimal digit.
pub fn digit_str(d: u8) -> (s: &'static str)
    requires
        d < 10,
    ensures
        s@ =~= seq![spec_digit_char(d as int)],
{
    proof {
        reveal_strlit("0");
        reveal_strlit("1");
        reveal_strlit("2");
        reveal_strlit("3");
        reveal_strlit("4");
        reveal_strlit("5");
        reveal_strlit("6");
        reveal_strlit("7");
        reveal_strlit("8");
        reveal_strlit("9");
    }
    match d {
        0 => "0",
        1 => "1",
        2 => "2",
        3 => "3",
        4 => "4",
        5 => "5",
        6 => "6",
        7 => "7",
        8 => "8",
        _ => "9",
    }
}

/// Append the decimal digits of `n` to `s`.
pub fn push_digits(s: &mut String, n: u128)
    ensures
        final(s)@ == old(s)@ + spec_digits(n as int),
    decreases n,
{
    if n >= 10 {
        push_digits(s, n / 10);
    }
    let d: u8 = (n % 10) as u8;
    s.append(digit_str(d));
    proof {
        if n >= 10 {
            assert(final(s)@ =~= old(s)@ + spec_digits(n as int));
        } else {
            assert(final(s)@ =~= old(s)@ + spec_digits(n as int));
        }
    }
}

/// Append exactly `w` zero-padded low decimal digits of `n` to `s`.
pub fn push_padded(s: &mut String, n: u128, w: usize)
    ensures
        final(s)@ == old(s)@ + spec_padded(n as int, w as nat),
    decreases w,
{
    if w > 0 {
        push_padded(s, n / 10, w - 1);
        let d: u8 = (n % 10) as u8;
        s.append(digit_str(d));
        proof {
            assert(final(s)@ =~= old(s)@ + spec_padded(n as int, w as nat));
        }
    } else {
        proof {
            assert(old(s)@ + spec_padded(n as int, 0) =~= old(s)@);
        }
    }
}

/// The decimal string of an unsigned number.
pub fn format_u128(n: u128) -> (s: String)
    ensures
        s@ == spec_digits(n as int),
{
    let mut s = String::new();
    push_digits(&mut s, n);
    proof {
        assert(s@ =~= spec_digits(n as int));
    }
    s
}

/// Append the decimal string of a signed number to `s`.
pub fn push_i128(s: &mut String, v: i128)
    requires
        v > i128::MIN,
    ensures
        final(s)@ == old(s)@ + spec_int_str(v as int),
    decreases v,
{
    proof {
        reveal_strlit("-");
    }
    if v < 0 {
        s.append("-");
        push_digits(s, (-v) as u128);
        proof {
            assert(final(s)@ =~= old(s)@ + spec_int_str(v as int));
        }
    } else {
        push_digits(s, v as u128);
    }
}

/// The decimal string of a signed number.
pub fn format_i128(v: i128) -> (s: String)
    requires
        v > i128::MIN,
    ensures
        s@ == spec_int_str(v as int),
{
    let mut s = String::new();
    push_i128(&mut s, v);
    proof {
        assert(s@ =~= spec_int_str(v as int));
    }
    s
}

/// Trimming ignores a trailing zero digit.
proof fn lemma_trim_padded_zero(n: int, w: nat)
    requires
        n >= 0,
        w >= 1,
        n % 10 == 0,
    ensures
        spec_trim_zeros(spec_padded(n, w)) == spec_trim_zeros(spec_padded(n / 10, (w - 1) as nat)),
{
    let p = spec_padded(n, w);
    assert(p == spec_padded(n / 10, (w - 1) as nat).push(spec_digit_char(0)));
    assert(p.last() == '0');
    assert(p.drop_last() =~= spec_padded(n / 10, (w - 1) as nat));
}

/// A padded string whose last digit is non-zero is not trimmed.
proof fn lemma_trim_padded_stable(n: int, w: nat)
    requires
        n >= 0,
        w >= 1,
        n % 10 != 0,
    ensures
        spec_trim_zeros(spec_padded(n, w)) == spec_padded(n, w),
{
    let p = spec_padded(n, w);
    assert(p.last() == spec_digit_char(n % 10));
    assert(p.last() != '0');
}

/// Append the exact decimal value of `micros` micro-units to `s`.
pub fn push_coord_decimal(s: &mut String, micros: i64)
    ensures
        final(s)@ == old(s)@ + spec_coord_str(micros as int),
{
    proof {
        reveal_strlit("-");
        reveal_strlit(".");
    }
    let neg = micros < 0;
    let a: u64 = if neg {
        (-(micros as i128)) as u64
    } else {
        micros as u64
    };
    if neg {
        s.append("-");
    }
    push_digits(s, (a / 1_000_000) as u128);
    let fr0: u64 = a % 1_000_000;
    if fr0 != 0 {
        s.append(".");
        let mut fr: u64 = fr0;
        let mut w: usize = 6;
        proof {
            reveal_with_fuel(pow10, 7);
            assert(pow10(6) == 1_000_000);
        }
        while fr % 10 == 0
            invariant
                1 <= w <= 6,
                0 < fr,
                fr < pow10(w as nat),
                spec_trim_zeros(spec_padded(fr0 as int, 6)) == spec_trim_zeros(
                    spec_padded(fr as int, w as nat),
                ),
            decreases w,
        {
            proof {
                assert(w >= 2) by {
                    reveal_with_fuel(pow10, 2);
                    if w == 1 {
                        assert(fr < 10);
                        assert(fr % 10 == fr);
                    }
                }
                lemma_trim_padded_zero(fr as int, w as nat);
                assert(fr / 10 < pow10((w - 1) as nat)) by {
                    assert(pow10(w as nat) == 10 * pow10((w - 1) as nat));
                    assert(10 * (fr / 10) <= fr);
                    assert(fr / 10 < pow10((w - 1) as nat)) by (nonlinear_arith)
                        requires
                            10 * (fr / 10) <= fr,
                            fr < 10 * pow10((w - 1) as nat),
                            fr % 10 == 0,
                            fr > 0,
                    ;
                }
            }
            fr = fr / 10;
            w = w - 1;
        }
        proof {
            lemma_trim_padded_stable(fr as int, w as nat);
        }
        push_padded(s, fr as u128, w);
        proof {
            assert(final(s)@ =~= old(s)@ + spec_coord_str(micros as int));
        }
    } else {
        proof {
            assert(final(s)@ =~= old(s)@ + spec_coord_str(micros as int));
        }
    }
}

/// The exact decimal string of `micros` micro-units.
pub fn format_coord(micros: i64) -> (s: String)
    ensures
        s@ == spec_coord_str(micros as int),
{
    let mut s = String::new();
    push_coord_decimal(&mut s, micros);
    proof {
        assert(s@ =~= spec_coord_str(micros as int));
    }
    s
}

/// `a / b` rounded to the nearest integer, halves away from zero, for
/// non-negative `a` and positive `b`.
pub open spec fn spec_round_div(a: int, b: int) -> int {
    (2 * a + b) / (2 * b)
}

/// The fixed-precision decimal rendering of a coordinate value: the
/// value rounded (half away from zero) to `p` decimal places, with
/// exactly `p` digits after the point (no point when `p == 0`).  A
/// negative value keeps its sign even when the rounded magnitude is zero.
pub open spec fn spec_fixed(micros: int, p: nat) -> Seq<char>
    recommends
        p <= 6,
{
    let a = abs(micros) as int;
    let scale = pow10((6 - p) as nat);
    let scaled = spec_round_div(a, scale);
    let sign: Seq<char> = if micros < 0 {
        seq!['-']
    } else {
        Seq::empty()
    };
    let whole = spec_digits(scaled / pow10(p));
    if p == 0 {
        sign + whole
    } else {
        sign + whole + seq!['.'] + spec_padded(scaled % pow10(p), p)
    }
}

/// The percentile rendering: `value / max * 100` rounded to `p` decimal
/// places, rendered as for [`spec_fixed`], with a trailing `%`.
pub open spec fn spec_percentile(v_micros: int, m_micros: int, p: nat) -> Seq<char>
    recommends
        p <= 6,
        m_micros != 0,
{
    let n = (abs(v_micros) as int) * 100 * pow10(p);
    let d = abs(m_micros) as int;
    let scaled = spec_round_div(n, d);
    let neg = v_micros != 0 && ((v_micros < 0) != (m_micros < 0));
    let sign: Seq<char> = if neg {
        seq!['-']
    } else {
        Seq::empty()
    };
    let whole = spec_digits(scaled / pow10(p));
    let body = if p == 0 {
        sign + whole
    } else {
        sign + whole + seq!['.'] + spec_padded(scaled % pow10(p), p)
    };
    body + seq!['%']
}

/// The scientific-notation rendering with `p` digits after the point:
/// a one-digit mantissa rounded half away from zero, `e`, and a signed
/// decimal exponent.
pub open spec fn spec_scinot(micros: int, p: nat) -> Seq<char>
    recommends
        p <= 6,
{
    let a = abs(micros) as int;
    let sign: Seq<char> = if micros < 0 {
        seq!['-']
    } else {
        Seq::empty()
    };
    if a == 0 {
        let body = if p == 0 {
            sign + seq!['0']
        } else {
            sign + seq!['0'] + seq!['.'] + spec_padded(0, p)
        };
        body + seq!['e'] + seq!['0']
    } else {
        let dd = spec_num_digits(a) as int;
        let m0 = if dd >= p + 1 {
            spec_round_div(a, pow10((dd - 1 - p) as nat))
        } else {
            a * pow10((p + 1 - dd) as nat)
        };
        let bump = m0 >= pow10((p + 1) as nat);
        let m = if bump {
            m0 / 10
        } else {
            m0
        };
        let e = if bump {
            dd - 6
        } else {
            dd - 7
        };
        let body = if p == 0 {
            sign + spec_digits(m / pow10(p))
        } else {
            sign + spec_digits(m / pow10(p)) + seq!['.'] + spec_padded(m % pow10(p), p)
        };
        body + seq!['e'] + spec_int_str(e)
    }
}

/// A number below `pow10(k)` has at most `k` digits.
pub proof fn lemma_num_digits_upper(n: int, k: nat)
    requires
        n >= 0,
        k >= 1,
        n < pow10(k),
    ensures
        spec_num_digits(n) <= k,
    decreases n,
{
    if n >= 10 {
        reveal_with_fuel(pow10, 2);
        if k == 1 {
            assert(false);
        }
        assert(pow10(k) == 10 * pow10((k - 1) as nat));
        assert(n / 10 < pow10((k - 1) as nat)) by {
            if n / 10 >= pow10((k - 1) as nat) {
                assert(10 * (n / 10) >= 10 * pow10((k - 1) as nat)) by (nonlinear_arith)
                    requires n / 10 >= pow10((k - 1) as nat);
                assert(10 * (n / 10) <= n);
                assert(false);
            }
        }
        lemma_num_digits_upper(n / 10, (k - 1) as nat);
    }
}

/// Ten to the `k`, executable.
pub fn pow10_u64(k: usize) -> (r: u64)
    requires
        k <= 18,
    ensures
        r == pow10(k as nat),
        r >= 1,
    decreases k,
{
    if k == 0 {
        1
    } else {
        let p = pow10_u64(k - 1);
        proof {
            reveal_with_fuel(pow10, 19);
            lemma_pow10_mono((k - 1) as nat, 17);
            assert(pow10(17) == 100_000_000_000_000_000);
        }
        10 * p
    }
}

/// Rounded division, executable: nearest integer, halves away from zero.
pub fn round_div_u128(a: u128, b: u128) -> (q: u128)
    requires
        b >= 1,
        2 * a + b <= u128::MAX,
        2 * b <= u128::MAX,
    ensures
        q == spec_round_div(a as int, b as int),
{
    (2 * a + b) / (2 * b)
}

/// The number of decimal digits, executable for magnitudes within the
/// coordinate bound.
pub fn num_digits_u64(n: u64) -> (r: usize)
    requires
        n <= 2 * COORD_LIMIT as u64,
    ensures
        r == spec_num_digits(n as int),
        1 <= r <= 19,
    decreases n,
{
    proof {
        reveal_with_fuel(pow10, 20);
        assert(pow10(19) == 10_000_000_000_000_000_000);
        lemma_num_digits_upper(n as int, 19);
    }
    if n < 10 {
        1
    } else {
        let d = num_digits_u64(n / 10);
        1 + d
    }
}

/// The magnitude of a coordinate's micro-unit count, executable.
fn abs_micros(micros: i64) -> (r: u64)
    requires
        -COORD_LIMIT <= micros <= COORD_LIMIT,
    ensures
        r == abs(micros as int),
{
    if micros < 0 {
        (-(micros as i128)) as u64
    } else {
        micros as u64
    }
}

/// Fixed-precision decimal formatting (see [`spec_fixed`]).
pub fn format_fixed(micros: i64, p: usize) -> (s: String)
    requires
        p <= 6,
        -COORD_LIMIT <= micros <= COORD_LIMIT,
    ensures
        s@ == spec_fixed(micros as int, p as nat),
{
    proof {
        reveal_strlit("-");
        reveal_strlit(".");
    }
    let a = abs_micros(micros);
    let scale = pow10_u64(6 - p);
    proof {
        lemma_pow10_mono((6 - p) as nat, 6);
        reveal_with_fuel(pow10, 8);
    }
    let scaled = round_div_u128(a as u128, scale as u128);
    let powp = pow10_u64(p);
    let mut s = String::new();
    if micros < 0 {
        s.append("-");
    }
    push_digits(&mut s, scaled / (powp as u128));
    if p > 0 {
        s.append(".");
        push_padded(&mut s, scaled % (powp as u128), p);
    }
    proof {
        assert(s@ =~= spec_fixed(micros as int, p as nat));
    }
    s
}

/// Percentile formatting (see [`spec_percentile`]).
pub fn format_percentile(v_micros: i64, m_micros: i64, p: usize) -> (s: String)
    requires
        p <= 6,
        m_micros != 0,
        -COORD_LIMIT <= v_micros <= COORD_LIMIT,
        -COORD_LIMIT <= m_micros <= COORD_LIMIT,
    ensures
        s@ == spec_percentile(v_micros as int, m_micros as int, p as nat),
{
    proof {
        reveal_strlit("-");
        reveal_strlit(".");
        reveal_strlit("%");
    }
    let va = abs_micros(v_micros);
    let ma = abs_micros(m_micros);
    let powp = pow10_u64(p);
    proof {
        lemma_pow10_mono(p as nat, 6);
        reveal_with_fuel(pow10, 8);
        assert((va as int) * 100 * (powp as int) <= (COORD_LIMIT as int) * 100 * 1_000_000)
            by (nonlinear_arith)
            requires va as int <= COORD_LIMIT as int, 1 <= powp as int <= 1_000_000;
        assert((va as int) * 100 * (powp as int) >= 0) by (nonlinear_arith)
            requires va >= 0, powp >= 1;
    }
    let n: u128 = (va as u128) * 100 * (powp as u128);
    let scaled = round_div_u128(n, ma as u128);
    let neg = v_micros != 0 && ((v_micros < 0) != (m_micros < 0));
    let mut s = String::new();
    if neg {
        s.append("-");
    }
    push_digits(&mut s, scaled / (powp as u128));
    if p > 0 {
        s.append(".");
        push_padded(&mut s, scaled % (powp as u128), p);
    }
    s.append("%");
    proof {
        assert(s@ =~= spec_percentile(v_micros as int, m_micros as int, p as nat));
    }
    s
}

/// Scientific-notation formatting (see [`spec_scinot`]).
#[verifier::rlimit(60)]
pub fn format_scinot(micros: i64, p: usize) -> (s: String)
    requires
        p <= 6,
        -COORD_LIMIT <= micros <= COORD_LIMIT,
    ensures
        s@ == spec_scinot(micros as int, p as nat),
{
    proof {
        reveal_strlit("-");
        reveal_strlit(".");
        reveal_strlit("e");
        reveal_strlit("0");
    }
    let a = abs_micros(micros);
    let mut s = String::new();
    if micros < 0 {
        s.append("-");
    }
    if a == 0 {
        s.append("0");
        if p > 0 {
            s.append(".");
            push_padded(&mut s, 0, p);
        }
        s.append("e");
        s.append("0");
        proof {
            assert(s@ =~= spec_scinot(micros as int, p as nat));
        }
        return s;
    }
    let dd = num_digits_u64(a);
    proof {
        lemma_num_digits_bounds(a as int);
    }
    let m0: u128 = if dd >= p + 1 {
        let sc = pow10_u64(dd - 1 - p);
        round_div_u128(a as u128, sc as u128)
    } else {
        let mult = pow10_u64(p + 1 - dd);
        proof {
            lemma_pow10_mono((p + 1 - dd) as nat, 6);
            reveal_with_fuel(pow10, 8);
            assert((a as int) * (mult as int) <= (COORD_LIMIT as int) * 1_000_000)
                by (nonlinear_arith)
                requires a as int <= COORD_LIMIT as int, 1 <= mult as int <= 1_000_000;
            assert((a as int) * (mult as int) >= 0) by (nonlinear_arith)
                requires a >= 0, mult >= 1;
        }
        (a as u128) * (mult as u128)
    };
    let powp1 = pow10_u64(p + 1);
    let bump = m0 >= powp1 as u128;
    let m: u128 = if bump {
        m0 / 10
    } else {
        m0
    };
    let e: i64 = if bump {
        dd as i64 - 6
    } else {
        dd as i64 - 7
    };
    let powp = pow10_u64(p);
    push_digits(&mut s, m / (powp as u128));
    if p > 0 {
        s.append(".");
        push_padded(&mut s, m % (powp as u128), p);
    }
    s.append("e");
    push_i128(&mut s, e as i128);
    proof {
        assert(s@ =~= spec_scinot(micros as int, p as nat));
    }
    s
}

} // verus!
