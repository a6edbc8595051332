//! Decimal formatting of exact rational values.
//!
//! [`float_format`] renders `num / den` with a chosen number of significant
//! digits: values of magnitude one or more keep `precision` digits in total,
//! smaller values keep `precision` digits after their leading zeros.  Ties
//! round to the even last digit.

use vstd::prelude::*;
use vstd::string::StringExecFns;

verus! {

/// The decimal digit character for `d`.
pub open spec fn spec_digit_char(d: int) -> char {
    if d == 0 { '0' }
    else if d == 1 { '1' }
    else if d == 2 { '2' }
    else if d == 3 { '3' }
    else if d == 4 { '4' }
    else if d == 5 { '5' }
    else if d == 6 { '6' }
    else if d == 7 { '7' }
    else if d == 8 { '8' }
    else { '9' }
}

/// The decimal digit string of a non-negative integer, without leading
/// zeros (`0` itself is the single digit `0`).
pub open spec fn spec_digits(n: int) -> Seq<char>
    decreases n,
{
    if n < 10 {
        seq![spec_digit_char(n)]
    } else {
        spec_digits(n / 10).push(spec_digit_char(n % 10))
    }
}

/// Ten to the `k`.
pub open spec fn pow10(k: int) -> int
    decreases k,
{
    if k <= 0 {
        1
    } else {
        10 * pow10(k - 1)
    }
}

/// A run of `k` zero characters.
pub open spec fn spec_zeros(k: int) -> Seq<char>
    decreases k,
{
    if k <= 0 {
        Seq::empty()
    } else {
        spec_zeros(k - 1).push('0')
    }
}

/// How many zeros stand between the decimal point and the first significant
/// digit of `num / den`, for `0 < num < den`.
pub open spec fn spec_lead_zeros(num: int, den: int) -> int
    decreases den - num,
{
    if num <= 0 || num * 10 >= den {
        0
    } else {
        1 + spec_lead_zeros(num * 10, den)
    }
}

/// `x / d` rounded to the nearest integer, ties to the even one.
pub open spec fn spec_round_div(x: int, d: int) -> int {
    let q = x / d;
    let r = x % d;
    if 2 * r > d || (2 * r == d && q % 2 == 1) {
        q + 1
    } else {
        q
    }
}

/// The number of digits kept after the decimal point for `num / den` at
/// `precision` significant digits (`num` non-negative here).
pub open spec fn spec_decimals(num: int, den: int, precision: int) -> int {
    if num == 0 {
        0
    } else if num >= den {
        let n = spec_digits(num / den).len() as int;
        if n <= precision {
            precision - n
        } else {
            0
        }
    } else {
        precision + spec_lead_zeros(num, den)
    }
}

/// The full rendering of `num / den` at `precision` significant digits.
pub open spec fn spec_float_format(num: int, den: int, precision: int) -> Seq<char> {
    let a = if num < 0 { -num } else { num };
    let k = spec_decimals(a, den, precision);
    let rounded = spec_round_div(a * pow10(k), den);
    let ip = rounded / pow10(k);
    let fp = rounded % pow10(k);
    let body = if k == 0 {
        spec_digits(ip)
    } else {
        spec_digits(ip) + seq!['.'] + spec_zeros(k - spec_digits(fp).len()) + spec_digits(fp)
    };
    if num < 0 {
        seq!['-'] + body
    } else {
        body
    }
}

/// `pow10` is always at least one.
proof fn lemma_pow10_pos(a: int)
    ensures
        pow10(a) >= 1,
    decreases a,
{
    if a > 0 {
        lemma_pow10_pos(a - 1);
    }
}

/// `pow10` never shrinks as the exponent grows.
proof fn lemma_pow10_mono(a: int, b: int)
    requires
        a <= b,
    ensures
        pow10(a) <= pow10(b),
        pow10(a) >= 1,
    decreases b - a,
{
    lemma_pow10_pos(a);
    if a < b {
        lemma_pow10_mono(a, b - 1);
        lemma_pow10_pos(b - 1);
    }
}

/// A number below `pow10(k)` has at most `k` digits (for `k >= 1`).
proof fn lemma_digits_len_below_pow(n: int, k: int)
    requires
        0 <= n < pow10(k),
        k >= 1,
    ensures
        spec_digits(n).len() <= k,
    decreases k,
{
    if n < 10 {
    } else {
        assert(pow10(k) == 10 * pow10(k - 1));
        lemma_digits_len_below_pow(n / 10, k - 1);
    }
}

/// The digit character of `d < 10`, as a string slice.
fn digit_str(d: u128) -> (r: &'static str)
    requires
        d < 10,
    ensures
        r@ == seq![spec_digit_char(d as int)],
{
    proof {
        reveal_strlit("0");
        reveal_strlit("1");
        reveal_strlit("2");
        reveal_strlit("3");
        reveal_strlit("4");
        reveal_strlit("5");
        reveal_strlit("6");
        reveal_strlit("7");
        reveal_strlit("8");
        reveal_strlit("9");
    }
    let r = match d {
        0 => "0",
        1 => "1",
        2 => "2",
        3 => "3",
        4 => "4",
        5 => "5",
        6 => "6",
        7 => "7",
        8 => "8",
        _ => "9",
    };
    proof {
        assert(r@ =~= seq![spec_digit_char(d as int)]);
    }
    r
}

/// Append the decimal digits of `n` to `s`.
fn push_digits(s: &mut String, n: u128)
    ensures
        final(s)@ == old(s)@ + spec_digits(n as int),
    decreases n,
{
    if n >= 10 {
        push_digits(s, n / 10);
    }
    s.append(digit_str(n % 10));
    proof {
        assert(final(s)@ =~= old(s)@ + spec_digits(n as int));
    }
}

/// The number of decimal digits of `n`.
fn digit_count(n: u128) -> (c: usize)
    ensures
        c == spec_digits(n as int).len(),
        1 <= c <= 39,
        c >= 2 ==> pow10(c as int - 1) <= n as int,
    decreases n,
{
    if n < 10 {
        1
    } else {
        let c2: usize = digit_count(n / 10);
        proof {
            reveal_with_fuel(pow10, 40);
            assert(10 * (n as int / 10) <= n as int);
            if c2 >= 2 {
                if c2 - 1 >= 38 {
                    lemma_pow10_mono(38, c2 as int - 1);
                }
            }
        }
        c2 + 1
    }
}

/// The number of zeros between the decimal point and the first significant
/// digit of `num / den`.
fn lead_zeros(num: u64, den: u64) -> (m: usize)
    requires
        0 < num < den,
        den <= u32::MAX,
    ensures
        m == spec_lead_zeros(num as int, den as int),
        num * pow10(m as int) <= den,
        m <= 9,
    decreases den - num,
{
    let m: usize = if num * 10 >= den {
        0
    } else {
        let m2: usize = lead_zeros(num * 10, den);
        proof {
            assert(num * 10 * pow10(m2 as int) == num * pow10(m2 + 1)) by (nonlinear_arith)
                requires
                    pow10(m2 + 1) == 10 * pow10(m2 as int),
            ;
        }
        m2 + 1
    };
    proof {
        if m > 9 {
            lemma_pow10_mono(10, m as int);
            reveal_with_fuel(pow10, 12);
            assert(pow10(10) == 10000000000);
            assert(num * pow10(m as int) >= pow10(m as int)) by (nonlinear_arith)
                requires
                    num >= 1,
                    pow10(m as int) >= 0,
            ;
        }
    }
    m
}

/// Ten to the `k`, as an executable value.
fn pow10_exec(k: usize) -> (p: u128)
    requires
        k <= 19,
    ensures
        p == pow10(k as int),
        p >= 1,
    decreases k,
{
    proof {
        lemma_pow10_mono(k as int, 19);
        reveal_with_fuel(pow10, 21);
        assert(pow10(19) == 10000000000000000000);
    }
    if k == 0 {
        1
    } else {
        let p: u128 = pow10_exec(k - 1);
        proof {
            lemma_pow10_mono(k as int - 1, 19);
        }
        10 * p
    }
}

/// The plain decimal string of a non-negative integer.
pub fn format_integer(n: u64) -> (r: String)
    ensures
        r@ == spec_digits(n as int),
{
    let mut s = String::new();
    push_digits(&mut s, n as u128);
    proof {
        assert(s@ =~= spec_digits(n as int));
    }
    s
}

/// Render the exact rational `num / den` with `precision` significant
/// digits: the integer digits count toward the precision when the magnitude
/// is one or more, and the zeros after the decimal point do not count when
/// it is below one.  Ties round to the even last digit.
#[verifier::rlimit(100)]
#[verifier::spinoff_prover]
pub fn float_format(num: i64, den: u64, precision: usize) -> (r: String)
    requires
        0 < den <= u32::MAX,
        -(u32::MAX as int) <= num <= u32::MAX,
        precision <= 9,
    ensures
        r@ == spec_float_format(num as int, den as int, precision as int),
{
    let neg = num < 0;
    let a: u64 = if neg {
        (-num) as u64
    } else {
        num as u64
    };
    let k: usize = if a == 0 {
        0
    } else if a >= den {
        let n: usize = digit_count((a / den) as u128);
        if n <= precision {
            precision - n
        } else {
            0
        }
    } else {
        let m: usize = lead_zeros(a, den);
        precision + m
    };
    proof {
        assert(k == spec_decimals(a as int, den as int, precision as int));
    }
    let pow: u128 = pow10_exec(k);
    proof {
        lemma_pow10_mono(k as int, 19);
        reveal_with_fuel(pow10, 21);
        assert(pow10(19) == 10000000000000000000);
        assert((a as int) * (pow as int) <= (u32::MAX as int) * pow10(19)) by (nonlinear_arith)
            requires
                0 <= a as int <= u32::MAX as int,
                0 <= pow as int <= pow10(19),
        ;
    }
    let scaled = (a as u128) * pow;
    let q = scaled / (den as u128);
    let rem = scaled % (den as u128);
    let rounded: u128 = if 2 * rem > den as u128 || (2 * rem == den as u128 && q % 2 == 1) {
        q + 1
    } else {
        q
    };
    proof {
        assert(rounded as int == spec_round_div(a as int * pow10(k as int), den as int));
    }
    let ip = rounded / pow;
    let fp = rounded % pow;
    let mut s = String::new();
    if neg {
        proof {
            reveal_strlit("-");
        }
        s.append("-");
    }
    push_digits(&mut s, ip);
    if k > 0 {
        proof {
            reveal_strlit(".");
        }
        s.append(".");
        proof {
            lemma_digits_len_below_pow(fp as int, k as int);
        }
        let ghost s_dot = s@;
        let mut zeros: usize = digit_count(fp);
        while zeros < k
            invariant
                spec_digits(fp as int).len() <= zeros <= k,
                s@ == s_dot + spec_zeros(zeros - spec_digits(fp as int).len()),
            decreases k - zeros,
        {
            s.append(digit_str(0));
            zeros = zeros + 1;
            proof {
                assert(s@ =~= s_dot + spec_zeros(zeros - spec_digits(fp as int).len()));
            }
        }
        push_digits(&mut s, fp);
    }
    proof {
        assert(s@ =~= spec_float_format(num as int, den as int, precision as int));
    }
    s
}

} // verus!
