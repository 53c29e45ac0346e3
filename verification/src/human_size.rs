//! Human-readable byte sizes: kilobytes with one decimal below one mebibyte,
//! megabytes with two decimals from there on.
//!
//! The figures are those of `bytes as f64 / 1024.0` (and once more `/ 1024.0`)
//! printed with `{:.1}` / `{:.2}`, computed here in integers: the conversion
//! to `f64` keeps 53 significant bits and rounds ties to even, the divisions by
//! powers of two are exact, and fixed-precision printing rounds the exact
//! binary value to the nearest decimal, ties to even.

use vstd::arithmetic::div_mod::*;
use vstd::arithmetic::mul::lemma_mul_inequality;
use vstd::arithmetic::power2::*;
use vstd::prelude::*;

verus! {

/// 2^53: integers below it are exact in an `f64`.
pub open spec fn exact_float_bound() -> nat {
    0x20_0000_0000_0000
}

/// How many low bits an `f64` drops from `n`: zero below 2^53, and one more
/// for each halving it takes to get below 2^53.
pub open spec fn dropped_bits(n: nat) -> nat
    decreases n,
{
    if n < exact_float_bound() {
        0
    } else {
        1 + dropped_bits(n / 2)
    }
}

/// `a / d` rounded to the nearest integer, ties to the even one.
pub open spec fn div_round_half_even(a: nat, d: nat) -> nat {
    let q: nat = a / d;
    let r: nat = a % d;
    if 2 * r > d || (2 * r == d && q % 2 == 1) {
        q + 1
    } else {
        q
    }
}

/// The value of `n as f64`: `n` rounded to a multiple of 2^(dropped bits),
/// ties to even.
pub open spec fn float_value(n: nat) -> nat {
    let p: nat = pow2(dropped_bits(n));
    div_round_half_even(n, p) * p
}

/// The decimal digit for `d < 10`.
pub open spec fn digit_char(d: nat) -> char {
    if d == 0 {
        '0'
    } else if d == 1 {
        '1'
    } else if d == 2 {
        '2'
    } else if d == 3 {
        '3'
    } else if d == 4 {
        '4'
    } else if d == 5 {
        '5'
    } else if d == 6 {
        '6'
    } else if d == 7 {
        '7'
    } else if d == 8 {
        '8'
    } else {
        '9'
    }
}

/// The decimal notation of `n`, without leading zeros.
pub open spec fn decimal(n: nat) -> Seq<char>
    decreases n,
{
    if n < 10 {
        seq![digit_char(n)]
    } else {
        decimal(n / 10).push(digit_char(n % 10))
    }
}

/// One mebibyte in bytes.
pub open spec fn mebibyte() -> nat {
    1048576
}

/// The text `to_human_size` gives for `bytes`.
pub open spec fn human_size(bytes: nat) -> Seq<char> {
    let v: nat = float_value(bytes);
    if v < mebibyte() {
        let tenths: nat = div_round_half_even(v * 10, 1024);
        decimal(tenths / 10) + seq!['.', digit_char(tenths % 10), ' ', 'K', 'B']
    } else {
        let hundredths: nat = div_round_half_even(v * 100, mebibyte());
        decimal(hundredths / 100) + seq![
            '.',
            digit_char((hundredths % 100) / 10),
            digit_char(hundredths % 10),
            ' ',
            'M',
            'B',
        ]
    }
}

/// The size a text from `to_human_size` shows, in hundredths of a byte:
/// `x KB` shows `x * 1024` bytes and `y MB` shows `y * 1048576` bytes, where
/// `x` is the tenths printed over ten and `y` the hundredths over a hundred.
pub open spec fn shown_hundredths(bytes: nat) -> nat {
    let v = float_value(bytes);
    if v < mebibyte() {
        div_round_half_even(v * 10, 1024) * 10240
    } else {
        div_round_half_even(v * 100, mebibyte()) * mebibyte()
    }
}

/// Rounding a quotient to the nearest integer never decreases as the
/// dividend grows.
proof fn lemma_round_monotone(a1: nat, a2: nat, d: nat)
    requires
        a1 <= a2,
        d > 0,
    ensures
        div_round_half_even(a1, d) <= div_round_half_even(a2, d),
{
    lemma_div_is_ordered(a1 as int, a2 as int, d as int);
    lemma_fundamental_div_mod(a1 as int, d as int);
    lemma_fundamental_div_mod(a2 as int, d as int);
    lemma_mod_pos_bound(a1 as int, d as int);
    lemma_mod_pos_bound(a2 as int, d as int);
    let q1 = a1 / d;
    let q2 = a2 / d;
    if q1 == q2 {
        assert(a1 % d <= a2 % d);
    }
}

/// Rounding an exact multiple gives its quotient.
proof fn lemma_round_exact(k: nat, d: nat)
    requires
        d > 0,
    ensures
        div_round_half_even(k * d, d) == k,
{
    lemma_div_multiples_vanish(k as int, d as int);
    lemma_mod_multiples_basic(k as int, d as int);
    assert(k * d == d * k) by (nonlinear_arith);
}

/// More bytes never drop fewer bits.
proof fn lemma_dropped_bits_monotone(n1: nat, n2: nat)
    requires
        n1 <= n2,
    ensures
        dropped_bits(n1) <= dropped_bits(n2),
    decreases n2,
{
    if n1 >= exact_float_bound() {
        lemma_dropped_bits_monotone(n1 / 2, n2 / 2);
    }
}

/// Where `n` lies for the bits it drops: below 2^(53+s), and at least
/// 2^(52+s) once any bit is dropped.
proof fn lemma_dropped_bits_bounds(n: nat)
    ensures
        n < pow2(53 + dropped_bits(n)),
        dropped_bits(n) > 0 ==> pow2(52 + dropped_bits(n)) <= n,
    decreases n,
{
    lemma2_to64();
    lemma2_to64_rest();
    if n >= exact_float_bound() {
        let s = dropped_bits(n / 2);
        lemma_dropped_bits_bounds(n / 2);
        lemma_pow2_unfold(53 + s + 1);
        lemma_pow2_unfold(52 + s + 1);
        if s == 0 {
            assert(pow2(52) <= n / 2);
        }
        assert(pow2(52 + s) <= n / 2);
    }
}

/// The value of `n as f64` lies between the two multiples of 2^(dropped
/// bits) around `n`, and its quotient by that power is at most 2^53 (and at
/// least 2^52 once bits are dropped).
proof fn lemma_float_value_bounds(n: nat)
    ensures
        float_value(n) == div_round_half_even(n, pow2(dropped_bits(n))) * pow2(dropped_bits(n)),
        div_round_half_even(n, pow2(dropped_bits(n))) <= exact_float_bound(),
        dropped_bits(n) > 0 ==> pow2(52) <= div_round_half_even(n, pow2(dropped_bits(n))),
{
    let s = dropped_bits(n);
    let p = pow2(s);
    lemma_pow2_pos(s);
    lemma_dropped_bits_bounds(n);
    lemma_pow2_adds(53, s);
    lemma_pow2_adds(52, s);
    lemma2_to64();
    lemma2_to64_rest();
    lemma_fundamental_div_mod(n as int, p as int);
    lemma_mod_pos_bound(n as int, p as int);
    let q = n / p;
    assert(q < exact_float_bound()) by (nonlinear_arith)
        requires
            n == p * q + n % p,
            n % p >= 0,
            n < exact_float_bound() * p,
            p > 0,
    ;
    if s > 0 {
        assert(pow2(52) <= q) by (nonlinear_arith)
            requires
                n == p * q + n % p,
                n % p < p,
                pow2(52) * p <= n,
                p > 0,
        ;
    }
}

/// `n as f64` never decreases as `n` grows.
proof fn lemma_float_value_monotone(n1: nat, n2: nat)
    requires
        n1 <= n2,
    ensures
        float_value(n1) <= float_value(n2),
{
    lemma_dropped_bits_monotone(n1, n2);
    lemma_float_value_bounds(n1);
    lemma_float_value_bounds(n2);
    let s1 = dropped_bits(n1);
    let s2 = dropped_bits(n2);
    let p1 = pow2(s1);
    let p2 = pow2(s2);
    let r1 = div_round_half_even(n1, p1);
    let r2 = div_round_half_even(n2, p2);
    lemma_pow2_pos(s1);
    lemma_pow2_pos(s2);
    if s1 == s2 {
        lemma_round_monotone(n1, n2, p1);
        lemma_mul_inequality(r1 as int, r2 as int, p1 as int);
    } else {
        lemma_pow2_adds(53, s1);
        lemma_pow2_adds(52, s2);
        lemma2_to64();
        lemma2_to64_rest();
        assert(s1 < s2);
        if 53 + s1 < 52 + s2 {
            lemma_pow2_strictly_increases(53 + s1, 52 + s2);
        }
        assert(r1 * p1 <= exact_float_bound() * p1) by {
            lemma_mul_inequality(r1 as int, exact_float_bound() as int, p1 as int);
        }
        assert(pow2(52) * p2 <= r2 * p2) by {
            lemma_mul_inequality(pow2(52) as int, r2 as int, p2 as int);
        }
    }
}

/// The size `to_human_size` shows never decreases as the byte count grows.
pub proof fn lemma_shown_size_never_decreases(b1: nat, b2: nat)
    requires
        b1 <= b2,
    ensures
        shown_hundredths(b1) <= shown_hundredths(b2),
{
    lemma_float_value_monotone(b1, b2);
    let v1 = float_value(b1);
    let v2 = float_value(b2);
    if v1 < mebibyte() && v2 < mebibyte() {
        lemma_round_monotone(v1 * 10, v2 * 10, 1024);
    } else if v1 >= mebibyte() {
        lemma_round_monotone(v1 * 100, v2 * 100, mebibyte());
    } else {
        lemma_round_monotone(v1 * 10, 10240 * 1024, 1024);
        lemma_round_exact(10240, 1024);
        lemma_round_monotone(100 * mebibyte(), v2 * 100, mebibyte());
        lemma_round_exact(100, mebibyte());
    }
}

fn digit_str(d: u64) -> (text: &'static str)
    requires
        d < 10,
    ensures
        text@ == seq![digit_char(d as nat)],
{
    if d == 0 {
        proof { reveal_strlit("0"); }
        "0"
    } else if d == 1 {
        proof { reveal_strlit("1"); }
        "1"
    } else if d == 2 {
        proof { reveal_strlit("2"); }
        "2"
    } else if d == 3 {
        proof { reveal_strlit("3"); }
        "3"
    } else if d == 4 {
        proof { reveal_strlit("4"); }
        "4"
    } else if d == 5 {
        proof { reveal_strlit("5"); }
        "5"
    } else if d == 6 {
        proof { reveal_strlit("6"); }
        "6"
    } else if d == 7 {
        proof { reveal_strlit("7"); }
        "7"
    } else if d == 8 {
        proof { reveal_strlit("8"); }
        "8"
    } else {
        proof { reveal_strlit("9"); }
        "9"
    }
}

/// The decimal notation of `n`.
pub fn decimal_string(n: u64) -> (text: String)
    ensures
        text@ == decimal(n as nat),
    decreases n,
{
    if n < 10 {
        String::from_str(digit_str(n))
    } else {
        let mut text = decimal_string(n / 10);
        text.append(digit_str(n % 10));
        proof {
            assert(text@ =~= decimal((n / 10) as nat).push(digit_char((n % 10) as nat)));
        }
        text
    }
}

fn div_round_half_even_exec(a: u128, d: u128) -> (q: u128)
    requires
        0 < d <= u64::MAX,
        a < u128::MAX,
    ensures
        q == div_round_half_even(a as nat, d as nat),
{
    let q: u128 = a / d;
    let r: u128 = a % d;
    if 2 * r > d || (2 * r == d && q % 2 == 1) {
        assert(q + 1 <= a / d + 1);
        assert(q < u128::MAX) by {
            lemma_div_nonincreasing(a as int, d as int);
        }
        q + 1
    } else {
        q
    }
}

/// The value of `n as f64`, as an integer.
fn float_value_exec(n: u64) -> (v: u128)
    ensures
        v == float_value(n as nat),
        v <= 2 * (n as nat) + 1,
{
    let big: u128 = n as u128;
    let mut m: u128 = big;
    let mut p: u128 = 1;
    let ghost mut s: nat = 0;
    proof {
        lemma2_to64();
    }
    while m >= 0x20_0000_0000_0000
        invariant
            big == n,
            p == pow2(s),
            p > 0,
            m == big / p,
            p * m <= big,
            dropped_bits(n as nat) == s + dropped_bits(m as nat),
        decreases m,
    {
        proof {
            assert(p <= big) by (nonlinear_arith)
                requires
                    p * m <= big,
                    m >= 1,
                    p > 0,
            ;
            lemma_pow2_unfold(s + 1);
            lemma_div_denominator(big as int, p as int, 2);
        }
        m = m / 2;
        p = p * 2;
        proof {
            s = s + 1;
            lemma_fundamental_div_mod(big as int, p as int);
            lemma_mod_pos_bound(big as int, p as int);
            assert(p * m <= big) by (nonlinear_arith)
                requires
                    big == p * m + big % p,
                    big % p >= 0,
            ;
        }
    }
    let r: u128 = big - m * p;
    proof {
        lemma_fundamental_div_mod(big as int, p as int);
        assert(r == big % p) by (nonlinear_arith)
            requires
                big == p * m + big % p,
                r == big - m * p,
        ;
        assert(m * p == p * m) by (nonlinear_arith);
    }
    let q: u128 = if 2 * r > p || (2 * r == p && m % 2 == 1) {
        m + 1
    } else {
        m
    };
    proof {
        assert(p <= big || m == 0) by (nonlinear_arith)
            requires
                p * m <= big,
                p > 0,
        ;
        assert(r < p) by {
            lemma_mod_pos_bound(big as int, p as int);
        }
        assert(q * p <= 2 * big + 1) by (nonlinear_arith)
            requires
                q <= m + 1,
                q == m || 2 * r >= p,
                big == p * m + r,
                r < p,
                p > 0,
        ;
        assert(q * p <= 2 * big + 1);
    }
    q * p
}

/// A byte count as text: `"{kb:.1} KB"` below one mebibyte, `"{mb:.2} MB"`
/// from one mebibyte on, where `kb` is `bytes as f64 / 1024.0` and `mb` is
/// `kb / 1024.0`.
pub fn to_human_size(bytes: usize) -> (text: String)
    ensures
        text@ == human_size(bytes as nat),
{
    let v: u128 = float_value_exec(bytes as u64);
    proof {
        reveal_strlit(".");
        reveal_strlit(" KB");
        reveal_strlit(" MB");
    }
    if v < 1048576 {
        let tenths: u128 = div_round_half_even_exec(v * 10, 1024);
        assert(tenths <= v * 10 / 1024 + 1);
        assert(tenths / 10 < 2000);
        let mut text = decimal_string((tenths / 10) as u64);
        text.append(".");
        text.append(digit_str((tenths % 10) as u64));
        text.append(" KB");
        proof {
            assert(text@ =~= decimal((tenths / 10) as nat) + seq![
                '.',
                digit_char((tenths % 10) as nat),
                ' ',
                'K',
                'B',
            ]);
        }
        text
    } else {
        let hundredths: u128 = div_round_half_even_exec(v * 100, 1048576);
        assert(hundredths <= v * 100 / 1048576 + 1) by {
            lemma_div_nonincreasing((v * 100) as int, 1048576);
        }
        assert(hundredths / 100 <= u64::MAX);
        let mut text = decimal_string((hundredths / 100) as u64);
        text.append(".");
        text.append(digit_str(((hundredths % 100) / 10) as u64));
        text.append(digit_str((hundredths % 10) as u64));
        text.append(" MB");
        proof {
            assert(text@ =~= decimal((hundredths / 100) as nat) + seq![
                '.',
                digit_char(((hundredths % 100) / 10) as nat),
                digit_char((hundredths % 10) as nat),
                ' ',
                'M',
                'B',
            ]);
        }
        text
    }
}

} // verus!
