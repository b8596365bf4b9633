//! Non-negative fixed-point numbers.
//!
//! A quantity is a `u64` that counts millionths of a unit. Results that do not
//! fit are held at `u64::MAX`, and a difference that would fall below zero is
//! held at zero. A quotient is rounded down.

use vstd::arithmetic::div_mod::lemma_div_is_ordered;
use vstd::arithmetic::div_mod::lemma_div_multiples_vanish;
use vstd::arithmetic::div_mod::lemma_div_pos_is_pos;
use vstd::arithmetic::div_mod::lemma_fundamental_div_mod;
use vstd::arithmetic::div_mod::lemma_fundamental_div_mod_converse;
use vstd::arithmetic::div_mod::lemma_mod_bound;
use vstd::prelude::*;

verus! {

/// The stored value of one whole unit.
pub const ONE: u64 = 1_000_000;

/// The step that `quantize` rounds to: one ten-thousandth of a unit.
pub const QUANTUM: u64 = 100;

/// The quantity nearest to `x`: zero below zero, `u64::MAX` above it.
pub open spec fn saturate(x: int) -> u64 {
    if x <= 0 {
        0
    } else if x >= u64::MAX {
        u64::MAX
    } else {
        x as u64
    }
}

/// `n / d` rounded down. Dividing by zero gives zero for a zero numerator and
/// a value beyond every quantity otherwise.
pub open spec fn quotient(n: int, d: int) -> int {
    if d > 0 {
        n / d
    } else if n > 0 {
        u64::MAX + 1
    } else {
        0
    }
}

/// `a * b / c` as a quantity.
#[verifier::opaque]
pub open spec fn scaled(a: u64, b: u64, c: u64) -> u64 {
    saturate(quotient(a * b, c as int))
}

/// `(a * p + b * q) / d` as a quantity.
#[verifier::opaque]
pub open spec fn blended(a: u64, p: u64, b: u64, q: u64, d: int) -> u64 {
    saturate(quotient(a * p + b * q, d))
}

/// The multiple of `QUANTUM` nearest to `x`, a half rounding up.
#[verifier::opaque]
pub open spec fn quantized(x: u64) -> u64 {
    saturate(((x + QUANTUM / 2) / (QUANTUM as int)) * QUANTUM)
}

/// `a + b` as a quantity.
pub open spec fn plus(a: u64, b: u64) -> u64 {
    saturate(a + b)
}

/// `a - b` as a quantity.
pub open spec fn minus(a: u64, b: u64) -> u64 {
    saturate(a - b)
}

/// The distance between `a` and `b`.
pub open spec fn distance(a: u64, b: u64) -> u64 {
    if a >= b {
        (a - b) as u64
    } else {
        (b - a) as u64
    }
}

/// The product of two quantities fits a wide value.
proof fn lemma_product_fits(a: u64, b: u64)
    ensures
        a * b <= 0xffff_ffff_ffff_ffff * 0xffff_ffff_ffff_ffff,
        0 <= a * b,
{
    assert(a * b <= 0xffff_ffff_ffff_ffff * 0xffff_ffff_ffff_ffff && 0 <= a * b)
        by (nonlinear_arith)
        requires
            0 <= a <= 0xffff_ffff_ffff_ffff,
            0 <= b <= 0xffff_ffff_ffff_ffff,
    ;
}

/// A wide intermediate value brought back into the range of a quantity.
pub fn narrow(x: u128) -> (r: u64)
    ensures
        r == saturate(x as int),
{
    if x > u64::MAX as u128 {
        u64::MAX
    } else {
        x as u64
    }
}

/// Multiplies `a` by the ratio `b / c`, rounding once, at the end.
pub fn mul_div(a: u64, b: u64, c: u64) -> (r: u64)
    ensures
        r == scaled(a, b, c),
{
    proof {
        reveal(scaled);
        lemma_product_fits(a, b);
    }
    let p: u128 = (a as u128) * (b as u128);
    if c == 0 {
        if p == 0 {
            0
        } else {
            u64::MAX
        }
    } else {
        narrow(p / (c as u128))
    }
}

/// The sum of two products over the sum of two divisors, rounding once, at
/// the end: `(a * p + b * q) / (m + n)`.
pub fn blend(a: u64, p: u64, b: u64, q: u64, m: u64, n: u64) -> (r: u64)
    ensures
        r == blended(a, p, b, q, m + n),
{
    proof {
        reveal(blended);
        lemma_product_fits(a, p);
        lemma_product_fits(b, q);
    }
    let left: u128 = (a as u128) * (p as u128);
    let right: u128 = (b as u128) * (q as u128);
    let d: u128 = (m as u128) + (n as u128);
    if d == 0 {
        if left == 0 && right == 0 {
            0
        } else {
            u64::MAX
        }
    } else {
        let left_whole: u128 = left / d;
        let left_rest: u128 = left % d;
        let right_whole: u128 = right / d;
        let right_rest: u128 = right % d;
        let carry: u128 = (left_rest + right_rest) / d;
        proof {
            let rest = (left_rest + right_rest) % (d as int);
            lemma_fundamental_div_mod(left as int, d as int);
            lemma_fundamental_div_mod(right as int, d as int);
            lemma_fundamental_div_mod(left_rest + right_rest, d as int);
            let whole = left_whole + right_whole + carry;
            assert(whole * d == d * left_whole + d * right_whole + d * carry)
                by (nonlinear_arith)
                requires
                    whole == left_whole + right_whole + carry,
            ;
            lemma_fundamental_div_mod_converse(left + right, d as int, whole, rest);
        }
        if left_whole > u64::MAX as u128 || right_whole > u64::MAX as u128 {
            u64::MAX
        } else {
            narrow(left_whole + right_whole + carry)
        }
    }
}

/// Rounds `x` to the nearest multiple of `QUANTUM`.
pub fn quantize(x: u64) -> (r: u64)
    ensures
        r == quantized(x),
{
    proof {
        reveal(quantized);
    }
    let steps: u128 = (x as u128 + (QUANTUM / 2) as u128) / (QUANTUM as u128);
    narrow(steps * (QUANTUM as u128))
}

/// The distance between two quantities.
pub fn abs_diff(a: u64, b: u64) -> (r: u64)
    ensures
        r == distance(a, b),
{
    if a >= b {
        a - b
    } else {
        b - a
    }
}

/// Rounding a rounded quantity changes nothing.
pub proof fn lemma_quantized_idempotent(x: u64)
    ensures
        quantized(quantized(x)) == quantized(x),
{
    reveal(quantized);
}

/// A quantity that is already a multiple of `QUANTUM` is its own rounding.
pub proof fn lemma_quantized_of_multiple(x: u64)
    requires
        x % QUANTUM == 0,
    ensures
        quantized(x) == x,
{
    reveal(quantized);
}

/// Rounding moves a quantity by at most half a `QUANTUM`, and never above
/// the next multiple.
pub proof fn lemma_quantized_near(x: u64)
    ensures
        x - QUANTUM / 2 < quantized(x) <= x + QUANTUM / 2,
        quantized(x) < x ==> x - quantized(x) == x % QUANTUM,
        quantized(x) >= x || x % QUANTUM < QUANTUM / 2,
{
    reveal(quantized);
}

/// The mean of two quantities, each with a weight, lies between them.
pub proof fn lemma_blended_between(a: u64, p: u64, b: u64, q: u64)
    requires
        p + q > 0,
    ensures
        a <= b ==> a <= blended(a, p, b, q, p + q) <= b,
        b <= a ==> b <= blended(a, p, b, q, p + q) <= a,
{
    reveal(blended);
    let d = p + q;
    let n = a * p + b * q;
    let low: int = if a <= b {
        a as int
    } else {
        b as int
    };
    let high: int = if a <= b {
        b as int
    } else {
        a as int
    };
    assert(d * low <= n <= d * high) by (nonlinear_arith)
        requires
            n == a * p + b * q,
            d == p + q,
            low <= a <= high,
            low <= b <= high,
            0 <= p,
            0 <= q,
    ;
    lemma_div_is_ordered(d * low, n, d);
    lemma_div_is_ordered(n, d * high, d);
    lemma_div_multiples_vanish(low, d);
    lemma_div_multiples_vanish(high, d);
}

/// Below the largest quantity a blend is the quotient rounded down: times
/// the divisor it is at most the sum of the products, and less than one
/// divisor below it.
pub proof fn lemma_blended_floor(a: u64, p: u64, b: u64, q: u64, d: int)
    requires
        d > 0,
        blended(a, p, b, q, d) < u64::MAX,
    ensures
        blended(a, p, b, q, d) * d <= a * p + b * q < blended(a, p, b, q, d) * d + d,
{
    reveal(blended);
    let n = a * p + b * q;
    assert(0 <= n) by (nonlinear_arith)
        requires
            n == a * p + b * q,
            0 <= a,
            0 <= p,
            0 <= b,
            0 <= q,
    ;
    lemma_fundamental_div_mod(n, d);
    lemma_mod_bound(n, d);
    lemma_div_pos_is_pos(n, d);
    assert((n / d) * d == d * (n / d)) by (nonlinear_arith);
}

/// A product over one is the other factor, and nothing times anything is
/// nothing.
pub proof fn lemma_scaled_unit(a: u64, b: u64)
    ensures
        scaled(a, ONE, ONE) == a,
        scaled(0, a, b) == 0,
{
    reveal(scaled);
    assert(a * ONE / (ONE as int) == a);
    assert(0 * a == 0);
}

/// A quantity times a ratio of one is that quantity.
pub proof fn lemma_scaled_whole(a: u64, b: u64)
    requires
        b > 0,
    ensures
        scaled(a, b, b) == a,
{
    reveal(scaled);
    lemma_div_multiples_vanish(a as int, b as int);
    assert(a * b == b * a) by (nonlinear_arith);
}

} // verus!
