//! An offline ray tracer over exact fixed-point arithmetic.
//!
//! Scalars are `i64` values in units of one thousandth (the constant
//! `SCALE`), so the value one is stored as `1000`. Every operation has an
//! exact integer contract: where a division or a square root rounds, the
//! contract says precisely how. The crate root holds the shared numeric
//! kernel: truncating division and the integer square root.

use vstd::prelude::*;

pub mod film;
pub mod geom;
pub mod light;
pub mod linalg;

verus! {

/// Number of fixed-point units in one whole unit: scalars store thousandths.
pub const SCALE: i64 = 1000;

/// Truncating division (rounds toward zero), for a positive divisor.
/// In specifications `/` is Euclidean division; executable code rounds
/// toward zero, and this function names that rounding.
pub open spec fn tdiv(a: int, b: int) -> int {
    if a >= 0 {
        a / b
    } else {
        -((-a) / b)
    }
}

/// `r` is the integer square root of `n`: the largest integer whose square
/// does not exceed `n`.
pub open spec fn is_isqrt(n: int, r: int) -> bool {
    0 <= r && r * r <= n && n < (r + 1) * (r + 1)
}

/// The integer square root, as a value: the unique `r` with
/// `r * r <= n < (r + 1) * (r + 1)`.
pub open spec fn isqrt_spec(n: int) -> int {
    choose|r: int| is_isqrt(n, r)
}

/// Every nonnegative integer has an integer square root.
pub proof fn lemma_isqrt_exists(n: int)
    requires
        n >= 0,
    ensures
        is_isqrt(n, isqrt_spec(n)),
    decreases n,
{
    if n == 0 {
        assert(is_isqrt(0, 0));
    } else {
        lemma_isqrt_exists(n - 1);
        let r = isqrt_spec(n - 1);
        if n < (r + 1) * (r + 1) {
            assert(is_isqrt(n, r));
        } else {
            assert(n == (r + 1) * (r + 1));
            assert((r + 1 + 1) * (r + 1 + 1) > (r + 1) * (r + 1)) by (nonlinear_arith)
                requires r >= 0;
            assert(is_isqrt(n, r + 1));
        }
    }
}

/// The integer square root is unique.
pub proof fn lemma_isqrt_unique(n: int, r: int)
    requires
        is_isqrt(n, r),
    ensures
        r == isqrt_spec(n),
{
    let s = isqrt_spec(n);
    assert(is_isqrt(n, s));
    assert(r == s) by (nonlinear_arith)
        requires is_isqrt(n, r) && is_isqrt(n, s);
}

/// Squares never shrink: the square root of a bound bounds the root.
pub proof fn lemma_isqrt_le(n: int, b: int)
    requires
        0 <= n,
        0 <= b,
        n <= b * b,
        is_isqrt(n, isqrt_spec(n)),
    ensures
        isqrt_spec(n) <= b,
{
    let r = isqrt_spec(n);
    assert(r <= b) by (nonlinear_arith)
        requires is_isqrt(n, r) && 0 <= b && n <= b * b;
}

/// Divide `a` by `b`, rounding toward zero.
pub fn div_trunc(a: i64, b: i64) -> (r: i64)
    requires
        b > 0,
        a > i64::MIN,
    ensures
        r == tdiv(a as int, b as int),
{
    if a >= 0 {
        let q: u64 = (a as u64) / (b as u64);
        proof {
            assert(q <= a as int) by {
                vstd::arithmetic::div_mod::lemma_div_is_ordered_by_denominator(
                    a as int, 1, b as int);
            }
        }
        q as i64
    } else {
        let n: i64 = -a;
        let q: u64 = (n as u64) / (b as u64);
        proof {
            assert(q <= n as int) by {
                vstd::arithmetic::div_mod::lemma_div_is_ordered_by_denominator(
                    n as int, 1, b as int);
            }
        }
        -(q as i64)
    }
}

/// Divide `a` by `b`, rounding toward zero, at double width.
pub fn div_trunc_wide(a: i128, b: i128) -> (r: i128)
    requires
        b > 0,
        a > i128::MIN,
    ensures
        r == tdiv(a as int, b as int),
{
    if a >= 0 {
        let q: u128 = (a as u128) / (b as u128);
        proof {
            assert(q <= a as int) by {
                vstd::arithmetic::div_mod::lemma_div_is_ordered_by_denominator(
                    a as int, 1, b as int);
            }
        }
        q as i128
    } else {
        let n: i128 = -a;
        let q: u128 = (n as u128) / (b as u128);
        proof {
            assert(q <= n as int) by {
                vstd::arithmetic::div_mod::lemma_div_is_ordered_by_denominator(
                    n as int, 1, b as int);
            }
        }
        -(q as i128)
    }
}

/// Truncating division never grows the magnitude past the true quotient.
pub proof fn lemma_tdiv_bound(a: int, b: int, m: int)
    requires
        b > 0,
        -m <= a <= m,
        0 <= m,
    ensures
        -m <= tdiv(a, b) <= m,
        a >= 0 ==> 0 <= tdiv(a, b) <= a,
        a <= 0 ==> a <= tdiv(a, b) <= 0,
{
    if a >= 0 {
        vstd::arithmetic::div_mod::lemma_div_is_ordered_by_denominator(a, 1, b);
        vstd::arithmetic::div_mod::lemma_div_pos_is_pos(a, b);
    } else {
        vstd::arithmetic::div_mod::lemma_div_is_ordered_by_denominator(-a, 1, b);
        vstd::arithmetic::div_mod::lemma_div_pos_is_pos(-a, b);
    }
}

/// Dividing an exact multiple undoes the multiplication.
pub proof fn lemma_tdiv_exact(a: int, b: int)
    requires
        b > 0,
    ensures
        tdiv(a * b, b) == a,
{
    if a >= 0 {
        assert(a * b >= 0) by (nonlinear_arith)
            requires a >= 0 && b > 0;
        vstd::arithmetic::div_mod::lemma_div_multiples_vanish(a, b);
        assert(a * b == b * a) by (nonlinear_arith);
    } else {
        assert(a * b < 0) by (nonlinear_arith)
            requires a < 0 && b > 0;
        assert(-(a * b) == b * (-a)) by (nonlinear_arith);
        vstd::arithmetic::div_mod::lemma_div_multiples_vanish(-a, b);
    }
}

/// The product of two bounded factors is bounded by the product of the
/// bounds.
pub proof fn lemma_mul_bound(a: int, b: int, c: int, d: int)
    requires
        -c <= a <= c,
        -d <= b <= d,
        0 <= c,
        0 <= d,
    ensures
        -(c * d) <= a * b <= c * d,
{
    assert(-(c * d) <= a * b <= c * d) by (nonlinear_arith)
        requires -c <= a <= c && -d <= b <= d && 0 <= c && 0 <= d;
}

/// Two to the sixty-third power: the bisection's upper bound.
pub const ISQRT_HI: u128 = 9223372036854775808;

/// Two to the one-hundred-twenty-sixth power: the largest argument the
/// integer square root accepts.
pub const ISQRT_CAP: u128 = 85070591730234615865843651857942052864;

/// The integer square root of `n`, by bisection.
pub fn isqrt(n: u128) -> (r: u64)
    requires
        n < ISQRT_CAP,
    ensures
        is_isqrt(n as int, r as int),
        r == isqrt_spec(n as int),
{
    let mut lo: u128 = 0;
    let mut hi: u128 = ISQRT_HI;
    proof {
        assert(ISQRT_HI * ISQRT_HI == ISQRT_CAP) by (nonlinear_arith);
    }
    while hi - lo > 1
        invariant
            0 <= lo < hi <= ISQRT_HI,
            lo * lo <= n,
            n < hi * hi,
            n < ISQRT_CAP,
        decreases hi - lo,
    {
        let mid: u128 = lo + (hi - lo) / 2;
        proof {
            assert(lo < mid < hi);
            assert(mid * mid < ISQRT_HI * ISQRT_HI) by (nonlinear_arith)
                requires 0 <= mid < ISQRT_HI;
            assert(ISQRT_HI * ISQRT_HI == ISQRT_CAP) by (nonlinear_arith);
        }
        if mid * mid <= n {
            lo = mid;
        } else {
            hi = mid;
        }
    }
    proof {
        assert(is_isqrt(n as int, lo as int));
        lemma_isqrt_unique(n as int, lo as int);
    }
    lo as u64
}

/// The magnitude of an integer.
pub open spec fn iabs(a: int) -> int {
    if a >= 0 {
        a
    } else {
        -a
    }
}

/// A fixed-point product `a * b / SCALE` (rounding toward zero) of two
/// bounded factors is bounded by the scaled product of the bounds.
pub proof fn lemma_fixed_mul_scaled_bound(a: int, b: int, ma: int, mb: int)
    requires
        -ma <= a <= ma,
        -mb <= b <= mb,
        0 <= ma,
        0 <= mb,
    ensures
        iabs(tdiv(a * b, SCALE as int)) <= (ma * mb) / (SCALE as int),
{
    lemma_mul_bound(a, b, ma, mb);
    let p = a * b;
    if p >= 0 {
        vstd::arithmetic::div_mod::lemma_div_is_ordered(p, ma * mb, SCALE as int);
        vstd::arithmetic::div_mod::lemma_div_pos_is_pos(p, SCALE as int);
        vstd::arithmetic::div_mod::lemma_div_pos_is_pos(ma * mb, SCALE as int);
    } else {
        vstd::arithmetic::div_mod::lemma_div_is_ordered(-p, ma * mb, SCALE as int);
        vstd::arithmetic::div_mod::lemma_div_pos_is_pos(-p, SCALE as int);
        vstd::arithmetic::div_mod::lemma_div_pos_is_pos(ma * mb, SCALE as int);
    }
}

/// The value fits in a signed 64-bit machine word.
pub open spec fn fits_i64(x: int) -> bool {
    i64::MIN <= x <= i64::MAX
}

} // verus!
