//! Fixed-point scalar arithmetic.
//!
//! Scalars are `i64` values counting `SCALE`-ths of one simulation-space
//! unit.  Addition and subtraction saturate at the bounds of `i64`;
//! multiplication of two scalars rescales the wide product by `SCALE`,
//! truncating toward zero.  Every executable operation is specified exactly
//! by a spec function over mathematical integers.

use vstd::prelude::*;
use vstd::arithmetic::div_mod::{
    lemma_div_nonincreasing, lemma_div_pos_is_pos, lemma_div_is_ordered, lemma_fundamental_div_mod,
};

verus! {

/// Number of fixed-point units in one simulation-space unit.
pub const SCALE: i64 = 10000;

/// Absolute value of a mathematical integer.
pub open spec fn abs_i(x: int) -> int {
    if x < 0 {
        -x
    } else {
        x
    }
}

/// Saturates a mathematical integer into the range of `i64`.
pub open spec fn clip(x: int) -> int {
    if x > i64::MAX as int {
        i64::MAX as int
    } else if x < i64::MIN as int {
        i64::MIN as int
    } else {
        x
    }
}

/// `clip`, producing the `i64` value itself.
pub open spec fn clip64(x: int) -> i64 {
    clip(x) as i64
}

/// Division truncating toward zero; meaningful for a positive divisor.
pub open spec fn tdiv(a: int, d: int) -> int {
    if a >= 0 {
        a / d
    } else {
        -((-a) / d)
    }
}

/// Saturating sum of two scalars.
pub open spec fn sat_add_s(a: int, b: int) -> int {
    clip(a + b)
}

/// Saturating difference of two scalars.
pub open spec fn sat_sub_s(a: int, b: int) -> int {
    clip(a - b)
}

/// Fixed-point product: the wide product rescaled by `SCALE`, truncated
/// toward zero and saturated.
pub open spec fn fmul_s(a: int, b: int) -> int {
    clip(tdiv(a * b, SCALE as int))
}

/// `v` scaled by the ratio `m / d`, truncated toward zero and saturated.
pub open spec fn scale_s(v: int, m: int, d: int) -> int {
    clip(tdiv(v * m, d))
}

/// The magnitude of a truncating quotient is at most the magnitude of the
/// dividend, and multiplying it back by the divisor stays within the
/// dividend's magnitude.
pub proof fn lemma_tdiv_bounds(a: int, d: int)
    requires
        d >= 1,
    ensures
        abs_i(tdiv(a, d)) <= abs_i(a),
        abs_i(tdiv(a, d)) * d <= abs_i(a),
        a >= 0 ==> tdiv(a, d) >= 0,
        a <= 0 ==> tdiv(a, d) <= 0,
{
    if a >= 0 {
        lemma_div_pos_is_pos(a, d);
        lemma_div_nonincreasing(a, d);
        lemma_fundamental_div_mod(a, d);
        assert((a / d) * d == d * (a / d));
    } else {
        lemma_div_pos_is_pos(-a, d);
        lemma_div_nonincreasing(-a, d);
        lemma_fundamental_div_mod(-a, d);
        assert(((-a) / d) * d == d * ((-a) / d));
    }
}

/// Truncating division is monotone in the magnitude of the dividend.
pub proof fn lemma_tdiv_mag_ordered(a: int, b: int, d: int)
    requires
        d >= 1,
        abs_i(a) <= abs_i(b),
    ensures
        abs_i(tdiv(a, d)) <= abs_i(tdiv(b, d)),
{
    lemma_tdiv_bounds(a, d);
    lemma_tdiv_bounds(b, d);
    if a >= 0 {
        lemma_div_is_ordered(a, abs_i(b), d);
    } else {
        lemma_div_is_ordered(-a, abs_i(b), d);
    }
    if b >= 0 {
        assert(abs_i(b) / d == b / d);
    } else {
        assert(abs_i(b) / d == (-b) / d);
    }
}

/// Saturating sum of two scalars.
pub fn sat_add(a: i64, b: i64) -> (r: i64)
    ensures
        r == clip64(a + b),
{
    let s: i128 = a as i128 + b as i128;
    if s > i64::MAX as i128 {
        i64::MAX
    } else if s < i64::MIN as i128 {
        i64::MIN
    } else {
        s as i64
    }
}

/// Saturating difference of two scalars.
pub fn sat_sub(a: i64, b: i64) -> (r: i64)
    ensures
        r == clip64(a - b),
{
    let s: i128 = a as i128 - b as i128;
    if s > i64::MAX as i128 {
        i64::MAX
    } else if s < i64::MIN as i128 {
        i64::MIN
    } else {
        s as i64
    }
}

/// The product of two `i64` values stays strictly inside the `i128` range.
proof fn lemma_i64_sq_range(a: int, b: int)
    by (nonlinear_arith)
    requires
        i64::MIN as int <= a <= i64::MAX as int,
        i64::MIN as int <= b <= i64::MAX as int,
    ensures
        -0x4000_0000_0000_0000_0000_0000_0000_0000 <= a * b
            <= 0x4000_0000_0000_0000_0000_0000_0000_0000,
{
}

/// Saturates a wide intermediate back into an `i64` scalar.
fn clip_wide(q: i128) -> (r: i64)
    ensures
        r == clip64(q as int),
{
    if q > i64::MAX as i128 {
        i64::MAX
    } else if q < i64::MIN as i128 {
        i64::MIN
    } else {
        q as i64
    }
}

/// Truncating division of a wide intermediate by a positive divisor.
fn tdiv_wide(a: i128, d: i128) -> (r: i128)
    requires
        0 < d,
        (i128::MIN as int) < (a as int),
    ensures
        r as int == tdiv(a as int, d as int),
{
    if a >= 0 {
        let q: u128 = a as u128 / d as u128;
        proof {
            lemma_div_pos_is_pos(a as int, d as int);
            lemma_div_nonincreasing(a as int, d as int);
        }
        q as i128
    } else {
        let m: u128 = (-a) as u128;
        let q: u128 = m / d as u128;
        proof {
            lemma_div_pos_is_pos(m as int, d as int);
            lemma_div_nonincreasing(m as int, d as int);
        }
        -(q as i128)
    }
}

/// Fixed-point product of two scalars.
pub fn fmul(a: i64, b: i64) -> (r: i64)
    ensures
        r as int == fmul_s(a as int, b as int),
{
    proof {
        lemma_i64_sq_range(a as int, b as int);
    }
    let p: i128 = a as i128 * b as i128;
    let q: i128 = tdiv_wide(p, SCALE as i128);
    clip_wide(q)
}

/// Scales `v` by the ratio `m / d`.
pub fn mul_div(v: i64, m: i64, d: u64) -> (r: i64)
    requires
        d > 0,
    ensures
        r as int == scale_s(v as int, m as int, d as int),
{
    proof {
        lemma_i64_sq_range(v as int, m as int);
    }
    let p: i128 = v as i128 * m as i128;
    let q: i128 = tdiv_wide(p, d as i128);
    clip_wide(q)
}

/// The integer square root: the largest integer whose square does not
/// exceed `n`.
pub open spec fn isqrt_s(n: nat) -> nat
    decreases n,
{
    if n == 0 {
        0
    } else {
        let r = isqrt_s((n - 1) as nat);
        if (r as int + 1) * (r as int + 1) <= n as int {
            r + 1
        } else {
            r
        }
    }
}

/// `isqrt_s(n)` is the unique `r` with `r * r <= n < (r + 1) * (r + 1)`.
pub proof fn lemma_isqrt_bounds(n: nat)
    ensures
        (isqrt_s(n) as int) * (isqrt_s(n) as int) <= n as int,
        (n as int) < (isqrt_s(n) as int + 1) * (isqrt_s(n) as int + 1),
    decreases n,
{
    if n > 0 {
        lemma_isqrt_bounds((n - 1) as nat);
        let r = isqrt_s((n - 1) as nat);
        if (r as int + 1) * (r as int + 1) <= n as int {
            assert(isqrt_s(n) == r + 1);
            assert(n as int <= (r as int + 1) * (r as int + 1));
            assert((n as int) < (r as int + 2) * (r as int + 2)) by (nonlinear_arith)
                requires
                    n as int <= (r as int + 1) * (r as int + 1),
                    r as int >= 0,
            ;
        } else {
            assert(isqrt_s(n) == r);
        }
    } else {
        assert(isqrt_s(0nat) == 0);
    }
}

/// Any `r` within the square-root bounds for `n` is `isqrt_s(n)`.
pub proof fn lemma_isqrt_unique(n: nat, r: nat)
    requires
        (r as int) * (r as int) <= n as int,
        (n as int) < (r as int + 1) * (r as int + 1),
    ensures
        r == isqrt_s(n),
{
    lemma_isqrt_bounds(n);
    let s = isqrt_s(n);
    if r < s {
        assert((r as int + 1) * (r as int + 1) <= (s as int) * (s as int)) by (nonlinear_arith)
            requires
                0 <= r as int + 1 <= s as int,
        ;
    }
    if s < r {
        assert((s as int + 1) * (s as int + 1) <= (r as int) * (r as int)) by (nonlinear_arith)
            requires
                0 <= s as int + 1 <= r as int,
        ;
    }
}

/// The integer square root does not decrease when its argument grows.
pub proof fn lemma_isqrt_monotone(m: nat, n: nat)
    requires
        m <= n,
    ensures
        isqrt_s(m) <= isqrt_s(n),
{
    lemma_isqrt_bounds(m);
    lemma_isqrt_bounds(n);
    if isqrt_s(n) < isqrt_s(m) {
        assert((isqrt_s(n) as int + 1) * (isqrt_s(n) as int + 1) <= (isqrt_s(m) as int) * (
        isqrt_s(m) as int)) by (nonlinear_arith)
            requires
                0 <= isqrt_s(n) as int + 1 <= isqrt_s(m) as int,
        ;
    }
}

/// Integer square root of a wide intermediate, by bisection.
pub fn isqrt(n: u128) -> (r: u64)
    ensures
        r as nat == isqrt_s(n as nat),
{
    let mut lo: u64 = 0;
    let mut hi: u64 = u64::MAX;
    proof {
        assert((hi as int + 1) * (hi as int + 1) > u128::MAX as int) by (nonlinear_arith)
            requires
                hi as int == u64::MAX as int,
        ;
    }
    while lo < hi
        invariant
            lo <= hi,
            (lo as int) * (lo as int) <= n as int,
            (n as int) < (hi as int + 1) * (hi as int + 1),
        decreases hi - lo,
    {
        let mid: u64 = lo + (hi - lo - 1) / 2 + 1;
        proof {
            assert((hi - lo - 1) / 2 <= hi - lo - 1) by {
                lemma_div_nonincreasing(hi as int - lo as int - 1, 2);
            }
            assert((mid as int) * (mid as int) <= u128::MAX as int) by (nonlinear_arith)
                requires
                    0 <= (mid as int) <= u64::MAX as int,
            ;
        }
        let msq: u128 = (mid as u128) * (mid as u128);
        if msq <= n {
            lo = mid;
        } else {
            hi = mid - 1;
        }
    }
    proof {
        lemma_isqrt_unique(n as nat, lo as nat);
    }
    lo
}

/// The square of a scalar, as a wide nonnegative intermediate.
pub fn sq_u(v: i64) -> (r: u128)
    ensures
        r as int == (v as int) * (v as int),
        r <= 0x4000_0000_0000_0000_0000_0000_0000_0000,
{
    let m: u128 = if v >= 0 {
        v as u128
    } else {
        (-(v as i128)) as u128
    };
    proof {
        assert(m as int == abs_i(v as int));
        assert(abs_i(v as int) * abs_i(v as int) == (v as int) * (v as int)) by (nonlinear_arith);
        assert((m as int) * (m as int) <= 0x4000_0000_0000_0000_0000_0000_0000_0000int)
            by (nonlinear_arith)
            requires
                0 <= (m as int) <= 0x8000_0000_0000_0000int,
        ;
    }
    m * m
}

/// The magnitude of a scalar, as a wide intermediate.
pub fn abs_wide(v: i64) -> (r: i128)
    ensures
        r as int == abs_i(v as int),
{
    if v >= 0 {
        v as i128
    } else {
        -(v as i128)
    }
}

/// Truncating division of a scalar by a positive count.
pub fn div_count(sum: i64, n: u64) -> (r: i64)
    requires
        n > 0,
    ensures
        r as int == tdiv(sum as int, n as int),
{
    let q: i128 = tdiv_wide(sum as i128, n as i128);
    proof {
        lemma_tdiv_bounds(sum as int, n as int);
    }
    q as i64
}

} // verus!
