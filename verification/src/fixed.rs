//! Fixed-point scalars.
//!
//! Every length, pixel count, scale factor and normalized coordinate of the
//! scene is an `i64` counted in millionths: `ONE` stands for one metre, one
//! pixel, or the factor 1.0.

use vstd::prelude::*;

verus! {

/// The fixed-point representation of 1.0.
pub const ONE: i64 = 1_000_000;

/// The fixed-point representation of 0.5.
pub const HALF: i64 = 500_000;

/// Largest magnitude a stored coordinate may have (100 km).
pub const COORD_MAX: i64 = 100_000_000_000;

/// `v` lies within the coordinate range.
pub open spec fn in_range(v: int) -> bool {
    -COORD_MAX <= v <= COORD_MAX
}

/// `v` brought into the coordinate range by saturation.
pub open spec fn clamp_coord(v: int) -> int {
    if v < -COORD_MAX {
        -(COORD_MAX as int)
    } else if v > COORD_MAX {
        COORD_MAX as int
    } else {
        v
    }
}

/// The smaller of two integers.
pub open spec fn min_int(a: int, b: int) -> int {
    if a <= b {
        a
    } else {
        b
    }
}

/// The larger of two integers.
pub open spec fn max_int(a: int, b: int) -> int {
    if a >= b {
        a
    } else {
        b
    }
}

/// The absolute value of an integer.
pub open spec fn abs_int(v: int) -> int {
    if v < 0 {
        -v
    } else {
        v
    }
}

/// The fixed-point product of `a` and `b`, rounded toward negative infinity.
pub open spec fn scaled(a: int, b: int) -> int {
    (a * b) / (ONE as int)
}

/// Floor division of a wide integer by a positive divisor.
pub fn div_floor(n: i128, d: i128) -> (q: i128)
    requires
        d > 0,
    ensures
        q == n / d,
{
    if n >= 0 {
        n / d
    } else {
        // For negative `n`, the quotient is one below the negated quotient
        // of `-(n + 1)`, which cannot overflow.
        let m: i128 = -(n + 1);
        let t: i128 = m / d;
        proof {
            let r = m % d;
            assert(m == d * t + r && 0 <= r < d) by (nonlinear_arith)
                requires
                    m >= 0,
                    d > 0,
                    t == m / d,
                    r == m % d,
            ;
            assert(n / d == -t - 1) by (nonlinear_arith)
                requires
                    n == -m - 1,
                    m == d * t + r,
                    0 <= r < d,
                    d > 0,
            ;
        }
        -t - 1
    }
}

/// Saturates a wide integer into the coordinate range.
pub fn saturate(v: i128) -> (r: i64)
    ensures
        r == clamp_coord(v as int),
        in_range(r as int),
{
    if v < -(COORD_MAX as i128) {
        -COORD_MAX
    } else if v > COORD_MAX as i128 {
        COORD_MAX
    } else {
        v as i64
    }
}

/// The product of two bounded integers is bounded by the product of the bounds.
pub proof fn lemma_mul_bound(a: int, b: int, bound_a: int, bound_b: int)
    by (nonlinear_arith)
    requires
        -bound_a <= a <= bound_a,
        -bound_b <= b <= bound_b,
    ensures
        -(bound_a * bound_b) <= a * b <= bound_a * bound_b,
{
}

/// Floor division by `ONE` brackets the dividend.
pub proof fn lemma_scaled_bracket(a: int, b: int)
    ensures
        scaled(a, b) * ONE <= a * b < scaled(a, b) * ONE + ONE,
{
    let p = a * b;
    assert(p == (p / (ONE as int)) * ONE + p % (ONE as int) && 0 <= p % (ONE as int) < ONE)
        by (nonlinear_arith);
}

/// Scaling is additive in its first factor up to one unit of rounding.
pub proof fn lemma_scaled_additive(a1: int, a2: int, b: int)
    ensures
        scaled(a1, b) + scaled(a2, b) <= scaled(a1 + a2, b) <= scaled(a1, b) + scaled(a2, b) + 1,
{
    lemma_scaled_bracket(a1, b);
    lemma_scaled_bracket(a2, b);
    lemma_scaled_bracket(a1 + a2, b);
    assert((a1 + a2) * b == a1 * b + a2 * b) by (nonlinear_arith);
}

/// Scaling is symmetric in its two factors.
pub proof fn lemma_scaled_commutes(a: int, b: int)
    ensures
        scaled(a, b) == scaled(b, a),
{
    assert(a * b == b * a) by (nonlinear_arith);
}

/// Scaling by a non-negative factor preserves order.
pub proof fn lemma_scaled_monotone(a1: int, a2: int, b: int)
    requires
        a1 <= a2,
        0 <= b,
    ensures
        scaled(a1, b) <= scaled(a2, b),
{
    lemma_scaled_bracket(a1, b);
    lemma_scaled_bracket(a2, b);
    assert(a1 * b <= a2 * b) by (nonlinear_arith)
        requires
            a1 <= a2,
            0 <= b,
    ;
}

/// The fixed-point product of two `i64` values, not yet saturated.
pub fn mul_scaled(a: i64, b: i64) -> (r: i128)
    ensures
        r == scaled(a as int, b as int),
        -0x4000_0000_0000_0000_0000_0000_0000_0000 <= r <= 0x4000_0000_0000_0000_0000_0000_0000_0000,
{
    proof {
        lemma_mul_bound(a as int, b as int, 0x8000_0000_0000_0000, 0x8000_0000_0000_0000);
        lemma_scaled_bracket(a as int, b as int);
    }
    let p: i128 = (a as i128) * (b as i128);
    div_floor(p, ONE as i128)
}

} // verus!
