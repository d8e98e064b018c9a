//! Fixed-point arithmetic for the engine.
//!
//! A fixed-point number stores `value * SCALE` in an `i64`. Results that
//! would leave the `i64` range saturate at the range's ends, and divisions
//! truncate toward zero; both behaviours are stated exactly by the spec
//! functions here.

use vstd::prelude::*;

verus! {

/// One unit (the value 1) in fixed-point form.
pub const SCALE: i64 = 65536;

/// Saturation of a mathematical integer into the `i64` range.
pub open spec fn sat64(x: int) -> int {
    if x > i64::MAX {
        i64::MAX as int
    } else if x < i64::MIN {
        i64::MIN as int
    } else {
        x
    }
}

/// Division truncating toward zero, for a positive divisor.
pub open spec fn tdiv(x: int, d: int) -> int
    recommends
        d > 0,
{
    if x >= 0 {
        x / d
    } else {
        -((-x) / d)
    }
}

/// Division truncating toward zero, for any nonzero divisor.
pub open spec fn tdiv_any(x: int, d: int) -> int
    recommends
        d != 0,
{
    if d > 0 {
        tdiv(x, d)
    } else {
        -tdiv(x, -d)
    }
}

pub proof fn lemma_tdiv_bounds(x: int, d: int)
    requires
        d > 0,
    ensures
        x >= 0 ==> 0 <= tdiv(x, d) <= x,
        x < 0 ==> x <= tdiv(x, d) <= 0,
{
    if x >= 0 {
        assert(0 <= x / d <= x) by (nonlinear_arith)
            requires
                x >= 0 && d > 0,
        ;
    } else {
        assert(0 <= (-x) / d <= -x) by (nonlinear_arith)
            requires
                -x > 0 && d > 0,
        ;
    }
}

/// Dividing an exact multiple of `d` by `d` recovers the factor.
pub proof fn lemma_tdiv_exact(a: int, d: int)
    requires
        d > 0,
    ensures
        tdiv(a * d, d) == a,
{
    if a >= 0 {
        assert((a * d) / d == a) by (nonlinear_arith)
            requires
                a >= 0 && d > 0,
        ;
    } else {
        assert(a * d < 0) by (nonlinear_arith)
            requires
                a < 0 && d > 0,
        ;
        assert((-a) * d == -(a * d)) by (nonlinear_arith);
        assert(((-a) * d) / d == -a) by (nonlinear_arith)
            requires
                -a >= 0 && d > 0,
        ;
    }
}

/// Saturate an `i128` into the `i64` range.
pub fn sat_to_i64(x: i128) -> (r: i64)
    ensures
        r as int == sat64(x as int),
{
    if x > i64::MAX as i128 {
        i64::MAX
    } else if x < i64::MIN as i128 {
        i64::MIN
    } else {
        x as i64
    }
}

/// Division of an `i128` truncating toward zero, for a positive divisor.
pub fn tdiv_i128(x: i128, d: i128) -> (r: i128)
    requires
        d > 0,
    ensures
        r as int == tdiv(x as int, d as int),
        x >= 0 ==> 0 <= r <= x,
        x < 0 ==> x <= r <= 0,
{
    proof {
        lemma_tdiv_bounds(x as int, d as int);
    }
    x.checked_div(d).unwrap()
}

/// Division of an `i128` truncating toward zero, for any nonzero divisor.
pub fn tdiv_any_i128(x: i128, d: i128) -> (r: i128)
    requires
        d != 0,
        x > i128::MIN,
        d > i128::MIN,
    ensures
        r as int == tdiv_any(x as int, d as int),
{
    if d > 0 {
        tdiv_i128(x, d)
    } else {
        let q = tdiv_i128(x, -d);
        proof {
            lemma_tdiv_bounds(x as int, -d as int);
        }
        -q
    }
}

/// Saturating addition of two fixed-point numbers.
pub fn sat_add(a: i64, b: i64) -> (r: i64)
    ensures
        r as int == sat64(a + b),
{
    sat_to_i64(a as i128 + b as i128)
}

/// The product of two `i64`-range values stays inside the `i128` range.
pub proof fn lemma_mul_i64_fits_i128(a: int, b: int)
    requires
        i64::MIN <= a <= i64::MAX,
        i64::MIN <= b <= i64::MAX,
    ensures
        i128::MIN < a * b,
        a * b < i128::MAX,
{
    assert(-0x8000_0000_0000_0000 <= a <= 0x7fff_ffff_ffff_ffff
        && -0x8000_0000_0000_0000 <= b <= 0x7fff_ffff_ffff_ffff
        ==> a * b <= 0x4000_0000_0000_0000_0000_0000_0000_0000
            && a * b >= -0x4000_0000_0000_0000_0000_0000_0000_0000) by (nonlinear_arith);
}

/// Widening product of two `i64` values.
pub fn mul_wide(a: i64, b: i64) -> (r: i128)
    ensures
        r as int == a * b,
        i128::MIN < r,
        r < i128::MAX,
{
    proof {
        lemma_mul_i64_fits_i128(a as int, b as int);
    }
    (a as i128) * (b as i128)
}

} // verus!
