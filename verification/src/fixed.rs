//! Fixed-point real numbers with 32 fractional bits.
//!
//! A [`Fixed`] carries the integer `raw`, and denotes the real number
//! `raw / 2^32`. All operations truncate toward zero, and every operation
//! states its exact result, so callers reason about bit-for-bit values.

use vstd::prelude::*;

verus! {

/// The raw weight of the real number one: `2^32`.
pub const FX_ONE: i64 = 0x1_0000_0000;

/// A real number stored as a scaled integer: the value is `raw / 2^32`.
#[derive(Clone, Copy, PartialEq, Eq, Structural, Debug)]
pub struct Fixed {
    /// The value scaled by `2^32`.
    pub raw: i64,
}

/// The quotient `p * q / d` truncated toward zero, for `d != 0`.
pub open spec fn mul_div_down(p: int, q: int, d: int) -> int {
    let m = (vstd::math::abs(p * q) as int) / (vstd::math::abs(d) as int);
    if (p * q >= 0) == (d > 0) {
        m
    } else {
        -m
    }
}

/// The product of two fixed-point values, truncated toward zero.
pub open spec fn mul_down(a: int, b: int) -> int {
    mul_div_down(a, b, FX_ONE as int)
}

/// The magnitude of the product of two magnitudes never exceeds `u128`.
proof fn lemma_mag_product_fits(am: u128, bm: u128)
    by (nonlinear_arith)
    requires
        am <= 0x8000_0000_0000_0000u128,
        bm <= 0x8000_0000_0000_0000u128,
    ensures
        am * bm <= 0x4000_0000_0000_0000_0000_0000_0000_0000u128,
{
}

/// Magnitudes multiply to the magnitude of the product.
proof fn lemma_abs_mul(a: int, b: int)
    by (nonlinear_arith)
    ensures
        vstd::math::abs(a) * vstd::math::abs(b) == vstd::math::abs(a * b),
{
}

/// The sign of a product follows the signs of its factors.
proof fn lemma_sign_mul(a: int, b: int)
    by (nonlinear_arith)
    ensures
        ((a < 0) != (b < 0)) ==> a * b <= 0,
        !((a < 0) != (b < 0)) ==> a * b >= 0,
{
}

/// A bound on each factor bounds the truncated quotient.
pub proof fn lemma_mul_div_down_bound(p: int, q: int, d: int, pb: int, qb: int)
    requires
        d > 0,
        vstd::math::abs(p) <= pb,
        vstd::math::abs(q) <= qb,
    ensures
        vstd::math::abs(mul_div_down(p, q, d)) <= pb * qb / d,
{
    lemma_abs_mul(p, q);
    assert(vstd::math::abs(p) * vstd::math::abs(q) <= pb * qb) by (nonlinear_arith)
        requires
            vstd::math::abs(p) <= pb,
            vstd::math::abs(q) <= qb,
    ;
    vstd::arithmetic::div_mod::lemma_div_is_ordered(
        vstd::math::abs(p * q) as int,
        pb * qb,
        d,
    );
}

/// A zero first factor makes the truncated quotient zero.
pub proof fn lemma_mul_div_down_zero(q: int, d: int)
    requires
        d != 0,
    ensures
        mul_div_down(0, q, d) == 0,
{
    assert(0 * q == 0) by (nonlinear_arith);
    vstd::arithmetic::div_mod::lemma_basic_div(0, vstd::math::abs(d) as int);
}

/// The magnitude of a signed word, exact even at the minimum value.
fn mag(a: i64) -> (r: u128)
    ensures
        r == vstd::math::abs(a as int),
{
    if a < 0 {
        (-(a as i128)) as u128
    } else {
        a as u128
    }
}

/// Reattaches a sign to a magnitude that is known to fit.
fn apply_sign(neg: bool, m: u128) -> (r: i64)
    requires
        neg ==> m <= 0x8000_0000_0000_0000u128,
        !neg ==> m <= 0x7FFF_FFFF_FFFF_FFFFu128,
    ensures
        neg ==> r as int == -(m as int),
        !neg ==> r as int == m as int,
{
    if neg {
        (-(m as i128)) as i64
    } else {
        m as i64
    }
}

impl Fixed {
    /// The fixed-point image of a small integer, exact.
    pub fn from_int(v: i32) -> (r: Fixed)
        ensures
            r.raw == v * (FX_ONE as int),
    {
        Fixed { raw: (v as i64) * FX_ONE }
    }

    /// The fixed-point image of a count of thousandths, truncated toward zero.
    pub fn from_milli(v: i64) -> (r: Fixed)
        requires
            -2_000_000_000_000i64 <= v <= 2_000_000_000_000i64,
        ensures
            r.raw == mul_div_down(v as int, FX_ONE as int, 1000),
    {
        proof {
            lemma_mul_div_down_bound(v as int, FX_ONE as int, 1000, 2_000_000_000_000, FX_ONE as int);
        }
        Fixed { raw: mul_div(v, FX_ONE, 1000) }
    }

    /// Exact sum of two fixed-point values.
    pub fn add(self, other: Fixed) -> (r: Fixed)
        requires
            i64::MIN <= self.raw + other.raw <= i64::MAX,
        ensures
            r.raw == self.raw + other.raw,
    {
        Fixed { raw: self.raw + other.raw }
    }

    /// Exact difference of two fixed-point values.
    pub fn sub(self, other: Fixed) -> (r: Fixed)
        requires
            i64::MIN <= self.raw - other.raw <= i64::MAX,
        ensures
            r.raw == self.raw - other.raw,
    {
        Fixed { raw: self.raw - other.raw }
    }

    /// Product of two fixed-point values, truncated toward zero.
    pub fn mul(self, other: Fixed) -> (r: Fixed)
        requires
            i64::MIN <= mul_down(self.raw as int, other.raw as int) <= i64::MAX,
        ensures
            r.raw == mul_down(self.raw as int, other.raw as int),
    {
        Fixed { raw: mul_div(self.raw, other.raw, FX_ONE) }
    }

}

/// The quotient `p * q / d` truncated toward zero, on raw words.
pub fn mul_div(p: i64, q: i64, d: i64) -> (r: i64)
    requires
        d != 0,
        i64::MIN <= mul_div_down(p as int, q as int, d as int) <= i64::MAX,
    ensures
        r == mul_div_down(p as int, q as int, d as int),
{
    match mul_div_checked(p, q, d) {
        Some(r) => r,
        None => {
            proof {
                assert(false);
            }
            0
        },
    }
}

/// The quotient `p * q / d` truncated toward zero, or `None` where the
/// result would not fit in a raw word.
pub fn mul_div_checked(p: i64, q: i64, d: i64) -> (r: Option<i64>)
    requires
        d != 0,
    ensures
        match r {
            Some(v) => v == mul_div_down(p as int, q as int, d as int),
            None => !(i64::MIN <= mul_div_down(p as int, q as int, d as int) <= i64::MAX),
        },
{
    let pm: u128 = mag(p);
    let qm: u128 = mag(q);
    let dm: u128 = mag(d);
    proof {
        lemma_mag_product_fits(pm, qm);
        lemma_abs_mul(p as int, q as int);
        lemma_sign_mul(p as int, q as int);
    }
    let prod: u128 = pm * qm;
    let m: u128 = prod / dm;
    proof {
        vstd::arithmetic::div_mod::lemma_div_is_ordered(
            vstd::math::abs((p as int) * (q as int)) as int,
            prod as int,
            dm as int,
        );
    }
    let neg: bool = ((p < 0) != (q < 0)) != (d < 0);
    proof {
        let n = (p as int) * (q as int);
        let spec_m = (vstd::math::abs(n) as int) / (vstd::math::abs(d as int) as int);
        assert(m == spec_m);
        if n == 0 {
            assert(mul_div_down(p as int, q as int, d as int) == 0);
        } else if n > 0 {
            assert(!((p < 0) != (q < 0)));
            assert(spec_m >= 0);
        } else {
            assert((p < 0) != (q < 0));
        }
    }
    if neg {
        if m <= 0x8000_0000_0000_0000u128 {
            Some(apply_sign(true, m))
        } else {
            None
        }
    } else {
        if m <= 0x7FFF_FFFF_FFFF_FFFFu128 {
            Some(apply_sign(false, m))
        } else {
            None
        }
    }
}

} // verus!
