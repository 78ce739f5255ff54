//! Iteration counts to RGB colors.
//!
//! A count is first compressed to a brightness factor in `[0, FACTOR_ONE]`
//! by one of three monotone curves, then the factor picks a hue between 20
//! and 320 degrees, and the hue is converted to a fully saturated, fully
//! bright RGB color. Zero iterations and the iteration cap always land on
//! the two distinct extreme colors of the gradient.

use vstd::prelude::*;

verus! {

/// The factor denoting full brightness: `2^16`.
pub const FACTOR_ONE: u64 = 0x1_0000;

/// Which curve compresses iteration counts into the gradient.
#[derive(Clone, Copy, PartialEq, Eq, Structural, Debug)]
pub enum Scale {
    /// The factor grows proportionally with the count.
    Linear,
    /// The factor follows the logarithm of the count, in coarse steps.
    Logarithmic,
    /// The factor follows the square root of the count's share, spreading
    /// the low counts that dominate outside the set.
    Exponential,
}

/// The integer square root: the largest `r` with `r * r <= n`.
pub open spec fn spec_isqrt(n: nat) -> nat
    decreases n,
{
    if n == 0 {
        0
    } else {
        let r = spec_isqrt((n - 1) as nat);
        if (r + 1) * (r + 1) <= n {
            (r + 1) as nat
        } else {
            r
        }
    }
}

/// The floor of the base-two logarithm, and zero for zero.
pub open spec fn spec_log2(n: nat) -> nat
    decreases n,
{
    if n < 2 {
        0
    } else {
        1 + spec_log2(n / 2)
    }
}

/// The linear curve: the count's share of the cap.
pub open spec fn spec_linear(iteration: nat, max_iterations: nat) -> nat {
    iteration * (FACTOR_ONE as nat) / max_iterations
}

/// The square-root curve: the root of the count's share of the cap.
pub open spec fn spec_exponential(iteration: nat, max_iterations: nat) -> nat {
    spec_isqrt(iteration * 0x1_0000_0000 / max_iterations)
}

/// The logarithmic curve: the count's share mapped through a coarse
/// base-two logarithm of its 8-bit image.
pub open spec fn spec_logarithmic(iteration: nat, max_iterations: nat) -> nat {
    spec_log2(1 + iteration * 255 / max_iterations) * (FACTOR_ONE as nat) / 8
}

/// The brightness factor of a count under the chosen curve.
pub open spec fn spec_factor(used_scale: Scale, iteration: nat, max_iterations: nat) -> nat {
    match used_scale {
        Scale::Linear => spec_linear(iteration, max_iterations),
        Scale::Logarithmic => spec_logarithmic(iteration, max_iterations),
        Scale::Exponential => spec_exponential(iteration, max_iterations),
    }
}

/// The hue of a brightness factor, in thousandths of a degree: a gradient
/// from 20 to 320 degrees.
pub open spec fn spec_hue_milli(factor: nat) -> nat {
    20_000 + factor * 300_000 / (FACTOR_ONE as nat)
}

/// The RGB color of a hue (thousandths of a degree, below 360 degrees) at
/// full saturation and value.
pub open spec fn spec_hue_rgb(h: nat) -> [u8; 3] {
    let sector = h / 60_000;
    let frac = h % 60_000;
    let up = (255 * frac / 60_000) as u8;
    let down = (255 * (60_000 - frac) / 60_000) as u8;
    if sector == 0 {
        [255u8, up, 0u8]
    } else if sector == 1 {
        [down, 255u8, 0u8]
    } else if sector == 2 {
        [0u8, 255u8, up]
    } else if sector == 3 {
        [0u8, down, 255u8]
    } else if sector == 4 {
        [up, 0u8, 255u8]
    } else {
        [255u8, 0u8, down]
    }
}

/// The color of an iteration count: factor, then hue, then RGB.
pub open spec fn spec_from_iterations(
    iteration: nat,
    max_iterations: nat,
    used_scale: Scale,
) -> [u8; 3] {
    spec_hue_rgb(spec_hue_milli(spec_factor(used_scale, iteration, max_iterations)))
}

/// The integer square root is sandwiched between the two nearest squares.
proof fn lemma_isqrt_bounds(n: nat)
    ensures
        spec_isqrt(n) * spec_isqrt(n) <= n,
        n < (spec_isqrt(n) + 1) * (spec_isqrt(n) + 1),
    decreases n,
{
    if n == 0 {
        assert(spec_isqrt(0) == 0);
        assert(0 * 0 <= 0) by (nonlinear_arith);
        assert((0 + 1) * (0 + 1) == 1) by (nonlinear_arith);
    } else {
        lemma_isqrt_bounds((n - 1) as nat);
        let r = spec_isqrt((n - 1) as nat);
        if (r + 1) * (r + 1) <= n {
            assert(spec_isqrt(n) == r + 1);
            assert(n <= (r + 1) * (r + 1));
            assert(n < ((r + 1) + 1) * ((r + 1) + 1)) by (nonlinear_arith)
                requires
                    n <= (r + 1) * (r + 1),
                    0 <= r,
            ;
        } else {
            assert(spec_isqrt(n) == r);
        }
    }
}

/// Any `r` sandwiched between the two nearest squares is the root.
proof fn lemma_isqrt_unique(n: nat, r: nat)
    requires
        r * r <= n,
        n < (r + 1) * (r + 1),
    ensures
        r == spec_isqrt(n),
{
    lemma_isqrt_bounds(n);
    let s = spec_isqrt(n);
    if r < s {
        assert((r + 1) * (r + 1) <= s * s) by (nonlinear_arith)
            requires
                r + 1 <= s,
                0 <= r,
        ;
    }
    if s < r {
        assert((s + 1) * (s + 1) <= r * r) by (nonlinear_arith)
            requires
                s + 1 <= r,
                0 <= s,
        ;
    }
}

/// The floor logarithm never exceeds its argument.
proof fn lemma_log2_le_self(n: nat)
    ensures
        spec_log2(n) <= n,
    decreases n,
{
    if n >= 2 {
        lemma_log2_le_self(n / 2);
    }
}

/// The floor logarithm is monotone.
proof fn lemma_log2_mono(a: nat, b: nat)
    requires
        a <= b,
    ensures
        spec_log2(a) <= spec_log2(b),
    decreases b,
{
    if a >= 2 {
        lemma_log2_mono(a / 2, b / 2);
    }
}

/// The integer square root of `n`, for `n` up to `2^32`.
fn isqrt(n: u64) -> (r: u64)
    requires
        n <= 0x1_0000_0000,
    ensures
        r == spec_isqrt(n as nat),
        r <= 0x1_0000,
{
    let mut lo: u64 = 0;
    let mut hi: u64 = 0x1_0001;
    proof {
        assert(0x1_0001u64 * 0x1_0001u64 > 0x1_0000_0000) by (nonlinear_arith);
    }
    while lo + 1 < hi
        invariant
            lo < hi,
            hi <= 0x1_0001,
            lo * lo <= n,
            n < hi * hi,
        decreases hi - lo,
    {
        let mid: u64 = (lo + hi) / 2;
        proof {
            assert(mid * mid <= 0x1_0001u64 * 0x1_0001u64) by (nonlinear_arith)
                requires
                    mid <= 0x1_0001u64,
            ;
        }
        if mid * mid <= n {
            lo = mid;
        } else {
            hi = mid;
        }
    }
    proof {
        lemma_isqrt_unique(n as nat, lo as nat);
    }
    lo
}

/// The floor of the base-two logarithm of a positive number.
fn floor_log2(n: u64) -> (r: u64)
    requires
        n >= 1,
    ensures
        r == spec_log2(n as nat),
{
    let mut v: u64 = n;
    let mut r: u64 = 0;
    proof {
        lemma_log2_le_self(n as nat);
    }
    while v >= 2
        invariant
            1 <= v <= n,
            r + spec_log2(v as nat) == spec_log2(n as nat),
            spec_log2(n as nat) <= n,
        decreases v,
    {
        v = v / 2;
        r = r + 1;
    }
    r
}

/// The linear brightness curve.
pub fn linear(iteration: u64, max_iterations: u64) -> (r: u64)
    requires
        1 <= max_iterations,
        iteration <= max_iterations,
    ensures
        r == spec_linear(iteration as nat, max_iterations as nat),
        r <= FACTOR_ONE,
{
    proof {
        lemma_share_bounded(iteration as nat, max_iterations as nat, FACTOR_ONE as nat);
    }
    let t: u128 = (iteration as u128) * (FACTOR_ONE as u128) / (max_iterations as u128);
    t as u64
}

/// The square-root brightness curve.
pub fn exponential(iteration: u64, max_iterations: u64) -> (r: u64)
    requires
        1 <= max_iterations,
        iteration <= max_iterations,
    ensures
        r == spec_exponential(iteration as nat, max_iterations as nat),
        r <= FACTOR_ONE,
{
    proof {
        lemma_share_bounded(iteration as nat, max_iterations as nat, 0x1_0000_0000);
    }
    let t: u128 = (iteration as u128) * 0x1_0000_0000u128 / (max_iterations as u128);
    isqrt(t as u64)
}

/// The logarithmic brightness curve.
pub fn logarithmic(iteration: u64, max_iterations: u64) -> (r: u64)
    requires
        1 <= max_iterations,
        iteration <= max_iterations,
    ensures
        r == spec_logarithmic(iteration as nat, max_iterations as nat),
        r <= FACTOR_ONE,
{
    proof {
        lemma_share_bounded(iteration as nat, max_iterations as nat, 255);
    }
    let k: u128 = (iteration as u128) * 255u128 / (max_iterations as u128);
    let l: u64 = floor_log2(k as u64 + 1);
    proof {
        lemma_log2_mono(1 + k as nat, 256);
        assert(spec_log2(256) == 8) by {
            reveal_with_fuel(spec_log2, 10);
        }
        vstd::arithmetic::div_mod::lemma_div_is_ordered(
            l as int * FACTOR_ONE as int,
            8 * FACTOR_ONE as int,
            8,
        );
        assert(l as int * FACTOR_ONE as int <= 8 * FACTOR_ONE as int)
            by (nonlinear_arith)
            requires
                l <= 8,
        ;
        vstd::arithmetic::div_mod::lemma_div_by_multiple(FACTOR_ONE as int, 8);
        assert(FACTOR_ONE as int * 8 == 8 * FACTOR_ONE as int) by (nonlinear_arith);
    }
    l * FACTOR_ONE / 8
}

/// A share of `unit` is at most `unit`: `i * unit / m <= unit` for `i <= m`.
proof fn lemma_share_bounded(i: nat, m: nat, unit: nat)
    requires
        1 <= m,
        i <= m,
    ensures
        i * unit / m <= unit,
        i == m ==> i * unit / m == unit,
        i == 0 ==> i * unit / m == 0,
{
    vstd::arithmetic::mul::lemma_mul_inequality(i as int, m as int, unit as int);
    vstd::arithmetic::div_mod::lemma_div_is_ordered(
        i as int * unit as int,
        m as int * unit as int,
        m as int,
    );
    vstd::arithmetic::div_mod::lemma_div_by_multiple(unit as int, m as int);
    assert(unit as int * m as int == m as int * unit as int) by (nonlinear_arith);
    assert(0 * unit as int == 0) by (nonlinear_arith);
    vstd::arithmetic::div_mod::lemma_basic_div(0, m as int);
}

/// The RGB color of a hue in thousandths of a degree.
fn hue_to_rgb(h: u64) -> (r: [u8; 3])
    requires
        h < 360_000,
    ensures
        r == spec_hue_rgb(h as nat),
{
    let sector: u64 = h / 60_000;
    let frac: u64 = h % 60_000;
    let up: u8 = (255 * frac / 60_000) as u8;
    let down: u8 = (255 * (60_000 - frac) / 60_000) as u8;
    if sector == 0 {
        [255u8, up, 0u8]
    } else if sector == 1 {
        [down, 255u8, 0u8]
    } else if sector == 2 {
        [0u8, 255u8, up]
    } else if sector == 3 {
        [0u8, down, 255u8]
    } else if sector == 4 {
        [up, 0u8, 255u8]
    } else {
        [255u8, 0u8, down]
    }
}

/// The color of an iteration count under the chosen brightness curve.
///
/// Counts are compressed to a factor, the factor picks a hue between 20
/// and 320 degrees, and the hue becomes a fully saturated RGB color.
pub fn from_iterations(iteration: u64, max_iterations: u64, used_scale: Scale) -> (r: [u8; 3])
    requires
        1 <= max_iterations,
        iteration <= max_iterations,
    ensures
        r == spec_from_iterations(iteration as nat, max_iterations as nat, used_scale),
{
    let factor: u64 = match used_scale {
        Scale::Linear => linear(iteration, max_iterations),
        Scale::Logarithmic => logarithmic(iteration, max_iterations),
        Scale::Exponential => exponential(iteration, max_iterations),
    };
    proof {
        vstd::arithmetic::mul::lemma_mul_inequality(
            factor as int,
            FACTOR_ONE as int,
            300_000,
        );
        vstd::arithmetic::div_mod::lemma_div_is_ordered(
            factor as int * 300_000,
            FACTOR_ONE as int * 300_000,
            FACTOR_ONE as int,
        );
        vstd::arithmetic::div_mod::lemma_div_by_multiple(300_000, FACTOR_ONE as int);
        assert(300_000 * FACTOR_ONE as int == FACTOR_ONE as int * 300_000)
            by (nonlinear_arith);
    }
    let hue: u64 = 20_000 + factor * 300_000 / FACTOR_ONE;
    hue_to_rgb(hue)
}

/// The two ends of the gradient are distinct colors: a count of zero and a
/// count at the cap never map to the same RGB value, under any curve.
pub proof fn lemma_color_extremes_differ(max_iterations: nat, used_scale: Scale)
    requires
        max_iterations >= 1,
    ensures
        spec_from_iterations(0, max_iterations, used_scale) != spec_from_iterations(
            max_iterations,
            max_iterations,
            used_scale,
        ),
{
    let m = max_iterations;
    lemma_share_bounded(0, m, FACTOR_ONE as nat);
    lemma_share_bounded(0, m, 0x1_0000_0000);
    lemma_share_bounded(0, m, 255);
    lemma_share_bounded(m, m, FACTOR_ONE as nat);
    lemma_share_bounded(m, m, 0x1_0000_0000);
    lemma_share_bounded(m, m, 255);
    assert(spec_isqrt(0) == 0);
    assert((0x1_0000 + 1) * (0x1_0000 + 1) > 0x1_0000_0000) by (nonlinear_arith);
    assert(0x1_0000 * 0x1_0000 <= 0x1_0000_0000) by (nonlinear_arith);
    lemma_isqrt_unique(0x1_0000_0000, 0x1_0000);
    assert(spec_log2(1) == 0);
    assert(spec_log2(256) == 8) by {
        reveal_with_fuel(spec_log2, 10);
    }
    vstd::arithmetic::div_mod::lemma_div_by_multiple(FACTOR_ONE as int, 8);
    assert(FACTOR_ONE as int * 8 == 8 * (FACTOR_ONE as int)) by (nonlinear_arith);
    assert(spec_factor(used_scale, 0, m) == 0);
    assert(spec_factor(used_scale, m, m) == FACTOR_ONE);
    vstd::arithmetic::div_mod::lemma_div_by_multiple(300_000, FACTOR_ONE as int);
    assert(300_000 * (FACTOR_ONE as int) == (FACTOR_ONE as int) * 300_000)
        by (nonlinear_arith);
    assert(spec_hue_milli(0) == 20_000);
    assert(spec_hue_milli(FACTOR_ONE as nat) == 320_000);
    assert(spec_hue_rgb(20_000)[1] == 85);
    assert(spec_hue_rgb(320_000)[1] == 0);
}

} // verus!
