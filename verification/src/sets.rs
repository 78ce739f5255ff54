//! The escape-time evaluator and the viewport that feeds it.
//!
//! The evaluator iterates `z <- z^2 + c` from `z = 0` and counts completed
//! iterations until the iterate leaves the escape radius or the iteration
//! cap is reached. The squared-magnitude test compares the exact squares of
//! the raw coordinates, so only the stored iterate is truncated.

use vstd::prelude::*;

use crate::fixed::Fixed;
use crate::fixed::mul_down;
use crate::fixed::mul_div;
use crate::fixed::mul_div_checked;
use crate::fixed::mul_div_down;
use crate::fixed::lemma_mul_div_down_bound;
use crate::fixed::FX_ONE;
use crate::util::Dim;
use crate::color::Scale;
use rayon::iter::IntoParallelIterator;
use rayon::iter::ParallelIterator;

verus! {

/// Largest raw magnitude accepted for a plane coordinate handed to the
/// evaluator: `2^54`, a real magnitude of `2^22`.
pub const COORD_LIMIT: i64 = 0x40_0000_0000_0000;

/// Largest raw magnitude accepted for the escape radius: `2^46`, a real
/// magnitude of `2^14`.
pub const RADIUS_LIMIT: i64 = 0x4000_0000_0000;

/// The real part of the next iterate: `x^2 - y^2 + x0`, each square
/// truncated toward zero.
pub open spec fn step_x(x: int, y: int, x0: int) -> int {
    mul_down(x, x) - mul_down(y, y) + x0
}

/// The imaginary part of the next iterate: `2 * x * y + y0`, the product
/// truncated toward zero before it is doubled.
pub open spec fn step_y(x: int, y: int, y0: int) -> int {
    2 * mul_down(x, y) + y0
}

/// Whether the iterate `(x, y)` lies strictly outside the radius whose
/// square is `rr`; the squares here are exact raw products.
pub open spec fn escaped(x: int, y: int, rr: int) -> bool {
    x * x + y * y > rr
}

/// The number of completed iterations from the iterate `(x, y)` until it
/// escapes or `fuel` iterations have run.
pub open spec fn escape_count(x: int, y: int, x0: int, y0: int, rr: int, fuel: nat) -> nat
    decreases fuel,
{
    if escaped(x, y, rr) || fuel == 0 {
        0
    } else {
        1 + escape_count(step_x(x, y, x0), step_y(x, y, y0), x0, y0, rr, (fuel - 1) as nat)
    }
}

/// The escape time of the plane point `(x0, y0)`: iterations completed
/// from `z = 0` under the cap `max_iterations`.
pub open spec fn spec_evaluate(x0: int, y0: int, radius: int, max_iterations: nat) -> nat {
    escape_count(0, 0, x0, y0, radius * radius, max_iterations)
}

/// The escape count never exceeds the fuel it was given.
pub proof fn lemma_escape_count_bounded(x: int, y: int, x0: int, y0: int, rr: int, fuel: nat)
    ensures
        escape_count(x, y, x0, y0, rr, fuel) <= fuel,
    decreases fuel,
{
    if !(escaped(x, y, rr) || fuel == 0) {
        lemma_escape_count_bounded(
            step_x(x, y, x0),
            step_y(x, y, y0),
            x0,
            y0,
            rr,
            (fuel - 1) as nat,
        );
    }
}

/// The origin is a fixed point of the recurrence: for `c = 0` the iterate
/// stays at zero, so it never escapes a non-negative squared radius and
/// the count is the full fuel.
pub proof fn lemma_origin_never_escapes(rr: int, fuel: nat)
    requires
        rr >= 0,
    ensures
        escape_count(0, 0, 0, 0, rr, fuel) == fuel,
    decreases fuel,
{
    if fuel > 0 {
        assert(!escaped(0, 0, rr));
        assert(step_x(0, 0, 0) == 0);
        assert(step_y(0, 0, 0) == 0);
        lemma_origin_never_escapes(rr, (fuel - 1) as nat);
    }
}

/// A point whose exact squared magnitude exceeds the squared escape radius
/// escapes on the very first iteration: the count is one.
pub proof fn lemma_outside_radius_escapes_once(x0: int, y0: int, radius: int, max_iterations: nat)
    requires
        x0 * x0 + y0 * y0 > radius * radius,
        max_iterations >= 1,
    ensures
        spec_evaluate(x0, y0, radius, max_iterations) == 1,
{
    let rr = radius * radius;
    assert(radius * radius >= 0) by (nonlinear_arith);
    assert(!escaped(0, 0, rr));
    assert(step_x(0, 0, x0) == x0);
    assert(step_y(0, 0, y0) == y0);
    assert(escaped(x0, y0, rr));
    assert(escape_count(x0, y0, x0, y0, rr, (max_iterations - 1) as nat) == 0);
    assert(escape_count(0, 0, x0, y0, rr, max_iterations) == 1 + escape_count(
        step_x(0, 0, x0),
        step_y(0, 0, y0),
        x0,
        y0,
        rr,
        (max_iterations - 1) as nat,
    ));
}

/// Escape time is a pure function of its inputs: two results for the same
/// point, radius and cap are always equal.
pub proof fn lemma_evaluate_deterministic(
    c1: nat,
    c2: nat,
    x0: int,
    y0: int,
    radius: int,
    max_iterations: nat,
)
    requires
        c1 == spec_evaluate(x0, y0, radius, max_iterations),
        c2 == spec_evaluate(x0, y0, radius, max_iterations),
    ensures
        c1 == c2,
{
}

/// A square of a bounded magnitude is bounded.
proof fn lemma_square_bound(m: u128, b: u128)
    by (nonlinear_arith)
    requires
        m <= b,
    ensures
        m * m <= b * b,
{
}

/// Twice the magnitude of a product is bounded by the sum of squares.
proof fn lemma_product_vs_squares(a: int, b: int)
    by (nonlinear_arith)
    ensures
        2 * vstd::math::abs(a * b) <= a * a + b * b,
        vstd::math::abs(a) * vstd::math::abs(a) == a * a,
{
}

/// Escape-time evaluation of the plane point `(x0, y0)`.
///
/// Iterates `z <- z^2 + c` from `z = 0` with `c = (x0, y0)`, testing every
/// iteration whether the exact sum of squares of the iterate exceeds the
/// exact square of `escape_radius`, and stopping as well once
/// `max_iterations` iterations have completed. Returns the number of
/// completed iterations.
pub fn evaluate(x0: Fixed, y0: Fixed, max_iterations: u64, escape_radius: Fixed) -> (count: u64)
    requires
        -COORD_LIMIT <= x0.raw <= COORD_LIMIT,
        -COORD_LIMIT <= y0.raw <= COORD_LIMIT,
        0 <= escape_radius.raw <= RADIUS_LIMIT,
    ensures
        count == spec_evaluate(
            x0.raw as int,
            y0.raw as int,
            escape_radius.raw as int,
            max_iterations as nat,
        ),
        count <= max_iterations,
        x0.raw == 0 && y0.raw == 0 ==> count == max_iterations,
{
    let rm: u128 = escape_radius.raw as u128;
    let ghost rr: int = (escape_radius.raw as int) * (escape_radius.raw as int);
    proof {
        lemma_square_bound(rm, 0x4000_0000_0000u128);
        assert(rm * rm == rr) by (nonlinear_arith)
            requires
                rm == escape_radius.raw as int,
                rr == (escape_radius.raw as int) * (escape_radius.raw as int),
        ;
    }
    let rrw: u128 = rm * rm;
    let mut x: i64 = 0;
    let mut y: i64 = 0;
    let mut iteration: u64 = 0;
    loop
        invariant
            0 <= iteration <= max_iterations,
            -0x2000_0000_0000_0000i64 <= x <= 0x2000_0000_0000_0000i64,
            -0x2000_0000_0000_0000i64 <= y <= 0x2000_0000_0000_0000i64,
            -COORD_LIMIT <= x0.raw <= COORD_LIMIT,
            -COORD_LIMIT <= y0.raw <= COORD_LIMIT,
            0 <= escape_radius.raw <= RADIUS_LIMIT,
            rr == (escape_radius.raw as int) * (escape_radius.raw as int),
            rrw == rr,
            0 <= rr <= 0x1000_0000_0000_0000_0000_0000,
            x0.raw == 0 && y0.raw == 0 ==> x == 0 && y == 0,
            spec_evaluate(x0.raw as int, y0.raw as int, escape_radius.raw as int, max_iterations as nat)
                == iteration + escape_count(
                x as int,
                y as int,
                x0.raw as int,
                y0.raw as int,
                rr,
                (max_iterations - iteration) as nat,
            ),
        ensures
            iteration <= max_iterations,
            iteration == spec_evaluate(
                x0.raw as int,
                y0.raw as int,
                escape_radius.raw as int,
                max_iterations as nat,
            ),
            x0.raw == 0 && y0.raw == 0 ==> iteration == max_iterations,
        decreases max_iterations - iteration,
    {
        let xm: u128 = if x < 0 {
            (-(x as i128)) as u128
        } else {
            x as u128
        };
        let ym: u128 = if y < 0 {
            (-(y as i128)) as u128
        } else {
            y as u128
        };
        proof {
            lemma_square_bound(xm, 0x2000_0000_0000_0000u128);
            lemma_square_bound(ym, 0x2000_0000_0000_0000u128);
            lemma_product_vs_squares(x as int, y as int);
            lemma_product_vs_squares(y as int, x as int);
            assert(xm * xm == (x as int) * (x as int)) by (nonlinear_arith)
                requires
                    xm == vstd::math::abs(x as int),
            ;
            assert(ym * ym == (y as int) * (y as int)) by (nonlinear_arith)
                requires
                    ym == vstd::math::abs(y as int),
            ;
        }
        let x2w: u128 = xm * xm;
        let y2w: u128 = ym * ym;
        if x2w + y2w > rrw {
            // The iterate has escaped: its exact squared magnitude exceeds
            // the exact squared radius.
            proof {
                assert(escaped(x as int, y as int, rr));
            }
            break;
        }
        if iteration >= max_iterations {
            break;
        }
        // The narrow squares reused for the next iterate, truncated.
        let x2: i64 = (x2w / 0x1_0000_0000u128) as i64;
        let y2: i64 = (y2w / 0x1_0000_0000u128) as i64;
        proof {
            vstd::arithmetic::div_mod::lemma_div_is_ordered(
                x2w as int,
                rr,
                FX_ONE as int,
            );
            vstd::arithmetic::div_mod::lemma_div_is_ordered(
                y2w as int,
                rr,
                FX_ONE as int,
            );
            vstd::arithmetic::div_mod::lemma_div_is_ordered(
                rr,
                0x1000_0000_0000_0000_0000_0000,
                FX_ONE as int,
            );
            assert(x2 == mul_down(x as int, x as int));
            assert(y2 == mul_down(y as int, y as int));
            // The truncated product of the components is bounded through
            // half the squared radius.
            assert(vstd::math::abs((x as int) * (y as int)) <= 0x800_0000_0000_0000_0000_0000);
            vstd::arithmetic::div_mod::lemma_div_is_ordered(
                vstd::math::abs((x as int) * (y as int)) as int,
                0x800_0000_0000_0000_0000_0000,
                FX_ONE as int,
            );
        }
        let xy: i64 = mul_div(x, y, FX_ONE);
        let xn: i64 = x2 - y2 + x0.raw;
        let yn: i64 = xy + xy + y0.raw;
        proof {
            assert(xn == step_x(x as int, y as int, x0.raw as int));
            assert(yn == step_y(x as int, y as int, y0.raw as int));
            assert(!escaped(x as int, y as int, rr));
            if x0.raw == 0 && y0.raw == 0 {
                assert(xn == 0);
                assert(yn == 0);
            }
        }
        x = xn;
        y = yn;
        iteration = iteration + 1;
    }
    iteration
}

/// Largest pixel dimension of a viewport.
pub const PIXEL_LIMIT: usize = 0x10_0000;

/// Largest raw magnitude accepted for a range endpoint: `2^52`, a real
/// magnitude of `2^20`.
pub const RANGE_LIMIT: i64 = 0x10_0000_0000_0000;

/// Why a configuration was rejected.
#[derive(Clone, Copy, PartialEq, Eq, Structural, Debug)]
pub enum ConfigError {
    /// A pixel dimension is zero or above [`PIXEL_LIMIT`].
    InvalidDimensions,
    /// A range endpoint lies outside the representable window.
    RangeOutOfBounds,
    /// A range has equal endpoints, so the scale would divide by zero.
    DegenerateRange,
    /// A range is too narrow for the pixel grid: the scale overflows.
    RangeTooNarrow,
    /// The iteration cap is zero, or the escape radius is not positive or
    /// exceeds [`RADIUS_LIMIT`].
    ParameterOutOfBounds,
}

/// A relative sub-rectangle of the current view, each coordinate a
/// fixed-point fraction in `[0, 1]`.
#[derive(Clone, Copy, PartialEq, Eq, Structural, Debug)]
pub struct Cutout {
    /// Left edge, as a fraction of the view width.
    pub left: Fixed,
    /// Top edge, as a fraction of the view height.
    pub top: Fixed,
    /// Right edge, as a fraction of the view width.
    pub right: Fixed,
    /// Bottom edge, as a fraction of the view height.
    pub bottom: Fixed,
}

/// The width of a range: upper endpoint minus lower.
pub open spec fn range_width(range: (Fixed, Fixed)) -> int {
    range.1.raw - range.0.raw
}

/// The midpoint of a range, truncated toward zero.
pub open spec fn spec_offset(range: (Fixed, Fixed)) -> int {
    mul_div_down(range.0.raw + range.1.raw, 1, 2)
}

/// Pixels per plane unit: `len / width`, truncated toward zero on the raw
/// scale.
pub open spec fn spec_scale(len: int, range: (Fixed, Fixed)) -> int {
    mul_div_down(len * (FX_ONE as int), FX_ONE as int, range_width(range))
}

/// Whether the scale of this axis fits in a raw word.
pub open spec fn spec_scale_fits(len: int, range: (Fixed, Fixed)) -> bool {
    i64::MIN <= spec_scale(len, range) <= i64::MAX
}

/// Whether both endpoints lie inside the representable window.
pub open spec fn spec_range_in_window(range: (Fixed, Fixed)) -> bool {
    &&& -RANGE_LIMIT <= range.0.raw <= RANGE_LIMIT
    &&& -RANGE_LIMIT <= range.1.raw <= RANGE_LIMIT
}

/// Whether both pixel dimensions are positive and within the limit.
pub open spec fn spec_dims_ok(image_size: Dim<usize>) -> bool {
    &&& 1 <= image_size.x <= PIXEL_LIMIT
    &&& 1 <= image_size.y <= PIXEL_LIMIT
}

/// Whether a full configuration is acceptable.
pub open spec fn spec_config_ok(
    image_size: Dim<usize>,
    x_range: (Fixed, Fixed),
    y_range: (Fixed, Fixed),
) -> bool {
    &&& spec_dims_ok(image_size)
    &&& spec_range_in_window(x_range)
    &&& spec_range_in_window(y_range)
    &&& range_width(x_range) != 0
    &&& range_width(y_range) != 0
    &&& spec_scale_fits(image_size.x as int, x_range)
    &&& spec_scale_fits(image_size.y as int, y_range)
}

/// The error reported for an unacceptable configuration: the checks run
/// in this order.
pub open spec fn spec_config_err(
    image_size: Dim<usize>,
    x_range: (Fixed, Fixed),
    y_range: (Fixed, Fixed),
) -> ConfigError {
    if !spec_dims_ok(image_size) {
        ConfigError::InvalidDimensions
    } else if !spec_range_in_window(x_range) || !spec_range_in_window(y_range) {
        ConfigError::RangeOutOfBounds
    } else if range_width(x_range) == 0 || range_width(y_range) == 0 {
        ConfigError::DegenerateRange
    } else {
        ConfigError::RangeTooNarrow
    }
}

/// The viewport and the escape parameters of one render.
#[derive(Clone, Copy, Debug)]
pub struct Mandelbrot {
    /// Pixel dimensions of the grid.
    pub image_size: Dim<usize>,
    /// The window of the real axis shown, as `(min, max)`.
    pub x_range: (Fixed, Fixed),
    /// The window of the imaginary axis shown, as `(min, max)`.
    pub y_range: (Fixed, Fixed),
    /// Midpoint of each range; always consistent with the ranges.
    pub offset: Dim<Fixed>,
    /// Pixels per plane unit on each axis; always consistent with the
    /// ranges and the pixel dimensions.
    pub scale: Dim<Fixed>,
    /// The escape radius.
    pub radius: Fixed,
    /// The iteration cap.
    pub max_iterations: u64,
}

impl Mandelbrot {
    /// Derived state is never stale: offset and scale always follow from
    /// the current ranges and pixel size, and every parameter is in its
    /// accepted band.
    pub open spec fn wf(self) -> bool {
        &&& spec_config_ok(self.image_size, self.x_range, self.y_range)
        &&& self.offset.x.raw == spec_offset(self.x_range)
        &&& self.offset.y.raw == spec_offset(self.y_range)
        &&& self.scale.x.raw == spec_scale(self.image_size.x as int, self.x_range)
        &&& self.scale.y.raw == spec_scale(self.image_size.y as int, self.y_range)
        &&& 0 < self.radius.raw <= RADIUS_LIMIT
        &&& 1 <= self.max_iterations
    }

    /// The plane point under pixel column `px`: center, scale by the
    /// width-per-pixel ratio, translate by the offset.
    pub open spec fn spec_map_x(self, px: int) -> int {
        mul_div_down(
            px - (self.image_size.x as int) / 2,
            range_width(self.x_range),
            self.image_size.x as int,
        ) + spec_offset(self.x_range)
    }

    /// The plane point under pixel row `py`.
    pub open spec fn spec_map_y(self, py: int) -> int {
        mul_div_down(
            py - (self.image_size.y as int) / 2,
            range_width(self.y_range),
            self.image_size.y as int,
        ) + spec_offset(self.y_range)
    }
}

/// Offset and scale of one axis, or the exact reason they cannot be
/// derived.
fn derive_axis(len: usize, range: (Fixed, Fixed)) -> (r: Result<(Fixed, Fixed), ConfigError>)
    requires
        1 <= len <= PIXEL_LIMIT,
        spec_range_in_window(range),
    ensures
        match r {
            Ok((offset, scale)) => {
                &&& range_width(range) != 0
                &&& spec_scale_fits(len as int, range)
                &&& offset.raw == spec_offset(range)
                &&& scale.raw == spec_scale(len as int, range)
            },
            Err(e) => {
                &&& !(range_width(range) != 0 && spec_scale_fits(len as int, range))
                &&& e == (if range_width(range) == 0 {
                    ConfigError::DegenerateRange
                } else {
                    ConfigError::RangeTooNarrow
                })
            },
        },
{
    let width: Fixed = range.1.sub(range.0);
    if width.raw == 0 {
        return Err(ConfigError::DegenerateRange);
    }
    proof {
        lemma_mul_div_down_bound(
            range.0.raw as int + range.1.raw as int,
            1,
            2,
            2 * (RANGE_LIMIT as int),
            1,
        );
    }
    let offset: Fixed = Fixed { raw: mul_div(range.0.raw + range.1.raw, 1, 2) };
    let len_one: i64 = (len as i64) * FX_ONE;
    match mul_div_checked(len_one, FX_ONE, width.raw) {
        Some(s) => Ok((offset, Fixed { raw: s })),
        None => Err(ConfigError::RangeTooNarrow),
    }
}

impl Mandelbrot {
    /// A viewport over the given window, with the default escape radius of
    /// two and a cap of one thousand iterations.
    pub fn from_range(
        image_size: Dim<usize>,
        x_range: (Fixed, Fixed),
        y_range: (Fixed, Fixed),
    ) -> (r: Result<Self, ConfigError>)
        ensures
            r is Ok <==> spec_config_ok(image_size, x_range, y_range),
            match r {
                Ok(m) => {
                    &&& m.wf()
                    &&& m.image_size == image_size
                    &&& m.x_range == x_range
                    &&& m.y_range == y_range
                    &&& m.radius.raw == 2 * (FX_ONE as int)
                    &&& m.max_iterations == 1000
                },
                Err(e) => e == spec_config_err(image_size, x_range, y_range),
            },
    {
        if image_size.x == 0 || image_size.x > PIXEL_LIMIT || image_size.y == 0
            || image_size.y > PIXEL_LIMIT {
            return Err(ConfigError::InvalidDimensions);
        }
        if x_range.0.raw < -RANGE_LIMIT || x_range.0.raw > RANGE_LIMIT
            || x_range.1.raw < -RANGE_LIMIT || x_range.1.raw > RANGE_LIMIT
            || y_range.0.raw < -RANGE_LIMIT || y_range.0.raw > RANGE_LIMIT
            || y_range.1.raw < -RANGE_LIMIT || y_range.1.raw > RANGE_LIMIT {
            return Err(ConfigError::RangeOutOfBounds);
        }
        let x_derived = match derive_axis(image_size.x, x_range) {
            Ok(d) => d,
            Err(e) => {
                if x_range.1.raw - x_range.0.raw == 0
                    || y_range.1.raw - y_range.0.raw == 0 {
                    return Err(ConfigError::DegenerateRange);
                }
                return Err(e);
            },
        };
        let y_derived = match derive_axis(image_size.y, y_range) {
            Ok(d) => d,
            Err(e) => {
                if x_range.1.raw - x_range.0.raw == 0
                    || y_range.1.raw - y_range.0.raw == 0 {
                    return Err(ConfigError::DegenerateRange);
                }
                return Err(e);
            },
        };
        Ok(
            Mandelbrot {
                image_size,
                x_range,
                y_range,
                offset: Dim { x: x_derived.0, y: y_derived.0 },
                scale: Dim { x: x_derived.1, y: y_derived.1 },
                radius: Fixed { raw: 2 * FX_ONE },
                max_iterations: 1000,
            },
        )
    }

    /// The default view of the set: the real axis from -2.000 to 0.470 and
    /// the imaginary axis from -1.120 to 0.
    pub fn default(width: usize, height: usize) -> (r: Result<Self, ConfigError>)
        ensures
            r is Ok <==> spec_config_ok(
                Dim { x: width, y: height },
                (Fixed { raw: mul_div_down(-2000, FX_ONE as int, 1000) as i64 },
                    Fixed { raw: mul_div_down(470, FX_ONE as int, 1000) as i64 }),
                (Fixed { raw: mul_div_down(-1120, FX_ONE as int, 1000) as i64 },
                    Fixed { raw: 0 }),
            ),
            match r {
                Ok(m) => {
                    &&& m.wf()
                    &&& m.image_size == (Dim { x: width, y: height })
                    &&& m.x_range.0.raw == mul_div_down(-2000, FX_ONE as int, 1000)
                    &&& m.x_range.1.raw == mul_div_down(470, FX_ONE as int, 1000)
                    &&& m.y_range.0.raw == mul_div_down(-1120, FX_ONE as int, 1000)
                    &&& m.y_range.1.raw == 0
                    &&& m.radius.raw == 2 * (FX_ONE as int)
                    &&& m.max_iterations == 1000
                },
                Err(e) => e == spec_config_err(
                    Dim { x: width, y: height },
                    (Fixed { raw: mul_div_down(-2000, FX_ONE as int, 1000) as i64 },
                        Fixed { raw: mul_div_down(470, FX_ONE as int, 1000) as i64 }),
                    (Fixed { raw: mul_div_down(-1120, FX_ONE as int, 1000) as i64 },
                        Fixed { raw: 0 }),
                ),
            },
    {
        let x_range = (Fixed::from_milli(-2000), Fixed::from_milli(470));
        let y_range = (Fixed::from_milli(-1120), Fixed::from_milli(0));
        proof {
            crate::fixed::lemma_mul_div_down_zero(FX_ONE as int, 1000);
        }
        Self::from_range(Dim { x: width, y: height }, x_range, y_range)
    }

    /// Resizes the pixel grid and recomputes the scale; the ranges, and
    /// with them the offset, stay as they are. A rejected size leaves the
    /// viewport untouched.
    pub fn image_size(&mut self, w: usize, h: usize) -> (r: Result<(), ConfigError>)
        requires
            old(self).wf(),
        ensures
            final(self).wf(),
            r is Ok <==> spec_config_ok(Dim { x: w, y: h }, old(self).x_range, old(self).y_range),
            match r {
                Ok(()) => {
                    &&& final(self).image_size == (Dim { x: w, y: h })
                    &&& final(self).x_range == old(self).x_range
                    &&& final(self).y_range == old(self).y_range
                    &&& final(self).radius == old(self).radius
                    &&& final(self).max_iterations == old(self).max_iterations
                },
                Err(e) => {
                    &&& *final(self) == *old(self)
                    &&& e == spec_config_err(Dim { x: w, y: h }, old(self).x_range, old(self).y_range)
                },
            },
    {
        if w == 0 || w > PIXEL_LIMIT || h == 0 || h > PIXEL_LIMIT {
            return Err(ConfigError::InvalidDimensions);
        }
        let x_derived = match derive_axis(w, self.x_range) {
            Ok(d) => d,
            Err(e) => {
                return Err(if e == ConfigError::DegenerateRange {
                    ConfigError::DegenerateRange
                } else {
                    ConfigError::RangeTooNarrow
                });
            },
        };
        let y_derived = match derive_axis(h, self.y_range) {
            Ok(d) => d,
            Err(e) => {
                return Err(if e == ConfigError::DegenerateRange {
                    ConfigError::DegenerateRange
                } else {
                    ConfigError::RangeTooNarrow
                });
            },
        };
        self.image_size = Dim { x: w, y: h };
        self.offset = Dim { x: x_derived.0, y: y_derived.0 };
        self.scale = Dim { x: x_derived.1, y: y_derived.1 };
        Ok(())
    }

    /// Moves the view to a new window and recomputes offset and scale.
    /// A rejected window leaves the viewport untouched.
    pub fn change_range(&mut self, x_range: (Fixed, Fixed), y_range: (Fixed, Fixed)) -> (r:
        Result<(), ConfigError>)
        requires
            old(self).wf(),
        ensures
            final(self).wf(),
            r is Ok <==> spec_config_ok(old(self).image_size, x_range, y_range),
            match r {
                Ok(()) => {
                    &&& final(self).image_size == old(self).image_size
                    &&& final(self).x_range == x_range
                    &&& final(self).y_range == y_range
                    &&& final(self).radius == old(self).radius
                    &&& final(self).max_iterations == old(self).max_iterations
                },
                Err(e) => {
                    &&& *final(self) == *old(self)
                    &&& e == spec_config_err(old(self).image_size, x_range, y_range)
                },
            },
    {
        if x_range.0.raw < -RANGE_LIMIT || x_range.0.raw > RANGE_LIMIT
            || x_range.1.raw < -RANGE_LIMIT || x_range.1.raw > RANGE_LIMIT
            || y_range.0.raw < -RANGE_LIMIT || y_range.0.raw > RANGE_LIMIT
            || y_range.1.raw < -RANGE_LIMIT || y_range.1.raw > RANGE_LIMIT {
            return Err(ConfigError::RangeOutOfBounds);
        }
        if x_range.1.raw - x_range.0.raw == 0 || y_range.1.raw - y_range.0.raw == 0 {
            return Err(ConfigError::DegenerateRange);
        }
        let x_derived = match derive_axis(self.image_size.x, x_range) {
            Ok(d) => d,
            Err(_) => {
                return Err(ConfigError::RangeTooNarrow);
            },
        };
        let y_derived = match derive_axis(self.image_size.y, y_range) {
            Ok(d) => d,
            Err(_) => {
                return Err(ConfigError::RangeTooNarrow);
            },
        };
        self.x_range = x_range;
        self.y_range = y_range;
        self.offset = Dim { x: x_derived.0, y: y_derived.0 };
        self.scale = Dim { x: x_derived.1, y: y_derived.1 };
        Ok(())
    }

    /// Sets the escape radius; a value outside `(0, RADIUS_LIMIT]` is
    /// rejected and nothing changes.
    pub fn radius(&mut self, r: Fixed) -> (res: Result<(), ConfigError>)
        requires
            old(self).wf(),
        ensures
            final(self).wf(),
            res is Ok <==> 0 < r.raw <= RADIUS_LIMIT,
            match res {
                Ok(()) => *final(self) == (Mandelbrot { radius: r, ..*old(self) }),
                Err(e) => *final(self) == *old(self) && e == ConfigError::ParameterOutOfBounds,
            },
    {
        if r.raw <= 0 || r.raw > RADIUS_LIMIT {
            return Err(ConfigError::ParameterOutOfBounds);
        }
        self.radius = r;
        Ok(())
    }

    /// Sets the iteration cap; zero is rejected and nothing changes.
    pub fn max_iterations(&mut self, n: u64) -> (res: Result<(), ConfigError>)
        requires
            old(self).wf(),
        ensures
            final(self).wf(),
            res is Ok <==> n >= 1,
            match res {
                Ok(()) => *final(self) == (Mandelbrot { max_iterations: n, ..*old(self) }),
                Err(e) => *final(self) == *old(self) && e == ConfigError::ParameterOutOfBounds,
            },
    {
        if n == 0 {
            return Err(ConfigError::ParameterOutOfBounds);
        }
        self.max_iterations = n;
        Ok(())
    }

    /// The plane point under the pixel `(px, py)`: the pixel offset from
    /// the image center, scaled by the plane width per pixel, translated
    /// by the offset. The center pixel lands exactly on the offset.
    pub fn map_to_plane(&self, px: usize, py: usize) -> (r: (Fixed, Fixed))
        requires
            self.wf(),
            px < self.image_size.x,
            py < self.image_size.y,
        ensures
            r.0.raw == self.spec_map_x(px as int),
            r.1.raw == self.spec_map_y(py as int),
            -COORD_LIMIT <= r.0.raw <= COORD_LIMIT,
            -COORD_LIMIT <= r.1.raw <= COORD_LIMIT,
            px == self.image_size.x / 2 && py == self.image_size.y / 2 ==> r == (
            self.offset.x,
            self.offset.y,
            ),
    {
        let x0 = map_axis(px, self.image_size.x, self.x_range, self.offset.x);
        let y0 = map_axis(py, self.image_size.y, self.y_range, self.offset.y);
        (x0, y0)
    }

    /// The escape time of the pixel `(px, py)` under the current viewport
    /// and escape parameters.
    pub fn get_pixel(&self, px: usize, py: usize) -> (count: u64)
        requires
            self.wf(),
            px < self.image_size.x,
            py < self.image_size.y,
        ensures
            count == spec_evaluate(
                self.spec_map_x(px as int),
                self.spec_map_y(py as int),
                self.radius.raw as int,
                self.max_iterations as nat,
            ),
            count <= self.max_iterations,
    {
        let (x0, y0) = self.map_to_plane(px, py);
        evaluate(x0, y0, self.max_iterations, self.radius)
    }
}

/// One edge of the window selected by a relative cutout coordinate:
/// translate the range into non-negative space by subtracting its
/// minimum, scale the relative coordinate by the translated span, and
/// translate back. Folded together, that is linear interpolation from the
/// minimum: `min + rel * (max - min)`, for every window, whatever the
/// sign of the minimum.
pub open spec fn spec_cutout_edge(range: (Fixed, Fixed), rel: int) -> int {
    range.0.raw + mul_down(range_width(range), rel)
}

/// The edge of the window under one relative cutout coordinate.
fn cutout_edge(range: (Fixed, Fixed), rel: Fixed) -> (r: Fixed)
    requires
        spec_range_in_window(range),
        0 <= rel.raw <= FX_ONE,
    ensures
        r.raw == spec_cutout_edge(range, rel.raw as int),
        -COORD_LIMIT <= r.raw <= COORD_LIMIT,
{
    let width: Fixed = range.1.sub(range.0);
    proof {
        lemma_mul_div_down_bound(
            width.raw as int,
            rel.raw as int,
            FX_ONE as int,
            2 * (RANGE_LIMIT as int),
            FX_ONE as int,
        );
        vstd::arithmetic::div_mod::lemma_div_by_multiple(
            2 * (RANGE_LIMIT as int),
            FX_ONE as int,
        );
        assert(2 * (RANGE_LIMIT as int) * (FX_ONE as int) == (FX_ONE as int) * (2 * (
        RANGE_LIMIT as int))) by (nonlinear_arith);
    }
    range.0.add(width.mul(rel))
}

impl Mandelbrot {
    /// The absolute ranges selected by a relative cutout of the current
    /// view. The vertical edges follow the screen convention: the top of
    /// the cutout selects the lower end of the imaginary range.
    pub fn cutout_to_range(&self, rect: Cutout) -> (r: ((Fixed, Fixed), (Fixed, Fixed)))
        requires
            self.wf(),
            0 <= rect.left.raw <= FX_ONE,
            0 <= rect.top.raw <= FX_ONE,
            0 <= rect.right.raw <= FX_ONE,
            0 <= rect.bottom.raw <= FX_ONE,
        ensures
            r.0.0.raw == spec_cutout_edge(self.x_range, rect.left.raw as int),
            r.0.1.raw == spec_cutout_edge(self.x_range, rect.right.raw as int),
            r.1.0.raw == spec_cutout_edge(self.y_range, rect.top.raw as int),
            r.1.1.raw == spec_cutout_edge(self.y_range, rect.bottom.raw as int),
    {
        let new_x_range = (
            cutout_edge(self.x_range, rect.left),
            cutout_edge(self.x_range, rect.right),
        );
        let new_y_range = (
            cutout_edge(self.y_range, rect.top),
            cutout_edge(self.y_range, rect.bottom),
        );
        (new_x_range, new_y_range)
    }

    /// Zooms to a relative cutout of the current view: the new ranges are
    /// computed as in [`Mandelbrot::cutout_to_range`] and installed through
    /// the same validation as any other range change. A rejected cutout
    /// leaves the viewport untouched.
    pub fn zoom(&mut self, rect: Cutout) -> (r: Result<(), ConfigError>)
        requires
            old(self).wf(),
            0 <= rect.left.raw <= FX_ONE,
            0 <= rect.top.raw <= FX_ONE,
            0 <= rect.right.raw <= FX_ONE,
            0 <= rect.bottom.raw <= FX_ONE,
        ensures
            final(self).wf(),
            r is Ok <==> spec_config_ok(
                old(self).image_size,
                (Fixed { raw: spec_cutout_edge(old(self).x_range, rect.left.raw as int) as i64 },
                    Fixed { raw: spec_cutout_edge(old(self).x_range, rect.right.raw as int) as i64 }),
                (Fixed { raw: spec_cutout_edge(old(self).y_range, rect.top.raw as int) as i64 },
                    Fixed { raw: spec_cutout_edge(old(self).y_range, rect.bottom.raw as int) as i64 }),
            ),
            match r {
                Ok(()) => {
                    &&& final(self).image_size == old(self).image_size
                    &&& final(self).x_range.0.raw == spec_cutout_edge(
                        old(self).x_range,
                        rect.left.raw as int,
                    )
                    &&& final(self).x_range.1.raw == spec_cutout_edge(
                        old(self).x_range,
                        rect.right.raw as int,
                    )
                    &&& final(self).y_range.0.raw == spec_cutout_edge(
                        old(self).y_range,
                        rect.top.raw as int,
                    )
                    &&& final(self).y_range.1.raw == spec_cutout_edge(
                        old(self).y_range,
                        rect.bottom.raw as int,
                    )
                    &&& final(self).radius == old(self).radius
                    &&& final(self).max_iterations == old(self).max_iterations
                },
                Err(_) => *final(self) == *old(self),
            },
    {
        let (new_x_range, new_y_range) = self.cutout_to_range(rect);
        self.change_range(new_x_range, new_y_range)
    }
}

impl Mandelbrot {
    /// The color of the pixel `(x, y)` under the curve `used_scale`.
    pub open spec fn spec_color_at(self, x: int, y: int, used_scale: Scale) -> [u8; 3] {
        crate::color::spec_from_iterations(
            spec_evaluate(
                self.spec_map_x(x),
                self.spec_map_y(y),
                self.radius.raw as int,
                self.max_iterations as nat,
            ),
            self.max_iterations as nat,
            used_scale,
        )
    }

    /// Pixel row `y` of the rendered grid.
    pub open spec fn spec_color_row(self, y: int, used_scale: Scale) -> Seq<[u8; 3]> {
        Seq::new(self.image_size.x as nat, |x: int| self.spec_color_at(x, y, used_scale))
    }

    /// The full rendered grid, rows outer.
    pub open spec fn spec_color_grid(self, used_scale: Scale) -> Seq<Seq<[u8; 3]>> {
        Seq::new(self.image_size.y as nat, |y: int| self.spec_color_row(y, used_scale))
    }

    /// Renders pixel row `y`: every column mapped, evaluated and colored.
    pub fn render_row(&self, y: usize, used_scale: Scale) -> (r: Vec<[u8; 3]>)
        requires
            self.wf(),
            y < self.image_size.y,
        ensures
            r@ == self.spec_color_row(y as int, used_scale),
    {
        let w: usize = self.image_size.x;
        let mut row: Vec<[u8; 3]> = Vec::new();
        let mut x: usize = 0;
        while x < w
            invariant
                self.wf(),
                y < self.image_size.y,
                w == self.image_size.x,
                x <= w,
                row@.len() == x,
                forall|i: int|
                    0 <= i < x ==> row@[i] == self.spec_color_at(i, y as int, used_scale),
            decreases w - x,
        {
            let iteration: u64 = self.get_pixel(x, y);
            let c: [u8; 3] = crate::color::from_iterations(
                iteration,
                self.max_iterations,
                used_scale,
            );
            row.push(c);
            x = x + 1;
        }
        proof {
            assert(row@ =~= self.spec_color_row(y as int, used_scale));
        }
        row
    }

    /// Renders the full grid with one sequential pass, row by row.
    pub fn collect_color_map(&self, used_scale: Scale) -> (r: Vec<Vec<[u8; 3]>>)
        requires
            self.wf(),
        ensures
            r@.len() == self.image_size.y,
            forall|y: int|
                0 <= y < self.image_size.y ==> (#[trigger] r@[y])@ == self.spec_color_row(
                    y,
                    used_scale,
                ),
    {
        let h: usize = self.image_size.y;
        let mut rows: Vec<Vec<[u8; 3]>> = Vec::new();
        let mut y: usize = 0;
        while y < h
            invariant
                self.wf(),
                h == self.image_size.y,
                y <= h,
                rows@.len() == y,
                forall|i: int|
                    0 <= i < y ==> (#[trigger] rows@[i])@ == self.spec_color_row(i, used_scale),
            decreases h - y,
        {
            let row = self.render_row(y, used_scale);
            rows.push(row);
            y = y + 1;
        }
        rows
    }

    /// Renders the pixel rows `y_start` up to `y_end`, fanned out over the
    /// worker pool; the rows come back in order, exactly as a sequential
    /// pass would produce them.
    pub fn generate_rows(&self, y_start: usize, y_end: usize, used_scale: Scale) -> (r: Vec<
        Vec<[u8; 3]>,
    >)
        requires
            self.wf(),
            y_start <= y_end <= self.image_size.y,
        ensures
            r@.len() == y_end - y_start,
            forall|i: int|
                0 <= i < y_end - y_start ==> (#[trigger] r@[i])@ == self.spec_color_row(
                    y_start + i,
                    used_scale,
                ),
    {
        par_render_rows(self, y_start, y_end, used_scale)
    }

    /// Renders the full grid, fanned out over the worker pool, with the
    /// default square-root curve. Returns exactly one row per pixel row
    /// and one entry per pixel: the grid is always fully populated.
    pub fn get_color_map(&self) -> (r: Vec<Vec<[u8; 3]>>)
        requires
            self.wf(),
        ensures
            r@.len() == self.image_size.y,
            forall|y: int|
                0 <= y < self.image_size.y ==> (#[trigger] r@[y])@ == self.spec_color_row(
                    y,
                    Scale::Exponential,
                ),
            forall|y: int|
                0 <= y < self.image_size.y ==> (#[trigger] r@[y])@.len() == self.image_size.x,
    {
        self.generate_rows(0, self.image_size.y, Scale::Exponential)
    }

    /// Renders the pixel rows `y_start` up to `y_end` and flattens them to
    /// row-major RGB bytes, three per pixel.
    pub fn generate_rows_bin(&self, y_start: usize, y_end: usize, used_scale: Scale) -> (r: Vec<
        u8,
    >)
        requires
            self.wf(),
            y_start <= y_end <= self.image_size.y,
            3 * ((y_end - y_start) * self.image_size.x) <= usize::MAX,
        ensures
            r@.len() == 3 * ((y_end - y_start) * self.image_size.x),
            forall|i: int, x: int|
                0 <= i < y_end - y_start && 0 <= x < self.image_size.x ==> {
                    let p = #[trigger] self.spec_color_at(x, y_start + i, used_scale);
                    let base = 3 * (i * self.image_size.x + x);
                    &&& r@[base] == p[0]
                    &&& r@[base + 1] == p[1]
                    &&& r@[base + 2] == p[2]
                },
    {
        let rows = self.generate_rows(y_start, y_end, used_scale);
        proof {
            if rows@.len() > 0 {
                assert(rows@[0]@ == self.spec_color_row(y_start as int, used_scale));
                assert(crate::data::grid_width(rows@) == self.image_size.x);
            } else {
                assert(rows@.len() * crate::data::grid_width(rows@) == (y_end - y_start)
                    * self.image_size.x) by (nonlinear_arith)
                    requires
                        rows@.len() == 0,
                        y_end == y_start,
                ;
            }
            assert(crate::data::rectangular(rows@));
            assert(rows@.len() * crate::data::grid_width(rows@) == (y_end - y_start)
                * self.image_size.x);
        }
        let bin = crate::data::to_rgb_binary(&rows);
        proof {
            assert forall|i: int, x: int|
                0 <= i < y_end - y_start && 0 <= x < self.image_size.x implies {
                let p = #[trigger] self.spec_color_at(x, y_start + i, used_scale);
                let base = 3 * (i * self.image_size.x + x);
                &&& bin@[base] == p[0]
                &&& bin@[base + 1] == p[1]
                &&& bin@[base + 2] == p[2]
            } by {
                assert(rows@[i]@ == self.spec_color_row(y_start + i, used_scale));
                assert(rows@[i]@[x] == self.spec_color_at(x, y_start + i, used_scale));
            };
        }
        bin
    }

    /// Flattens a grid rendered for this viewport to row-major RGBA
    /// bytes, the alpha channel fully opaque.
    pub fn to_binary(&self, yx_map: &Vec<Vec<[u8; 3]>>) -> (r: Vec<u8>)
        requires
            self.wf(),
            yx_map@.len() == self.image_size.y,
            forall|y: int|
                0 <= y < yx_map@.len() ==> (#[trigger] yx_map@[y])@.len() == self.image_size.x,
            4 * (self.image_size.y * self.image_size.x) <= usize::MAX,
        ensures
            r@.len() == 4 * (self.image_size.y * self.image_size.x),
            forall|y: int, x: int|
                0 <= y < self.image_size.y && 0 <= x < self.image_size.x ==> {
                    let p = #[trigger] yx_map@[y]@[x];
                    let base = 4 * (y * self.image_size.x + x);
                    &&& r@[base] == p[0]
                    &&& r@[base + 1] == p[1]
                    &&& r@[base + 2] == p[2]
                    &&& r@[base + 3] == 255u8
                },
    {
        crate::data::to_rgba_binary(yx_map)
    }
}

/// One full render: builds a viewport over the given window, installs the
/// escape parameters, and returns the completely populated color grid,
/// rows outer. Rejected parameters report the configuration error and no
/// grid is produced.
pub fn render(
    width: usize,
    height: usize,
    x_range: (Fixed, Fixed),
    y_range: (Fixed, Fixed),
    max_iterations: u64,
    escape_radius: Fixed,
    used_scale: Scale,
) -> (r: Result<Vec<Vec<[u8; 3]>>, ConfigError>)
    ensures
        r is Ok <==> (spec_config_ok(Dim { x: width, y: height }, x_range, y_range)
            && max_iterations >= 1 && 0 < escape_radius.raw <= RADIUS_LIMIT),
        match r {
            Ok(grid) => {
                let m = Mandelbrot {
                    image_size: Dim { x: width, y: height },
                    x_range,
                    y_range,
                    offset: Dim {
                        x: Fixed { raw: spec_offset(x_range) as i64 },
                        y: Fixed { raw: spec_offset(y_range) as i64 },
                    },
                    scale: Dim {
                        x: Fixed { raw: spec_scale(width as int, x_range) as i64 },
                        y: Fixed { raw: spec_scale(height as int, y_range) as i64 },
                    },
                    radius: escape_radius,
                    max_iterations,
                };
                &&& grid@.len() == height
                &&& forall|y: int|
                    0 <= y < height ==> (#[trigger] grid@[y])@ == m.spec_color_row(y, used_scale)
            },
            Err(e) => e == (if !spec_config_ok(Dim { x: width, y: height }, x_range, y_range) {
                spec_config_err(Dim { x: width, y: height }, x_range, y_range)
            } else {
                ConfigError::ParameterOutOfBounds
            }),
        },
{
    let mut m = match Mandelbrot::from_range(Dim { x: width, y: height }, x_range, y_range) {
        Ok(m) => m,
        Err(e) => {
            return Err(e);
        },
    };
    match m.max_iterations(max_iterations) {
        Ok(()) => (),
        Err(e) => {
            return Err(e);
        },
    }
    match m.radius(escape_radius) {
        Ok(()) => (),
        Err(e) => {
            return Err(e);
        },
    }
    let grid = m.generate_rows(0, height, used_scale);
    Ok(grid)
}

/// The rendered grid is a function of the viewport and the curve alone:
/// two fully populated grids for the same configuration are identical,
/// entry for entry, no matter in what order or on how many workers their
/// pixels were computed.
pub proof fn lemma_grid_concurrency_invariant(
    m: Mandelbrot,
    used_scale: Scale,
    g1: Seq<Seq<[u8; 3]>>,
    g2: Seq<Seq<[u8; 3]>>,
)
    requires
        g1.len() == m.image_size.y,
        g2.len() == m.image_size.y,
        forall|y: int|
            0 <= y < m.image_size.y ==> (#[trigger] g1[y]) == m.spec_color_row(y, used_scale),
        forall|y: int|
            0 <= y < m.image_size.y ==> (#[trigger] g2[y]) == m.spec_color_row(y, used_scale),
    ensures
        g1 == g2,
{
    assert(g1 =~= g2);
}

/// Relies on rayon's parallel iterator over a range of row indices:
/// `map` applies the verified `render_row` to every index exactly once,
/// and `collect` keeps the results in index order, so the grid equals the
/// one a sequential loop over the same indices builds.
#[verifier::external_body]
fn par_render_rows(m: &Mandelbrot, y_start: usize, y_end: usize, used_scale: Scale) -> (r: Vec<
    Vec<[u8; 3]>,
>)
    requires
        m.wf(),
        y_start <= y_end <= m.image_size.y,
    ensures
        r@.len() == y_end - y_start,
        forall|i: int|
            0 <= i < y_end - y_start ==> (#[trigger] r@[i])@ == m.spec_color_row(
                y_start + i,
                used_scale,
            ),
{
    (y_start..y_end).into_par_iter().map(|y| m.render_row(y, used_scale)).collect()
}

/// The plane coordinate of one pixel on one axis.
fn map_axis(p: usize, len: usize, range: (Fixed, Fixed), offset: Fixed) -> (r: Fixed)
    requires
        1 <= len <= PIXEL_LIMIT,
        p < len,
        spec_range_in_window(range),
        offset.raw == spec_offset(range),
    ensures
        r.raw == mul_div_down(
            p as int - (len as int) / 2,
            range_width(range),
            len as int,
        ) + spec_offset(range),
        -COORD_LIMIT <= r.raw <= COORD_LIMIT,
        p == len / 2 ==> r == offset,
    {
    let half: usize = len / 2;
    let p_off: i64 = p as i64 - half as i64;
    let width: Fixed = range.1.sub(range.0);
    proof {
        lemma_mul_div_down_bound(
            p_off as int,
            width.raw as int,
            len as int,
            len as int,
            2 * (RANGE_LIMIT as int),
        );
        vstd::arithmetic::div_mod::lemma_div_by_multiple(2 * (RANGE_LIMIT as int), len as int);
        assert(2 * (RANGE_LIMIT as int) * (len as int) == (len as int) * (2 * (RANGE_LIMIT as int)))
            by (nonlinear_arith);
        lemma_mul_div_down_bound(
            range.0.raw as int + range.1.raw as int,
            1,
            2,
            2 * (RANGE_LIMIT as int),
            1,
        );
        if p == half {
            crate::fixed::lemma_mul_div_down_zero(width.raw as int, len as int);
        }
    }
    let m: Fixed = Fixed { raw: mul_div(p_off, width.raw, len as i64) };
    m.add(offset)
}

} // verus!
