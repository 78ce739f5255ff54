//! The escape-time evaluator on concrete plane points.

use mandelbrot::fixed::Fixed;
use mandelbrot::fixed::FX_ONE;
use mandelbrot::sets::evaluate;

fn fx(raw: i64) -> Fixed {
    Fixed { raw }
}

#[test]
fn from_milli_is_exact_on_whole_numbers() {
    assert_eq!(Fixed::from_milli(2000).raw, 2 * FX_ONE);
    assert_eq!(Fixed::from_milli(-2000).raw, -2 * FX_ONE);
    assert_eq!(Fixed::from_milli(0).raw, 0);
    assert_eq!(Fixed::from_milli(470).raw, 2018634629);
    assert_eq!(Fixed::from_milli(-1120).raw, -4810363371);
}

#[test]
fn from_int_scales_by_the_fractional_unit() {
    assert_eq!(Fixed::from_int(3).raw, 3 * FX_ONE);
    assert_eq!(Fixed::from_int(-7).raw, -7 * FX_ONE);
    assert_eq!(Fixed::from_int(0).raw, 0);
}

#[test]
fn origin_never_escapes() {
    // The origin is a fixed point of the recurrence: the count is always
    // the full iteration cap, whatever the radius.
    let zero = fx(0);
    let radius = Fixed::from_milli(2000);
    assert_eq!(evaluate(zero, zero, 7, radius), 7);
    assert_eq!(evaluate(zero, zero, 1, radius), 1);
    assert_eq!(evaluate(zero, zero, 1000, fx(0)), 1000);
    assert_eq!(evaluate(zero, zero, 1000, fx(1)), 1000);
}

#[test]
fn far_point_escapes_on_the_first_iteration() {
    // c = (2, 2) lies outside radius 2, so the first test after one
    // completed iteration already reports divergence.
    let two = Fixed::from_int(2);
    assert_eq!(evaluate(two, two, 1000, two), 1);
    // Any point with |c| > radius behaves the same.
    assert_eq!(evaluate(Fixed::from_int(3), fx(0), 500, two), 1);
    assert_eq!(evaluate(fx(0), Fixed::from_int(-3), 500, two), 1);
}

#[test]
fn evaluate_is_pure() {
    // Identical inputs always give identical output.
    let x0 = Fixed::from_milli(-394);
    let y0 = Fixed::from_milli(-560);
    let r = Fixed::from_milli(2000);
    let first = evaluate(x0, y0, 1000, r);
    let second = evaluate(x0, y0, 1000, r);
    assert_eq!(first, second);
}

#[test]
fn count_never_exceeds_the_cap() {
    let r = Fixed::from_milli(2000);
    for i in -4..=4i32 {
        for j in -4..=4i32 {
            let x0 = Fixed::from_milli((i as i64) * 500);
            let y0 = Fixed::from_milli((j as i64) * 500);
            let count = evaluate(x0, y0, 25, r);
            assert!(count <= 25);
        }
    }
}

#[test]
fn known_interior_and_exterior_points() {
    let r = Fixed::from_milli(2000);
    // Inside the main cardioid: runs to the cap.
    assert_eq!(evaluate(Fixed::from_milli(-100), fx(0), 1000, r), 1000);
    // Far outside: escapes quickly.
    assert!(evaluate(Fixed::from_milli(1500), Fixed::from_milli(1500), 1000, r) < 5);
}
