//! The viewport: construction, validation, pixel-to-plane mapping, zoom.

use mandelbrot::fixed::Fixed;
use mandelbrot::fixed::FX_ONE;
use mandelbrot::sets::ConfigError;
use mandelbrot::sets::Cutout;
use mandelbrot::sets::Mandelbrot;
use mandelbrot::util::Dim;

fn fx(raw: i64) -> Fixed {
    Fixed { raw }
}

fn default_view() -> Mandelbrot {
    Mandelbrot::default(100, 100).unwrap()
}

#[test]
fn default_view_carries_the_standard_window() {
    let m = default_view();
    assert_eq!(m.image_size.x, 100);
    assert_eq!(m.image_size.y, 100);
    assert_eq!(m.x_range.0.raw, -8589934592);
    assert_eq!(m.x_range.1.raw, 2018634629);
    assert_eq!(m.y_range.0.raw, -4810363371);
    assert_eq!(m.y_range.1.raw, 0);
    assert_eq!(m.radius.raw, 2 * FX_ONE);
    assert_eq!(m.max_iterations, 1000);
    // Derived state is consistent with the ranges from the start.
    assert_eq!(m.offset.x.raw, -3285649981);
    assert_eq!(m.offset.y.raw, -2405181685);
    assert_eq!(m.scale.x.raw, 173885315629);
    assert_eq!(m.scale.y.raw, 383479222898);
}

#[test]
fn center_pixel_maps_to_the_offset() {
    // The pixel at the image center lands exactly on the configured
    // offset, whatever the dimensions and ranges.
    let m = default_view();
    let (x0, y0) = m.map_to_plane(50, 50);
    assert_eq!(x0, m.offset.x);
    assert_eq!(y0, m.offset.y);

    let mut n = Mandelbrot::default(357, 123).unwrap();
    n.change_range((fx(-123456789), fx(987654321)), (fx(-5555555), fx(44444444)))
        .unwrap();
    let (cx, cy) = n.map_to_plane(357 / 2, 123 / 2);
    assert_eq!(cx, n.offset.x);
    assert_eq!(cy, n.offset.y);
}

#[test]
fn corner_pixel_maps_to_the_window_corner() {
    let m = default_view();
    let (x0, y0) = m.map_to_plane(0, 0);
    // One truncation step away from the exact range minimum.
    assert_eq!(x0.raw, -8589934591);
    assert_eq!(y0.raw, -4810363370);
}

#[test]
fn example_scenario_interior_and_exterior_pixels() {
    // Viewport 100 x 100 over the standard window, cap 1000, radius 2:
    // the pixel (65, 50) sits in the main cardioid and runs to the cap,
    // while the corner pixel (0, 0) escapes almost at once.
    let m = default_view();
    assert_eq!(m.get_pixel(65, 50), 1000);
    assert!(m.get_pixel(0, 0) < 10);
}

#[test]
fn zero_dimension_is_rejected() {
    assert_eq!(Mandelbrot::default(0, 100).unwrap_err(), ConfigError::InvalidDimensions);
    assert_eq!(Mandelbrot::default(100, 0).unwrap_err(), ConfigError::InvalidDimensions);
    let mut m = default_view();
    assert_eq!(m.image_size(0, 50).unwrap_err(), ConfigError::InvalidDimensions);
    // A rejected size leaves the viewport untouched.
    assert_eq!(m.image_size.x, 100);
    assert_eq!(m.image_size.y, 100);
}

#[test]
fn out_of_window_range_is_rejected() {
    let mut m = default_view();
    let err = m
        .change_range((fx(i64::MIN / 2), fx(0)), (fx(0), fx(FX_ONE)))
        .unwrap_err();
    assert_eq!(err, ConfigError::RangeOutOfBounds);
    assert_eq!(m.x_range.0.raw, -8589934592);
}

#[test]
fn degenerate_range_is_rejected() {
    let mut m = default_view();
    let err = m
        .change_range((fx(5), fx(5)), (fx(0), fx(FX_ONE)))
        .unwrap_err();
    assert_eq!(err, ConfigError::DegenerateRange);
    let err = Mandelbrot::from_range(
        Dim::new(10, 10),
        (fx(0), fx(FX_ONE)),
        (fx(-7), fx(-7)),
    )
    .unwrap_err();
    assert_eq!(err, ConfigError::DegenerateRange);
}

#[test]
fn too_narrow_range_is_rejected() {
    // A window a single raw unit wide cannot carry a scale for a
    // hundred-pixel axis.
    let mut m = default_view();
    let err = m
        .change_range((fx(0), fx(1)), (fx(0), fx(FX_ONE)))
        .unwrap_err();
    assert_eq!(err, ConfigError::RangeTooNarrow);
}

#[test]
fn inverted_range_is_tolerated() {
    // min > max is accepted defensively; the scale is negative.
    let mut m = default_view();
    m.change_range((fx(FX_ONE), fx(-FX_ONE)), (fx(-FX_ONE), fx(FX_ONE)))
        .unwrap();
    assert_eq!(m.x_range.0.raw, FX_ONE);
    assert_eq!(m.x_range.1.raw, -FX_ONE);
}

#[test]
fn bad_parameters_are_rejected() {
    let mut m = default_view();
    assert_eq!(m.max_iterations(0).unwrap_err(), ConfigError::ParameterOutOfBounds);
    assert_eq!(m.radius(fx(0)).unwrap_err(), ConfigError::ParameterOutOfBounds);
    assert_eq!(m.radius(fx(-FX_ONE)).unwrap_err(), ConfigError::ParameterOutOfBounds);
    assert_eq!(m.max_iterations, 1000);
    assert_eq!(m.radius.raw, 2 * FX_ONE);
    m.max_iterations(40_000).unwrap();
    m.radius(Fixed::from_int(10)).unwrap();
    assert_eq!(m.max_iterations, 40_000);
    assert_eq!(m.radius.raw, 10 * FX_ONE);
}

#[test]
fn full_cutout_is_the_identity_zoom() {
    let mut m = default_view();
    let rect = Cutout { left: fx(0), top: fx(0), right: fx(FX_ONE), bottom: fx(FX_ONE) };
    m.zoom(rect).unwrap();
    assert_eq!(m.x_range.0.raw, -8589934592);
    assert_eq!(m.x_range.1.raw, 2018634629);
    assert_eq!(m.y_range.0.raw, -4810363371);
    assert_eq!(m.y_range.1.raw, 0);
}

#[test]
fn quarter_cutout_zooms_into_the_middle() {
    let mut m = default_view();
    let quarter = fx(FX_ONE / 4);
    let three_quarters = fx(3 * (FX_ONE / 4));
    let rect = Cutout { left: quarter, top: quarter, right: three_quarters, bottom: three_quarters };
    let old = (m.x_range, m.y_range);
    let (new_x, new_y) = m.cutout_to_range(rect);
    assert_eq!(new_x.0.raw, -5937792287);
    assert_eq!(new_x.1.raw, -633507677);
    assert_eq!(new_y.0.raw, -3607772529);
    assert_eq!(new_y.1.raw, -1202590843);
    // cutout_to_range alone does not move the view.
    assert_eq!((m.x_range, m.y_range), old);
    m.zoom(rect).unwrap();
    assert_eq!(m.x_range.0.raw, -5937792287);
    assert_eq!(m.x_range.1.raw, -633507677);
}

#[test]
fn positive_minimum_window_interpolates_from_its_minimum() {
    let mut m = default_view();
    m.change_range((Fixed::from_int(1), Fixed::from_int(3)), (fx(-FX_ONE), fx(FX_ONE)))
        .unwrap();
    // The full cutout is the identity on every window, also on one that
    // starts above zero.
    let rect = Cutout { left: fx(0), top: fx(0), right: fx(FX_ONE), bottom: fx(FX_ONE) };
    let (nx, ny) = m.cutout_to_range(rect);
    assert_eq!(nx.0.raw, FX_ONE);
    assert_eq!(nx.1.raw, 3 * FX_ONE);
    assert_eq!(ny.0.raw, -FX_ONE);
    assert_eq!(ny.1.raw, FX_ONE);
    // The middle half interpolates from the minimum: (1, 3) -> (1.5, 2.5).
    let quarter = fx(FX_ONE / 4);
    let three_quarters = fx(3 * (FX_ONE / 4));
    let rect = Cutout { left: quarter, top: quarter, right: three_quarters, bottom: three_quarters };
    let (nx, ny) = m.cutout_to_range(rect);
    assert_eq!(nx.0.raw, FX_ONE + FX_ONE / 2);
    assert_eq!(nx.1.raw, 2 * FX_ONE + FX_ONE / 2);
    assert_eq!(ny.0.raw, -(FX_ONE / 2));
    assert_eq!(ny.1.raw, FX_ONE / 2);
}

#[test]
fn resizing_recomputes_the_scale_and_keeps_the_ranges() {
    let mut m = default_view();
    let old_ranges = (m.x_range, m.y_range);
    let old_scale = m.scale.x.raw;
    m.image_size(200, 50).unwrap();
    assert_eq!(m.image_size.x, 200);
    assert_eq!(m.image_size.y, 50);
    assert_eq!((m.x_range, m.y_range), old_ranges);
    assert_eq!(m.scale.x.raw, 2 * old_scale);
}
