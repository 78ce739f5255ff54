//! Grid generation, colors, and byte flattening.

use mandelbrot::color::exponential;
use mandelbrot::color::from_iterations;
use mandelbrot::color::linear;
use mandelbrot::color::logarithmic;
use mandelbrot::color::Scale;
use mandelbrot::data::to_binary;
use mandelbrot::data::to_rgb_binary;
use mandelbrot::data::to_rgba_binary;
use mandelbrot::data::ColorMap;
use mandelbrot::fixed::Fixed;
use mandelbrot::sets::render;
use mandelbrot::sets::ConfigError;
use mandelbrot::sets::Mandelbrot;
use mandelbrot::util::Matrix;

fn default_view() -> Mandelbrot {
    Mandelbrot::default(100, 100).unwrap()
}

#[test]
fn grid_is_complete() {
    // A W x H viewport yields exactly H rows of exactly W colors.
    let m = Mandelbrot::default(40, 25).unwrap();
    let grid = m.get_color_map();
    assert_eq!(grid.len(), 25);
    for row in &grid {
        assert_eq!(row.len(), 40);
    }
}

#[test]
fn grid_entries_are_the_per_pixel_colors() {
    let m = Mandelbrot::default(16, 16).unwrap();
    let grid = m.get_color_map();
    for y in 0..16 {
        for x in 0..16 {
            let count = m.get_pixel(x, y);
            assert_eq!(grid[y][x], from_iterations(count, m.max_iterations, Scale::Exponential));
        }
    }
}

#[test]
fn worker_count_never_changes_the_grid() {
    // The same viewport rendered on one worker, on four workers, and
    // sequentially gives bit-identical grids.
    let m = default_view();
    let serial = m.collect_color_map(Scale::Exponential);
    let one = rayon::ThreadPoolBuilder::new()
        .num_threads(1)
        .build()
        .unwrap()
        .install(|| m.get_color_map());
    let four = rayon::ThreadPoolBuilder::new()
        .num_threads(4)
        .build()
        .unwrap()
        .install(|| m.get_color_map());
    assert_eq!(one, four);
    assert_eq!(one, serial);
}

#[test]
fn generate_rows_matches_the_full_grid() {
    let m = Mandelbrot::default(20, 20).unwrap();
    let grid = m.collect_color_map(Scale::Exponential);
    let band = m.generate_rows(5, 9, Scale::Exponential);
    assert_eq!(band.len(), 4);
    for (i, row) in band.iter().enumerate() {
        assert_eq!(row, &grid[5 + i]);
    }
}

#[test]
fn generate_rows_bin_flattens_the_band() {
    let m = Mandelbrot::default(10, 10).unwrap();
    let band = m.generate_rows(2, 4, Scale::Exponential);
    let bin = m.generate_rows_bin(2, 4, Scale::Exponential);
    assert_eq!(bin.len(), 2 * 10 * 3);
    for (i, row) in band.iter().enumerate() {
        for (x, p) in row.iter().enumerate() {
            let base = 3 * (i * 10 + x);
            assert_eq!(&bin[base..base + 3], &p[..]);
        }
    }
}

#[test]
fn render_entry_point_matches_the_viewport_pipeline() {
    let x_range = (Fixed::from_milli(-2000), Fixed::from_milli(470));
    let y_range = (Fixed::from_milli(-1120), Fixed::from_milli(0));
    let radius = Fixed::from_milli(2000);
    let grid = render(32, 32, x_range, y_range, 1000, radius, Scale::Exponential).unwrap();
    let m = Mandelbrot::default(32, 32).unwrap();
    assert_eq!(grid, m.get_color_map());
    assert_eq!(
        render(0, 32, x_range, y_range, 1000, radius, Scale::Exponential).unwrap_err(),
        ConfigError::InvalidDimensions
    );
    assert_eq!(
        render(32, 32, x_range, y_range, 0, radius, Scale::Exponential).unwrap_err(),
        ConfigError::ParameterOutOfBounds
    );
}

#[test]
fn gradient_extremes_are_distinct() {
    // Zero iterations and the cap land on the two fixed extreme colors,
    // under every curve.
    for scale in [Scale::Linear, Scale::Logarithmic, Scale::Exponential] {
        let low = from_iterations(0, 1000, scale);
        let high = from_iterations(1000, 1000, scale);
        assert_ne!(low, high);
        assert_eq!(low, [255, 85, 0]);
        assert_eq!(high, [255, 0, 170]);
    }
}

#[test]
fn brightness_curves_hit_exact_values() {
    assert_eq!(linear(500, 1000), 32768);
    assert_eq!(linear(0, 1000), 0);
    assert_eq!(linear(1000, 1000), 65536);
    assert_eq!(exponential(250, 1000), 32768);
    assert_eq!(exponential(1000, 1000), 65536);
    assert_eq!(logarithmic(0, 1000), 0);
    assert_eq!(logarithmic(1000, 1000), 65536);
}

#[test]
fn curves_are_monotone_on_samples() {
    for scale in [Scale::Linear, Scale::Logarithmic, Scale::Exponential] {
        let mut prev = 0u64;
        for i in 0..=100u64 {
            let f = match scale {
                Scale::Linear => linear(i, 100),
                Scale::Logarithmic => logarithmic(i, 100),
                Scale::Exponential => exponential(i, 100),
            };
            assert!(f >= prev);
            prev = f;
        }
        assert_eq!(prev, 65536);
    }
}

#[test]
fn known_color_values() {
    assert_eq!(from_iterations(5, 1000, Scale::Exponential), [255, 175, 0]);
    assert_eq!(from_iterations(500, 1000, Scale::Linear), [0, 255, 212]);
    assert_eq!(from_iterations(10, 1000, Scale::Logarithmic), [255, 244, 0]);
}

#[test]
fn rgba_flattening_is_row_major_with_opaque_alpha() {
    let grid = vec![
        vec![[1u8, 2, 3], [4, 5, 6]],
        vec![[7, 8, 9], [10, 11, 12]],
    ];
    let bytes = to_rgba_binary(&grid);
    assert_eq!(
        bytes,
        vec![1, 2, 3, 255, 4, 5, 6, 255, 7, 8, 9, 255, 10, 11, 12, 255]
    );
    let m = Mandelbrot::default(2, 2).unwrap();
    assert_eq!(m.to_binary(&grid), bytes);
}

#[test]
fn rgb_flattening_is_row_major() {
    let grid = vec![
        vec![[1u8, 2, 3], [4, 5, 6]],
        vec![[7, 8, 9], [10, 11, 12]],
    ];
    assert_eq!(
        to_rgb_binary(&grid),
        vec![1, 2, 3, 4, 5, 6, 7, 8, 9, 10, 11, 12]
    );
    assert_eq!(to_rgb_binary(&Vec::new()), Vec::<u8>::new());
}

#[test]
fn rgba_grid_flattening_keeps_all_four_channels() {
    let grid = vec![
        vec![[1u8, 2, 3, 4], [5, 6, 7, 8]],
        vec![[9, 10, 11, 12], [13, 14, 15, 16]],
    ];
    let bytes = to_binary(&grid);
    assert_eq!(
        bytes,
        vec![1, 2, 3, 4, 5, 6, 7, 8, 9, 10, 11, 12, 13, 14, 15, 16]
    );
}

#[test]
fn matrix_round_trip_and_raw_bytes() {
    let mut m = Matrix::dim(3, 2);
    assert_eq!(m.width, 3);
    assert_eq!(m.height, 2);
    assert_eq!(m.get(2, 1), [0, 0, 0]);
    m.set(1, 0, [9, 8, 7]);
    m.set(2, 1, [1, 2, 3]);
    assert_eq!(m.get(1, 0), [9, 8, 7]);
    assert_eq!(m.get(2, 1), [1, 2, 3]);
    assert_eq!(m.get(0, 0), [0, 0, 0]);
    let raw = m.raw();
    assert_eq!(raw.len(), 24);
    assert_eq!(&raw[4..8], &[9, 8, 7, 255]);
    assert_eq!(&raw[20..24], &[1, 2, 3, 255]);
    assert_eq!(&raw[0..4], &[0, 0, 0, 255]);
}

#[test]
fn color_map_is_opaque_black_and_row_major() {
    let c = ColorMap::new(4, 3);
    assert_eq!(c.width, 4);
    assert_eq!(c.height, 3);
    assert_eq!(c.data.len(), 12);
    assert_eq!(c.index((3, 2)), [0, 0, 0, 255]);
    assert_eq!(c.index((0, 0)), [0, 0, 0, 255]);
}
