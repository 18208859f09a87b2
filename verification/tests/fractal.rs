//! Iteration-driver tests and the pixel mapping.

use fractal_toolkit::complex::ComplexValue;
use fractal_toolkit::fixed::{Fx, FX_SCALE};
use fractal_toolkit::iterate::{julia_iterations, mandelbrot_iterations, pixel_to_complex, FractalParams};
use fractal_toolkit::render::FractalRenderer;

fn fx(n: i64) -> Fx {
    Fx::from_int(n)
}

fn cv(a: i64, b: i64) -> ComplexValue {
    ComplexValue::from_ints(a, b)
}

fn square_params() -> FractalParams {
    FractalParams::new(
        [fx(-2), fx(2), fx(-2), fx(2)],
        100,
        cv(0, 0),
        fx(4),
        "z^2 + c".to_string(),
    )
}

#[test]
fn test_pixel_to_complex() {
    let bounds = [fx(-2), fx(2), fx(-2), fx(2)];
    let width = 4;
    let height = 4;

    let top_left = pixel_to_complex(0, 0, width, height, bounds);
    assert!((top_left.re.m - (-2) * FX_SCALE).abs() < FX_SCALE / 100);
    assert!((top_left.im.m - (-2) * FX_SCALE).abs() < FX_SCALE / 100);

    // the last pixel of a 4-wide axis maps onto the upper bound
    let bottom_right = pixel_to_complex(width - 1, height - 1, width, height, bounds);
    assert!((bottom_right.re.m - 2 * FX_SCALE).abs() < FX_SCALE / 100);
    assert!((bottom_right.im.m - 2 * FX_SCALE).abs() < FX_SCALE / 100);
}

#[test]
fn test_mandelbrot_iterations_origin() {
    // the origin stays bounded for the full budget
    let params = square_params();
    let iterations = mandelbrot_iterations(cv(0, 0), &params);
    assert_eq!(iterations, 100);
}

#[test]
fn test_mandelbrot_iterations_outside_set() {
    // a point far outside escapes almost at once
    let params = square_params();
    let iterations = mandelbrot_iterations(cv(2, 2), &params);
    assert!(iterations < 10);
}

#[test]
fn test_julia_iterations_origin() {
    // z = 0 with c = 0 stays bounded
    let params = square_params();
    let iterations = julia_iterations(cv(0, 0), &params);
    assert_eq!(iterations, 100);
}

#[test]
fn formula_errors_fall_back_to_square() {
    // a broken formula must still render: the driver falls back to z^2 + c
    let params = FractalParams::new(
        [fx(-2), fx(2), fx(-2), fx(2)],
        100,
        cv(0, 0),
        fx(4),
        "z + (".to_string(),
    );
    assert_eq!(mandelbrot_iterations(cv(0, 0), &params), 100);
    let good = square_params();
    assert_eq!(
        mandelbrot_iterations(cv(2, 2), &params),
        mandelbrot_iterations(cv(2, 2), &good)
    );
}

#[test]
fn renderer_constructs() {
    let r = FractalRenderer::new();
    assert_eq!(r, FractalRenderer);
}
