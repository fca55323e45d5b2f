use fractl::fixed::{from_ratio, fx_add, fx_mul, fx_sub, FX_MAX, FX_MIN, FX_ONE};
use fractl::recurrence::{
    escape_iterations, modulus_squared, next_iterate, Fractal, PlanePoint, ESCAPE_THRESHOLD,
};

#[test]
fn from_ratio_exact_values() {
    assert_eq!(from_ratio(1, 1), FX_ONE);
    assert_eq!(from_ratio(-4, 5), -3435973836);
    assert_eq!(from_ratio(156, 1000), 670014898);
    assert_eq!(from_ratio(0, 7), 0);
}

#[test]
fn fixed_ops_exact_values() {
    assert_eq!(fx_mul(3 * FX_ONE, FX_ONE / 2), 3 * FX_ONE / 2);
    assert_eq!(fx_mul(-2 * FX_ONE, 2 * FX_ONE), -4 * FX_ONE);
    assert_eq!(fx_add(FX_MAX, FX_MAX), FX_MAX);
    assert_eq!(fx_sub(FX_MIN, FX_MAX), FX_MIN);
    assert_eq!(fx_add(FX_ONE, -FX_ONE), 0);
}

#[test]
fn modulus_squared_exact_and_pure() {
    let z = PlanePoint { x: 2 * FX_ONE, y: 0 };
    assert_eq!(modulus_squared(z), ESCAPE_THRESHOLD);
    let w = PlanePoint {
        x: from_ratio(3, 2),
        y: from_ratio(-1, 2),
    };
    assert_eq!(modulus_squared(w), modulus_squared(w));
    assert_eq!(modulus_squared(w), from_ratio(10, 4));
}

#[test]
fn julia_step_exact() {
    let z = PlanePoint { x: FX_ONE, y: FX_ONE };
    let c = PlanePoint { x: 0, y: 0 };
    let next = next_iterate(z, c, FX_ONE, Fractal::Julia);
    assert_eq!(next, PlanePoint { x: 0, y: 2 * FX_ONE });
    // Pure: a second call with the same inputs gives the same output.
    assert_eq!(next, next_iterate(z, c, FX_ONE, Fractal::Julia));
}

#[test]
fn julia_step_adds_constant() {
    let z = PlanePoint { x: FX_ONE / 2, y: FX_ONE / 2 };
    let c = PlanePoint {
        x: from_ratio(-4, 5),
        y: from_ratio(156, 1000),
    };
    let next = next_iterate(z, c, FX_ONE, Fractal::Julia);
    // (0.25 - 0.25) - 0.8 and 2 * 0.25 + 0.156.
    assert_eq!(next.x, from_ratio(-4, 5));
    assert_eq!(next.y, FX_ONE / 2 + from_ratio(156, 1000));
}

#[test]
fn julia_cubed_fixed_point() {
    // 1^3 - 3*1*0^2 = 1 and 3*1^2*0 - 0^3 = 0: (1, 0) maps to itself.
    let z = PlanePoint { x: FX_ONE, y: 0 };
    let c = PlanePoint { x: 0, y: 0 };
    let next = next_iterate(z, c, FX_ONE, Fractal::JuliaCubed);
    assert_eq!(next, PlanePoint { x: FX_ONE, y: 0 });
}

#[test]
fn mandelbrot_step_divides_constant_by_zoom() {
    let origin = PlanePoint { x: 0, y: 0 };
    let c = PlanePoint { x: FX_ONE, y: FX_ONE };
    let next = next_iterate(origin, c, 2 * FX_ONE, Fractal::Mandelbrot);
    assert_eq!(next, PlanePoint { x: FX_ONE / 2, y: FX_ONE / 2 });
}

#[test]
fn escaped_seed_counts_zero() {
    // x*x + y*y is exactly 4.0: already at the threshold, so zero iterations.
    let seed = PlanePoint { x: 2 * FX_ONE, y: 0 };
    let c = PlanePoint {
        x: from_ratio(-4, 5),
        y: from_ratio(156, 1000),
    };
    assert_eq!(escape_iterations(seed, c, FX_ONE, Fractal::Julia, 500), 0);
}

#[test]
fn escaped_seed_counts_zero_with_cap_one() {
    // A cap of one still reports iteration zero, not one.
    let seed = PlanePoint { x: 0, y: -2 * FX_ONE };
    let c = PlanePoint { x: 0, y: 0 };
    assert_eq!(escape_iterations(seed, c, FX_ONE, Fractal::Julia, 1), 0);
}

#[test]
fn julia_seed_is_scaled_by_zoom() {
    // (4, 0) scaled by zoom 2 seeds the orbit at (2, 0): escaped at once.
    let initial = PlanePoint { x: 4 * FX_ONE, y: 0 };
    let c = PlanePoint { x: 0, y: 0 };
    assert_eq!(
        escape_iterations(initial, c, 2 * FX_ONE, Fractal::Julia, 100),
        0
    );
}

#[test]
fn mandelbrot_origin_never_escapes() {
    let origin = PlanePoint { x: 0, y: 0 };
    assert_eq!(
        escape_iterations(origin, origin, FX_ONE, Fractal::Mandelbrot, 500),
        500
    );
    assert_eq!(
        escape_iterations(origin, origin, 3 * FX_ONE, Fractal::Mandelbrot, 7),
        7
    );
}

#[test]
fn diverging_julia_orbit_escapes_quickly() {
    // (-1, -1) under c = -0.8 + 0.156i: one step reaches (-0.8, 2.156),
    // whose squared modulus is above 4.
    let seed = PlanePoint { x: -FX_ONE, y: -FX_ONE };
    let c = PlanePoint {
        x: from_ratio(-4, 5),
        y: from_ratio(156, 1000),
    };
    assert_eq!(escape_iterations(seed, c, FX_ONE, Fractal::Julia, 500), 1);
}
