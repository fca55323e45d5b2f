//! The per-pixel recurrence engine: one step of each fractal variant, the
//! escape test, and the escape-time iteration loop.
//!
//! All functions are pure: each one's result is pinned to a spec function of
//! its arguments alone.

use vstd::prelude::*;

use crate::fixed::{
    fx_add, fx_add_spec, fx_div, fx_div_spec, fx_mul, fx_mul_spec, fx_sub, fx_sub_spec, FX_ONE,
};

verus! {

/// A point of the complex plane: fixed-point real and imaginary coordinates.
#[derive(Clone, Copy, Debug, PartialEq, Eq, Structural)]
pub struct PlanePoint {
    pub x: i64,
    pub y: i64,
}

/// The closed set of fractal variants the engine iterates.
#[derive(Clone, Copy, Debug, PartialEq, Eq, Structural)]
pub enum Fractal {
    Julia,
    JuliaCubed,
    Mandelbrot,
}

/// The escape threshold: the fixed-point representation of 4.0, so that a
/// point escapes when its modulus reaches 2.0. No square root is ever taken.
pub const ESCAPE_THRESHOLD: i64 = 4 * FX_ONE;

/// Squared modulus of a plane point: `x*x + y*y` in fixed-point.
pub open spec fn modulus_squared_spec(x: int, y: int) -> int {
    fx_add_spec(fx_mul_spec(x, x), fx_mul_spec(y, y))
}

/// One quadratic step: `z' = (x*x - y*y, 2*x*y) + c`.
pub open spec fn julia_step_spec(zx: int, zy: int, cx: int, cy: int) -> (int, int) {
    (
        fx_add_spec(fx_sub_spec(fx_mul_spec(zx, zx), fx_mul_spec(zy, zy)), cx),
        fx_add_spec(fx_mul_spec(fx_mul_spec(2 * FX_ONE as int, zx), zy), cy),
    )
}

/// One cubic step: `z' = (x^3 - 3*x*y^2, 3*x^2*y - y^3) + c`.
pub open spec fn julia_cubed_step_spec(zx: int, zy: int, cx: int, cy: int) -> (int, int) {
    (
        fx_add_spec(
            fx_sub_spec(
                fx_mul_spec(fx_mul_spec(zx, zx), zx),
                fx_mul_spec(fx_mul_spec(fx_mul_spec(3 * FX_ONE as int, zx), zy), zy),
            ),
            cx,
        ),
        fx_add_spec(
            fx_sub_spec(
                fx_mul_spec(fx_mul_spec(fx_mul_spec(3 * FX_ONE as int, zx), zx), zy),
                fx_mul_spec(fx_mul_spec(zy, zy), zy),
            ),
            cy,
        ),
    )
}

/// One Mandelbrot step: the quadratic step, with the constant divided by the
/// zoom factor inside the step. The zoom-coupled constant is deliberate: it
/// keeps the same pixel-to-plane mapping that the Julia variants use at
/// varying zoom levels, and must be preserved for output compatibility.
pub open spec fn mandelbrot_step_spec(zx: int, zy: int, cx: int, cy: int, zoom: int) -> (int, int) {
    (
        fx_add_spec(fx_sub_spec(fx_mul_spec(zx, zx), fx_mul_spec(zy, zy)), fx_div_spec(cx, zoom)),
        fx_add_spec(fx_mul_spec(fx_mul_spec(2 * FX_ONE as int, zx), zy), fx_div_spec(cy, zoom)),
    )
}

/// One recurrence step of the chosen variant.
pub open spec fn next_iterate_spec(zx: int, zy: int, cx: int, cy: int, zoom: int, variant: Fractal) -> (int, int) {
    match variant {
        Fractal::Julia => julia_step_spec(zx, zy, cx, cy),
        Fractal::JuliaCubed => julia_cubed_step_spec(zx, zy, cx, cy),
        Fractal::Mandelbrot => mandelbrot_step_spec(zx, zy, cx, cy, zoom),
    }
}

/// The starting value of the orbit: the sampled point pre-scaled by the zoom
/// factor for the Julia variants, the sampled point itself for Mandelbrot
/// (whose seed the renderer fixes at the origin; the sampled point arrives as
/// the constant instead).
pub open spec fn seed_spec(ix: int, iy: int, zoom: int, variant: Fractal) -> (int, int) {
    match variant {
        Fractal::Julia | Fractal::JuliaCubed => (fx_div_spec(ix, zoom), fx_div_spec(iy, zoom)),
        Fractal::Mandelbrot => (ix, iy),
    }
}

/// The iteration at which the orbit starting at `(zx, zy)` first satisfies
/// the escape test, or `fuel` if it never does within `fuel` steps.
pub open spec fn escape_count(zx: int, zy: int, cx: int, cy: int, zoom: int, variant: Fractal, fuel: nat) -> nat
    decreases fuel,
{
    if modulus_squared_spec(zx, zy) >= ESCAPE_THRESHOLD as int {
        0
    } else if fuel == 0 {
        0
    } else {
        let z = next_iterate_spec(zx, zy, cx, cy, zoom, variant);
        1 + escape_count(z.0, z.1, cx, cy, zoom, variant, (fuel - 1) as nat)
    }
}

/// The escape count of the orbit seeded from the sampled point `(ix, iy)`.
pub open spec fn escape_iterations_spec(ix: int, iy: int, cx: int, cy: int, zoom: int, variant: Fractal, cap: nat) -> nat {
    let s = seed_spec(ix, iy, zoom, variant);
    escape_count(s.0, s.1, cx, cy, zoom, variant, cap)
}

/// Squared modulus of a plane point, for the escape test.
pub fn modulus_squared(z: PlanePoint) -> (r: i64)
    ensures
        r as int == modulus_squared_spec(z.x as int, z.y as int),
{
    fx_add(fx_mul(z.x, z.x), fx_mul(z.y, z.y))
}

/// One quadratic recurrence step with a fixed constant.
pub fn compute_next_julia(current: PlanePoint, constant: PlanePoint) -> (r: PlanePoint)
    ensures
        (r.x as int, r.y as int) == julia_step_spec(current.x as int, current.y as int, constant.x as int, constant.y as int),
{
    let two: i64 = 2 * FX_ONE;
    let z_real = fx_sub(fx_mul(current.x, current.x), fx_mul(current.y, current.y));
    let z_imaginary = fx_mul(fx_mul(two, current.x), current.y);
    PlanePoint { x: fx_add(z_real, constant.x), y: fx_add(z_imaginary, constant.y) }
}

/// One cubic recurrence step with a fixed constant.
pub fn compute_next_juliacubed(current: PlanePoint, constant: PlanePoint) -> (r: PlanePoint)
    ensures
        (r.x as int, r.y as int) == julia_cubed_step_spec(current.x as int, current.y as int, constant.x as int, constant.y as int),
{
    let three: i64 = 3 * FX_ONE;
    let z_real = fx_sub(
        fx_mul(fx_mul(current.x, current.x), current.x),
        fx_mul(fx_mul(fx_mul(three, current.x), current.y), current.y),
    );
    let z_imaginary = fx_sub(
        fx_mul(fx_mul(fx_mul(three, current.x), current.x), current.y),
        fx_mul(fx_mul(current.y, current.y), current.y),
    );
    PlanePoint { x: fx_add(z_real, constant.x), y: fx_add(z_imaginary, constant.y) }
}

/// One quadratic recurrence step with the constant divided by the zoom.
pub fn compute_next_mandelbrot(current: PlanePoint, constant: PlanePoint, zoom: i64) -> (r: PlanePoint)
    requires
        1 <= zoom,
    ensures
        (r.x as int, r.y as int) == mandelbrot_step_spec(current.x as int, current.y as int, constant.x as int, constant.y as int, zoom as int),
{
    let two: i64 = 2 * FX_ONE;
    let z_real = fx_sub(fx_mul(current.x, current.x), fx_mul(current.y, current.y));
    let z_imaginary = fx_mul(fx_mul(two, current.x), current.y);
    PlanePoint {
        x: fx_add(z_real, fx_div(constant.x, zoom)),
        y: fx_add(z_imaginary, fx_div(constant.y, zoom)),
    }
}

/// One recurrence step of the chosen variant.
pub fn next_iterate(current: PlanePoint, constant: PlanePoint, zoom: i64, variant: Fractal) -> (r: PlanePoint)
    requires
        1 <= zoom,
    ensures
        (r.x as int, r.y as int) == next_iterate_spec(current.x as int, current.y as int, constant.x as int, constant.y as int, zoom as int, variant),
{
    match variant {
        Fractal::Julia => compute_next_julia(current, constant),
        Fractal::JuliaCubed => compute_next_juliacubed(current, constant),
        Fractal::Mandelbrot => compute_next_mandelbrot(current, constant, zoom),
    }
}

/// Iterate the recurrence until the escape test holds or the cap is reached;
/// the result is exactly `escape_iterations_spec`, and never exceeds the cap.
pub fn escape_iterations(initial: PlanePoint, constant: PlanePoint, zoom: i64, variant: Fractal, max_iterations: usize) -> (count: usize)
    requires
        1 <= zoom,
    ensures
        count as nat == escape_iterations_spec(initial.x as int, initial.y as int, constant.x as int, constant.y as int, zoom as int, variant, max_iterations as nat),
        count <= max_iterations,
{
    let mut z: PlanePoint = match variant {
        Fractal::Julia | Fractal::JuliaCubed => PlanePoint {
            x: fx_div(initial.x, zoom),
            y: fx_div(initial.y, zoom),
        },
        Fractal::Mandelbrot => initial,
    };
    let ghost seed = seed_spec(initial.x as int, initial.y as int, zoom as int, variant);
    let mut iteration: usize = 0;
    let mut m: i64 = modulus_squared(z);
    while m < ESCAPE_THRESHOLD && iteration < max_iterations
        invariant
            1 <= zoom,
            iteration <= max_iterations,
            m as int == modulus_squared_spec(z.x as int, z.y as int),
            escape_count(seed.0, seed.1, constant.x as int, constant.y as int, zoom as int, variant, max_iterations as nat)
                == iteration as nat + escape_count(z.x as int, z.y as int, constant.x as int, constant.y as int, zoom as int, variant, (max_iterations - iteration) as nat),
        decreases max_iterations - iteration,
    {
        z = next_iterate(z, constant, zoom, variant);
        iteration = iteration + 1;
        m = modulus_squared(z);
    }
    proof {
        count_is_final(seed, z, constant, zoom as int, variant, iteration, max_iterations, m);
    }
    iteration
}

/// At loop exit — escape reached or fuel exhausted — the remaining count is
/// zero, so the iterations taken are the whole count.
proof fn count_is_final(seed: (int, int), z: PlanePoint, constant: PlanePoint, zoom: int, variant: Fractal, iteration: usize, max_iterations: usize, m: i64)
    requires
        iteration <= max_iterations,
        m as int == modulus_squared_spec(z.x as int, z.y as int),
        m >= ESCAPE_THRESHOLD || iteration >= max_iterations,
        escape_count(seed.0, seed.1, constant.x as int, constant.y as int, zoom, variant, max_iterations as nat)
            == iteration as nat + escape_count(z.x as int, z.y as int, constant.x as int, constant.y as int, zoom, variant, (max_iterations - iteration) as nat),
    ensures
        escape_count(seed.0, seed.1, constant.x as int, constant.y as int, zoom, variant, max_iterations as nat) == iteration as nat,
{
    assert(escape_count(z.x as int, z.y as int, constant.x as int, constant.y as int, zoom, variant, (max_iterations - iteration) as nat) == 0);
}

/// Law: a point already at or past the escape threshold escapes at iteration
/// zero, whatever the constant, the zoom, the variant and the cap — even a
/// cap of one.
pub proof fn lemma_escape_at_start(zx: int, zy: int, cx: int, cy: int, zoom: int, variant: Fractal, fuel: nat)
    requires
        modulus_squared_spec(zx, zy) >= ESCAPE_THRESHOLD as int,
    ensures
        escape_count(zx, zy, cx, cy, zoom, variant, fuel) == 0,
{
}

/// Law: the seeded escape count of a sampled point whose seed already
/// satisfies the escape test is zero.
pub proof fn lemma_escape_at_seed(ix: int, iy: int, cx: int, cy: int, zoom: int, variant: Fractal, cap: nat)
    requires
        modulus_squared_spec(seed_spec(ix, iy, zoom, variant).0, seed_spec(ix, iy, zoom, variant).1) >= ESCAPE_THRESHOLD as int,
    ensures
        escape_iterations_spec(ix, iy, cx, cy, zoom, variant, cap) == 0,
{
}

/// Law: an escape count never exceeds its fuel, so a normalized count lies
/// in the unit interval.
pub proof fn lemma_escape_count_le_fuel(zx: int, zy: int, cx: int, cy: int, zoom: int, variant: Fractal, fuel: nat)
    ensures
        escape_count(zx, zy, cx, cy, zoom, variant, fuel) <= fuel,
    decreases fuel,
{
    if modulus_squared_spec(zx, zy) >= ESCAPE_THRESHOLD as int {
    } else if fuel == 0 {
    } else {
        let z = next_iterate_spec(zx, zy, cx, cy, zoom, variant);
        lemma_escape_count_le_fuel(z.0, z.1, cx, cy, zoom, variant, (fuel - 1) as nat);
    }
}

/// Law: the orbit seeded and kept at the origin with a zero constant never
/// escapes — the Mandelbrot count at the origin is the whole cap, for every
/// positive zoom and every cap.
pub proof fn lemma_mandelbrot_origin_never_escapes(zoom: int, fuel: nat)
    requires
        1 <= zoom,
    ensures
        escape_count(0, 0, 0, 0, zoom, Fractal::Mandelbrot, fuel) == fuel,
    decreases fuel,
{
    vstd::arithmetic::div_mod::lemma_div_of0(FX_ONE as int);
    vstd::arithmetic::div_mod::lemma_div_of0(zoom);
    assert(fx_mul_spec(0, 0) == 0);
    assert(fx_div_spec(0, zoom) == 0);
    assert(modulus_squared_spec(0, 0) == 0);
    if fuel == 0 {
    } else {
        assert(mandelbrot_step_spec(0, 0, 0, 0, zoom) == (0int, 0int));
        lemma_mandelbrot_origin_never_escapes(zoom, (fuel - 1) as nat);
    }
}

} // verus!
