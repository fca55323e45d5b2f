//! The parallel renderer: grid-to-plane mapping, the per-pixel escape counts,
//! and the color-mapped pixel buffer.
//!
//! Rows are computed independently — no pixel reads another pixel's result —
//! and in parallel through rayon; each row's content is the verified
//! `count_row`, so the finished buffer is pinned down pixel by pixel and the
//! render is deterministic whatever the worker count.

use vstd::prelude::*;

use rayon::iter::{IndexedParallelIterator, IntoParallelIterator, ParallelIterator};

use crate::color::{ColorMap, Rgb};
use crate::fixed::{fx_add, fx_add_spec, fx_div, fx_div_spec, fx_mul, fx_mul_spec, FX_ONE};
use crate::recurrence::{
    escape_iterations, escape_iterations_spec, lemma_escape_count_le_fuel, Fractal, PlanePoint,
};

verus! {

/// Pixel dimensions of the output grid.
#[derive(Clone, Copy, Debug, PartialEq, Eq, Structural)]
pub struct GridSize {
    pub width: u32,
    pub height: u32,
}

/// A configuration rejected before any pixel work begins.
#[derive(Clone, Copy, Debug, PartialEq, Eq, Structural)]
pub enum ConfigError {
    /// The iteration cap was zero, which would make the normalized count
    /// `count / 0`: rejected rather than rendered.
    ZeroIterationCap,
}

/// Everything one render call depends on: the grid, the recurrence constant,
/// the zoom factor, the pan offset, the iteration cap, the variant, and the
/// injected color-mapping function. Never mutated during a render.
pub struct RenderConfig<M> {
    pub size: GridSize,
    pub constant: PlanePoint,
    pub zoom: i64,
    pub pan: PlanePoint,
    pub max_iterations: usize,
    pub variant: Fractal,
    pub color_map: M,
}

/// A finished image: `width * height` RGB triples in row-major order.
#[derive(Debug, PartialEq, Eq)]
pub struct PixelBuffer {
    pub width: u32,
    pub height: u32,
    pub pixels: Vec<Rgb>,
}

impl PixelBuffer {
    /// One entry per pixel of the grid.
    pub open spec fn wf(&self) -> bool {
        self.pixels@.len() == self.width as int * self.height as int
    }

    /// The number of pixels held.
    pub fn len(&self) -> (n: usize)
        ensures
            n == self.pixels@.len(),
    {
        self.pixels.len()
    }

    /// The pixel at grid coordinate `(x, y)`.
    pub fn get(&self, x: u32, y: u32) -> (c: Rgb)
        requires
            self.wf(),
            x < self.width,
            y < self.height,
        ensures
            c == self.pixels@[y as int * self.width as int + x as int],
    {
        let n: usize = self.pixels.len();
        proof {
            assert((y as int) * (self.width as int) + (x as int) < (self.width as int) * (self.height as int))
                by (nonlinear_arith)
                requires
                    x < self.width,
                    y < self.height,
            ;
        }
        self.pixels[(y as usize) * (self.width as usize) + (x as usize)]
    }
}

/// The real-axis plane coordinate of pixel column `x`:
/// `(x - width/2) * (2/height) + pan.x * zoom`, computed as the single
/// truncated quotient `(2*x - width) / height` in fixed-point.
pub open spec fn plane_x_spec(size: GridSize, pan: PlanePoint, zoom: int, x: int) -> int {
    fx_add_spec(
        fx_div_spec(2 * x - size.width as int, size.height as int),
        fx_mul_spec(pan.x as int, zoom),
    )
}

/// The imaginary-axis plane coordinate of pixel row `y`: the same uniform
/// scale `2/height`, so the origin is centered vertically and non-square
/// grids stretch horizontally.
pub open spec fn plane_y_spec(size: GridSize, pan: PlanePoint, zoom: int, y: int) -> int {
    fx_add_spec(
        fx_div_spec(2 * y - size.height as int, size.height as int),
        fx_mul_spec(pan.y as int, zoom),
    )
}

/// The escape count of pixel `(x, y)`: the sampled plane point is the seed
/// for the Julia variants, and the constant — with a zero seed — for
/// Mandelbrot.
pub open spec fn pixel_count_spec(size: GridSize, constant: PlanePoint, zoom: i64, pan: PlanePoint, variant: Fractal, cap: nat, x: int, y: int) -> nat {
    let px = plane_x_spec(size, pan, zoom as int, x);
    let py = plane_y_spec(size, pan, zoom as int, y);
    match variant {
        Fractal::Julia | Fractal::JuliaCubed => escape_iterations_spec(px, py, constant.x as int, constant.y as int, zoom as int, variant, cap),
        Fractal::Mandelbrot => escape_iterations_spec(0, 0, px, py, zoom as int, variant, cap),
    }
}

/// Row `y` holds one count per column, each the pixel's escape count and
/// none above the cap.
pub open spec fn counts_match(rows: Seq<Vec<usize>>, size: GridSize, constant: PlanePoint, zoom: i64, pan: PlanePoint, variant: Fractal, cap: usize) -> bool {
    &&& rows.len() == size.height as int
    &&& forall|y: int| 0 <= y < size.height ==> (#[trigger] rows[y])@.len() == size.width as int
    &&& forall|y: int, x: int|
        0 <= y < size.height && 0 <= x < size.width ==> {
            &&& (#[trigger] rows[y]@[x]) as nat == pixel_count_spec(size, constant, zoom, pan, variant, cap as nat, x, y)
            &&& rows[y]@[x] <= cap
        }
}

/// The escape counts of one grid row, in column order.
#[verifier::loop_isolation(false)]
fn count_row(size: GridSize, constant: PlanePoint, zoom: i64, pan: PlanePoint, variant: Fractal, cap: usize, y: u32) -> (row: Vec<usize>)
    requires
        1 <= zoom,
        y < size.height,
    ensures
        row@.len() == size.width as int,
        forall|x: int|
            0 <= x < size.width ==> {
                &&& (#[trigger] row@[x]) as nat == pixel_count_spec(size, constant, zoom, pan, variant, cap as nat, x, y as int)
                &&& row@[x] <= cap
            },
{
    let pan_x_term = fx_mul(pan.x, zoom);
    let pan_y_term = fx_mul(pan.y, zoom);
    let dy: i64 = 2 * (y as i64) - (size.height as i64);
    let py = fx_add(fx_div(dy, size.height as i64), pan_y_term);
    let mut row: Vec<usize> = Vec::new();
    let mut x: u32 = 0;
    while x < size.width
        invariant
            x <= size.width,
            row@.len() == x as int,
            forall|j: int|
                0 <= j < x ==> {
                    &&& (#[trigger] row@[j]) as nat == pixel_count_spec(size, constant, zoom, pan, variant, cap as nat, j, y as int)
                    &&& row@[j] <= cap
                },
        decreases size.width - x,
    {
        let dx: i64 = 2 * (x as i64) - (size.width as i64);
        let px = fx_add(fx_div(dx, size.height as i64), pan_x_term);
        let sample = PlanePoint { x: px, y: py };
        let count: usize = match variant {
            Fractal::Julia | Fractal::JuliaCubed => escape_iterations(sample, constant, zoom, variant, cap),
            Fractal::Mandelbrot => escape_iterations(PlanePoint { x: 0, y: 0 }, sample, zoom, variant, cap),
        };
        row.push(count);
        x = x + 1;
    }
    row
}

/// Relies on rayon: `(0..height).into_par_iter()` is an indexed parallel
/// iterator over `0..height`, `map` keeps each result at its item's index,
/// and `collect_into_vec` stores the result for `y` at index `y` — so each
/// element is the verified `count_row` of its own row, whatever the
/// scheduling.
#[verifier::external_body]
fn par_count_rows(size: GridSize, constant: PlanePoint, zoom: i64, pan: PlanePoint, variant: Fractal, cap: usize) -> (rows: Vec<Vec<usize>>)
    requires
        1 <= zoom,
    ensures
        counts_match(rows@, size, constant, zoom, pan, variant, cap),
{
    let mut rows: Vec<Vec<usize>> = Vec::new();
    (0..size.height)
        .into_par_iter()
        .map(|y| count_row(size, constant, zoom, pan, variant, cap, y))
        .collect_into_vec(&mut rows);
    rows
}

/// The escape counts of every pixel, by row: the compute half of a render,
/// for callers that do their own coloring. Fails exactly on a zero iteration
/// cap, before any pixel work.
pub fn render_counts(size: GridSize, constant: PlanePoint, zoom: i64, pan: PlanePoint, variant: Fractal, max_iterations: usize) -> (res: Result<Vec<Vec<usize>>, ConfigError>)
    requires
        1 <= zoom,
    ensures
        match res {
            Ok(rows) => 1 <= max_iterations && counts_match(rows@, size, constant, zoom, pan, variant, max_iterations),
            Err(e) => max_iterations == 0 && e == ConfigError::ZeroIterationCap,
        },
{
    if max_iterations == 0 {
        return Err(ConfigError::ZeroIterationCap);
    }
    Ok(par_count_rows(size, constant, zoom, pan, variant, max_iterations))
}

/// The buffer is the configured grid, fully populated: pixel `i` — column
/// `i % width` of row `i / width` — is the injected map's color of that
/// pixel's normalized escape count.
pub open spec fn render_matches<M: ColorMap>(config: RenderConfig<M>, buf: PixelBuffer) -> bool {
    let w = config.size.width as int;
    &&& buf.width == config.size.width
    &&& buf.height == config.size.height
    &&& buf.wf()
    &&& forall|i: int|
        0 <= i < buf.pixels@.len() ==> #[trigger] buf.pixels@[i] == config.color_map.color_spec(
            pixel_count_spec(config.size, config.constant, config.zoom, config.pan, config.variant, config.max_iterations as nat, i % w, i / w),
            config.max_iterations as nat,
        )
}

/// Render the configured image: every pixel written exactly once, the whole
/// buffer pinned to the configuration. Fails exactly on a zero iteration
/// cap, before any pixel work; an empty grid is an empty buffer, not an
/// error.
#[verifier::loop_isolation(false)]
pub fn render<M: ColorMap>(config: &RenderConfig<M>) -> (res: Result<PixelBuffer, ConfigError>)
    requires
        1 <= config.zoom,
    ensures
        match res {
            Ok(buf) => 1 <= config.max_iterations && render_matches(*config, buf),
            Err(e) => config.max_iterations == 0 && e == ConfigError::ZeroIterationCap,
        },
{
    let rows = match render_counts(config.size, config.constant, config.zoom, config.pan, config.variant, config.max_iterations) {
        Ok(rows) => rows,
        Err(e) => {
            return Err(e);
        },
    };
    let w = config.size.width;
    let h = config.size.height;
    let cap = config.max_iterations;
    let mut pixels: Vec<Rgb> = Vec::new();
    let mut y: u32 = 0;
    while y < h
        invariant
            y <= h,
            pixels@.len() == y as int * w as int,
            forall|i: int|
                0 <= i < pixels@.len() ==> #[trigger] pixels@[i] == config.color_map.color_spec(
                    pixel_count_spec(config.size, config.constant, config.zoom, config.pan, config.variant, cap as nat, i % w as int, i / w as int),
                    cap as nat,
                ),
        decreases h - y,
    {
        let row = &rows[y as usize];
        let mut x: u32 = 0;
        while x < w
            invariant
                x <= w,
                y < h,
                pixels@.len() == y as int * w as int + x as int,
                forall|i: int|
                    0 <= i < pixels@.len() ==> #[trigger] pixels@[i] == config.color_map.color_spec(
                        pixel_count_spec(config.size, config.constant, config.zoom, config.pan, config.variant, cap as nat, i % w as int, i / w as int),
                        cap as nat,
                    ),
            decreases w - x,
        {
            let count: usize = row[x as usize];
            proof {
                vstd::arithmetic::div_mod::lemma_fundamental_div_mod_converse(
                    y as int * w as int + x as int,
                    w as int,
                    y as int,
                    x as int,
                );
            }
            let c = config.color_map.color_at(count, cap);
            pixels.push(c);
            x = x + 1;
        }
        proof {
            assert((y as int + 1) * w as int == y as int * w as int + w as int) by (nonlinear_arith);
        }
        y = y + 1;
    }
    proof {
        assert(h as int * w as int == w as int * h as int) by (nonlinear_arith);
    }
    Ok(PixelBuffer { width: w, height: h, pixels })
}

/// Law: in a finished render, no pixel's count exceeds the cap — the
/// normalized count lies in the unit interval — and a pixel whose count
/// reaches the cap gets exactly the map's color at the top of the range,
/// the "inside the set" color.
pub proof fn lemma_pixel_normalized<M: ColorMap>(config: RenderConfig<M>, buf: PixelBuffer, x: int, y: int)
    requires
        render_matches(config, buf),
        0 <= x < config.size.width,
        0 <= y < config.size.height,
    ensures
        pixel_count_spec(config.size, config.constant, config.zoom, config.pan, config.variant, config.max_iterations as nat, x, y) <= config.max_iterations,
        buf.pixels@[y * config.size.width as int + x] == config.color_map.color_spec(
            pixel_count_spec(config.size, config.constant, config.zoom, config.pan, config.variant, config.max_iterations as nat, x, y),
            config.max_iterations as nat,
        ),
        pixel_count_spec(config.size, config.constant, config.zoom, config.pan, config.variant, config.max_iterations as nat, x, y) == config.max_iterations as nat
            ==> buf.pixels@[y * config.size.width as int + x] == config.color_map.color_spec(config.max_iterations as nat, config.max_iterations as nat),
{
    let w = config.size.width as int;
    let px = plane_x_spec(config.size, config.pan, config.zoom as int, x);
    let py = plane_y_spec(config.size, config.pan, config.zoom as int, y);
    match config.variant {
        Fractal::Julia | Fractal::JuliaCubed => {
            lemma_escape_count_le_fuel(
                crate::recurrence::seed_spec(px, py, config.zoom as int, config.variant).0,
                crate::recurrence::seed_spec(px, py, config.zoom as int, config.variant).1,
                config.constant.x as int,
                config.constant.y as int,
                config.zoom as int,
                config.variant,
                config.max_iterations as nat,
            );
        },
        Fractal::Mandelbrot => {
            lemma_escape_count_le_fuel(
                crate::recurrence::seed_spec(0, 0, config.zoom as int, config.variant).0,
                crate::recurrence::seed_spec(0, 0, config.zoom as int, config.variant).1,
                px,
                py,
                config.zoom as int,
                config.variant,
                config.max_iterations as nat,
            );
        },
    }
    let i = y * w + x;
    vstd::arithmetic::div_mod::lemma_fundamental_div_mod_converse(i, w, y, x);
    assert(0 <= i < buf.pixels@.len()) by (nonlinear_arith)
        requires
            0 <= x < w,
            0 <= y < config.size.height as int,
            i == y * w + x,
            buf.pixels@.len() == w * config.size.height as int,
    ;
}

/// Law: in a Mandelbrot render without pan, the pixel that samples plane
/// coordinate (0, 0) — the grid center of an even grid — counts the whole
/// cap, for every positive zoom and every cap: the origin never escapes.
pub proof fn lemma_mandelbrot_center_counts_cap(size: GridSize, constant: PlanePoint, zoom: i64, variant: Fractal, cap: nat, x: int, y: int)
    requires
        1 <= zoom,
        variant == Fractal::Mandelbrot,
        1 <= size.height,
        2 * x == size.width as int,
        2 * y == size.height as int,
    ensures
        pixel_count_spec(size, constant, zoom, PlanePoint { x: 0, y: 0 }, variant, cap, x, y) == cap,
{
    let pan = PlanePoint { x: 0, y: 0 };
    vstd::arithmetic::div_mod::lemma_div_of0(FX_ONE as int);
    vstd::arithmetic::div_mod::lemma_div_of0(size.height as int);
    vstd::arithmetic::div_mod::lemma_div_of0(zoom as int);
    assert(fx_mul_spec(0, zoom as int) == 0);
    assert(plane_x_spec(size, pan, zoom as int, x) == 0);
    assert(plane_y_spec(size, pan, zoom as int, y) == 0);
    crate::recurrence::lemma_mandelbrot_origin_never_escapes(zoom as int, cap);
}

/// Law: a render is determined by its configuration alone — two buffers that
/// both match the same configuration are identical, whatever scheduling
/// produced them.
pub proof fn lemma_render_deterministic<M: ColorMap>(config: RenderConfig<M>, first: PixelBuffer, second: PixelBuffer)
    requires
        render_matches(config, first),
        render_matches(config, second),
    ensures
        first.width == second.width,
        first.height == second.height,
        first.pixels@ == second.pixels@,
{
    assert(first.pixels@ =~= second.pixels@);
}

} // verus!
