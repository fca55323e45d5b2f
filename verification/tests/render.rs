use fractl::color::{ColorMap, Grayscale, InvertedGrayscale, Rgb};
use fractl::fixed::{from_ratio, FX_ONE};
use fractl::recurrence::{Fractal, PlanePoint};
use fractl::renderer::{render, render_counts, ConfigError, GridSize, RenderConfig};

fn julia_config(width: u32, height: u32, max_iterations: usize) -> RenderConfig<Grayscale> {
    RenderConfig {
        size: GridSize { width, height },
        constant: PlanePoint {
            x: from_ratio(-4, 5),
            y: from_ratio(156, 1000),
        },
        zoom: FX_ONE,
        pan: PlanePoint { x: 0, y: 0 },
        max_iterations,
        variant: Fractal::Julia,
        color_map: Grayscale,
    }
}

#[test]
fn gray_ramp_exact_values() {
    assert_eq!(Grayscale.color_at(0, 5), Rgb { r: 0, g: 0, b: 0 });
    assert_eq!(Grayscale.color_at(1, 2), Rgb { r: 127, g: 127, b: 127 });
    assert_eq!(
        Grayscale.color_at(500, 500),
        Rgb { r: 255, g: 255, b: 255 }
    );
    assert_eq!(
        InvertedGrayscale.color_at(0, 5),
        Rgb { r: 255, g: 255, b: 255 }
    );
    assert_eq!(InvertedGrayscale.color_at(1, 2), Rgb { r: 128, g: 128, b: 128 });
}

#[test]
fn empty_grid_renders_empty_buffer() {
    let config = julia_config(0, 0, 100);
    let buffer = render(&config).unwrap();
    assert_eq!(buffer.len(), 0);
    assert_eq!(buffer.width, 0);
    assert_eq!(buffer.height, 0);
}

#[test]
fn zero_iteration_cap_is_rejected() {
    let config = julia_config(4, 4, 0);
    assert_eq!(render(&config), Err(ConfigError::ZeroIterationCap));
    let counts = render_counts(
        config.size,
        config.constant,
        config.zoom,
        config.pan,
        config.variant,
        0,
    );
    assert_eq!(counts, Err(ConfigError::ZeroIterationCap));
}

#[test]
fn render_is_deterministic() {
    let config = julia_config(8, 6, 64);
    let first = render(&config).unwrap();
    let second = render(&config).unwrap();
    assert_eq!(first, second);
}

#[test]
fn julia_grid_center_outlasts_corners() {
    // 4x4 grid, constant -0.8 + 0.156i, zoom 1, cap 500. The plane samples
    // are -1.0, -0.5, 0.0 and 0.5 on each axis. The corner samples sit
    // outside the Julia set and escape within a few iterations; the center
    // samples on and right of the imaginary axis never escape.
    let config = julia_config(4, 4, 500);
    let rows = render_counts(
        config.size,
        config.constant,
        config.zoom,
        config.pan,
        config.variant,
        config.max_iterations,
    )
    .unwrap();
    assert_eq!(rows.len(), 4);
    for row in &rows {
        assert_eq!(row.len(), 4);
    }
    let corners = [rows[0][0], rows[0][3], rows[3][0], rows[3][3]];
    // The three center pixels whose samples are not the negation of a corner
    // sample: (-0.5, 0), (0, -0.5) and (0, 0).
    let centers = [rows[2][1], rows[1][2], rows[2][2]];
    for &center in &centers {
        for &corner in &corners {
            assert!(center > corner);
        }
    }
    // Every count respects the cap.
    for row in &rows {
        for &count in row {
            assert!(count <= 500);
        }
    }
}

#[test]
fn mandelbrot_center_pixel_reaches_cap() {
    // On a 2x2 grid, pixel (1, 1) samples the plane origin; the origin never
    // escapes, so its count is the cap and its color is the ramp's top.
    let config = RenderConfig {
        size: GridSize { width: 2, height: 2 },
        constant: PlanePoint { x: 0, y: 0 },
        zoom: FX_ONE,
        pan: PlanePoint { x: 0, y: 0 },
        max_iterations: 25,
        variant: Fractal::Mandelbrot,
        color_map: Grayscale,
    };
    let buffer = render(&config).unwrap();
    assert_eq!(buffer.len(), 4);
    assert_eq!(buffer.get(1, 1), Rgb { r: 255, g: 255, b: 255 });

    let rows = render_counts(
        config.size,
        config.constant,
        config.zoom,
        config.pan,
        config.variant,
        config.max_iterations,
    )
    .unwrap();
    assert_eq!(rows[1][1], 25);
    // The same pixel through the buffer and through the counts agree.
    assert_eq!(
        buffer.get(1, 1),
        Grayscale.color_at(rows[1][1], config.max_iterations)
    );
}

#[test]
fn buffer_is_row_major() {
    // With a wide grid the leftmost column samples far to the left of the
    // rightmost; their counts differ, and get(x, y) must read row-major.
    let config = julia_config(4, 2, 500);
    let buffer = render(&config).unwrap();
    let rows = render_counts(
        config.size,
        config.constant,
        config.zoom,
        config.pan,
        config.variant,
        config.max_iterations,
    )
    .unwrap();
    assert_eq!(buffer.len(), 8);
    for y in 0..2u32 {
        for x in 0..4u32 {
            assert_eq!(
                buffer.get(x, y),
                Grayscale.color_at(rows[y as usize][x as usize], 500)
            );
        }
    }
    assert_ne!(rows[0][0], rows[0][2]);
}

#[test]
fn pan_offsets_the_sampled_plane() {
    // Panning by a whole plane unit moves the sample that lands on the
    // origin: with pan (1, 0) and a 2x2 grid, pixel (1, 1) samples (1, 0),
    // not the origin, so a Mandelbrot render no longer caps there.
    let config = RenderConfig {
        size: GridSize { width: 2, height: 2 },
        constant: PlanePoint { x: 0, y: 0 },
        zoom: FX_ONE,
        pan: PlanePoint { x: FX_ONE, y: 0 },
        max_iterations: 50,
        variant: Fractal::Mandelbrot,
        color_map: Grayscale,
    };
    let rows = render_counts(
        config.size,
        config.constant,
        config.zoom,
        config.pan,
        config.variant,
        config.max_iterations,
    )
    .unwrap();
    // The orbit of constant (1, 0) escapes: 0, 1, 2, then past the threshold.
    assert!(rows[1][1] < 50);
}
