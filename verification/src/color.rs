//! Colors and the injected color-mapping function.
//!
//! The renderer is parameterized by a `ColorMap`: a function from a
//! normalized escape count — `count / cap`, a value in the unit interval,
//! given here as the exact pair `(count, cap)` — to an RGB triple. Any
//! palette can back it; two linear grayscale ramps are provided.

use vstd::prelude::*;

verus! {

/// An RGB triple, one byte per channel.
#[derive(Clone, Copy, Debug, PartialEq, Eq, Structural)]
pub struct Rgb {
    pub r: u8,
    pub g: u8,
    pub b: u8,
}

/// A color-mapping function from a normalized count to an RGB triple.
///
/// `color_spec` is the map's mathematical content; `color_at` must return
/// exactly that, so a render is pinned down pixel by pixel whatever palette
/// the caller injects.
pub trait ColorMap: Sized {
    spec fn color_spec(&self, count: nat, cap: nat) -> Rgb;

    fn color_at(&self, count: usize, cap: usize) -> (c: Rgb)
        requires
            1 <= cap,
            count <= cap,
        ensures
            c == self.color_spec(count as nat, cap as nat),
    ;
}

/// The gray level of a normalized count: `count * 255 / cap`, the linear
/// ramp from 0 at zero to 255 at one.
pub open spec fn gray_level(count: nat, cap: nat) -> nat {
    if cap == 0 {
        0
    } else {
        count * 255 / cap
    }
}

/// The level is a byte whenever the count does not exceed the cap.
proof fn lemma_gray_level_le_255(count: nat, cap: nat)
    requires
        1 <= cap,
        count <= cap,
    ensures
        gray_level(count, cap) <= 255,
{
    vstd::arithmetic::mul::lemma_mul_inequality(count as int, cap as int, 255);
    vstd::arithmetic::div_mod::lemma_div_is_ordered(count as int * 255, cap as int * 255, cap as int);
    vstd::arithmetic::div_mod::lemma_div_multiples_vanish(255, cap as int);
}

/// Shared body of the two ramps: the exact gray level as a byte.
fn gray_level_at(count: usize, cap: usize) -> (level: u8)
    requires
        1 <= cap,
        count <= cap,
    ensures
        level as nat == gray_level(count as nat, cap as nat),
{
    proof {
        lemma_gray_level_le_255(count as nat, cap as nat);
    }
    let wide: u128 = (count as u128) * 255 / (cap as u128);
    wide as u8
}

/// The linear ramp from black at 0.0 to white at 1.0.
#[derive(Clone, Copy, Debug, PartialEq, Eq, Structural)]
pub struct Grayscale;

impl ColorMap for Grayscale {
    open spec fn color_spec(&self, count: nat, cap: nat) -> Rgb {
        let level = gray_level(count, cap) as u8;
        Rgb { r: level, g: level, b: level }
    }

    fn color_at(&self, count: usize, cap: usize) -> (c: Rgb) {
        let level: u8 = gray_level_at(count, cap);
        Rgb { r: level, g: level, b: level }
    }
}

/// The linear ramp from white at 0.0 to black at 1.0.
#[derive(Clone, Copy, Debug, PartialEq, Eq, Structural)]
pub struct InvertedGrayscale;

impl ColorMap for InvertedGrayscale {
    open spec fn color_spec(&self, count: nat, cap: nat) -> Rgb {
        let level = (255 - gray_level(count, cap) as u8) as u8;
        Rgb { r: level, g: level, b: level }
    }

    fn color_at(&self, count: usize, cap: usize) -> (c: Rgb) {
        proof {
            lemma_gray_level_le_255(count as nat, cap as nat);
        }
        let level: u8 = 255 - gray_level_at(count, cap);
        Rgb { r: level, g: level, b: level }
    }
}

} // verus!
