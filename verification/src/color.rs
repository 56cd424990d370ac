//! From summed light to the bytes of a pixel.

use crate::interval::Interval;
use crate::scalar::{lemma_floor_sqrt_is, Scalar, ONE_RAW};
use crate::vector::{Color, Vec3};
use vstd::prelude::*;
use vstd::std_specs::ops::{DivSpec, MulSpec};

verus! {

/// Raw representation of `0.999`, the largest intensity of a channel.
pub const INTENSITY_MAX_RAW: i64 = 4290672328;

/// The number of levels of a channel.
pub const LEVELS: i32 = 256;

/// A pixel: the levels of red, green and blue, each from 0 to 255.
#[derive(Clone, Copy, Debug, PartialEq, Eq, Structural)]
pub struct Pixel {
    pub r: u8,
    pub g: u8,
    pub b: u8,
}

/// The range of the intensities of a channel, from `0` to `0.999`.
pub open spec fn intensity_spec() -> Interval {
    Interval { min: Scalar::zero_spec(), max: Scalar { raw: INTENSITY_MAX_RAW } }
}

/// The gamma-2 transform of a linear intensity: its square root.
pub open spec fn linear_to_gamma_spec(linear_comp: Scalar) -> Scalar {
    linear_comp.sqrt_spec()
}

/// The level of a channel whose `samples` samples add up to `sum`: the
/// mean, gamma-corrected, clamped to the range of intensities, times the
/// number of levels, rounded down.
pub open spec fn level_spec(sum: Scalar, samples: i32) -> int {
    let mean = sum.div_spec(Scalar::from_int_spec(samples));
    let intensity = intensity_spec().clamp_spec(linear_to_gamma_spec(mean));
    Scalar::from_int_spec(LEVELS).mul_spec(intensity).trunc_spec()
}

/// The pixel whose `samples` samples add up to the color `sum`.
pub open spec fn pixel_spec(sum: Color, samples: i32) -> Pixel {
    Pixel {
        r: level_spec(sum.x, samples) as u8,
        g: level_spec(sum.y, samples) as u8,
        b: level_spec(sum.z, samples) as u8,
    }
}

/// Every level is a byte.
pub proof fn lemma_level_is_byte(sum: Scalar, samples: i32)
    ensures
        0 <= level_spec(sum, samples) <= 255,
{
    let mean = sum.div_spec(Scalar::from_int_spec(samples));
    let intensity = intensity_spec().clamp_spec(linear_to_gamma_spec(mean));
    assert(0 <= intensity@ <= INTENSITY_MAX_RAW);
    lemma_level_of_intensity(intensity);
}

/// An intensity from `0` to `0.999` has a level from 0 to 255, and the
/// largest has the level 255.
proof fn lemma_level_of_intensity(intensity: Scalar)
    requires
        0 <= intensity@ <= INTENSITY_MAX_RAW,
    ensures
        0 <= Scalar::from_int_spec(LEVELS).mul_spec(intensity).trunc_spec() <= 255,
        intensity@ == INTENSITY_MAX_RAW ==> Scalar::from_int_spec(LEVELS).mul_spec(
            intensity,
        ).trunc_spec() == 255,
{
    let levels = Scalar::from_int_spec(LEVELS);
    assert(levels@ == 256 * ONE_RAW);
    let product = levels@ * intensity@;
    assert(product == (256 * intensity@) * ONE_RAW) by (nonlinear_arith)
        requires
            product == levels@ * intensity@,
            levels@ == 256 * ONE_RAW,
    ;
    vstd::arithmetic::div_mod::lemma_div_multiples_vanish(256 * intensity@, ONE_RAW as int);
    assert(levels.mul_spec(intensity)@ == 256 * intensity@);
}

/// The gamma-2 transform of a linear intensity.
pub fn linear_to_gamma(linear_comp: Scalar) -> (r: Scalar)
    ensures
        r == linear_to_gamma_spec(linear_comp),
{
    linear_comp.sqrt()
}

/// The level of a channel whose `samples` samples add up to `sum`.
pub fn level(sum: Scalar, samples: i32) -> (l: u8)
    ensures
        l == level_spec(sum, samples),
{
    let mean = sum / Scalar::from_int(samples);
    let intensity = Interval::new(Scalar::zero(), Scalar::from_raw(INTENSITY_MAX_RAW)).clamp(
        linear_to_gamma(mean),
    );
    proof {
        lemma_level_of_intensity(intensity);
    }
    let scaled: i64 = (Scalar::from_int(LEVELS) * intensity).trunc();
    scaled as u8
}

/// The pixel whose `samples_per_pixel` samples add up to `pixel_color`:
/// each channel is averaged, gamma-corrected, clamped and cut into 256
/// levels. Without samples the mean of what is not black is infinite, and
/// the level the highest.
pub fn to_pixel(pixel_color: Color, samples_per_pixel: i32) -> (p: Pixel)
    ensures
        p == pixel_spec(pixel_color, samples_per_pixel),
{
    Pixel {
        r: level(pixel_color.x(), samples_per_pixel),
        g: level(pixel_color.y(), samples_per_pixel),
        b: level(pixel_color.z(), samples_per_pixel),
    }
}

/// White light stays white: where each of `n` samples is the color
/// `(1, 1, 1)`, so that they add up to `(n, n, n)`, every channel of the
/// pixel has the highest level, 255.
pub proof fn lemma_white_has_top_level(n: i32)
    requires
        n >= 1,
    ensures
        pixel_spec(
            Vec3 {
                x: Scalar::from_int_spec(n),
                y: Scalar::from_int_spec(n),
                z: Scalar::from_int_spec(n),
            },
            n,
        ) == (Pixel { r: 255, g: 255, b: 255 }),
{
    let sum = Scalar::from_int_spec(n);
    assert(sum@ == n * ONE_RAW);
    let mean = sum.div_spec(sum);
    assert(mean == Scalar::one_spec()) by {
        vstd::arithmetic::div_mod::lemma_div_multiples_vanish(ONE_RAW as int, sum@);
        assert(sum@ * ONE_RAW == ONE_RAW * sum@) by (nonlinear_arith);
    }
    assert(mean.sqrt_spec() == Scalar::one_spec()) by {
        assert(crate::scalar::is_floor_sqrt(ONE_RAW * ONE_RAW, ONE_RAW as int)) by (nonlinear_arith)
            requires
                ONE_RAW == 0x1_0000_0000,
        ;
        lemma_floor_sqrt_is(ONE_RAW * ONE_RAW, ONE_RAW as int);
    }
    let intensity = intensity_spec().clamp_spec(linear_to_gamma_spec(mean));
    assert(intensity@ == INTENSITY_MAX_RAW);
    lemma_level_of_intensity(intensity);
}

} // verus!
