//! The pseudo-random source and helpers on top of it.

use crate::scalar::{Scalar, ONE_RAW};
use vstd::prelude::*;
use vstd::std_specs::ops::{AddSpec, DivSpec, MulSpec, SubSpec};

verus! {

/// Raw representation of the number pi, rounded down.
pub const PI_RAW: i64 = 13493037704;

/// The angle of `degrees` degrees in radians: `degrees * pi / 180`.
pub open spec fn degrees_to_radians_spec(degrees: Scalar) -> Scalar {
    degrees.mul_spec(Scalar { raw: PI_RAW }).div_spec(Scalar::from_int_spec(180))
}

/// The angle of `degrees` degrees in radians.
pub fn degrees_to_radians(degrees: Scalar) -> (radians: Scalar)
    ensures
        radians == degrees_to_radians_spec(degrees),
{
    degrees * Scalar::from_raw(PI_RAW) / Scalar::from_int(180)
}

/// Calls `rand::random::<u32>()`, which draws 32 bits from the thread-local
/// generator of the `rand` crate. Nothing is claimed of the bits drawn. The
/// call panics where the operating system cannot seed the generator.
#[verifier::external_body]
fn random_bits() -> (bits: u32) {
    rand::random::<u32>()
}

/// `t` is a fraction of the half-open unit interval `[0, 1)`.
pub open spec fn is_fraction(t: Scalar) -> bool {
    0 <= t@ < ONE_RAW
}

/// The point of the segment from `min` to `max` at the fraction `t`:
/// `min + (max - min) * t`.
pub open spec fn lerp_spec(min: Scalar, max: Scalar, t: Scalar) -> Scalar {
    min.add_spec(max.sub_spec(min).mul_spec(t))
}

/// A fraction of its span moves a point no further than the far end of a
/// segment, and not as far where the segment is not empty.
pub proof fn lemma_lerp_bounds(min: Scalar, max: Scalar, t: Scalar)
    requires
        is_fraction(t),
        min@ <= max@,
    ensures
        min@ <= lerp_spec(min, max, t)@ <= max@,
        min@ < max@ ==> lerp_spec(min, max, t)@ < max@,
{
    let span = max.sub_spec(min);
    let step = span.mul_spec(t);
    let p = span@ * t@;
    assert(0 <= span@ <= max@ - min@);
    assert(0 <= p <= span@ * ONE_RAW && (span@ > 0 ==> p < span@ * ONE_RAW)) by (nonlinear_arith)
        requires
            0 <= span@,
            0 <= t@ < ONE_RAW,
            p == span@ * t@,
    ;
    vstd::arithmetic::div_mod::lemma_div_is_ordered(p, span@ * ONE_RAW, ONE_RAW as int);
    vstd::arithmetic::div_mod::lemma_div_multiples_vanish(span@, ONE_RAW as int);
    vstd::arithmetic::div_mod::lemma_div_pos_is_pos(p, ONE_RAW as int);
    assert(0 <= step@ <= span@);
    if span@ > 0 {
        vstd::arithmetic::div_mod::lemma_div_by_multiple_is_strongly_ordered(
            p,
            span@ * ONE_RAW,
            span@,
            ONE_RAW as int,
        );
        assert(step@ < span@);
    }
}

/// A uniform draw from the half-open unit interval `[0, 1)`, at the
/// resolution of a [`Scalar`].
pub fn random_fraction() -> (t: Scalar)
    ensures
        is_fraction(t),
{
    let bits: u32 = random_bits();
    Scalar::from_raw(bits as i64)
}

/// The point of the segment from `min` to `max` at the fraction `t`.
pub fn lerp(min: Scalar, max: Scalar, t: Scalar) -> (r: Scalar)
    ensures
        r == lerp_spec(min, max, t),
{
    min + (max - min) * t
}

/// A uniform draw from `[min, max)`.
pub fn random_double(min: Scalar, max: Scalar) -> (r: Scalar)
    ensures
        exists|t: Scalar| is_fraction(t) && r == #[trigger] lerp_spec(min, max, t),
        min@ <= max@ ==> min@ <= r@ <= max@,
        min@ < max@ ==> r@ < max@,
{
    let t = random_fraction();
    proof {
        if min@ <= max@ {
            lemma_lerp_bounds(min, max, t);
        }
    }
    lerp(min, max, t)
}

} // verus!
