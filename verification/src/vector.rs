//! Three-component vectors, used alike for positions, directions and colors.

use crate::scalar::{
    lemma_product_error, lemma_product_of_like_signs, lemma_product_with_opposite,
    lemma_quotient_sign, lemma_square_nonnegative, Scalar, ONE_RAW,
};
use crate::utility::{is_fraction, lerp_spec, random_double};
use core::ops::Neg;
use vstd::prelude::*;
use vstd::std_specs::ops::{AddSpec, DivSpec, MulSpec, NegSpec, SubSpec};

verus! {

/// Raw representation of the least scalar that is not below `1e-8`: a
/// component counts as vanishing when its magnitude lies under it.
pub const NEAR_ZERO_RAW: i64 = 43;

/// How often a rejection sampler draws before it gives up and returns the
/// zero vector.
pub const MAX_SAMPLING_ATTEMPTS: u32 = 1000;

/// A vector of three scalars.
#[derive(Clone, Copy, Debug, PartialEq, Eq, Structural)]
pub struct Vec3 {
    pub x: Scalar,
    pub y: Scalar,
    pub z: Scalar,
}

/// A position in space.
pub type Point3 = Vec3;

/// A color, with red, green and blue in `x`, `y` and `z`.
pub type Color = Vec3;

impl core::ops::Add for Vec3 {
    type Output = Vec3;

    /// The sum, component by component.
    fn add(self, rhs: Vec3) -> (r: Vec3)
        ensures
            r.x == self.x.add_spec(rhs.x),
            r.y == self.y.add_spec(rhs.y),
            r.z == self.z.add_spec(rhs.z),
    {
        Vec3 { x: self.x + rhs.x, y: self.y + rhs.y, z: self.z + rhs.z }
    }
}

impl vstd::std_specs::ops::AddSpecImpl for Vec3 {
    open spec fn obeys_add_spec() -> bool {
        true
    }

    open spec fn add_req(self, rhs: Vec3) -> bool {
        true
    }

    open spec fn add_spec(self, rhs: Vec3) -> Vec3 {
        Vec3 { x: AddSpec::add_spec(self.x, rhs.x), y: AddSpec::add_spec(self.y, rhs.y), z: AddSpec::add_spec(self.z, rhs.z) }
    }
}

impl core::ops::Sub for Vec3 {
    type Output = Vec3;

    /// The difference, component by component.
    fn sub(self, rhs: Vec3) -> (r: Vec3)
        ensures
            r.x == self.x.sub_spec(rhs.x),
            r.y == self.y.sub_spec(rhs.y),
            r.z == self.z.sub_spec(rhs.z),
    {
        Vec3 { x: self.x - rhs.x, y: self.y - rhs.y, z: self.z - rhs.z }
    }
}

impl vstd::std_specs::ops::SubSpecImpl for Vec3 {
    open spec fn obeys_sub_spec() -> bool {
        true
    }

    open spec fn sub_req(self, rhs: Vec3) -> bool {
        true
    }

    open spec fn sub_spec(self, rhs: Vec3) -> Vec3 {
        Vec3 { x: SubSpec::sub_spec(self.x, rhs.x), y: SubSpec::sub_spec(self.y, rhs.y), z: SubSpec::sub_spec(self.z, rhs.z) }
    }
}

impl core::ops::Neg for Vec3 {
    type Output = Vec3;

    /// The opposite vector.
    fn neg(self) -> (r: Vec3)
        ensures
            r.x == self.x.neg_spec(),
            r.y == self.y.neg_spec(),
            r.z == self.z.neg_spec(),
    {
        Vec3 { x: self.x.neg(), y: self.y.neg(), z: self.z.neg() }
    }
}

impl vstd::std_specs::ops::NegSpecImpl for Vec3 {
    open spec fn obeys_neg_spec() -> bool {
        true
    }

    open spec fn neg_req(self) -> bool {
        true
    }

    open spec fn neg_spec(self) -> Vec3 {
        Vec3 { x: NegSpec::neg_spec(self.x), y: NegSpec::neg_spec(self.y), z: NegSpec::neg_spec(self.z) }
    }
}

impl core::ops::Div<Scalar> for Vec3 {
    type Output = Vec3;

    /// Each component divided by `rhs`, as [`Scalar`] divides: a zero
    /// divisor gives infinities and zeros.
    fn div(self, rhs: Scalar) -> (r: Vec3)
        ensures
            r.x == self.x.div_spec(rhs),
            r.y == self.y.div_spec(rhs),
            r.z == self.z.div_spec(rhs),
    {
        Vec3 { x: self.x / rhs, y: self.y / rhs, z: self.z / rhs }
    }
}

impl vstd::std_specs::ops::DivSpecImpl<Scalar> for Vec3 {
    open spec fn obeys_div_spec() -> bool {
        true
    }

    open spec fn div_req(self, rhs: Scalar) -> bool {
        true
    }

    open spec fn div_spec(self, rhs: Scalar) -> Vec3 {
        Vec3 { x: DivSpec::div_spec(self.x, rhs), y: DivSpec::div_spec(self.y, rhs), z: DivSpec::div_spec(self.z, rhs) }
    }
}

impl core::ops::Mul<Scalar> for Vec3 {
    type Output = Vec3;

    /// Each component multiplied by `rhs`.
    fn mul(self, rhs: Scalar) -> (r: Vec3)
        ensures
            r.x == self.x.mul_spec(rhs),
            r.y == self.y.mul_spec(rhs),
            r.z == self.z.mul_spec(rhs),
    {
        Vec3 { x: self.x * rhs, y: self.y * rhs, z: self.z * rhs }
    }
}

impl vstd::std_specs::ops::MulSpecImpl<Scalar> for Vec3 {
    open spec fn obeys_mul_spec() -> bool {
        true
    }

    open spec fn mul_req(self, rhs: Scalar) -> bool {
        true
    }

    open spec fn mul_spec(self, rhs: Scalar) -> Vec3 {
        Vec3 { x: MulSpec::mul_spec(self.x, rhs), y: MulSpec::mul_spec(self.y, rhs), z: MulSpec::mul_spec(self.z, rhs) }
    }
}

impl core::ops::Mul<i32> for Vec3 {
    type Output = Vec3;

    /// Each component multiplied by the integer `rhs`.
    fn mul(self, rhs: i32) -> (r: Vec3)
        ensures
            r.x == self.x.mul_spec(Scalar::from_int_spec(rhs)),
            r.y == self.y.mul_spec(Scalar::from_int_spec(rhs)),
            r.z == self.z.mul_spec(Scalar::from_int_spec(rhs)),
    {
        self * Scalar::from_int(rhs)
    }
}

impl vstd::std_specs::ops::MulSpecImpl<i32> for Vec3 {
    open spec fn obeys_mul_spec() -> bool {
        true
    }

    open spec fn mul_req(self, rhs: i32) -> bool {
        true
    }

    open spec fn mul_spec(self, rhs: i32) -> Vec3 {
        MulSpec::mul_spec(self, Scalar::from_int_spec(rhs))
    }
}

impl core::ops::Mul<Vec3> for Vec3 {
    type Output = Vec3;

    /// The product, component by component.
    fn mul(self, rhs: Vec3) -> (r: Vec3)
        ensures
            r.x == self.x.mul_spec(rhs.x),
            r.y == self.y.mul_spec(rhs.y),
            r.z == self.z.mul_spec(rhs.z),
    {
        Vec3 { x: self.x * rhs.x, y: self.y * rhs.y, z: self.z * rhs.z }
    }
}

impl vstd::std_specs::ops::MulSpecImpl<Vec3> for Vec3 {
    open spec fn obeys_mul_spec() -> bool {
        true
    }

    open spec fn mul_req(self, rhs: Vec3) -> bool {
        true
    }

    open spec fn mul_spec(self, rhs: Vec3) -> Vec3 {
        Vec3 { x: MulSpec::mul_spec(self.x, rhs.x), y: MulSpec::mul_spec(self.y, rhs.y), z: MulSpec::mul_spec(self.z, rhs.z) }
    }
}

/// The dot product `u.x * v.x + u.y * v.y + u.z * v.z`, summed from the
/// left.
pub open spec fn dot_spec(u: Vec3, v: Vec3) -> Scalar {
    u.x.mul_spec(v.x).add_spec(u.y.mul_spec(v.y)).add_spec(u.z.mul_spec(v.z))
}

/// The cross product.
pub open spec fn cross_spec(u: Vec3, v: Vec3) -> Vec3 {
    Vec3 {
        x: u.y.mul_spec(v.z).sub_spec(u.z.mul_spec(v.y)),
        y: u.z.mul_spec(v.x).sub_spec(u.x.mul_spec(v.z)),
        z: u.x.mul_spec(v.y).sub_spec(u.y.mul_spec(v.x)),
    }
}

/// The mirror image of `v` at a surface with normal `n`:
/// `v - n * 2 * dot(v, n)`.
pub open spec fn reflect_spec(v: Vec3, n: Vec3) -> Vec3 {
    v.sub_spec(n.mul_spec(Scalar::from_int_spec(2)).mul_spec(dot_spec(v, n)))
}

/// The part of the refracted direction that is perpendicular to the normal:
/// `(uv + n * min(dot(-uv, n), 1)) * ratio`.
pub open spec fn refract_perp_spec(uv: Vec3, n: Vec3, ratio: Scalar) -> Vec3 {
    let cos_theta = dot_spec(uv.neg_spec(), n).min_spec(Scalar::one_spec());
    uv.add_spec(n.mul_spec(cos_theta)).mul_spec(ratio)
}

/// The direction of `uv` after it passes, at a surface with normal `n`,
/// into a medium with the given ratio of refractive indices: the
/// perpendicular part plus `n * -sqrt(|1 - perp.length_squared()|)`.
pub open spec fn refract_spec(uv: Vec3, n: Vec3, ratio: Scalar) -> Vec3 {
    let perp = refract_perp_spec(uv, n, ratio);
    let parallel = n.mul_spec(
        Scalar::one_spec().sub_spec(perp.length_squared_spec()).abs_spec().sqrt_spec().neg_spec(),
    );
    perp.add_spec(parallel)
}

impl Vec3 {
    /// The zero vector.
    pub open spec fn zero_spec() -> Vec3 {
        Vec3 { x: Scalar::zero_spec(), y: Scalar::zero_spec(), z: Scalar::zero_spec() }
    }

    /// Whether every component is closer to zero than `1e-8`.
    pub open spec fn near_zero_spec(self) -> bool {
        self.x.abs_spec()@ < NEAR_ZERO_RAW && self.y.abs_spec()@ < NEAR_ZERO_RAW
            && self.z.abs_spec()@ < NEAR_ZERO_RAW
    }

    /// The square of the length.
    pub open spec fn length_squared_spec(self) -> Scalar {
        self.x.mul_spec(self.x).add_spec(self.y.mul_spec(self.y)).add_spec(self.z.mul_spec(self.z))
    }

    /// The length.
    pub open spec fn length_spec(self) -> Scalar {
        self.length_squared_spec().sqrt_spec()
    }

    /// The vector divided by its length.
    pub open spec fn unit_vector_spec(self) -> Vec3 {
        self.div_spec(self.length_spec())
    }

    /// The vector whose components lie between `min` and `max` at the
    /// fractions that are the components of `t`.
    pub open spec fn lerp_spec(min: Scalar, max: Scalar, t: Vec3) -> Vec3 {
        Vec3 {
            x: lerp_spec(min, max, t.x),
            y: lerp_spec(min, max, t.y),
            z: lerp_spec(min, max, t.z),
        }
    }

    /// Whether each component is a fraction of the half-open unit interval.
    pub open spec fn is_fraction(self) -> bool {
        is_fraction(self.x) && is_fraction(self.y) && is_fraction(self.z)
    }

    /// Whether each component lies between `min` and `max`.
    pub open spec fn within(self, min: Scalar, max: Scalar) -> bool {
        min@ <= self.x@ <= max@ && min@ <= self.y@ <= max@ && min@ <= self.z@ <= max@
    }

    /// Whether no component is negative infinity.
    pub open spec fn above_neg_infinity(self) -> bool {
        self.x@ > i64::MIN && self.y@ > i64::MIN && self.z@ > i64::MIN
    }

    /// Whether the vector lies strictly inside the unit sphere, and in the
    /// cube around it.
    pub open spec fn in_unit_ball(self) -> bool {
        self.length_squared_spec()@ < ONE_RAW && self.within(
            Scalar::one_spec().neg_spec(),
            Scalar::one_spec(),
        )
    }

    /// Whether the vector lies strictly inside the unit sphere: its squared
    /// length is less than 1.
    pub open spec fn inside_unit_sphere(self) -> bool {
        self.length_squared_spec()@ < ONE_RAW
    }

    /// The vector of the plane `z = 0` whose first two components lie
    /// between `min` and `max` at the fractions `tx` and `ty`.
    pub open spec fn flat_lerp_spec(min: Scalar, max: Scalar, tx: Scalar, ty: Scalar) -> Vec3 {
        Vec3 { x: lerp_spec(min, max, tx), y: lerp_spec(min, max, ty), z: Scalar::zero_spec() }
    }

    /// Whether the vector is among the draws from the cube around the unit
    /// sphere: each component is `-1 + 2 * t` for a fraction `t`.
    pub open spec fn is_cube_draw(self) -> bool {
        exists|t: Vec3|
            t.is_fraction() && self == #[trigger] Vec3::lerp_spec(
                Scalar::one_spec().neg_spec(),
                Scalar::one_spec(),
                t,
            )
    }

    /// Whether the vector is among the draws from the square around the
    /// unit disk of the plane `z = 0`.
    pub open spec fn is_square_draw(self) -> bool {
        exists|tx: Scalar, ty: Scalar|
            is_fraction(tx) && is_fraction(ty) && self == #[trigger] Vec3::flat_lerp_spec(
                Scalar::one_spec().neg_spec(),
                Scalar::one_spec(),
                tx,
                ty,
            )
    }

    /// The first of `draws` that lies strictly inside the unit sphere, and
    /// the zero vector where none does.
    pub open spec fn first_inside_spec(draws: Seq<Vec3>) -> Vec3
        decreases draws.len(),
    {
        if draws.len() == 0 {
            Vec3::zero_spec()
        } else if draws.first().inside_unit_sphere() {
            draws.first()
        } else {
            Vec3::first_inside_spec(draws.drop_first())
        }
    }

    /// Whether `draws` are the draws of one run of a rejection sampler:
    /// it draws at least once and at most [`MAX_SAMPLING_ATTEMPTS`] times,
    /// and goes on for as long as the draws fall outside the unit sphere.
    pub open spec fn is_rejection_run(draws: Seq<Vec3>) -> bool {
        &&& 0 < draws.len() <= MAX_SAMPLING_ATTEMPTS
        &&& forall|i: int| 0 <= i < draws.len() - 1 ==> !(#[trigger] draws[i]).inside_unit_sphere()
        &&& draws.last().inside_unit_sphere() || draws.len() == MAX_SAMPLING_ATTEMPTS
    }

    /// The zero vector lies strictly inside the unit sphere.
    pub proof fn lemma_zero_in_unit_ball()
        ensures
            Vec3::zero_spec().in_unit_ball(),
    {
        assert(Vec3::zero_spec().length_squared_spec()@ == 0);
    }

    /// Where the first `n` of `draws` lie outside the unit sphere, the
    /// first inside is the next one, and the zero vector where there is no
    /// next one.
    pub proof fn lemma_first_inside(draws: Seq<Vec3>, n: int)
        requires
            0 <= n <= draws.len(),
            forall|i: int| 0 <= i < n ==> !(#[trigger] draws[i]).inside_unit_sphere(),
            n < draws.len() ==> draws[n].inside_unit_sphere(),
        ensures
            Vec3::first_inside_spec(draws) == (if n < draws.len() {
                draws[n]
            } else {
                Vec3::zero_spec()
            }),
        decreases n,
    {
        if n > 0 {
            let rest = draws.drop_first();
            assert(!draws[0].inside_unit_sphere());
            assert forall|i: int| 0 <= i < n - 1 implies !(#[trigger] rest[i]).inside_unit_sphere() by {
                assert(rest[i] == draws[i + 1]);
            }
            if n < draws.len() {
                assert(rest[n - 1] == draws[n]);
            }
            Vec3::lemma_first_inside(rest, n - 1);
        }
    }

    /// Whether the vector is what normalizing a point strictly inside the
    /// unit sphere can give.
    pub open spec fn is_unit_sample(self) -> bool {
        exists|p: Vec3| #[trigger] p.in_unit_ball() && self == p.unit_vector_spec()
    }

    /// `self` where it points into the half-space of `normal`, and its
    /// opposite elsewhere.
    pub open spec fn toward_spec(self, normal: Vec3) -> Vec3 {
        if dot_spec(self, normal)@ > 0 {
            self
        } else {
            self.neg_spec()
        }
    }

    /// The vector with the given components.
    pub fn new(x: Scalar, y: Scalar, z: Scalar) -> (v: Vec3)
        ensures
            v == (Vec3 { x, y, z }),
    {
        Vec3 { x, y, z }
    }

    /// The first component.
    pub fn x(&self) -> (r: Scalar)
        ensures
            r == self.x,
    {
        self.x
    }

    /// The second component.
    pub fn y(&self) -> (r: Scalar)
        ensures
            r == self.y,
    {
        self.y
    }

    /// The third component.
    pub fn z(&self) -> (r: Scalar)
        ensures
            r == self.z,
    {
        self.z
    }

    /// The component with the given index.
    pub fn index(&self, ind: usize) -> (r: Scalar)
        requires
            ind < 3,
        ensures
            r == (if ind == 0 {
                self.x
            } else if ind == 1 {
                self.y
            } else {
                self.z
            }),
    {
        if ind == 0 {
            self.x
        } else if ind == 1 {
            self.y
        } else {
            self.z
        }
    }

    /// Whether every component is closer to zero than `1e-8`.
    pub fn near_zero(&self) -> (r: bool)
        ensures
            r == self.near_zero_spec(),
    {
        let s = Scalar::from_raw(NEAR_ZERO_RAW);
        self.x.abs() < s && self.y.abs() < s && self.z.abs() < s
    }

    /// The square of the length.
    pub fn length_squared(&self) -> (r: Scalar)
        ensures
            r == self.length_squared_spec(),
    {
        self.x * self.x + self.y * self.y + self.z * self.z
    }

    /// The length.
    pub fn length(&self) -> (r: Scalar)
        ensures
            r == self.length_spec(),
    {
        self.length_squared().sqrt()
    }

    /// The vector divided by its length. The zero vector, whose length is
    /// zero, is returned as it is.
    pub fn unit_vector(&self) -> (r: Vec3)
        ensures
            r == self.unit_vector_spec(),
    {
        *self / self.length()
    }

    /// A vector with each component drawn uniformly from `[min, max)`.
    pub fn random(min: Scalar, max: Scalar) -> (v: Vec3)
        ensures
            exists|t: Vec3| t.is_fraction() && v == #[trigger] Vec3::lerp_spec(min, max, t),
            min@ <= max@ ==> v.within(min, max),
    {
        let x = random_double(min, max);
        let y = random_double(min, max);
        let z = random_double(min, max);
        proof {
            let tx = choose|t: Scalar| is_fraction(t) && x == #[trigger] lerp_spec(min, max, t);
            let ty = choose|t: Scalar| is_fraction(t) && y == #[trigger] lerp_spec(min, max, t);
            let tz = choose|t: Scalar| is_fraction(t) && z == #[trigger] lerp_spec(min, max, t);
            let t = Vec3 { x: tx, y: ty, z: tz };
            assert(Vec3 { x, y, z } == Vec3::lerp_spec(min, max, t));
        }
        Vec3::new(x, y, z)
    }

    /// The first of `candidates` that lies strictly inside the unit
    /// sphere, and the zero vector where none does: what a rejection
    /// sampler returns when these are its draws.
    pub fn first_in_unit_sphere(candidates: &Vec<Vec3>) -> (p: Vec3)
        ensures
            p == Vec3::first_inside_spec(candidates@),
    {
        let mut i: usize = 0;
        while i < candidates.len()
            invariant
                i <= candidates.len(),
                forall|j: int| 0 <= j < i ==> !(#[trigger] candidates@[j]).inside_unit_sphere(),
            decreases candidates.len() - i,
        {
            let candidate = candidates[i];
            if candidate.length_squared() < Scalar::one() {
                proof {
                    Vec3::lemma_first_inside(candidates@, i as int);
                }
                return candidate;
            }
            i = i + 1;
        }
        proof {
            Vec3::lemma_first_inside(candidates@, i as int);
        }
        Vec3::new(Scalar::zero(), Scalar::zero(), Scalar::zero())
    }

    /// A point strictly inside the unit sphere, found by drawing from the
    /// cube around it until a draw falls inside. After
    /// [`MAX_SAMPLING_ATTEMPTS`] draws outside it returns the zero vector.
    /// The point is what [`Vec3::first_in_unit_sphere`] returns for the
    /// draws made.
    pub fn random_in_unit_sphere() -> (p: Vec3)
        ensures
            exists|draws: Seq<Vec3>|
                {
                    &&& Vec3::is_rejection_run(draws)
                    &&& forall|i: int| 0 <= i < draws.len() ==> (#[trigger] draws[i]).is_cube_draw()
                    &&& p == #[trigger] Vec3::first_inside_spec(draws)
                },
            p.in_unit_ball(),
    {
        let ghost mut draws: Seq<Vec3> = Seq::empty();
        let mut attempts: u32 = 0;
        while attempts < MAX_SAMPLING_ATTEMPTS
            invariant
                attempts <= MAX_SAMPLING_ATTEMPTS,
                draws.len() == attempts,
                forall|i: int| 0 <= i < draws.len() ==> (#[trigger] draws[i]).is_cube_draw(),
                forall|i: int| 0 <= i < draws.len() ==> !(#[trigger] draws[i]).inside_unit_sphere(),
            decreases MAX_SAMPLING_ATTEMPTS - attempts,
        {
            let p = Vec3::random(Scalar::one().neg(), Scalar::one());
            proof {
                assert(p.is_cube_draw());
                draws = draws.push(p);
            }
            if p.length_squared() < Scalar::one() {
                proof {
                    Vec3::lemma_first_inside(draws, draws.len() - 1);
                    assert(Vec3::is_rejection_run(draws));
                    assert(p == Vec3::first_inside_spec(draws));
                }
                return p;
            }
            attempts = attempts + 1;
        }
        proof {
            Vec3::lemma_first_inside(draws, draws.len() as int);
            assert(Vec3::is_rejection_run(draws));
            assert(Vec3::zero_spec() == Vec3::first_inside_spec(draws));
            Vec3::lemma_zero_in_unit_ball();
        }
        Vec3::new(Scalar::zero(), Scalar::zero(), Scalar::zero())
    }

    /// A point strictly inside the unit disk of the plane `z = 0`, found
    /// by drawing from the square around it until a draw falls inside.
    /// After [`MAX_SAMPLING_ATTEMPTS`] draws outside it returns the zero
    /// vector. The point is what [`Vec3::first_in_unit_sphere`] returns
    /// for the draws made.
    pub fn random_in_unit_disk() -> (p: Vec3)
        ensures
            exists|draws: Seq<Vec3>|
                {
                    &&& Vec3::is_rejection_run(draws)
                    &&& forall|i: int|
                        0 <= i < draws.len() ==> (#[trigger] draws[i]).is_square_draw()
                    &&& p == #[trigger] Vec3::first_inside_spec(draws)
                },
            p.in_unit_ball(),
            p.z == Scalar::zero_spec(),
    {
        let ghost mut draws: Seq<Vec3> = Seq::empty();
        let mut attempts: u32 = 0;
        while attempts < MAX_SAMPLING_ATTEMPTS
            invariant
                attempts <= MAX_SAMPLING_ATTEMPTS,
                draws.len() == attempts,
                forall|i: int| 0 <= i < draws.len() ==> (#[trigger] draws[i]).is_square_draw(),
                forall|i: int| 0 <= i < draws.len() ==> !(#[trigger] draws[i]).inside_unit_sphere(),
            decreases MAX_SAMPLING_ATTEMPTS - attempts,
        {
            let min = Scalar::one().neg();
            let max = Scalar::one();
            let x = random_double(min, max);
            let y = random_double(min, max);
            let p = Vec3::new(x, y, Scalar::zero());
            proof {
                let tx = choose|t: Scalar| is_fraction(t) && x == #[trigger] lerp_spec(min, max, t);
                let ty = choose|t: Scalar| is_fraction(t) && y == #[trigger] lerp_spec(min, max, t);
                assert(p == Vec3::flat_lerp_spec(
                    Scalar::one_spec().neg_spec(),
                    Scalar::one_spec(),
                    tx,
                    ty,
                ));
                assert(p.is_square_draw());
                draws = draws.push(p);
            }
            if p.length_squared() < Scalar::one() {
                proof {
                    Vec3::lemma_first_inside(draws, draws.len() - 1);
                    assert(Vec3::is_rejection_run(draws));
                    assert(p == Vec3::first_inside_spec(draws));
                }
                return p;
            }
            attempts = attempts + 1;
        }
        proof {
            Vec3::lemma_first_inside(draws, draws.len() as int);
            assert(Vec3::is_rejection_run(draws));
            assert(Vec3::zero_spec() == Vec3::first_inside_spec(draws));
            Vec3::lemma_zero_in_unit_ball();
        }
        Vec3::new(Scalar::zero(), Scalar::zero(), Scalar::zero())
    }

    /// A random direction: a point of [`Vec3::random_in_unit_sphere`],
    /// normalized.
    pub fn random_unit_vector() -> (v: Vec3)
        ensures
            v.is_unit_sample(),
    {
        let p = Vec3::random_in_unit_sphere();
        p.unit_vector()
    }

    /// `self` where it points into the half-space of `normal`, and its
    /// opposite elsewhere.
    pub fn toward(&self, normal: &Vec3) -> (v: Vec3)
        ensures
            v == self.toward_spec(*normal),
    {
        if dot(self, normal) > Scalar::zero() {
            *self
        } else {
            self.neg()
        }
    }

    /// A random direction in the half-space of `normal`.
    pub fn random_on_hemisphere(normal: &Vec3) -> (v: Vec3)
        ensures
            exists|u: Vec3| #[trigger] u.is_unit_sample() && v == u.toward_spec(*normal),
    {
        let on_unit_sphere = Vec3::random_unit_vector();
        on_unit_sphere.toward(normal)
    }
}

/// The mirror image of `v` at a surface with normal `n`.
pub fn reflect(v: &Vec3, n: &Vec3) -> (r: Vec3)
    ensures
        r == reflect_spec(*v, *n),
{
    *v - *n * Scalar::from_int(2) * dot(v, n)
}

/// The direction of the unit vector `uv` after it passes, at a surface with
/// normal `n`, into a medium with the ratio `etai_over_etat` of refractive
/// indices.
pub fn refract(uv: &Vec3, n: &Vec3, etai_over_etat: Scalar) -> (r: Vec3)
    ensures
        r == refract_spec(*uv, *n, etai_over_etat),
{
    let cos_theta = dot(&uv.neg(), n).min(Scalar::one());
    let r_out_perp = (*uv + *n * cos_theta) * etai_over_etat;
    let r_out_parallel = *n * (Scalar::one() - r_out_perp.length_squared()).abs().sqrt().neg();
    r_out_perp + r_out_parallel
}

/// The dot product.
pub fn dot(u: &Vec3, v: &Vec3) -> (r: Scalar)
    ensures
        r == dot_spec(*u, *v),
{
    u.x * v.x + u.y * v.y + u.z * v.z
}

/// The cross product.
pub fn cross(u: &Vec3, v: &Vec3) -> (r: Vec3)
    ensures
        r == cross_spec(*u, *v),
{
    Vec3 {
        x: u.y * v.z - u.z * v.y,
        y: u.z * v.x - u.x * v.z,
        z: u.x * v.y - u.y * v.x,
    }
}

/// A squared length is not negative.
pub proof fn lemma_length_squared_nonnegative(v: Vec3)
    ensures
        v.length_squared_spec()@ >= 0,
{
    lemma_square_nonnegative(v.x);
    lemma_square_nonnegative(v.y);
    lemma_square_nonnegative(v.z);
}

/// The dot product with the opposite of a vector is at most the opposite
/// of the dot product, for a vector without a component at negative
/// infinity.
pub proof fn lemma_dot_with_opposite(d: Vec3, o: Vec3)
    requires
        o.above_neg_infinity(),
    ensures
        dot_spec(d, o.neg_spec())@ <= -dot_spec(d, o)@,
{
    lemma_product_with_opposite(d.x, o.x);
    lemma_product_with_opposite(d.y, o.y);
    lemma_product_with_opposite(d.z, o.z);
}

/// A vector divided by a positive number points the way it pointed: its
/// dot product with the vector is not negative.
pub proof fn lemma_quotient_points_along(v: Vec3, d: Scalar)
    requires
        d@ > 0,
    ensures
        dot_spec(v.div_spec(d), v)@ >= 0,
{
    lemma_quotient_sign(v.x@, d@);
    lemma_quotient_sign(v.y@, d@);
    lemma_quotient_sign(v.z@, d@);
    lemma_product_of_like_signs(v.x.div_spec(d), v.x);
    lemma_product_of_like_signs(v.y.div_spec(d), v.y);
    lemma_product_of_like_signs(v.z.div_spec(d), v.z);
}

/// The dot product with the opposite of a vector is the opposite of the
/// dot product, where the components of both vectors lie between -1 and 1.
pub proof fn lemma_dot_of_opposite(v: Vec3, n: Vec3)
    requires
        v.within(Scalar::one_spec().neg_spec(), Scalar::one_spec()),
        n.within(Scalar::one_spec().neg_spec(), Scalar::one_spec()),
    ensures
        dot_spec(v.neg_spec(), n)@ == -dot_spec(v, n)@,
{
    let s = ONE_RAW as int;
    lemma_product_error(v.x, n.x);
    lemma_product_error(v.y, n.y);
    lemma_product_error(v.z, n.z);
    lemma_product_bound(v.x@, n.x@, s, s);
    lemma_product_bound(v.y@, n.y@, s, s);
    lemma_product_bound(v.z@, n.z@, s, s);
    assert((-v.x@) * n.x@ == -(v.x@ * n.x@)) by (nonlinear_arith);
    assert((-v.y@) * n.y@ == -(v.y@ * n.y@)) by (nonlinear_arith);
    assert((-v.z@) * n.z@ == -(v.z@ * n.z@)) by (nonlinear_arith);
}

/// A mirror keeps the angle with the normal, up to rounding: where the
/// components of the direction `v` and of the normal `n` lie between -1
/// and 1, and the squared length of `n` misses 1 by no more than `k` units
/// of the last place, the dot product of the mirror image with the normal
/// misses the dot product of `-v` with the normal by no more than
/// `6 * k + 9` units of the last place.
pub proof fn lemma_reflect_keeps_angle(v: Vec3, n: Vec3, k: nat)
    requires
        v.within(Scalar::one_spec().neg_spec(), Scalar::one_spec()),
        n.within(Scalar::one_spec().neg_spec(), Scalar::one_spec()),
        -k * ONE_RAW <= n.x@ * n.x@ + n.y@ * n.y@ + n.z@ * n.z@ - ONE_RAW * ONE_RAW <= k * ONE_RAW,
    ensures
        -(6 * k + 9) <= dot_spec(reflect_spec(v, n), n)@ - dot_spec(v.neg_spec(), n)@ <= 6 * k
            + 9,
{
    lemma_dot_of_opposite(v, n);
    let s = ONE_RAW as int;
    let two = Scalar::from_int_spec(2);
    // the dot product of v and n
    lemma_product_error(v.x, n.x);
    lemma_product_error(v.y, n.y);
    lemma_product_error(v.z, n.z);
    let t1 = v.x.mul_spec(n.x);
    let t2 = v.y.mul_spec(n.y);
    let t3 = v.z.mul_spec(n.z);
    lemma_product_bound(v.x@, n.x@, s, s);
    lemma_product_bound(v.y@, n.y@, s, s);
    lemma_product_bound(v.z@, n.z@, s, s);
    let d = dot_spec(v, n);
    assert(d@ == t1@ + t2@ + t3@);
    assert(-3 * s <= d@ <= 3 * s);
    // twice the normal
    lemma_product_error(n.x, two);
    lemma_product_error(n.y, two);
    lemma_product_error(n.z, two);
    let m1 = n.x.mul_spec(two);
    let m2 = n.y.mul_spec(two);
    let m3 = n.z.mul_spec(two);
    assert(m1@ == 2 * n.x@ && m2@ == 2 * n.y@ && m3@ == 2 * n.z@) by {
        assert(n.x@ * two@ == (2 * n.x@) * s) by (nonlinear_arith)
            requires
                two@ == 2 * s,
        ;
        assert(n.y@ * two@ == (2 * n.y@) * s) by (nonlinear_arith)
            requires
                two@ == 2 * s,
        ;
        assert(n.z@ * two@ == (2 * n.z@) * s) by (nonlinear_arith)
            requires
                two@ == 2 * s,
        ;
    }
    // twice the normal times the dot product
    lemma_product_error(m1, d);
    lemma_product_error(m2, d);
    lemma_product_error(m3, d);
    let w1 = m1.mul_spec(d);
    let w2 = m2.mul_spec(d);
    let w3 = m3.mul_spec(d);
    lemma_product_bound(m1@, d@, 2 * s, 3 * s);
    lemma_product_bound(m2@, d@, 2 * s, 3 * s);
    lemma_product_bound(m3@, d@, 2 * s, 3 * s);
    assert(-6 * s <= w1@ <= 6 * s && -6 * s <= w2@ <= 6 * s && -6 * s <= w3@ <= 6 * s);
    // the mirror image
    let r = reflect_spec(v, n);
    assert(r.x@ == v.x@ - w1@ && r.y@ == v.y@ - w2@ && r.z@ == v.z@ - w3@);
    // its dot product with the normal
    lemma_product_error(r.x, n.x);
    lemma_product_error(r.y, n.y);
    lemma_product_error(r.z, n.z);
    let u1 = r.x.mul_spec(n.x);
    let u2 = r.y.mul_spec(n.y);
    let u3 = r.z.mul_spec(n.z);
    lemma_product_bound(r.x@, n.x@, 7 * s, s);
    lemma_product_bound(r.y@, n.y@, 7 * s, s);
    lemma_product_bound(r.z@, n.z@, 7 * s, s);
    let mirrored = dot_spec(r, n);
    assert(mirrored@ == u1@ + u2@ + u3@);
    // what the roundings took away
    let e1 = (v.x@ * n.x@ - s * t1@) + (v.y@ * n.y@ - s * t2@) + (v.z@ * n.z@ - s * t3@);
    let e3 = (r.x@ * n.x@ - s * u1@) + (r.y@ * n.y@ - s * u2@) + (r.z@ * n.z@ - s * u3@);
    let f1 = m1@ * d@ - s * w1@;
    let f2 = m2@ * d@ - s * w2@;
    let f3 = m3@ * d@ - s * w3@;
    let e2 = f1 * n.x@ + f2 * n.y@ + f3 * n.z@;
    lemma_product_bound(f1, n.x@, s, s);
    lemma_product_bound(f2, n.y@, s, s);
    lemma_product_bound(f3, n.z@, s, s);
    assert(-3 * s * s <= e2 <= 3 * s * s);
    let length = n.x@ * n.x@ + n.y@ * n.y@ + n.z@ * n.z@;
    let off = s * s - length;
    lemma_product_bound(d@, off, 3 * s, k * s);
    assert((3 * s) * (k * s) == 3 * k * (s * s)) by (nonlinear_arith);
    // the mirror image times the normal, in terms of v and of w
    assert(r.x@ * n.x@ == v.x@ * n.x@ - w1@ * n.x@) by (nonlinear_arith)
        requires
            r.x@ == v.x@ - w1@,
    ;
    assert(r.y@ * n.y@ == v.y@ * n.y@ - w2@ * n.y@) by (nonlinear_arith)
        requires
            r.y@ == v.y@ - w2@,
    ;
    assert(r.z@ * n.z@ == v.z@ * n.z@ - w3@ * n.z@) by (nonlinear_arith)
        requires
            r.z@ == v.z@ - w3@,
    ;
    assert(s * (w1@ * n.x@) == 2 * (d@ * (n.x@ * n.x@)) - f1 * n.x@) by (nonlinear_arith)
        requires
            f1 == m1@ * d@ - s * w1@,
            m1@ == 2 * n.x@,
    ;
    assert(s * (w2@ * n.y@) == 2 * (d@ * (n.y@ * n.y@)) - f2 * n.y@) by (nonlinear_arith)
        requires
            f2 == m2@ * d@ - s * w2@,
            m2@ == 2 * n.y@,
    ;
    assert(s * (w3@ * n.z@) == 2 * (d@ * (n.z@ * n.z@)) - f3 * n.z@) by (nonlinear_arith)
        requires
            f3 == m3@ * d@ - s * w3@,
            m3@ == 2 * n.z@,
    ;
    assert(d@ * off == s * s * d@ - (d@ * (n.x@ * n.x@) + d@ * (n.y@ * n.y@) + d@ * (n.z@
        * n.z@))) by (nonlinear_arith)
        requires
            off == s * s - (n.x@ * n.x@ + n.y@ * n.y@ + n.z@ * n.z@),
    ;
    let pw = w1@ * n.x@ + w2@ * n.y@ + w3@ * n.z@;
    assert(s * mirrored@ == s * d@ + e1 - pw - e3);
    assert(s * pw == 2 * (d@ * (n.x@ * n.x@) + d@ * (n.y@ * n.y@) + d@ * (n.z@ * n.z@)) - e2);
    assert(s * s * (mirrored@ + d@) == 2 * (d@ * off) + s * (e1 - e3) + e2) by {
        assert(s * (s * mirrored@) == s * (s * d@ + e1 - pw - e3));
        assert(s * (s * mirrored@) == s * s * mirrored@) by (nonlinear_arith);
        assert(s * (s * d@ + e1 - pw - e3) == s * s * d@ + s * e1 - s * pw - s * e3)
            by (nonlinear_arith);
        assert(s * s * (mirrored@ + d@) == s * s * mirrored@ + s * s * d@) by (nonlinear_arith);
        assert(s * (e1 - e3) == s * e1 - s * e3) by (nonlinear_arith);
    }
    assert(-(6 * k + 9) * (s * s) <= s * s * (mirrored@ + d@) <= (6 * k + 9) * (s * s)) by (nonlinear_arith)
        requires
            s * s * (mirrored@ + d@) == 2 * (d@ * off) + s * (e1 - e3) + e2,
            -(3 * k * (s * s)) <= d@ * off <= 3 * k * (s * s),
            -3 * s < e1 < 3 * s,
            -3 * s < e3 < 3 * s,
            -3 * s * s <= e2 <= 3 * s * s,
            s > 0,
    ;
    assert(-(6 * k + 9) <= mirrored@ + d@ <= 6 * k + 9) by (nonlinear_arith)
        requires
            -(6 * k + 9) * (s * s) <= s * s * (mirrored@ + d@) <= (6 * k + 9) * (s * s),
            s > 0,
    ;
}

/// The product of two bounded integers is bounded by the product of the
/// bounds.
pub proof fn lemma_product_bound(a: int, b: int, bound_a: int, bound_b: int)
    by (nonlinear_arith)
    requires
        -bound_a <= a <= bound_a,
        -bound_b <= b <= bound_b,
    ensures
        -(bound_a * bound_b) <= a * b <= bound_a * bound_b,
{
}

} // verus!
