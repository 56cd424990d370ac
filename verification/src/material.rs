//! Surface materials: how a ray that hits a surface is scattered.
//!
//! Every material has two entry points. `scatter` draws the random numbers
//! it needs and decides; `scatter_with` takes them as arguments and is a
//! function of its arguments alone.

use crate::hittable::HitRecord;
use crate::ray::Ray;
use crate::scalar::{lemma_over_itself, lemma_times_one, Scalar, ONE_RAW};
use crate::utility::{is_fraction, random_fraction};
use crate::vector::{
    dot, dot_spec, lemma_reflect_keeps_angle, reflect, reflect_spec, refract, refract_perp_spec,
    refract_spec, Color, Vec3,
};
use core::ops::Neg;
use vstd::prelude::*;
use vstd::std_specs::ops::{AddSpec, DivSpec, MulSpec, NegSpec, SubSpec};

verus! {

/// What a surface makes of a ray: the color it lets through, and the ray
/// that leaves it.
#[derive(Clone, Copy, Debug, PartialEq, Eq, Structural)]
pub struct Scatter {
    pub attenuation: Color,
    pub scattered: Ray,
}

/// A diffuse surface.
#[derive(Clone, Copy, Debug, PartialEq, Eq, Structural)]
pub struct Lambertian {
    albedo: Color,
}

/// A mirroring surface, the rougher the larger its fuzz.
#[derive(Clone, Copy, Debug, PartialEq, Eq, Structural)]
pub struct Metal {
    albedo: Color,
    fuzz: Scalar,
}

/// A clear surface that both mirrors and refracts.
#[derive(Clone, Copy, Debug, PartialEq, Eq, Structural)]
pub struct Dielectric {
    ir: Scalar,
}

/// The material of a surface.
#[derive(Clone, Copy, Debug, PartialEq, Eq, Structural)]
pub enum Material {
    Lambertian(Lambertian),
    Metal(Metal),
    Dielectric(Dielectric),
}

/// The color that lets all light through.
pub open spec fn white_spec() -> Color {
    Vec3 { x: Scalar::one_spec(), y: Scalar::one_spec(), z: Scalar::one_spec() }
}

/// The zero vector is what normalizing the center of the unit sphere gives,
/// so there is a unit sample.
pub proof fn lemma_unit_sample_exists()
    ensures
        Vec3::zero_spec().unit_vector_spec().is_unit_sample(),
{
    let p = Vec3::zero_spec();
    assert(p.length_squared_spec()@ == 0);
    assert(p.in_unit_ball());
}

impl Lambertian {
    /// The color the surface reflects.
    pub closed spec fn albedo_spec(self) -> Color {
        self.albedo
    }

    /// The direction in which the surface scatters when `unit` is the
    /// random direction drawn: `normal + unit`, or the normal itself where
    /// that sum all but vanishes.
    pub open spec fn direction_spec(rec: HitRecord, unit: Vec3) -> Vec3 {
        let sum = rec.normal.add_spec(unit);
        if sum.near_zero_spec() {
            rec.normal
        } else {
            sum
        }
    }

    /// What the surface makes of a ray that hits it at `rec`, when `unit`
    /// is the random direction drawn.
    pub open spec fn scatter_spec(self, r_in: Ray, rec: HitRecord, unit: Vec3) -> Option<Scatter> {
        Some(
            Scatter {
                attenuation: self.albedo_spec(),
                scattered: Ray { orig: rec.p, dir: Lambertian::direction_spec(rec, unit) },
            },
        )
    }

    /// A diffuse surface that reflects the color `albedo`.
    pub fn new(albedo: Color) -> (m: Lambertian)
        ensures
            m.albedo_spec() == albedo,
    {
        Lambertian { albedo }
    }

    /// The color the surface reflects.
    pub fn albedo(&self) -> (c: Color)
        ensures
            c == self.albedo_spec(),
    {
        self.albedo
    }

    /// Scatters with the random direction `unit`. A diffuse surface
    /// scatters every ray, from the point hit.
    pub fn scatter_with(&self, r_in: &Ray, rec: &HitRecord, unit: Vec3) -> (out: Option<Scatter>)
        ensures
            out == self.scatter_spec(*r_in, *rec, unit),
    {
        let mut scatter_direction = rec.normal + unit;
        if scatter_direction.near_zero() {
            scatter_direction = rec.normal;
        }
        Some(Scatter { attenuation: self.albedo, scattered: Ray::new(rec.p, scatter_direction) })
    }

    /// Scatters a ray that hit the surface at `rec`. The ray is never
    /// absorbed, and the attenuation is the albedo.
    pub fn scatter(&self, r_in: &Ray, rec: &HitRecord) -> (out: Option<Scatter>)
        ensures
            exists|unit: Vec3|
                unit.is_unit_sample() && out == #[trigger] self.scatter_spec(*r_in, *rec, unit),
            out is Some,
            out->0.attenuation == self.albedo_spec(),
            out->0.scattered.orig == rec.p,
    {
        let unit = Vec3::random_unit_vector();
        self.scatter_with(r_in, rec, unit)
    }
}

impl Metal {
    #[verifier::type_invariant]
    spec fn fuzz_in_range(self) -> bool {
        0 <= self.fuzz@ <= ONE_RAW
    }

    /// The color the surface reflects.
    pub closed spec fn albedo_spec(self) -> Color {
        self.albedo
    }

    /// The roughness of the surface.
    pub closed spec fn fuzz_spec(self) -> Scalar {
        self.fuzz
    }

    /// The direction in which the surface scatters when `unit` is the
    /// random direction drawn: the mirror image of the normalized incoming
    /// direction, plus `unit * fuzz`.
    pub open spec fn direction_spec(self, r_in: Ray, rec: HitRecord, unit: Vec3) -> Vec3 {
        reflect_spec(r_in.dir.unit_vector_spec(), rec.normal).add_spec(
            unit.mul_spec(self.fuzz_spec()),
        )
    }

    /// What the surface makes of a ray that hits it at `rec`, when `unit`
    /// is the random direction drawn: it scatters where the direction
    /// leaves the surface, and absorbs elsewhere.
    pub open spec fn scatter_spec(self, r_in: Ray, rec: HitRecord, unit: Vec3) -> Option<Scatter> {
        let direction = self.direction_spec(r_in, rec, unit);
        if dot_spec(direction, rec.normal)@ > 0 {
            Some(
                Scatter {
                    attenuation: self.albedo_spec(),
                    scattered: Ray { orig: rec.p, dir: direction },
                },
            )
        } else {
            None
        }
    }

    /// A mirroring surface that reflects the color `albedo`. The fuzz is
    /// forced into the range from zero to one.
    pub fn new(albedo: Color, fuzz: Scalar) -> (m: Metal)
        ensures
            m.albedo_spec() == albedo,
            m.fuzz_spec() == fuzz.max_spec(Scalar::zero_spec()).min_spec(Scalar::one_spec()),
    {
        Metal { albedo, fuzz: fuzz.max(Scalar::zero()).min(Scalar::one()) }
    }

    /// The color the surface reflects.
    pub fn albedo(&self) -> (c: Color)
        ensures
            c == self.albedo_spec(),
    {
        self.albedo
    }

    /// The roughness of the surface, which lies between zero and one.
    pub fn fuzz(&self) -> (f: Scalar)
        ensures
            f == self.fuzz_spec(),
            0 <= f@ <= ONE_RAW,
    {
        proof {
            use_type_invariant(self);
        }
        self.fuzz
    }

    /// Scatters with the random direction `unit`.
    pub fn scatter_with(&self, r_in: &Ray, rec: &HitRecord, unit: Vec3) -> (out: Option<Scatter>)
        ensures
            out == self.scatter_spec(*r_in, *rec, unit),
    {
        let reflected = reflect(&r_in.direction().unit_vector(), &rec.normal);
        let scattered = Ray::new(rec.p, reflected + unit * self.fuzz);
        if dot(&scattered.direction(), &rec.normal) > Scalar::zero() {
            Some(Scatter { attenuation: self.albedo, scattered })
        } else {
            None
        }
    }

    /// Scatters a ray that hit the surface at `rec`, or absorbs it: a ray
    /// is scattered only into the half-space of the normal.
    pub fn scatter(&self, r_in: &Ray, rec: &HitRecord) -> (out: Option<Scatter>)
        ensures
            exists|unit: Vec3|
                unit.is_unit_sample() && out == #[trigger] self.scatter_spec(*r_in, *rec, unit),
            out matches Some(s) ==> s.attenuation == self.albedo_spec() && s.scattered.orig == rec.p
                && dot_spec(s.scattered.dir, rec.normal)@ > 0,
    {
        let unit = Vec3::random_unit_vector();
        self.scatter_with(r_in, rec, unit)
    }
}

impl Dielectric {
    /// The index of refraction.
    pub closed spec fn ir_spec(self) -> Scalar {
        self.ir
    }

    /// The share of light that a surface with the index of refraction
    /// `ref_idx` mirrors at the angle with the cosine `cosine`, after
    /// Schlick: `r0 + (1 - r0) * (1 - cosine)^5` with
    /// `r0 = ((1 - ref_idx) / (1 + ref_idx))^2`.
    pub open spec fn reflectance_spec(cosine: Scalar, ref_idx: Scalar) -> Scalar {
        let one = Scalar::one_spec();
        let root = one.sub_spec(ref_idx).div_spec(one.add_spec(ref_idx));
        let r0 = root.mul_spec(root);
        r0.add_spec(one.sub_spec(r0).mul_spec(one.sub_spec(cosine).powi_spec(5)))
    }

    /// The ratio of the refractive indices on the two sides of the surface,
    /// in the order in which the ray passes them.
    pub open spec fn ratio_spec(self, rec: HitRecord) -> Scalar {
        if rec.front_face {
            Scalar::one_spec().div_spec(self.ir_spec())
        } else {
            self.ir_spec()
        }
    }

    /// The cosine of the angle between the ray and the normal, at most one.
    pub open spec fn cos_theta_spec(r_in: Ray, rec: HitRecord) -> Scalar {
        dot_spec(r_in.dir.unit_vector_spec().neg_spec(), rec.normal).min_spec(Scalar::one_spec())
    }

    /// Whether the ray is mirrored when `draw` is the random fraction
    /// drawn: where no refracted ray exists, and else where the draw lies
    /// under the reflectance.
    pub open spec fn reflects_spec(self, r_in: Ray, rec: HitRecord, draw: Scalar) -> bool {
        let ratio = self.ratio_spec(rec);
        let cos_theta = Dielectric::cos_theta_spec(r_in, rec);
        let sin_theta = Scalar::one_spec().sub_spec(cos_theta.mul_spec(cos_theta)).sqrt_spec();
        ratio.mul_spec(sin_theta)@ > ONE_RAW || Dielectric::reflectance_spec(
            cos_theta,
            self.ir_spec(),
        )@ > draw@
    }

    /// The direction in which the surface scatters when `draw` is the
    /// random fraction drawn.
    pub open spec fn direction_spec(self, r_in: Ray, rec: HitRecord, draw: Scalar) -> Vec3 {
        let unit_direction = r_in.dir.unit_vector_spec();
        if self.reflects_spec(r_in, rec, draw) {
            reflect_spec(unit_direction, rec.normal)
        } else {
            refract_spec(unit_direction, rec.normal, self.ratio_spec(rec))
        }
    }

    /// What the surface makes of a ray that hits it at `rec`, when `draw`
    /// is the random fraction drawn.
    pub open spec fn scatter_spec(self, r_in: Ray, rec: HitRecord, draw: Scalar) -> Option<
        Scatter,
    > {
        Some(
            Scatter {
                attenuation: white_spec(),
                scattered: Ray { orig: rec.p, dir: self.direction_spec(r_in, rec, draw) },
            },
        )
    }

    /// A clear surface with the index of refraction `ir`.
    pub fn new(ir: Scalar) -> (m: Dielectric)
        ensures
            m.ir_spec() == ir,
    {
        Dielectric { ir }
    }

    /// The index of refraction.
    pub fn ir(&self) -> (r: Scalar)
        ensures
            r == self.ir_spec(),
    {
        self.ir
    }

    /// The share of light that a surface with the index of refraction
    /// `ref_idx` mirrors at the angle with the cosine `cosine`.
    pub fn reflectance(cosine: Scalar, ref_idx: Scalar) -> (r: Scalar)
        ensures
            r == Dielectric::reflectance_spec(cosine, ref_idx),
    {
        let root = (Scalar::one() - ref_idx) / (Scalar::one() + ref_idx);
        let r0 = root * root;
        r0 + (Scalar::one() - r0) * (Scalar::one() - cosine).powi(5)
    }

    /// Scatters with the random fraction `draw`. A clear surface scatters
    /// every ray and takes no light away.
    pub fn scatter_with(&self, r_in: &Ray, rec: &HitRecord, draw: Scalar) -> (out: Option<Scatter>)
        ensures
            out == self.scatter_spec(*r_in, *rec, draw),
    {
        let refraction_ratio = if rec.front_face {
            Scalar::one() / self.ir
        } else {
            self.ir
        };
        let unit_direction = r_in.direction().unit_vector();
        let cos_theta = dot(&unit_direction.neg(), &rec.normal).min(Scalar::one());
        let sin_theta = (Scalar::one() - cos_theta * cos_theta).sqrt();
        let cannot_refract = refraction_ratio * sin_theta > Scalar::one();
        let direction = if cannot_refract || Dielectric::reflectance(cos_theta, self.ir) > draw {
            reflect(&unit_direction, &rec.normal)
        } else {
            refract(&unit_direction, &rec.normal, refraction_ratio)
        };
        Some(
            Scatter {
                attenuation: Vec3::new(Scalar::one(), Scalar::one(), Scalar::one()),
                scattered: Ray::new(rec.p, direction),
            },
        )
    }

    /// Scatters a ray that hit the surface at `rec`. The ray is never
    /// absorbed, and the attenuation is white.
    pub fn scatter(&self, r_in: &Ray, rec: &HitRecord) -> (out: Option<Scatter>)
        ensures
            exists|draw: Scalar|
                is_fraction(draw) && out == #[trigger] self.scatter_spec(*r_in, *rec, draw),
            out is Some,
            out->0.attenuation == white_spec(),
            out->0.scattered.orig == rec.p,
    {
        let draw = random_fraction();
        self.scatter_with(r_in, rec, draw)
    }
}

impl Material {
    /// What the surface makes of a ray that hits it at `rec`, when `unit`
    /// is the random direction and `draw` the random fraction drawn.
    pub open spec fn scatter_spec(
        self,
        r_in: Ray,
        rec: HitRecord,
        unit: Vec3,
        draw: Scalar,
    ) -> Option<Scatter> {
        match self {
            Material::Lambertian(mat) => mat.scatter_spec(r_in, rec, unit),
            Material::Metal(mat) => mat.scatter_spec(r_in, rec, unit),
            Material::Dielectric(mat) => mat.scatter_spec(r_in, rec, draw),
        }
    }

    /// Whether `out` is among what the surface can make of a ray that hits
    /// it at `rec`: what it makes of it for some random direction and some
    /// random fraction.
    pub open spec fn can_scatter(self, r_in: Ray, rec: HitRecord, out: Option<Scatter>) -> bool {
        exists|unit: Vec3, draw: Scalar|
            unit.is_unit_sample() && is_fraction(draw) && out == #[trigger] self.scatter_spec(
                r_in,
                rec,
                unit,
                draw,
            )
    }

    /// Scatters with the random direction `unit` and the random fraction
    /// `draw`, of which each material reads what it needs.
    pub fn scatter_with(
        &self,
        r_in: &Ray,
        rec: &HitRecord,
        unit: Vec3,
        draw: Scalar,
    ) -> (out: Option<Scatter>)
        ensures
            out == self.scatter_spec(*r_in, *rec, unit, draw),
    {
        match self {
            Material::Lambertian(mat) => mat.scatter_with(r_in, rec, unit),
            Material::Metal(mat) => mat.scatter_with(r_in, rec, unit),
            Material::Dielectric(mat) => mat.scatter_with(r_in, rec, draw),
        }
    }

    /// Scatters a ray that hit the surface at `rec`, or absorbs it and
    /// returns `None`.
    pub fn scatter(&self, r_in: &Ray, rec: &HitRecord) -> (out: Option<Scatter>)
        ensures
            self.can_scatter(*r_in, *rec, out),
            out matches Some(s) ==> s.scattered.orig == rec.p,
            !(self is Metal) ==> out is Some,
    {
        match self {
            Material::Lambertian(mat) => {
                let out = mat.scatter(r_in, rec);
                proof {
                    let unit = choose|unit: Vec3|
                        unit.is_unit_sample() && out == #[trigger] mat.scatter_spec(
                            *r_in,
                            *rec,
                            unit,
                        );
                    let draw = Scalar::zero_spec();
                    assert(out == self.scatter_spec(*r_in, *rec, unit, draw));
                }
                out
            },
            Material::Metal(mat) => {
                let out = mat.scatter(r_in, rec);
                proof {
                    let unit = choose|unit: Vec3|
                        unit.is_unit_sample() && out == #[trigger] mat.scatter_spec(
                            *r_in,
                            *rec,
                            unit,
                        );
                    let draw = Scalar::zero_spec();
                    assert(out == self.scatter_spec(*r_in, *rec, unit, draw));
                }
                out
            },
            Material::Dielectric(mat) => {
                let out = mat.scatter(r_in, rec);
                proof {
                    let draw = choose|draw: Scalar|
                        is_fraction(draw) && out == #[trigger] mat.scatter_spec(*r_in, *rec, draw);
                    lemma_unit_sample_exists();
                    let unit = Vec3::zero_spec().unit_vector_spec();
                    assert(out == self.scatter_spec(*r_in, *rec, unit, draw));
                }
                out
            },
        }
    }
}

/// A mirror without fuzz keeps the angle with the normal, up to rounding:
/// where the components of the normalized incoming direction and of the
/// normal lie between -1 and 1, and the squared length of the normal
/// misses 1 by no more than `k` units of the last place, the dot product
/// of the scattered direction with the normal misses that of the opposite
/// of the normalized incoming direction by no more than `6 * k + 9` units
/// of the last place.
pub proof fn lemma_metal_without_fuzz_keeps_angle(
    mat: Metal,
    r_in: Ray,
    rec: HitRecord,
    unit: Vec3,
    k: nat,
)
    requires
        mat.fuzz_spec() == Scalar::zero_spec(),
        r_in.dir.unit_vector_spec().within(Scalar::one_spec().neg_spec(), Scalar::one_spec()),
        rec.normal.within(Scalar::one_spec().neg_spec(), Scalar::one_spec()),
        -k * ONE_RAW <= rec.normal.x@ * rec.normal.x@ + rec.normal.y@ * rec.normal.y@
            + rec.normal.z@ * rec.normal.z@ - ONE_RAW * ONE_RAW <= k * ONE_RAW,
    ensures
        -(6 * k + 9) <= dot_spec(mat.direction_spec(r_in, rec, unit), rec.normal)@ - dot_spec(
            r_in.dir.unit_vector_spec().neg_spec(),
            rec.normal,
        )@ <= 6 * k + 9,
{
    lemma_metal_without_fuzz_mirrors(mat, r_in, rec, unit);
    lemma_reflect_keeps_angle(r_in.dir.unit_vector_spec(), rec.normal, k);
}

/// A clear surface with the index of refraction 1 is like what surrounds
/// it: the ratio of the indices is 1 on both of its sides, the part of
/// the refracted direction that is perpendicular to the normal is that
/// part of the incoming direction, exactly, and no light is taken away.
pub proof fn lemma_unit_index_keeps_direction(mat: Dielectric, r_in: Ray, rec: HitRecord, draw: Scalar)
    requires
        mat.ir_spec() == Scalar::one_spec(),
    ensures
        mat.ratio_spec(rec) == Scalar::one_spec(),
        refract_perp_spec(r_in.dir.unit_vector_spec(), rec.normal, mat.ratio_spec(rec))
            == r_in.dir.unit_vector_spec().add_spec(
            rec.normal.mul_spec(Dielectric::cos_theta_spec(r_in, rec)),
        ),
        mat.scatter_spec(r_in, rec, draw) matches Some(s) && s.attenuation == white_spec()
            && s.scattered.orig == rec.p,
{
    lemma_over_itself(Scalar::one_spec());
    let whole = r_in.dir.unit_vector_spec().add_spec(
        rec.normal.mul_spec(Dielectric::cos_theta_spec(r_in, rec)),
    );
    lemma_times_one(whole.x);
    lemma_times_one(whole.y);
    lemma_times_one(whole.z);
}

/// A mirror without fuzz scatters into the exact mirror image of the
/// normalized incoming direction, whatever random direction is drawn, and
/// absorbs the ray where that image does not leave the surface.
pub proof fn lemma_metal_without_fuzz_mirrors(mat: Metal, r_in: Ray, rec: HitRecord, unit: Vec3)
    requires
        mat.fuzz_spec() == Scalar::zero_spec(),
    ensures
        mat.direction_spec(r_in, rec, unit) == reflect_spec(r_in.dir.unit_vector_spec(), rec.normal),
        mat.scatter_spec(r_in, rec, unit) == (if dot_spec(
            reflect_spec(r_in.dir.unit_vector_spec(), rec.normal),
            rec.normal,
        )@ > 0 {
            Some(
                Scatter {
                    attenuation: mat.albedo_spec(),
                    scattered: Ray {
                        orig: rec.p,
                        dir: reflect_spec(r_in.dir.unit_vector_spec(), rec.normal),
                    },
                },
            )
        } else {
            None
        }),
{
    let zero = Scalar::zero_spec();
    assert(unit.x.mul_spec(zero) == zero && unit.y.mul_spec(zero) == zero && unit.z.mul_spec(zero)
        == zero) by {
        assert(unit.x@ * 0 == 0 && unit.y@ * 0 == 0 && unit.z@ * 0 == 0);
    }
    let reflected = reflect_spec(r_in.dir.unit_vector_spec(), rec.normal);
    assert(reflected.add_spec(Vec3::zero_spec()) == reflected);
}

} // verus!
