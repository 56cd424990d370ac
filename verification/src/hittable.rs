//! Surfaces that a ray can hit, and the sphere.

use crate::interval::Interval;
use crate::material::Material;
use crate::ray::Ray;
use crate::scalar::{lemma_quotient_monotone, lemma_sqrt_nonnegative, Scalar};
use crate::vector::{
    dot, dot_spec, lemma_dot_with_opposite, lemma_length_squared_nonnegative,
    lemma_quotient_points_along, Point3, Vec3,
};
use core::ops::Neg;
use vstd::prelude::*;
use vstd::std_specs::ops::{AddSpec, DivSpec, MulSpec, NegSpec, SubSpec};

verus! {

/// Where and how a ray hit a surface.
#[derive(Clone, Copy, Debug, PartialEq, Eq, Structural)]
pub struct HitRecord {
    /// The point hit.
    pub p: Point3,
    /// The normal of the surface at that point, on the side the ray came
    /// from.
    pub normal: Vec3,
    /// The material of the surface.
    pub mat: Material,
    /// The parameter of the ray at the point hit.
    pub t: Scalar,
    /// Whether the ray hit the outer side of the surface.
    pub front_face: bool,
}

impl HitRecord {
    /// Whether a ray along `direction` meets a surface with the outward
    /// normal `outward_normal` from outside.
    pub open spec fn faces_spec(direction: Vec3, outward_normal: Vec3) -> bool {
        dot_spec(direction, outward_normal)@ < 0
    }

    /// The record with its normal turned against the ray `r`, given the
    /// outward normal of the surface, and its flag set to match.
    pub open spec fn face_normal_spec(self, r: Ray, outward_normal: Vec3) -> HitRecord {
        let front_face = HitRecord::faces_spec(r.dir, outward_normal);
        HitRecord {
            normal: if front_face {
                outward_normal
            } else {
                outward_normal.neg_spec()
            },
            front_face,
            ..self
        }
    }

    /// The record with the given fields.
    pub fn new(p: Point3, normal: Vec3, mat: Material, t: Scalar, front_face: bool) -> (rec:
        HitRecord)
        ensures
            rec == (HitRecord { p, normal, mat, t, front_face }),
    {
        HitRecord { p, normal, mat, t, front_face }
    }

    /// Turns the normal against the ray `r`, given the outward normal of
    /// the surface, and sets the flag that says which side was hit. The
    /// outward normal is taken to have unit length.
    pub fn set_normal_face(&mut self, r: &Ray, outward_normal: &Vec3)
        ensures
            *final(self) == old(self).face_normal_spec(*r, *outward_normal),
    {
        let front_face = dot(&r.direction(), outward_normal) < Scalar::zero();
        self.front_face = front_face;
        self.normal = if front_face {
            *outward_normal
        } else {
            outward_normal.neg()
        };
    }
}

/// The hit `hit`, if it lies before `closest` on its ray.
pub open spec fn before(hit: Option<HitRecord>, closest: Scalar) -> Option<HitRecord> {
    match hit {
        Some(rec) => if rec.t@ < closest@ {
            Some(rec)
        } else {
            None
        },
        None => None,
    }
}

/// A surface that a ray can hit.
pub trait Hittable {
    /// The first point at which the ray `r` hits the surface at a
    /// parameter that `ray_t` surrounds, if there is one.
    spec fn hit_spec(&self, r: Ray, ray_t: Interval) -> Option<HitRecord>;

    /// Finds where the ray `r` hits the surface at a parameter that
    /// `ray_t` surrounds. Every implementation shows with it that its hits
    /// narrow with the range.
    fn hit(&self, r: &Ray, ray_t: Interval) -> (rec: Option<HitRecord>)
        ensures
            rec == self.hit_spec(*r, ray_t),
            forall|max: Scalar| #[trigger]
                self.hit_spec(*r, Interval { min: ray_t.min, max }) matches Some(h) ==> (Interval {
                    min: ray_t.min,
                    max,
                }).surrounds_spec(h.t),
            forall|max: Scalar, closest: Scalar|
                closest@ <= max@ ==> #[trigger] self.hit_spec(
                    *r,
                    Interval { min: ray_t.min, max: closest },
                ) == before(
                    #[trigger] self.hit_spec(*r, Interval { min: ray_t.min, max }),
                    closest,
                ),
    ;
}

/// A sphere.
#[derive(Clone, Copy, Debug, PartialEq, Eq, Structural)]
pub struct Sphere {
    pub center: Point3,
    pub radius: Scalar,
    pub mat: Material,
}

impl Sphere {
    /// The coefficient `a` of the quadratic equation for the parameters at
    /// which `r` meets the sphere: the squared length of the direction.
    pub open spec fn a_spec(self, r: Ray) -> Scalar {
        r.dir.length_squared_spec()
    }

    /// Half the coefficient `b` of that equation: `dot(oc, dir)` with
    /// `oc = orig - center`.
    pub open spec fn half_b_spec(self, r: Ray) -> Scalar {
        dot_spec(r.orig.sub_spec(self.center), r.dir)
    }

    /// The coefficient `c` of that equation: `|oc|^2 - radius^2`.
    pub open spec fn c_spec(self, r: Ray) -> Scalar {
        r.orig.sub_spec(self.center).length_squared_spec().sub_spec(
            self.radius.mul_spec(self.radius),
        )
    }

    /// A quarter of the discriminant of that equation:
    /// `half_b^2 - a * c`.
    pub open spec fn discriminant_spec(self, r: Ray) -> Scalar {
        self.half_b_spec(r).mul_spec(self.half_b_spec(r)).sub_spec(
            self.a_spec(r).mul_spec(self.c_spec(r)),
        )
    }

    /// Whether the line of `r` meets the sphere: the ray has a direction
    /// and the discriminant is not negative.
    pub open spec fn meets_spec(self, r: Ray) -> bool {
        self.discriminant_spec(r)@ >= 0 && self.a_spec(r)@ != 0
    }

    /// The parameter at which the line of `r` enters the sphere:
    /// `(-half_b - sqrt(discriminant)) / a`.
    pub open spec fn near_root_spec(self, r: Ray) -> Scalar {
        self.half_b_spec(r).neg_spec().sub_spec(self.discriminant_spec(r).sqrt_spec()).div_spec(
            self.a_spec(r),
        )
    }

    /// The parameter at which the line of `r` leaves the sphere:
    /// `(-half_b + sqrt(discriminant)) / a`.
    pub open spec fn far_root_spec(self, r: Ray) -> Scalar {
        self.half_b_spec(r).neg_spec().add_spec(self.discriminant_spec(r).sqrt_spec()).div_spec(
            self.a_spec(r),
        )
    }

    /// The outward normal of the sphere at the point `p`:
    /// `(p - center) / radius`.
    pub open spec fn outward_normal_spec(self, p: Point3) -> Vec3 {
        p.sub_spec(self.center).div_spec(self.radius)
    }

    /// The record of a hit of `r` at the parameter `t`.
    pub open spec fn record_spec(self, r: Ray, t: Scalar) -> HitRecord {
        let p = r.at_spec(t);
        let outward_normal = self.outward_normal_spec(p);
        (HitRecord { p, normal: outward_normal, mat: self.mat, t, front_face: true }).face_normal_spec(
            r,
            outward_normal,
        )
    }

    /// The sphere around `center` with the given radius and material.
    pub fn new(center: Point3, radius: Scalar, mat: Material) -> (s: Sphere)
        ensures
            s == (Sphere { center, radius, mat }),
    {
        Sphere { center, radius, mat }
    }

    /// The line of a ray enters a sphere before it leaves it.
    pub proof fn lemma_roots_ordered(self, r: Ray)
        requires
            self.meets_spec(r),
        ensures
            self.near_root_spec(r)@ <= self.far_root_spec(r)@,
    {
        let a = self.a_spec(r);
        let sqrtd = self.discriminant_spec(r).sqrt_spec();
        let low = self.half_b_spec(r).neg_spec().sub_spec(sqrtd);
        let high = self.half_b_spec(r).neg_spec().add_spec(sqrtd);
        lemma_length_squared_nonnegative(r.dir);
        lemma_sqrt_nonnegative(self.discriminant_spec(r));
        assert(low@ <= high@);
        lemma_quotient_monotone(low@, high@, a@);
    }

    /// The first point at which the ray `r` hits the sphere at a parameter
    /// that `ray_t` surrounds: the point at the smaller of the two roots
    /// that the range surrounds. A ray without direction hits nothing.
    pub open spec fn first_hit_spec(self, r: Ray, ray_t: Interval) -> Option<HitRecord> {
        if !self.meets_spec(r) {
            None
        } else if ray_t.surrounds_spec(self.near_root_spec(r)) {
            Some(self.record_spec(r, self.near_root_spec(r)))
        } else if ray_t.surrounds_spec(self.far_root_spec(r)) {
            Some(self.record_spec(r, self.far_root_spec(r)))
        } else {
            None
        }
    }

    /// The hits of a sphere narrow with the range: a hit lies inside the
    /// range asked for, and to lower the upper end of the range only
    /// removes the hit that lies at or behind the new end.
    pub proof fn lemma_hit_narrows(self, r: Ray, min: Scalar)
        ensures
            forall|max: Scalar| #[trigger]
                self.first_hit_spec(r, Interval { min, max }) matches Some(h) ==> (Interval {
                    min,
                    max,
                }).surrounds_spec(h.t),
            forall|max: Scalar, closest: Scalar|
                closest@ <= max@ ==> #[trigger] self.first_hit_spec(
                    r,
                    Interval { min, max: closest },
                ) == before(#[trigger] self.first_hit_spec(r, Interval { min, max }), closest),
    {
        if self.meets_spec(r) {
            self.lemma_roots_ordered(r);
        }
    }

    /// The hit of a sphere is read off the two roots: it is at the near
    /// root where the range surrounds that, else at the far root where the
    /// range surrounds that, and so at the smaller of the two roots that
    /// the range surrounds. The record holds the point of the ray at the
    /// root, the material of the sphere, and the outward normal
    /// `(p - center) / radius` or its opposite, by the side that was hit.
    /// The normal is turned against the ray, but for an outward normal
    /// with a component at negative infinity; and where the ray comes from
    /// outside a sphere with a positive radius, the normal points away
    /// from the center.
    pub proof fn lemma_hit_smaller_root(self, r: Ray, ray_t: Interval)
        requires
            self.meets_spec(r),
        ensures
            self.near_root_spec(r)@ <= self.far_root_spec(r)@,
            self.first_hit_spec(r, ray_t) is Some <==> ray_t.surrounds_spec(self.near_root_spec(r))
                || ray_t.surrounds_spec(self.far_root_spec(r)),
            self.first_hit_spec(r, ray_t) matches Some(rec) ==> {
                &&& rec.t == self.near_root_spec(r) || rec.t == self.far_root_spec(r)
                &&& ray_t.surrounds_spec(rec.t)
                &&& ray_t.surrounds_spec(self.near_root_spec(r)) ==> rec.t == self.near_root_spec(r)
                &&& rec.p == r.at_spec(rec.t)
                &&& rec.mat == self.mat
                &&& rec.front_face == HitRecord::faces_spec(r.dir, self.outward_normal_spec(rec.p))
                &&& rec.front_face ==> rec.normal == self.outward_normal_spec(rec.p)
                &&& !rec.front_face ==> rec.normal == self.outward_normal_spec(rec.p).neg_spec()
                &&& self.outward_normal_spec(rec.p).above_neg_infinity() ==> dot_spec(
                    r.dir,
                    rec.normal,
                )@ <= 0
                &&& rec.front_face && self.radius@ > 0 ==> dot_spec(
                    rec.normal,
                    rec.p.sub_spec(self.center),
                )@ >= 0
            },
    {
        self.lemma_roots_ordered(r);
        if let Some(rec) = self.first_hit_spec(r, ray_t) {
            if self.outward_normal_spec(rec.p).above_neg_infinity() {
                lemma_dot_with_opposite(r.dir, self.outward_normal_spec(rec.p));
            }
            if self.radius@ > 0 {
                lemma_quotient_points_along(rec.p.sub_spec(self.center), self.radius);
            }
        }
    }
}

impl Hittable for Sphere {
    open spec fn hit_spec(&self, r: Ray, ray_t: Interval) -> Option<HitRecord> {
        self.first_hit_spec(r, ray_t)
    }

    /// Finds where the ray `r` hits the sphere at a parameter that
    /// `ray_t` surrounds. A ray whose line misses the sphere, so that the
    /// discriminant is negative, hits nothing.
    fn hit(&self, r: &Ray, ray_t: Interval) -> (rec: Option<HitRecord>)
        ensures
            self.discriminant_spec(*r)@ < 0 ==> rec is None,
    {
        proof {
            self.lemma_hit_narrows(*r, ray_t.min);
        }
        let oc = r.origin() - self.center;
        let a = r.direction().length_squared();
        let half_b = dot(&oc, &r.direction());
        let c = oc.length_squared() - self.radius * self.radius;
        let discriminant = half_b * half_b - a * c;
        if discriminant < Scalar::zero() || a == Scalar::zero() {
            return None;
        }
        let sqrtd = discriminant.sqrt();
        let mut root = (half_b.neg() - sqrtd) / a;
        if !ray_t.surrounds(root) {
            root = (half_b.neg() + sqrtd) / a;
            if !ray_t.surrounds(root) {
                return None;
            }
        }
        let p = r.at(root);
        let outward_normal = (p - self.center) / self.radius;
        let mut rec = HitRecord::new(p, outward_normal, self.mat, root, true);
        rec.set_normal_face(r, &outward_normal);
        Some(rec)
    }
}

} // verus!
