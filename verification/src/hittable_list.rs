//! Scenes: lists of surfaces, hit as one.

use crate::hittable::{before, HitRecord, Hittable};
use crate::interval::Interval;
use crate::ray::Ray;
use crate::scalar::Scalar;
use vstd::prelude::*;

verus! {

/// A scene: surfaces in the order in which they were added.
pub struct HittableList {
    objects: Vec<Box<dyn Hittable>>,
}

/// The upper end of the range in which a hit still counts once `found` is
/// known: the parameter of that hit, or `max` where nothing was hit.
pub open spec fn closest_so_far(found: Option<HitRecord>, max: Scalar) -> Scalar {
    match found {
        Some(rec) => rec.t,
        None => max,
    }
}

/// The hit of the ray `r` on the surfaces `objects`, asked one after the
/// other: each is asked for a hit before the one found so far, and the
/// last answer stands.
pub open spec fn closest_hit(objects: Seq<Box<dyn Hittable>>, r: Ray, ray_t: Interval) -> Option<
    HitRecord,
>
    decreases objects.len(),
{
    if objects.len() == 0 {
        None
    } else {
        let found = closest_hit(objects.drop_last(), r, ray_t);
        let range = Interval { min: ray_t.min, max: closest_so_far(found, ray_t.max) };
        match objects.last().hit_spec(r, range) {
            Some(rec) => Some(rec),
            None => found,
        }
    }
}

/// Whether the hits of the ray `r` on each of `objects` at parameters above
/// `min` narrow with the range, as every implementation of
/// [`Hittable::hit`] shows of its own: a hit lies inside the range asked
/// for, and to lower the upper end of the range only removes the hit that
/// lies at or behind the new end, and never brings forth another.
pub open spec fn all_narrow(objects: Seq<Box<dyn Hittable>>, r: Ray, min: Scalar) -> bool {
    &&& forall|i: int, max: Scalar|
        0 <= i < objects.len() ==> (#[trigger] objects[i].hit_spec(
            r,
            Interval { min, max },
        ) matches Some(h) ==> (Interval { min, max }).surrounds_spec(h.t))
    &&& forall|i: int, max: Scalar, closest: Scalar|
        0 <= i < objects.len() && closest@ <= max@ ==> #[trigger] objects[i].hit_spec(
            r,
            Interval { min, max: closest },
        ) == before(#[trigger] objects[i].hit_spec(r, Interval { min, max }), closest)
}

/// What holds of all surfaces holds of all but the last.
proof fn lemma_all_narrow_init(objects: Seq<Box<dyn Hittable>>, r: Ray, min: Scalar)
    requires
        all_narrow(objects, r, min),
        objects.len() > 0,
    ensures
        all_narrow(objects.drop_last(), r, min),
{
    let init = objects.drop_last();
    assert forall|i: int, max: Scalar| 0 <= i < init.len() implies (#[trigger] init[i].hit_spec(
        r,
        Interval { min, max },
    ) matches Some(h) ==> (Interval { min, max }).surrounds_spec(h.t)) by {
        assert(init[i] == objects[i]);
    }
    assert forall|i: int, max: Scalar, closest: Scalar|
        0 <= i < init.len() && closest@ <= max@ implies #[trigger] init[i].hit_spec(
        r,
        Interval { min, max: closest },
    ) == before(#[trigger] init[i].hit_spec(r, Interval { min, max }), closest) by {
        assert(init[i] == objects[i]);
    }
}

/// The hit of a scene is the nearest of the hits of its surfaces: it is
/// the hit of one of them, no surface is hit before it, and there is none
/// only where no surface is hit. Of two surfaces hit at the same parameter
/// the one added first stands.
pub proof fn lemma_closest_hit_is_nearest(objects: Seq<Box<dyn Hittable>>, r: Ray, ray_t: Interval)
    requires
        all_narrow(objects, r, ray_t.min),
    ensures
        closest_hit(objects, r, ray_t) matches Some(rec) ==> ray_t.surrounds_spec(rec.t)
            && exists|i: int|
            0 <= i < objects.len() && #[trigger] objects[i].hit_spec(r, ray_t) == Some(rec),
        forall|i: int|
            0 <= i < objects.len() ==> (#[trigger] objects[i].hit_spec(r, ray_t) matches Some(
                other,
            ) ==> closest_hit(objects, r, ray_t) is Some && closest_hit(objects, r, ray_t)->0.t@
                <= other.t@),
        closest_hit(objects, r, ray_t) is None <==> forall|i: int|
            0 <= i < objects.len() ==> #[trigger] objects[i].hit_spec(r, ray_t) is None,
    decreases objects.len(),
{
    if objects.len() > 0 {
        let init = objects.drop_last();
        let last = objects.last();
        assert(objects[objects.len() - 1] == last);
        lemma_all_narrow_init(objects, r, ray_t.min);
        lemma_closest_hit_is_nearest(init, r, ray_t);
        let found = closest_hit(init, r, ray_t);
        let closest = closest_so_far(found, ray_t.max);
        let range = Interval { min: ray_t.min, max: closest };
        assert(ray_t == Interval { min: ray_t.min, max: ray_t.max });
        assert(last.hit_spec(r, range) == before(last.hit_spec(r, ray_t), closest));
        let total = closest_hit(objects, r, ray_t);
        if let Some(rec) = found {
            let i = choose|i: int|
                0 <= i < init.len() && #[trigger] init[i].hit_spec(r, ray_t) == Some(rec);
            assert(objects[i].hit_spec(r, ray_t) == Some(rec));
        }
        assert forall|i: int| 0 <= i < objects.len() implies (#[trigger] objects[i].hit_spec(
            r,
            ray_t,
        ) matches Some(other) ==> total is Some && total->0.t@ <= other.t@) by {
            if i < init.len() {
                assert(init[i].hit_spec(r, ray_t) == objects[i].hit_spec(r, ray_t));
            }
        }
        if total is None {
            assert forall|i: int| 0 <= i < objects.len() implies #[trigger] objects[i].hit_spec(
                r,
                ray_t,
            ) is None by {
                if i < init.len() {
                    assert(init[i].hit_spec(r, ray_t) is None);
                }
            }
        }
    }
}

/// To lower the upper end of the range from `max` to `closest` only
/// removes a hit of the scene that lies at or behind the new end.
pub proof fn lemma_closest_hit_before(
    objects: Seq<Box<dyn Hittable>>,
    r: Ray,
    min: Scalar,
    max: Scalar,
    closest: Scalar,
)
    requires
        all_narrow(objects, r, min),
        closest@ <= max@,
    ensures
        closest_hit(objects, r, Interval { min, max }) matches Some(rec) ==> (Interval {
            min,
            max,
        }).surrounds_spec(rec.t),
        closest_hit(objects, r, Interval { min, max: closest }) == before(
            closest_hit(objects, r, Interval { min, max }),
            closest,
        ),
    decreases objects.len(),
{
    let wide = Interval { min, max };
    let narrow = Interval { min, max: closest };
    lemma_closest_hit_is_nearest(objects, r, wide);
    if objects.len() > 0 {
        let init = objects.drop_last();
        let last = objects.last();
        assert(objects[objects.len() - 1] == last);
        lemma_all_narrow_init(objects, r, min);
        lemma_closest_hit_before(init, r, min, max, closest);
        let wide_end = closest_so_far(closest_hit(init, r, wide), max);
        let asked = last.hit_spec(r, Interval { min, max: wide_end });
        if closest@ <= wide_end@ {
            assert(last.hit_spec(r, narrow) == before(asked, closest));
        }
    }
}

/// The hits of a scene narrow with the range where those of its surfaces
/// do.
pub proof fn lemma_closest_hit_narrows(objects: Seq<Box<dyn Hittable>>, r: Ray, min: Scalar)
    requires
        all_narrow(objects, r, min),
    ensures
        forall|max: Scalar| #[trigger]
            closest_hit(objects, r, Interval { min, max }) matches Some(h) ==> (Interval {
                min,
                max,
            }).surrounds_spec(h.t),
        forall|max: Scalar, closest: Scalar|
            closest@ <= max@ ==> #[trigger] closest_hit(objects, r, Interval { min, max: closest })
                == before(#[trigger] closest_hit(objects, r, Interval { min, max }), closest),
{
    assert forall|max: Scalar|
        (#[trigger] closest_hit(objects, r, Interval { min, max }) matches Some(h) ==> (Interval {
            min,
            max,
        }).surrounds_spec(h.t)) by {
        lemma_closest_hit_before(objects, r, min, max, max);
    }
    assert forall|max: Scalar, closest: Scalar| closest@ <= max@ implies #[trigger] closest_hit(
        objects,
        r,
        Interval { min, max: closest },
    ) == before(#[trigger] closest_hit(objects, r, Interval { min, max }), closest) by {
        lemma_closest_hit_before(objects, r, min, max, closest);
    }
}

impl View for HittableList {
    type V = Seq<Box<dyn Hittable>>;

    /// The surfaces of the scene, in the order in which they were added.
    closed spec fn view(&self) -> Seq<Box<dyn Hittable>> {
        self.objects@
    }
}

impl HittableList {
    /// The scene of the given surfaces.
    pub fn new(objects: Vec<Box<dyn Hittable>>) -> (list: HittableList)
        ensures
            list@ == objects@,
    {
        HittableList { objects }
    }

    /// Removes every surface.
    pub fn clear(&mut self)
        ensures
            final(self)@ == Seq::<Box<dyn Hittable>>::empty(),
    {
        self.objects.clear();
    }

    /// Adds a surface behind those that the scene holds.
    pub fn add(&mut self, object: Box<dyn Hittable>)
        ensures
            final(self)@ == old(self)@.push(object),
    {
        self.objects.push(object);
    }

    /// The number of surfaces.
    pub fn len(&self) -> (n: usize)
        ensures
            n == self@.len(),
    {
        self.objects.len()
    }
}

impl Hittable for HittableList {
    /// A ray hits a scene where it first hits one of its surfaces.
    open spec fn hit_spec(&self, r: Ray, ray_t: Interval) -> Option<HitRecord> {
        closest_hit(self@, r, ray_t)
    }

    /// Finds the nearest of the hits of the ray `r` on the surfaces of the
    /// scene at a parameter that `ray_t` surrounds: the hit returned is
    /// that of one of the surfaces, and no surface is hit before it.
    fn hit(&self, r: &Ray, ray_t: Interval) -> (rec: Option<HitRecord>)
        ensures
            all_narrow(self@, *r, ray_t.min),
            rec matches Some(found) ==> ray_t.surrounds_spec(found.t) && exists|i: int|
                0 <= i < self@.len() && #[trigger] self@[i].hit_spec(*r, ray_t) == Some(found),
            forall|i: int|
                0 <= i < self@.len() ==> (#[trigger] self@[i].hit_spec(*r, ray_t) matches Some(
                    other,
                ) ==> rec is Some && rec->0.t@ <= other.t@),
            rec is None <==> forall|i: int|
                0 <= i < self@.len() ==> #[trigger] self@[i].hit_spec(*r, ray_t) is None,
    {
        let mut found: Option<HitRecord> = None;
        let mut closest = ray_t.max;
        let mut i: usize = 0;
        while i < self.objects.len()
            invariant
                i <= self.objects.len(),
                found == closest_hit(self.objects@.take(i as int), *r, ray_t),
                closest == closest_so_far(found, ray_t.max),
                all_narrow(self.objects@.take(i as int), *r, ray_t.min),
            decreases self.objects.len() - i,
        {
            proof {
                let next = self.objects@.take(i + 1);
                assert(next.drop_last() == self.objects@.take(i as int));
                assert(next.last() == self.objects@[i as int]);
            }
            match self.objects[i].hit(r, Interval::new(ray_t.min, closest)) {
                Some(rec) => {
                    closest = rec.t;
                    found = Some(rec);
                },
                None => {},
            }
            i = i + 1;
        }
        proof {
            assert(self.objects@.take(i as int) == self.objects@);
            lemma_closest_hit_is_nearest(self@, *r, ray_t);
            lemma_closest_hit_narrows(self@, *r, ray_t.min);
        }
        found
    }
}

} // verus!
