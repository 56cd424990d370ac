use raytracer::hittable::{HitRecord, Hittable, Sphere};
use raytracer::hittable_list::HittableList;
use raytracer::interval::Interval;
use raytracer::material::{Dielectric, Lambertian, Material, Metal};
use raytracer::ray::Ray;
use raytracer::scalar::{Scalar, ONE_RAW};
use raytracer::vector::{dot, Vec3};

fn v(x: i32, y: i32, z: i32) -> Vec3 {
    Vec3::new(Scalar::from_int(x), Scalar::from_int(y), Scalar::from_int(z))
}

fn q(x: i64, y: i64, z: i64, den: i64) -> Vec3 {
    Vec3::new(Scalar::ratio(x, den), Scalar::ratio(y, den), Scalar::ratio(z, den))
}

fn approx(x: Scalar) -> f64 {
    x.raw() as f64 / ONE_RAW as f64
}

fn gray() -> Material {
    Material::Lambertian(Lambertian::new(q(1, 1, 1, 2)))
}

fn steel() -> Material {
    Material::Metal(Metal::new(q(8, 8, 8, 10), Scalar::zero()))
}

fn positive() -> Interval {
    Interval::new(Scalar::ratio(1, 1000), Scalar::infinity())
}

#[test]
fn a_record_keeps_its_fields() {
    let rec = HitRecord::new(v(1, 2, 3), v(0, 1, 0), gray(), Scalar::from_int(4), false);
    assert_eq!(rec.p, v(1, 2, 3));
    assert_eq!(rec.normal, v(0, 1, 0));
    assert_eq!(rec.mat, gray());
    assert_eq!(rec.t, Scalar::from_int(4));
    assert!(!rec.front_face);
}

#[test]
fn the_normal_is_turned_against_the_ray() {
    let mut rec = HitRecord::new(v(0, 0, 0), v(0, 0, 0), gray(), Scalar::one(), false);
    let down = Ray::new(v(0, 5, 0), v(0, -1, 0));
    rec.set_normal_face(&down, &v(0, 1, 0));
    assert_eq!(rec.normal, v(0, 1, 0));
    assert!(rec.front_face);
    let up = Ray::new(v(0, -5, 0), v(0, 1, 0));
    rec.set_normal_face(&up, &v(0, 1, 0));
    assert_eq!(rec.normal, v(0, -1, 0));
    assert!(!rec.front_face);
    let along = Ray::new(v(0, 0, 0), v(1, 0, 0));
    rec.set_normal_face(&along, &v(0, 1, 0));
    assert_eq!(rec.normal, v(0, -1, 0));
    assert!(!rec.front_face);
    assert_eq!(rec.p, v(0, 0, 0));
    assert_eq!(rec.t, Scalar::one());
}

#[test]
fn a_sphere_keeps_its_fields() {
    let s = Sphere::new(v(1, 2, 3), Scalar::ratio(1, 2), steel());
    assert_eq!(s.center, v(1, 2, 3));
    assert_eq!(s.radius, Scalar::ratio(1, 2));
    assert_eq!(s.mat, steel());
}

#[test]
fn a_ray_from_outside_hits_at_the_smaller_root() {
    let s = Sphere::new(v(0, 0, -1), Scalar::ratio(1, 2), gray());
    let r = Ray::new(v(0, 0, 0), v(0, 0, -1));
    let rec = s.hit(&r, positive()).unwrap();
    assert_eq!(rec.t, Scalar::ratio(1, 2));
    assert_eq!(rec.p, q(0, 0, -1, 2));
    assert_eq!(rec.normal, v(0, 0, 1));
    assert!(rec.front_face);
    assert_eq!(rec.mat, gray());
}

#[test]
fn the_normal_of_a_hit_has_unit_length_and_faces_the_ray() {
    let s = Sphere::new(q(1, -2, -30, 10), Scalar::ratio(7, 10), steel());
    let r = Ray::new(q(1, 2, 3, 10), q(0, -4, -33, 10));
    let rec = s.hit(&r, positive()).unwrap();
    assert!(rec.front_face);
    assert!((approx(rec.normal.length()) - 1.0).abs() < 1e-7);
    assert!(dot(&r.direction(), &rec.normal) < Scalar::zero());
    let away = rec.p - s.center;
    assert!(dot(&away, &rec.normal) > Scalar::zero());
    assert!((approx(away.length()) - 0.7).abs() < 1e-7);
    assert_eq!(rec.p, r.at(rec.t));
    let far = (s.center - r.origin()).length();
    assert!((approx(far) - approx(rec.t) * approx(r.direction().length()) - 0.7).abs() < 1e-7);
}

#[test]
fn a_ray_that_misses_hits_nothing() {
    let s = Sphere::new(v(0, 0, -5), Scalar::one(), gray());
    let r = Ray::new(v(0, 0, 0), v(0, 1, 0));
    assert!(s.hit(&r, Interval::universe()).is_none());
    let r = Ray::new(v(0, 0, 0), v(0, 2, -5));
    assert!(s.hit(&r, Interval::universe()).is_none());
}

#[test]
fn a_ray_that_touches_hits_once() {
    let s = Sphere::new(v(0, 1, -5), Scalar::one(), gray());
    let r = Ray::new(v(0, 0, 0), v(0, 0, -1));
    let rec = s.hit(&r, positive()).unwrap();
    assert_eq!(rec.t, Scalar::from_int(5));
    assert_eq!(rec.p, v(0, 0, -5));
    assert_eq!(rec.normal, v(0, 1, 0));
    assert!(!rec.front_face);
}

#[test]
fn a_ray_from_inside_hits_at_the_larger_root() {
    let s = Sphere::new(v(0, 0, 0), Scalar::from_int(2), gray());
    let r = Ray::new(v(0, 0, 0), v(0, 0, -1));
    let rec = s.hit(&r, positive()).unwrap();
    assert_eq!(rec.t, Scalar::from_int(2));
    assert_eq!(rec.p, v(0, 0, -2));
    assert_eq!(rec.normal, v(0, 0, 1));
    assert!(!rec.front_face);
    let both = s.hit(&r, Interval::universe()).unwrap();
    assert_eq!(both.t, Scalar::from_int(-2));
    assert!(both.front_face);
}

#[test]
fn a_sphere_behind_the_ray_is_not_hit() {
    let s = Sphere::new(v(0, 0, 5), Scalar::one(), gray());
    let r = Ray::new(v(0, 0, 0), v(0, 0, -1));
    assert!(s.hit(&r, positive()).is_none());
    assert_eq!(s.hit(&r, Interval::universe()).unwrap().t, Scalar::from_int(-6));
}

#[test]
fn roots_on_the_ends_of_the_range_do_not_count() {
    let s = Sphere::new(v(0, 0, -5), Scalar::one(), gray());
    let r = Ray::new(v(0, 0, 0), v(0, 0, -1));
    let four = Scalar::from_int(4);
    let six = Scalar::from_int(6);
    assert_eq!(s.hit(&r, Interval::new(Scalar::zero(), six)).unwrap().t, four);
    assert_eq!(s.hit(&r, Interval::new(four, Scalar::from_int(7))).unwrap().t, six);
    assert!(s.hit(&r, Interval::new(four, six)).is_none());
    assert!(s.hit(&r, Interval::new(Scalar::zero(), four)).is_none());
    assert!(s.hit(&r, Interval::new(six, Scalar::infinity())).is_none());
    assert!(s.hit(&r, Interval::empty()).is_none());
}

#[test]
fn the_direction_need_not_have_unit_length() {
    let s = Sphere::new(v(0, 0, -5), Scalar::one(), gray());
    let r = Ray::new(v(0, 0, 0), v(0, 0, -2));
    let rec = s.hit(&r, positive()).unwrap();
    assert_eq!(rec.t, Scalar::from_int(2));
    assert_eq!(rec.p, v(0, 0, -4));
}

#[test]
fn a_ray_without_direction_hits_nothing() {
    let s = Sphere::new(v(0, 0, 0), Scalar::one(), gray());
    let r = Ray::new(v(0, 0, 0), v(0, 0, 0));
    assert!(s.hit(&r, Interval::universe()).is_none());
    let r = Ray::new(v(1, 0, 0), v(0, 0, 0));
    assert!(s.hit(&r, Interval::universe()).is_none());
}

#[test]
fn a_sphere_without_radius_does_not_make_the_division_fail() {
    let s = Sphere::new(v(0, 0, -1), Scalar::zero(), gray());
    let r = Ray::new(v(0, 0, 0), v(0, 0, -1));
    let rec = s.hit(&r, positive()).unwrap();
    assert_eq!(rec.t, Scalar::one());
    assert_eq!(rec.p, v(0, 0, -1));
    assert_eq!(rec.normal, v(0, 0, 0));
    let r = Ray::new(v(0, 0, 0), v(0, 1, -1));
    assert!(s.hit(&r, positive()).is_none());
}

#[test]
fn a_negative_radius_turns_the_normal_inward() {
    let s = Sphere::new(v(0, 0, -1), Scalar::ratio(-1, 2), gray());
    let r = Ray::new(v(0, 0, 0), v(0, 0, -1));
    let rec = s.hit(&r, positive()).unwrap();
    assert_eq!(rec.t, Scalar::ratio(1, 2));
    assert_eq!(rec.normal, v(0, 0, 1));
    assert!(!rec.front_face);
}

#[test]
fn an_empty_scene_is_never_hit() {
    let world = HittableList::new(Vec::new());
    assert_eq!(world.len(), 0);
    let r = Ray::new(v(0, 0, 0), v(0, 0, -1));
    assert!(world.hit(&r, Interval::universe()).is_none());
}

#[test]
fn a_scene_is_hit_at_its_nearest_surface() {
    let near = Sphere::new(v(0, 0, -3), Scalar::one(), gray());
    let middle = Sphere::new(v(0, 0, -6), Scalar::one(), steel());
    let far = Sphere::new(v(0, 0, -9), Scalar::one(), gray());
    let aside = Sphere::new(v(5, 0, -3), Scalar::one(), steel());
    let r = Ray::new(v(0, 0, 0), v(0, 0, -1));
    let orders: [[usize; 4]; 6] =
        [[0, 1, 2, 3], [3, 2, 1, 0], [1, 0, 3, 2], [2, 3, 0, 1], [1, 2, 0, 3], [2, 0, 1, 3]];
    let spheres = [near, middle, far, aside];
    for order in orders {
        let mut world = HittableList::new(Vec::new());
        for k in order {
            world.add(Box::new(spheres[k]));
        }
        assert_eq!(world.len(), 4);
        let rec = world.hit(&r, positive()).unwrap();
        assert_eq!(rec.t, Scalar::from_int(2));
        assert_eq!(rec.mat, gray());
        assert_eq!(Some(rec), near.hit(&r, positive()));
        let mut least = Scalar::infinity();
        for s in spheres {
            if let Some(alone) = s.hit(&r, positive()) {
                least = least.min(alone.t);
            }
        }
        assert_eq!(rec.t, least);
    }
}

#[test]
fn the_range_decides_which_surface_of_a_scene_is_hit() {
    let mut world = HittableList::new(Vec::new());
    world.add(Box::new(Sphere::new(v(0, 0, -3), Scalar::one(), gray())));
    world.add(Box::new(Sphere::new(v(0, 0, -9), Scalar::one(), steel())));
    let r = Ray::new(v(0, 0, 0), v(0, 0, -1));
    let behind = Interval::new(Scalar::from_int(5), Scalar::infinity());
    let rec = world.hit(&r, behind).unwrap();
    assert_eq!(rec.t, Scalar::from_int(8));
    assert_eq!(rec.mat, steel());
    let between = Interval::new(Scalar::from_int(5), Scalar::from_int(7));
    assert!(world.hit(&r, between).is_none());
    let inside = Interval::new(Scalar::from_int(3), Scalar::from_int(9));
    assert_eq!(world.hit(&r, inside).unwrap().t, Scalar::from_int(4));
}

#[test]
fn of_two_surfaces_hit_at_once_the_first_stands() {
    let glass = Material::Dielectric(Dielectric::new(Scalar::ratio(3, 2)));
    let r = Ray::new(v(0, 0, 0), v(0, 0, -1));
    let mut world = HittableList::new(Vec::new());
    world.add(Box::new(Sphere::new(v(0, 0, -3), Scalar::one(), glass)));
    world.add(Box::new(Sphere::new(v(0, 0, -3), Scalar::one(), steel())));
    assert_eq!(world.hit(&r, positive()).unwrap().mat, glass);
    let mut world = HittableList::new(Vec::new());
    world.add(Box::new(Sphere::new(v(0, 0, -3), Scalar::one(), steel())));
    world.add(Box::new(Sphere::new(v(0, 0, -3), Scalar::one(), glass)));
    assert_eq!(world.hit(&r, positive()).unwrap().mat, steel());
}

#[test]
fn a_scene_can_be_cleared_and_filled_again() {
    let mut objects: Vec<Box<dyn Hittable>> = Vec::new();
    objects.push(Box::new(Sphere::new(v(0, 0, -3), Scalar::one(), gray())));
    let mut world = HittableList::new(objects);
    assert_eq!(world.len(), 1);
    let r = Ray::new(v(0, 0, 0), v(0, 0, -1));
    assert!(world.hit(&r, positive()).is_some());
    world.clear();
    assert_eq!(world.len(), 0);
    assert!(world.hit(&r, positive()).is_none());
    world.add(Box::new(Sphere::new(v(0, 0, -9), Scalar::one(), gray())));
    assert_eq!(world.hit(&r, positive()).unwrap().t, Scalar::from_int(8));
}

#[test]
fn a_scene_can_hold_scenes() {
    let mut inner = HittableList::new(Vec::new());
    inner.add(Box::new(Sphere::new(v(0, 0, -3), Scalar::one(), gray())));
    let mut world = HittableList::new(Vec::new());
    world.add(Box::new(Sphere::new(v(0, 0, -9), Scalar::one(), steel())));
    world.add(Box::new(inner));
    let r = Ray::new(v(0, 0, 0), v(0, 0, -1));
    assert_eq!(world.hit(&r, positive()).unwrap().t, Scalar::from_int(2));
}
