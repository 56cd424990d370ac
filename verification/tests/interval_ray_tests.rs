use raytracer::interval::Interval;
use raytracer::ray::Ray;
use raytracer::scalar::Scalar;
use raytracer::vector::Vec3;

fn v(x: i32, y: i32, z: i32) -> Vec3 {
    Vec3::new(Scalar::from_int(x), Scalar::from_int(y), Scalar::from_int(z))
}

#[test]
fn contains_includes_the_ends() {
    let i = Interval::new(Scalar::from_int(1), Scalar::from_int(3));
    assert!(i.contains(Scalar::from_int(1)));
    assert!(i.contains(Scalar::from_int(2)));
    assert!(i.contains(Scalar::from_int(3)));
    assert!(!i.contains(Scalar::ratio(1, 2)));
    assert!(!i.contains(Scalar::from_int(4)));
}

#[test]
fn surrounds_excludes_the_ends() {
    let i = Interval::new(Scalar::from_int(1), Scalar::from_int(3));
    assert!(!i.surrounds(Scalar::from_int(1)));
    assert!(i.surrounds(Scalar::from_int(2)));
    assert!(!i.surrounds(Scalar::from_int(3)));
    assert!(i.surrounds(Scalar::from_raw(Scalar::from_int(1).raw() + 1)));
    assert!(!i.surrounds(Scalar::from_int(0)));
}

#[test]
fn clamp_returns_the_nearest_member() {
    let i = Interval::new(Scalar::zero(), Scalar::ratio(999, 1000));
    assert_eq!(i.clamp(Scalar::from_int(-1)), Scalar::zero());
    assert_eq!(i.clamp(Scalar::from_int(2)), Scalar::ratio(999, 1000));
    assert_eq!(i.clamp(Scalar::ratio(1, 2)), Scalar::ratio(1, 2));
    assert_eq!(i.clamp(Scalar::zero()), Scalar::zero());
    assert_eq!(i.clamp(Scalar::ratio(999, 1000)), Scalar::ratio(999, 1000));
}

#[test]
fn the_empty_interval_holds_nothing() {
    let e = Interval::empty();
    assert_eq!(e.min, Scalar::infinity());
    assert_eq!(e.max, Scalar::neg_infinity());
    assert!(!e.contains(Scalar::zero()));
    assert!(!e.contains(Scalar::infinity()));
    assert!(!e.contains(Scalar::neg_infinity()));
    assert!(!e.surrounds(Scalar::zero()));
}

#[test]
fn the_universe_holds_everything() {
    let u = Interval::universe();
    assert_eq!(u.min, Scalar::neg_infinity());
    assert_eq!(u.max, Scalar::infinity());
    assert!(u.contains(Scalar::zero()));
    assert!(u.contains(Scalar::infinity()));
    assert!(u.contains(Scalar::neg_infinity()));
    assert!(u.surrounds(Scalar::from_int(1_000_000)));
    assert!(!u.surrounds(Scalar::infinity()));
}

#[test]
fn a_ray_keeps_what_it_was_made_of() {
    let r = Ray::new(v(1, 2, 3), v(0, 0, 0));
    assert_eq!(r.origin(), v(1, 2, 3));
    assert_eq!(r.direction(), v(0, 0, 0));
    assert_eq!(r.orig, v(1, 2, 3));
    assert_eq!(r.dir, v(0, 0, 0));
}

#[test]
fn a_ray_runs_along_its_direction() {
    let r = Ray::new(v(1, 2, 3), v(2, 0, -4));
    assert_eq!(r.at(Scalar::zero()), v(1, 2, 3));
    assert_eq!(r.at(Scalar::one()), v(3, 2, -1));
    assert_eq!(r.at(Scalar::ratio(1, 2)), v(2, 2, 1));
    assert_eq!(r.at(Scalar::from_int(-1)), v(-1, 2, 7));
}

#[test]
fn a_ray_without_direction_stays_at_its_origin() {
    let r = Ray::new(v(1, 2, 3), v(0, 0, 0));
    assert_eq!(r.at(Scalar::from_int(5)), v(1, 2, 3));
}
