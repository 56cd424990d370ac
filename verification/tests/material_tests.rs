use raytracer::hittable::HitRecord;
use raytracer::material::{Dielectric, Lambertian, Material, Metal, Scatter};
use raytracer::ray::Ray;
use raytracer::scalar::{Scalar, ONE_RAW};
use raytracer::vector::{dot, reflect, Vec3};

fn v(x: i32, y: i32, z: i32) -> Vec3 {
    Vec3::new(Scalar::from_int(x), Scalar::from_int(y), Scalar::from_int(z))
}

fn q(x: i64, y: i64, z: i64, den: i64) -> Vec3 {
    Vec3::new(Scalar::ratio(x, den), Scalar::ratio(y, den), Scalar::ratio(z, den))
}

fn approx(x: Scalar) -> f64 {
    x.raw() as f64 / ONE_RAW as f64
}

fn floor_at(p: Vec3, mat: Material) -> HitRecord {
    HitRecord::new(p, v(0, 1, 0), mat, Scalar::one(), true)
}

fn slanted() -> Ray {
    Ray::new(v(-3, 4, 0), v(3, -4, 0))
}

#[test]
fn a_diffuse_surface_scatters_along_normal_plus_unit() {
    let albedo = q(1, 2, 3, 4);
    let mat = Lambertian::new(albedo);
    assert_eq!(mat.albedo(), albedo);
    let rec = floor_at(v(1, 0, 2), Material::Lambertian(mat));
    let out = mat.scatter_with(&slanted(), &rec, v(1, 0, 0));
    assert_eq!(
        out,
        Some(Scatter { attenuation: albedo, scattered: Ray::new(v(1, 0, 2), v(1, 1, 0)) })
    );
}

#[test]
fn a_diffuse_surface_falls_back_to_the_normal() {
    let mat = Lambertian::new(q(1, 2, 3, 4));
    let rec = floor_at(v(1, 0, 2), Material::Lambertian(mat));
    let out = mat.scatter_with(&slanted(), &rec, v(0, -1, 0)).unwrap();
    assert_eq!(out.scattered.direction(), v(0, 1, 0));
    let nearly = Vec3::new(Scalar::from_raw(5), Scalar::from_raw(-ONE_RAW + 7), Scalar::zero());
    let out = mat.scatter_with(&slanted(), &rec, nearly).unwrap();
    assert_eq!(out.scattered.direction(), v(0, 1, 0));
    let not_quite = Vec3::new(Scalar::from_raw(50), Scalar::from_raw(-ONE_RAW), Scalar::zero());
    let out = mat.scatter_with(&slanted(), &rec, not_quite).unwrap();
    assert_eq!(
        out.scattered.direction(),
        Vec3::new(Scalar::from_raw(50), Scalar::zero(), Scalar::zero())
    );
}

#[test]
fn a_diffuse_surface_never_absorbs() {
    let albedo = q(7, 2, 1, 10);
    let mat = Lambertian::new(albedo);
    let rec = floor_at(v(1, 0, 2), Material::Lambertian(mat));
    let mut k = 0;
    while k < 300 {
        let out = mat.scatter(&slanted(), &rec).unwrap();
        assert_eq!(out.attenuation, albedo);
        assert_eq!(out.scattered.origin(), v(1, 0, 2));
        assert!(!out.scattered.direction().near_zero());
        let through = Material::Lambertian(mat).scatter(&slanted(), &rec).unwrap();
        assert_eq!(through.attenuation, albedo);
        k += 1;
    }
}

#[test]
fn the_fuzz_of_a_metal_is_forced_into_the_unit_range() {
    let albedo = q(8, 6, 2, 10);
    assert_eq!(Metal::new(albedo, Scalar::ratio(3, 10)).fuzz(), Scalar::ratio(3, 10));
    assert_eq!(Metal::new(albedo, Scalar::from_int(5)).fuzz(), Scalar::one());
    assert_eq!(Metal::new(albedo, Scalar::one()).fuzz(), Scalar::one());
    assert_eq!(Metal::new(albedo, Scalar::from_int(-5)).fuzz(), Scalar::zero());
    assert_eq!(Metal::new(albedo, Scalar::zero()).fuzz(), Scalar::zero());
    assert_eq!(Metal::new(albedo, Scalar::zero()).albedo(), albedo);
}

#[test]
fn a_mirror_without_fuzz_reflects_exactly() {
    let albedo = q(8, 6, 2, 10);
    let mat = Metal::new(albedo, Scalar::zero());
    let rec = floor_at(v(0, 0, 0), Material::Metal(mat));
    let incoming = slanted();
    let expected = reflect(&incoming.direction().unit_vector(), &rec.normal);
    assert_eq!(expected, q(3, 4, 0, 5));
    for unit in [v(1, 0, 0), v(0, -1, 0), q(1, 2, 2, 3)] {
        let out = mat.scatter_with(&incoming, &rec, unit).unwrap();
        assert_eq!(out.attenuation, albedo);
        assert_eq!(out.scattered, Ray::new(v(0, 0, 0), expected));
    }
    let mut k = 0;
    while k < 100 {
        let out = mat.scatter(&incoming, &rec).unwrap();
        assert_eq!(out.scattered.direction(), expected);
        k += 1;
    }
}

#[test]
fn a_mirror_keeps_the_angle_with_the_normal() {
    let mat = Metal::new(q(8, 6, 2, 10), Scalar::zero());
    let normal = q(2, 3, 6, 7);
    let rec = HitRecord::new(v(1, 1, 1), normal, Material::Metal(mat), Scalar::one(), true);
    let incoming = Ray::new(v(0, 0, 0), q(-1, -5, -3, 1));
    let out = mat.scatter_with(&incoming, &rec, v(0, 0, 0)).unwrap();
    let before = approx(dot(&(-incoming.direction().unit_vector()), &normal));
    let after = approx(dot(&out.scattered.direction(), &normal));
    assert!(before > 0.5);
    assert!((before - after).abs() < 1e-8);
}

#[test]
fn a_fuzzy_mirror_adds_the_scaled_unit() {
    let mat = Metal::new(q(8, 6, 2, 10), Scalar::ratio(1, 2));
    let rec = floor_at(v(0, 0, 0), Material::Metal(mat));
    let out = mat.scatter_with(&slanted(), &rec, v(0, 0, 1)).unwrap();
    assert_eq!(out.scattered.direction(), q(3, 4, 0, 5) + q(0, 0, 1, 2));
}

#[test]
fn a_metal_absorbs_what_would_enter_the_surface() {
    let mat = Metal::new(q(8, 6, 2, 10), Scalar::one());
    let rec = floor_at(v(0, 0, 0), Material::Metal(mat));
    assert_eq!(mat.scatter_with(&slanted(), &rec, v(0, -1, 0)), None);
    let level = Ray::new(v(-1, 0, 0), v(1, 0, 0));
    assert_eq!(mat.scatter_with(&level, &rec, v(0, 0, 0)), None);
    let mut k = 0;
    while k < 300 {
        if let Some(out) = mat.scatter(&slanted(), &rec) {
            assert!(dot(&out.scattered.direction(), &rec.normal) > Scalar::zero());
            assert_eq!(out.attenuation, q(8, 6, 2, 10));
        }
        k += 1;
    }
}

#[test]
fn reflectance_after_schlick() {
    let glass = Scalar::ratio(3, 2);
    let head_on = Dielectric::reflectance(Scalar::one(), glass);
    assert!((approx(head_on) - 0.04).abs() < 1e-8);
    let grazing = Dielectric::reflectance(Scalar::zero(), glass);
    assert!((approx(grazing) - 1.0).abs() < 1e-8);
    let half = Dielectric::reflectance(Scalar::ratio(1, 2), glass);
    assert!((approx(half) - (0.04 + 0.96 / 32.0)).abs() < 1e-8);
    assert_eq!(Dielectric::reflectance(Scalar::ratio(1, 2), Scalar::one()), Scalar::ratio(1, 32));
}

#[test]
fn glass_refracts_or_reflects_by_the_draw() {
    let glass = Dielectric::new(Scalar::ratio(3, 2));
    assert_eq!(glass.ir(), Scalar::ratio(3, 2));
    let rec = floor_at(v(0, 0, 0), Material::Dielectric(glass));
    let incoming = slanted();
    let refracted = glass.scatter_with(&incoming, &rec, Scalar::ratio(9, 10)).unwrap();
    assert_eq!(refracted.attenuation, v(1, 1, 1));
    assert_eq!(refracted.scattered.origin(), v(0, 0, 0));
    let d = refracted.scattered.direction();
    assert!((approx(d.x()) - 0.4).abs() < 1e-8);
    assert!((approx(d.y()) + (1.0f64 - 0.16).sqrt()).abs() < 1e-8);
    let reflected = glass.scatter_with(&incoming, &rec, Scalar::zero()).unwrap();
    assert_eq!(reflected.attenuation, v(1, 1, 1));
    assert_eq!(reflected.scattered.direction(), q(3, 4, 0, 5));
}

#[test]
fn glass_reflects_all_light_beyond_the_critical_angle() {
    let glass = Dielectric::new(Scalar::ratio(3, 2));
    let rec = HitRecord::new(
        v(0, 0, 0),
        v(0, 1, 0),
        Material::Dielectric(glass),
        Scalar::one(),
        false,
    );
    let leaving = Ray::new(v(0, 0, 0), v(4, -3, 0));
    let out = glass.scatter_with(&leaving, &rec, Scalar::ratio(999, 1000)).unwrap();
    assert_eq!(out.scattered.direction(), q(4, 3, 0, 5));
}

#[test]
fn a_medium_like_its_surroundings_does_not_bend_light() {
    let air = Dielectric::new(Scalar::one());
    let normal = v(0, 1, 0);
    for direction in [v(3, -4, 0), v(0, -1, 0), v(1, -1, 1), v(-5, -1, 2), v(1, -8, -4)] {
        for front_face in [true, false] {
            let rec =
                HitRecord::new(v(1, 2, 3), normal, Material::Dielectric(air), Scalar::one(), front_face);
            let incoming = Ray::new(v(0, 9, 0), direction);
            let out = air.scatter_with(&incoming, &rec, Scalar::ratio(1, 2)).unwrap();
            assert_eq!(out.attenuation, v(1, 1, 1));
            assert_eq!(out.scattered.origin(), v(1, 2, 3));
            let unit = direction.unit_vector();
            let d = out.scattered.direction();
            assert!((approx(d.x()) - approx(unit.x())).abs() < 1e-8);
            assert!((approx(d.y()) - approx(unit.y())).abs() < 1e-8);
            assert!((approx(d.z()) - approx(unit.z())).abs() < 1e-8);
        }
    }
}

#[test]
fn glass_never_absorbs() {
    let glass = Dielectric::new(Scalar::ratio(3, 2));
    let rec = floor_at(v(1, 0, 2), Material::Dielectric(glass));
    let mut refracted = 0;
    let mut reflected = 0;
    let mut k = 0;
    while k < 2000 {
        let out = Material::Dielectric(glass).scatter(&slanted(), &rec).unwrap();
        assert_eq!(out.attenuation, v(1, 1, 1));
        assert_eq!(out.scattered.origin(), v(1, 0, 2));
        if out.scattered.direction().y() > Scalar::zero() {
            reflected += 1;
        } else {
            refracted += 1;
        }
        k += 1;
    }
    assert!(refracted > reflected);
    assert!(reflected > 0);
}

#[test]
fn a_material_scatters_as_its_kind_does() {
    let rec_of = |mat| floor_at(v(0, 0, 0), mat);
    let unit = v(0, 0, 1);
    let draw = Scalar::ratio(9, 10);
    let diffuse = Lambertian::new(q(1, 2, 3, 4));
    let mat = Material::Lambertian(diffuse);
    assert_eq!(
        mat.scatter_with(&slanted(), &rec_of(mat), unit, draw),
        diffuse.scatter_with(&slanted(), &rec_of(mat), unit)
    );
    let metal = Metal::new(q(1, 2, 3, 4), Scalar::ratio(1, 4));
    let mat = Material::Metal(metal);
    assert_eq!(
        mat.scatter_with(&slanted(), &rec_of(mat), unit, draw),
        metal.scatter_with(&slanted(), &rec_of(mat), unit)
    );
    let glass = Dielectric::new(Scalar::ratio(3, 2));
    let mat = Material::Dielectric(glass);
    assert_eq!(
        mat.scatter_with(&slanted(), &rec_of(mat), unit, draw),
        glass.scatter_with(&slanted(), &rec_of(mat), draw)
    );
}
