use raytracer::camera::{Camera, CameraConfig, Viewport, HALF_RAW, HIT_MIN_RAW, SKY_GREEN_RAW};
use raytracer::color::Pixel;
use raytracer::hittable::{Hittable, Sphere};
use raytracer::hittable_list::HittableList;
use raytracer::material::{Dielectric, Lambertian, Material, Metal, Scatter};
use raytracer::ray::Ray;
use raytracer::scalar::{Scalar, ONE_RAW};
use raytracer::vector::Vec3;

fn v(x: i32, y: i32, z: i32) -> Vec3 {
    Vec3::new(Scalar::from_int(x), Scalar::from_int(y), Scalar::from_int(z))
}

fn q(x: i64, y: i64, z: i64, den: i64) -> Vec3 {
    Vec3::new(Scalar::ratio(x, den), Scalar::ratio(y, den), Scalar::ratio(z, den))
}

fn approx(x: Scalar) -> f64 {
    x.raw() as f64 / ONE_RAW as f64
}

fn close(a: Vec3, x: f64, y: f64, z: f64, eps: f64) -> bool {
    (approx(a.x()) - x).abs() < eps && (approx(a.y()) - y).abs() < eps && (approx(a.z()) - z).abs() < eps
}

fn sky_blue() -> Vec3 {
    Vec3::new(Scalar::from_raw(HALF_RAW), Scalar::from_raw(SKY_GREEN_RAW), Scalar::one())
}

fn one_sphere(mat: Material) -> HittableList {
    let mut world = HittableList::new(Vec::new());
    world.add(Box::new(Sphere::new(v(0, 0, -1), Scalar::ratio(1, 2), mat)));
    world
}

fn small_camera() -> Camera {
    let mut cam = Camera::new();
    cam.config.aspect_ratio = Scalar::from_int(2);
    cam.config.image_width = 4;
    cam.config.samples_per_pixel = 3;
    cam.config.max_depth = 5;
    cam.config.vfov = Scalar::from_int(90);
    cam.config.look_from = v(0, 0, 0);
    cam.config.look_at = v(0, 0, -1);
    cam.config.v_up = v(0, 1, 0);
    cam.config.focus_dist = Scalar::one();
    cam
}

#[test]
fn constants_of_the_camera() {
    assert_eq!(Scalar::from_raw(HIT_MIN_RAW), Scalar::ratio(1, 1000));
    assert_eq!(Scalar::from_raw(HALF_RAW), Scalar::ratio(1, 2));
    assert_eq!(Scalar::from_raw(SKY_GREEN_RAW), Scalar::ratio(7, 10));
}

#[test]
fn a_new_camera_has_the_standard_configuration() {
    let cam = Camera::new();
    assert_eq!(cam.config, CameraConfig::new());
    assert_eq!(cam.config.aspect_ratio, Scalar::ratio(16, 9));
    assert_eq!(cam.config.image_width, 400);
    assert_eq!(cam.config.samples_per_pixel, 100);
    assert_eq!(cam.config.max_depth, 50);
    assert_eq!(cam.config.vfov, Scalar::from_int(20));
    assert_eq!(cam.config.look_from, v(0, 0, -1));
    assert_eq!(cam.config.look_at, v(0, 0, 0));
    assert_eq!(cam.config.v_up, v(0, 1, 0));
    assert_eq!(cam.config.defocus_angle, Scalar::zero());
    assert_eq!(cam.config.focus_dist, Scalar::from_int(10));
    assert_eq!(cam.viewport.image_height, 0);
    assert_eq!(cam.viewport.pixel00_loc, v(0, 0, 0));
}

#[test]
fn the_image_height_follows_from_width_and_aspect_ratio() {
    let mut config = CameraConfig::new();
    assert_eq!(config.image_height(), 225);
    config.aspect_ratio = Scalar::from_int(2);
    assert_eq!(config.image_height(), 200);
    config.image_width = 3;
    assert_eq!(config.image_height(), 1);
    config.image_width = 1;
    assert_eq!(config.image_height(), 1);
    config.image_width = 0;
    assert_eq!(config.image_height(), 1);
    config.image_width = -8;
    assert_eq!(config.image_height(), 1);
    config.image_width = 8;
    config.aspect_ratio = Scalar::zero();
    assert_eq!(config.image_height(), i32::MAX);
}

#[test]
fn initialize_derives_the_viewport() {
    let mut cam = small_camera();
    let config = cam.config;
    cam.initialize();
    assert_eq!(cam.config, config);
    assert_eq!(cam.viewport, Viewport::of(&config));
    let view = cam.viewport;
    assert_eq!(view.image_height, 2);
    assert_eq!(view.center, v(0, 0, 0));
    assert_eq!(view.w, v(0, 0, 1));
    assert_eq!(view.u, v(1, 0, 0));
    assert_eq!(view.v, v(0, 1, 0));
    assert!(close(view.pixel_delta_u, 1.0, 0.0, 0.0, 1e-7));
    assert!(close(view.pixel_delta_v, 0.0, -1.0, 0.0, 1e-7));
    assert!(close(view.pixel00_loc, -1.5, 0.5, -1.0, 1e-7));
    assert_eq!(view.defocus_radius, Scalar::zero());
    assert_eq!(view.defocus_disk_u, v(0, 0, 0));
    assert_eq!(view.defocus_disk_v, v(0, 0, 0));
}

#[test]
fn the_viewport_of_the_standard_configuration() {
    let mut cam = Camera::new();
    cam.initialize();
    let view = cam.viewport;
    assert_eq!(view.image_height, 225);
    assert_eq!(view.center, v(0, 0, -1));
    assert_eq!(view.w, v(0, 0, -1));
    assert_eq!(view.u, v(-1, 0, 0));
    assert_eq!(view.v, v(0, 1, 0));
    let height = 2.0 * 10.0f64.to_radians().tan() * 10.0;
    let width = height * 400.0 / 225.0;
    assert!(close(view.pixel_delta_u, -width / 400.0, 0.0, 0.0, 1e-7));
    assert!(close(view.pixel_delta_v, 0.0, -height / 225.0, 0.0, 1e-7));
    assert!(close(
        view.pixel00_loc,
        width / 2.0 - width / 800.0,
        height / 2.0 - height / 450.0,
        9.0,
        1e-6
    ));
}

#[test]
fn a_lens_has_the_radius_of_its_cone_at_the_focus() {
    let mut cam = small_camera();
    cam.config.defocus_angle = Scalar::from_int(90);
    cam.config.focus_dist = Scalar::from_int(3);
    cam.initialize();
    assert!((approx(cam.viewport.defocus_radius) - 3.0).abs() < 1e-6);
    assert!(close(cam.viewport.defocus_disk_u, 3.0, 0.0, 0.0, 1e-6));
    assert!(close(cam.viewport.defocus_disk_v, 0.0, 3.0, 0.0, 1e-6));
}

#[test]
fn rays_go_from_the_center_through_the_pixel() {
    let mut cam = small_camera();
    cam.initialize();
    let view = cam.viewport;
    let half = Scalar::ratio(1, 2);
    let middle = cam.get_ray_with(2, 1, half, half, v(1, 0, 0));
    assert_eq!(middle.origin(), v(0, 0, 0));
    assert_eq!(
        middle.direction(),
        view.pixel00_loc + view.pixel_delta_u * 2 + view.pixel_delta_v * 1
    );
    let corner = cam.get_ray_with(0, 0, Scalar::zero(), Scalar::zero(), v(0, 0, 0));
    assert_eq!(
        corner.direction(),
        view.pixel00_loc + (view.pixel_delta_u * -half + view.pixel_delta_v * -half)
    );
    assert!(close(corner.direction(), -2.0, 1.0, -1.0, 1e-6));
    assert_eq!(cam.pixel_sample_square_with(half, half), v(0, 0, 0));
    assert_eq!(
        cam.pixel_sample_square_with(Scalar::one(), Scalar::zero()),
        view.pixel_delta_u * half + view.pixel_delta_v * -half
    );
}

#[test]
fn rays_start_on_the_lens_where_there_is_one() {
    let mut cam = small_camera();
    cam.config.defocus_angle = Scalar::from_int(90);
    cam.initialize();
    let view = cam.viewport;
    let half = Scalar::ratio(1, 2);
    let lens = q(1, -1, 0, 2);
    let ray = cam.get_ray_with(1, 0, half, half, lens);
    let origin = view.center + view.defocus_disk_u * lens.x() + view.defocus_disk_v * lens.y();
    assert_eq!(ray.origin(), origin);
    assert_eq!(
        ray.direction(),
        view.pixel00_loc + view.pixel_delta_u * 1 + view.pixel_delta_v * 0 - origin
    );
    assert!(close(ray.origin(), 0.5, -0.5, 0.0, 1e-6));
}

#[test]
fn random_rays_stay_inside_their_pixel() {
    let mut cam = small_camera();
    cam.initialize();
    let view = cam.viewport;
    let mut k = 0;
    while k < 200 {
        let ray = cam.get_ray(3, 1);
        assert_eq!(ray.origin(), v(0, 0, 0));
        let center = view.pixel00_loc + view.pixel_delta_u * 3 + view.pixel_delta_v * 1;
        let offset = ray.direction() - center;
        assert!(approx(offset.x()).abs() <= 0.5 + 1e-6);
        assert!(approx(offset.y()).abs() <= 0.5 + 1e-6);
        assert_eq!(offset.z(), Scalar::zero());
        let square = cam.pixel_sample_square();
        assert!(approx(square.x()).abs() <= 0.5 + 1e-6);
        assert!(approx(square.y()).abs() <= 0.5 + 1e-6);
        k += 1;
    }
}

#[test]
fn random_rays_start_inside_the_lens() {
    let mut cam = small_camera();
    cam.config.defocus_angle = Scalar::from_int(90);
    cam.initialize();
    let mut moved = false;
    let mut k = 0;
    while k < 200 {
        let ray = cam.get_ray(0, 0);
        let from = ray.origin();
        assert!(approx(from.length()) < 1.0 + 1e-6);
        assert_eq!(from.z(), Scalar::zero());
        if from != v(0, 0, 0) {
            moved = true;
        }
        k += 1;
    }
    assert!(moved);
}

#[test]
fn without_depth_every_ray_is_black() {
    let world = one_sphere(Material::Lambertian(Lambertian::new(v(1, 1, 1))));
    let empty = HittableList::new(Vec::new());
    for depth in [0, -1, i32::MIN] {
        for direction in [v(0, 0, -1), v(0, 1, 0), v(0, 0, 0), v(3, -2, 7)] {
            let r = Ray::new(v(0, 0, 0), direction);
            assert_eq!(Camera::ray_color(r, depth, &world), v(0, 0, 0));
            assert_eq!(Camera::ray_color(r, depth, &empty), v(0, 0, 0));
        }
    }
    assert_eq!(Camera::black(), v(0, 0, 0));
}

#[test]
fn a_ray_that_hits_nothing_shows_the_background() {
    let world = one_sphere(Material::Lambertian(Lambertian::new(v(1, 1, 1))));
    let up = Ray::new(v(0, 0, 0), v(0, 1, 0));
    assert_eq!(Camera::ray_color(up, 1, &world), sky_blue());
    assert_eq!(Camera::ray_color(up, 50, &world), sky_blue());
    assert_eq!(Camera::background(&up), sky_blue());
    let down = Ray::new(v(0, 0, 0), v(0, -3, 0));
    assert_eq!(Camera::ray_color(down, 1, &world), v(1, 1, 1));
    let level = Ray::new(v(0, 0, 0), v(4, 0, 0));
    let blend = Vec3::new(
        Scalar::ratio(3, 4),
        Scalar::ratio(1, 2) + Scalar::from_raw(SKY_GREEN_RAW / 2),
        Scalar::one(),
    );
    assert_eq!(Camera::ray_color(level, 1, &world), blend);
    assert_eq!(Camera::normal_color(&level, &world), blend);
    let slanted = Ray::new(v(0, 0, 0), v(3, 4, 0));
    let a = 0.5 * (0.8 + 1.0);
    assert!(close(
        Camera::ray_color(slanted, 7, &world),
        1.0 - a + 0.5 * a,
        1.0 - a + 0.7 * a,
        1.0,
        1e-8
    ));
}

#[test]
fn a_ray_at_the_center_of_the_sphere_shows_the_shade_of_its_normal() {
    let toward = Ray::new(v(0, 0, 0), v(0, 0, -1));
    let expected = Vec3::new(Scalar::ratio(1, 2), Scalar::ratio(1, 2), Scalar::one());
    let materials = [
        Material::Lambertian(Lambertian::new(q(1, 2, 3, 4))),
        Material::Metal(Metal::new(q(3, 2, 1, 4), Scalar::ratio(1, 2))),
        Material::Dielectric(Dielectric::new(Scalar::ratio(3, 2))),
    ];
    for mat in materials {
        let world = one_sphere(mat);
        assert_eq!(Camera::normal_color(&toward, &world), expected);
        let sphere = Sphere::new(v(0, 0, -1), Scalar::ratio(1, 2), mat);
        assert_eq!(Camera::normal_color(&toward, &sphere), expected);
    }
    let world = one_sphere(materials[0]);
    let aside = Ray::new(v(0, 0, 0), q(3, 0, -10, 10));
    let rec = world.hit(&aside, raytracer::interval::Interval::universe()).unwrap();
    let one = v(1, 1, 1);
    assert_eq!(Camera::normal_color(&aside, &world), (rec.normal + one) * Scalar::ratio(1, 2));
}

#[test]
fn with_one_scattering_left_a_hit_shows_black() {
    let toward = Ray::new(v(0, 0, 0), v(0, 0, -1));
    let materials = [
        Material::Lambertian(Lambertian::new(q(1, 2, 3, 4))),
        Material::Metal(Metal::new(q(3, 2, 1, 4), Scalar::ratio(1, 2))),
        Material::Dielectric(Dielectric::new(Scalar::ratio(3, 2))),
    ];
    for mat in materials {
        let world = one_sphere(mat);
        assert_eq!(Camera::ray_color(toward, 1, &world), v(0, 0, 0));
    }
}

#[test]
fn a_mirror_shows_the_sky_through_its_albedo() {
    let albedo = q(1, 2, 3, 4);
    let world = one_sphere(Material::Metal(Metal::new(albedo, Scalar::zero())));
    let toward = Ray::new(v(0, 0, 0), v(0, 0, -1));
    let back = Ray::new(q(0, 0, -1, 2), v(0, 0, 1));
    let expected = albedo * Camera::background(&back);
    assert_eq!(Camera::ray_color(toward, 2, &world), expected);
    assert_eq!(Camera::ray_color(toward, 50, &world), expected);
}

#[test]
fn shade_is_attenuation_times_the_rest() {
    let s = Scatter { attenuation: q(1, 2, 3, 4), scattered: Ray::new(v(0, 0, 0), v(1, 0, 0)) };
    assert_eq!(Camera::shade(Some(s), v(4, 2, 0)), Vec3::new(Scalar::one(), Scalar::one(), Scalar::zero()));
    assert_eq!(Camera::shade(None, v(4, 2, 0)), v(0, 0, 0));
}

#[test]
fn a_picture_has_a_pixel_for_each_column_of_each_row() {
    let world = one_sphere(Material::Lambertian(Lambertian::new(q(1, 1, 1, 2))));
    let mut cam = small_camera();
    let image = cam.render(&world);
    assert_eq!(cam.viewport.image_height, 2);
    assert_eq!(image.len(), 8);
    assert_eq!(cam.viewport, Viewport::of(&cam.config));
    let mut cam = small_camera();
    cam.config.image_width = 0;
    assert!(cam.render(&world).is_empty());
    let mut cam = small_camera();
    cam.config.image_width = -3;
    assert!(cam.render(&world).is_empty());
    let mut cam = small_camera();
    cam.config.image_width = 7;
    cam.config.aspect_ratio = Scalar::ratio(7, 3);
    assert_eq!(cam.render(&world).len(), 21);
}

#[test]
fn a_picture_without_depth_or_samples_is_black() {
    let world = one_sphere(Material::Lambertian(Lambertian::new(q(1, 1, 1, 2))));
    let black = Pixel { r: 0, g: 0, b: 0 };
    let mut cam = small_camera();
    cam.config.max_depth = 0;
    let image = cam.render(&world);
    assert_eq!(image, vec![black; 8]);
    let mut cam = small_camera();
    cam.config.samples_per_pixel = 0;
    assert_eq!(cam.render(&world), vec![black; 8]);
    cam.config.samples_per_pixel = -4;
    assert_eq!(cam.render(&world), vec![black; 8]);
}

#[test]
fn a_picture_of_nothing_shows_the_sky() {
    let world = HittableList::new(Vec::new());
    let mut cam = small_camera();
    cam.config.image_width = 6;
    cam.config.aspect_ratio = Scalar::one();
    cam.config.samples_per_pixel = 10;
    let image = cam.render(&world);
    assert_eq!(image.len(), 36);
    for (k, p) in image.iter().enumerate() {
        assert_eq!(p.b, 255);
        assert!(p.r < p.g && p.g < p.b);
        if k >= 6 {
            assert!(p.r >= image[k - 6].r);
        }
    }
    assert!(image[0].r < image[35].r);
}

#[test]
fn a_picture_shows_the_sphere_in_its_middle() {
    let world = one_sphere(Material::Lambertian(Lambertian::new(q(1, 0, 0, 2))));
    let mut cam = small_camera();
    cam.config.image_width = 9;
    cam.config.aspect_ratio = Scalar::one();
    cam.config.samples_per_pixel = 20;
    cam.config.vfov = Scalar::from_int(60);
    let image = cam.render(&world);
    assert_eq!(image.len(), 81);
    let middle = image[4 * 9 + 4];
    assert_eq!(middle.g, 0);
    assert_eq!(middle.b, 0);
    assert!(middle.r > 0);
    let corner = image[0];
    assert_eq!(corner.b, 255);
    assert_eq!(cam.pixel(0, 0, &world).b, 255);
    let sum = cam.pixel_color(4, 4, &world);
    assert_eq!(sum.y(), Scalar::zero());
    assert_eq!(sum.z(), Scalar::zero());
    let as_dyn: &dyn Hittable = &world;
    assert_eq!(cam.pixel(4, 4, as_dyn).g, 0);
}
