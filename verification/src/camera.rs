//! The camera: from a configuration to rays, colors and pixels.
//!
//! What depends on random numbers comes in two forms, as for the
//! materials: `get_ray` draws and `get_ray_with` is handed what was drawn.
//! Of a function that draws, the contract says which results it can give.

use crate::color::{pixel_spec, to_pixel, Pixel};
use crate::hittable::Hittable;
use crate::interval::Interval;
use crate::material::Scatter;
use crate::ray::Ray;
use crate::scalar::Scalar;
use crate::utility::{degrees_to_radians, degrees_to_radians_spec, is_fraction, random_fraction};
use crate::vector::{cross, cross_spec, Color, Point3, Vec3};
use core::ops::Neg;
use vstd::prelude::*;
use vstd::std_specs::ops::{AddSpec, DivSpec, MulSpec, NegSpec, SubSpec};

verus! {

/// Raw representation of `0.001`, the least parameter at which a hit
/// counts: nearer hits are the surface the ray has just left.
pub const HIT_MIN_RAW: i64 = 4294967;

/// Raw representation of one half.
pub const HALF_RAW: i64 = 0x8000_0000;

/// Raw representation of `0.7`, the green of the sky.
pub const SKY_GREEN_RAW: i64 = 3006477107;

/// What a picture is to show, and how finely.
#[derive(Clone, Copy, Debug, PartialEq, Eq, Structural)]
pub struct CameraConfig {
    /// Width of the image over its height.
    pub aspect_ratio: Scalar,
    /// Width of the image, in pixels.
    pub image_width: i32,
    /// Number of rays sent through each pixel.
    pub samples_per_pixel: i32,
    /// Number of times a ray may be scattered.
    pub max_depth: i32,
    /// Vertical field of view, in degrees.
    pub vfov: Scalar,
    /// Where the camera stands.
    pub look_from: Point3,
    /// The point the camera looks at.
    pub look_at: Point3,
    /// The direction that is up in the picture.
    pub v_up: Vec3,
    /// Angle, in degrees, of the cone whose tip is a point of the plane in
    /// focus and whose base is the lens. Zero for a lens without size,
    /// which shows everything in focus.
    pub defocus_angle: Scalar,
    /// Distance from the camera to the plane in focus.
    pub focus_dist: Scalar,
}

/// What is derived from a configuration before the first ray is sent.
#[derive(Clone, Copy, Debug, PartialEq, Eq, Structural)]
pub struct Viewport {
    /// Height of the image, in pixels.
    pub image_height: i32,
    /// Where the rays start.
    pub center: Point3,
    /// The middle of the pixel in the upper left corner.
    pub pixel00_loc: Point3,
    /// The step from a pixel to the next one on its right.
    pub pixel_delta_u: Vec3,
    /// The step from a pixel to the next one below.
    pub pixel_delta_v: Vec3,
    /// The unit vector to the right of the camera.
    pub u: Vec3,
    /// The unit vector up from the camera.
    pub v: Vec3,
    /// The unit vector against the direction of view.
    pub w: Vec3,
    /// The radius of the lens.
    pub defocus_radius: Scalar,
    /// The horizontal radius of the lens.
    pub defocus_disk_u: Vec3,
    /// The vertical radius of the lens.
    pub defocus_disk_v: Vec3,
}

/// A camera.
#[derive(Clone, Copy, Debug, PartialEq, Eq, Structural)]
pub struct Camera {
    /// What the camera is to show. To be set before the first ray is sent.
    pub config: CameraConfig,
    /// What was derived from the configuration when the camera was last
    /// initialized.
    pub viewport: Viewport,
}

/// Black.
pub open spec fn black_spec() -> Color {
    Vec3::zero_spec()
}

/// The color of the sky.
pub open spec fn sky_blue_spec() -> Color {
    Vec3 { x: Scalar { raw: HALF_RAW }, y: Scalar { raw: SKY_GREEN_RAW }, z: Scalar::one_spec() }
}

/// The range of the parameters at which a hit counts: from `0.001` to
/// infinity.
pub open spec fn visible_spec() -> Interval {
    Interval { min: Scalar { raw: HIT_MIN_RAW }, max: Scalar::infinity_spec() }
}

/// The color of the background behind the ray `r`: white blended into the
/// blue of the sky by the height `y` of the normalized direction,
/// `white * (1 - a) + blue * a` with `a = 0.5 * (y + 1)`.
pub open spec fn background_spec(r: Ray) -> Color {
    let one = Scalar::one_spec();
    let a = (Scalar { raw: HALF_RAW }).mul_spec(r.dir.unit_vector_spec().y.add_spec(one));
    (Vec3 { x: one, y: one, z: one }).mul_spec(one.sub_spec(a)).add_spec(
        sky_blue_spec().mul_spec(a),
    )
}

/// The color of a surface by its normal alone: `(normal + (1, 1, 1)) * 0.5`.
pub open spec fn normal_shade_spec(normal: Vec3) -> Color {
    let one = Scalar::one_spec();
    normal.add_spec(Vec3 { x: one, y: one, z: one }).mul_spec(Scalar { raw: HALF_RAW })
}

/// The color that a ray shows after `out` happened to it at a surface,
/// when the scattered ray shows the color `rest`: black for an absorbed
/// ray, and else `rest` seen through the attenuation.
pub open spec fn shade_spec(out: Option<Scatter>, rest: Color) -> Color {
    match out {
        Some(s) => s.attenuation.mul_spec(rest),
        None => black_spec(),
    }
}

/// Whether `c` is among the colors that the ray `r` can show in `world`
/// when it may be scattered `depth` times: black without depth; the
/// background where it hits nothing; and else what the material of the
/// surface hit can make of it, with one of the colors that the scattered
/// ray can show at one depth less.
pub open spec fn is_ray_color<H: Hittable + ?Sized>(world: &H, r: Ray, depth: int, c: Color) -> bool
    decreases depth,
{
    if depth <= 0 {
        c == black_spec()
    } else {
        match world.hit_spec(r, visible_spec()) {
            None => c == background_spec(r),
            Some(rec) => exists|out: Option<Scatter>, rest: Color|
                {
                    &&& c == #[trigger] shade_spec(out, rest)
                    &&& rec.mat.can_scatter(r, rec, out)
                    &&& out matches Some(s) ==> is_ray_color(world, s.scattered, depth - 1, rest)
                },
        }
    }
}

/// Without depth a ray shows black.
pub proof fn lemma_ray_color_without_depth<H: Hittable + ?Sized>(world: &H, r: Ray, depth: int)
    requires
        depth <= 0,
    ensures
        is_ray_color(world, r, depth, black_spec()),
        forall|c: Color| #[trigger] is_ray_color(world, r, depth, c) ==> c == black_spec(),
{
}

/// A ray that hits nothing shows the background.
pub proof fn lemma_ray_color_of_miss<H: Hittable + ?Sized>(world: &H, r: Ray, depth: int)
    requires
        depth > 0,
        world.hit_spec(r, visible_spec()) is None,
    ensures
        is_ray_color(world, r, depth, background_spec(r)),
        forall|c: Color| #[trigger] is_ray_color(world, r, depth, c) ==> c == background_spec(r),
{
}

/// A ray that hits a surface shows what the surface makes of one of the
/// colors that the scattered ray can show.
pub proof fn lemma_ray_color_of_hit<H: Hittable + ?Sized>(
    world: &H,
    r: Ray,
    depth: int,
    out: Option<Scatter>,
    rest: Color,
)
    requires
        depth > 0,
        world.hit_spec(r, visible_spec()) matches Some(rec) && rec.mat.can_scatter(r, rec, out),
        out matches Some(s) ==> is_ray_color(world, s.scattered, depth - 1, rest),
    ensures
        is_ray_color(world, r, depth, shade_spec(out, rest)),
{
    let c = shade_spec(out, rest);
    assert(c == shade_spec(out, rest));
}

/// The element of the image `image`, `width` pixels wide, in the column
/// `i` of the row `j`.
pub open spec fn pixel_at(image: Seq<Pixel>, width: int, i: int, j: int) -> Pixel {
    image[j * width + i]
}

impl CameraConfig {
    /// A picture 400 pixels wide and 16:9, with 100 rays through each
    /// pixel and up to 50 scatterings of each; seen with a vertical field
    /// of view of 20 degrees from `(0, 0, -1)` toward the origin, `y` up;
    /// through a lens without size, focused at the distance 10.
    pub open spec fn default_spec() -> CameraConfig {
        CameraConfig {
            aspect_ratio: Scalar::ratio_spec(16, 9),
            image_width: 400,
            samples_per_pixel: 100,
            max_depth: 50,
            vfov: Scalar::from_int_spec(20),
            look_from: Vec3 {
                x: Scalar::zero_spec(),
                y: Scalar::zero_spec(),
                z: Scalar::from_int_spec(-1i32),
            },
            look_at: Vec3::zero_spec(),
            v_up: Vec3 { x: Scalar::zero_spec(), y: Scalar::one_spec(), z: Scalar::zero_spec() },
            defocus_angle: Scalar::zero_spec(),
            focus_dist: Scalar::from_int_spec(10),
        }
    }

    /// The height of the image in pixels: the width divided by the aspect
    /// ratio and rounded down, but at least 1.
    pub open spec fn image_height_spec(self) -> i32 {
        let height = Scalar::from_int_spec(self.image_width).div_spec(self.aspect_ratio).trunc_spec();
        if height < 1 {
            1
        } else {
            height as i32
        }
    }

    /// The number of pixels in a row of the image.
    pub open spec fn columns_spec(self) -> int {
        if self.image_width > 0 {
            self.image_width as int
        } else {
            0
        }
    }

    /// The configuration of [`CameraConfig::default_spec`].
    pub fn new() -> (config: CameraConfig)
        ensures
            config == CameraConfig::default_spec(),
    {
        CameraConfig {
            aspect_ratio: Scalar::ratio(16, 9),
            image_width: 400,
            samples_per_pixel: 100,
            max_depth: 50,
            vfov: Scalar::from_int(20),
            look_from: Vec3::new(Scalar::zero(), Scalar::zero(), Scalar::from_int(-1)),
            look_at: Vec3::new(Scalar::zero(), Scalar::zero(), Scalar::zero()),
            v_up: Vec3::new(Scalar::zero(), Scalar::one(), Scalar::zero()),
            defocus_angle: Scalar::zero(),
            focus_dist: Scalar::from_int(10),
        }
    }

    /// The height of the image in pixels.
    pub fn image_height(&self) -> (height: i32)
        ensures
            height == self.image_height_spec(),
            height >= 1,
    {
        let height: i64 = (Scalar::from_int(self.image_width) / self.aspect_ratio).trunc();
        if height < 1 {
            1
        } else {
            height as i32
        }
    }
}

impl Viewport {
    /// The viewport without extent, at the origin.
    pub open spec fn zero_spec() -> Viewport {
        Viewport {
            image_height: 0,
            center: Vec3::zero_spec(),
            pixel00_loc: Vec3::zero_spec(),
            pixel_delta_u: Vec3::zero_spec(),
            pixel_delta_v: Vec3::zero_spec(),
            u: Vec3::zero_spec(),
            v: Vec3::zero_spec(),
            w: Vec3::zero_spec(),
            defocus_radius: Scalar::zero_spec(),
            defocus_disk_u: Vec3::zero_spec(),
            defocus_disk_v: Vec3::zero_spec(),
        }
    }

    /// The height of the plane in focus that the picture shows:
    /// `2 * tan(vfov / 2) * focus_dist`, with the field of view taken to
    /// radians before it is halved.
    pub open spec fn height_spec(config: CameraConfig) -> Scalar {
        let theta = degrees_to_radians_spec(config.vfov);
        let h = theta.div_spec(Scalar::from_int_spec(2)).tan_spec();
        Scalar::from_int_spec(2).mul_spec(h).mul_spec(config.focus_dist)
    }

    /// The radius of the lens: `focus_dist * tan(defocus_angle / 2)`, with
    /// the angle halved before it is taken to radians.
    pub open spec fn defocus_radius_spec(config: CameraConfig) -> Scalar {
        config.focus_dist.mul_spec(
            degrees_to_radians_spec(
                config.defocus_angle.div_spec(Scalar::from_int_spec(2)),
            ).tan_spec(),
        )
    }

    /// The width of the plane in focus that the picture shows: its height
    /// times the width of the image in pixels over its height in pixels.
    pub open spec fn width_spec(config: CameraConfig) -> Scalar {
        Viewport::height_spec(config).mul_spec(
            Scalar::from_int_spec(config.image_width).div_spec(
                Scalar::from_int_spec(config.image_height_spec()),
            ),
        )
    }

    /// The viewport of a configuration. The camera stands at `look_from`
    /// with the orthonormal basis `w = unit(look_from - look_at)`,
    /// `u = unit(cross(v_up, w))`, `v = cross(w, u)`. The plane in focus
    /// lies at the distance `focus_dist` along `-w`, and the picture shows
    /// of it `u * width` by `-v * height`, cut into as many steps as the
    /// image has pixels. The first pixel lies half a step inside the upper
    /// left corner.
    pub open spec fn of_spec(config: CameraConfig) -> Viewport {
        let image_height = config.image_height_spec();
        let center = config.look_from;
        let w = config.look_from.sub_spec(config.look_at).unit_vector_spec();
        let u = cross_spec(config.v_up, w).unit_vector_spec();
        let v = cross_spec(w, u);
        let viewport_u = u.mul_spec(Viewport::width_spec(config));
        let viewport_v = v.neg_spec().mul_spec(Viewport::height_spec(config));
        let pixel_delta_u = viewport_u.div_spec(Scalar::from_int_spec(config.image_width));
        let pixel_delta_v = viewport_v.div_spec(Scalar::from_int_spec(image_height));
        let two = Scalar::from_int_spec(2);
        let viewport_upper_left = center.sub_spec(w.mul_spec(config.focus_dist)).sub_spec(
            viewport_u.div_spec(two),
        ).sub_spec(viewport_v.div_spec(two));
        let pixel00_loc = viewport_upper_left.add_spec(
            pixel_delta_u.add_spec(pixel_delta_v).mul_spec(Scalar { raw: HALF_RAW }),
        );
        let defocus_radius = Viewport::defocus_radius_spec(config);
        Viewport {
            image_height,
            center,
            pixel00_loc,
            pixel_delta_u,
            pixel_delta_v,
            u,
            v,
            w,
            defocus_radius,
            defocus_disk_u: u.mul_spec(defocus_radius),
            defocus_disk_v: v.mul_spec(defocus_radius),
        }
    }

    /// The middle of the pixel in the column `i` of the row `j`.
    pub open spec fn pixel_center_spec(self, i: i32, j: i32) -> Point3 {
        self.pixel00_loc.add_spec(self.pixel_delta_u.mul_spec(i)).add_spec(
            self.pixel_delta_v.mul_spec(j),
        )
    }

    /// The offset of the point of a pixel at the fractions `px` and `py`
    /// of its width and height, from its middle.
    pub open spec fn pixel_offset_spec(self, px: Scalar, py: Scalar) -> Vec3 {
        let half = Scalar { raw: HALF_RAW };
        self.pixel_delta_u.mul_spec(half.neg_spec().add_spec(px)).add_spec(
            self.pixel_delta_v.mul_spec(half.neg_spec().add_spec(py)),
        )
    }

    /// The point of the lens that lies at `p` in the unit disk.
    pub open spec fn lens_point_spec(self, p: Vec3) -> Point3 {
        self.center.add_spec(self.defocus_disk_u.mul_spec(p.x)).add_spec(
            self.defocus_disk_v.mul_spec(p.y),
        )
    }

    /// The viewport of a configuration.
    pub fn of(config: &CameraConfig) -> (view: Viewport)
        ensures
            view == Viewport::of_spec(*config),
    {
        let image_height = config.image_height();
        let center = config.look_from;
        let theta = degrees_to_radians(config.vfov);
        let h = (theta / Scalar::from_int(2)).tan();
        let viewport_height = Scalar::from_int(2) * h * config.focus_dist;
        let viewport_width = viewport_height * (Scalar::from_int(config.image_width)
            / Scalar::from_int(image_height));
        let w = (config.look_from - config.look_at).unit_vector();
        let u = cross(&config.v_up, &w).unit_vector();
        let v = cross(&w, &u);
        let viewport_u = u * viewport_width;
        let viewport_v = v.neg() * viewport_height;
        let pixel_delta_u = viewport_u / Scalar::from_int(config.image_width);
        let pixel_delta_v = viewport_v / Scalar::from_int(image_height);
        let two = Scalar::from_int(2);
        let viewport_upper_left = center - w * config.focus_dist - viewport_u / two - viewport_v
            / two;
        let pixel00_loc = viewport_upper_left + (pixel_delta_u + pixel_delta_v) * Scalar::from_raw(
            HALF_RAW,
        );
        let defocus_radius = config.focus_dist * degrees_to_radians(
            config.defocus_angle / Scalar::from_int(2),
        ).tan();
        Viewport {
            image_height,
            center,
            pixel00_loc,
            pixel_delta_u,
            pixel_delta_v,
            u,
            v,
            w,
            defocus_radius,
            defocus_disk_u: u * defocus_radius,
            defocus_disk_v: v * defocus_radius,
        }
    }
}

impl Camera {
    /// Whether the camera sends its rays from the points of a lens: the
    /// lens has a size.
    pub open spec fn has_lens_spec(self) -> bool {
        self.viewport.defocus_radius@ > 0
    }

    /// The ray through the pixel in the column `i` of the row `j` when the
    /// fractions `px` and `py` and the point `lens` of the unit disk are
    /// what was drawn: it starts at the center of the camera or, with a
    /// lens, at the point `lens` of it, and goes through the point of the
    /// pixel at `px` and `py`.
    pub open spec fn ray_spec(self, i: i32, j: i32, px: Scalar, py: Scalar, lens: Vec3) -> Ray {
        let view = self.viewport;
        let pixel_sample = view.pixel_center_spec(i, j).add_spec(view.pixel_offset_spec(px, py));
        let origin = if self.has_lens_spec() {
            view.lens_point_spec(lens)
        } else {
            view.center
        };
        Ray { orig: origin, dir: pixel_sample.sub_spec(origin) }
    }

    /// Whether `ray` is among the rays that the camera can send through
    /// the pixel in the column `i` of the row `j`.
    pub open spec fn can_get_ray(self, i: i32, j: i32, ray: Ray) -> bool {
        exists|px: Scalar, py: Scalar, lens: Vec3|
            {
                &&& is_fraction(px)
                &&& is_fraction(py)
                &&& lens.in_unit_ball()
                &&& lens.z == Scalar::zero_spec()
                &&& ray == #[trigger] self.ray_spec(i, j, px, py, lens)
            }
    }

    /// Whether `c` is among the colors that a ray through the pixel in the
    /// column `i` of the row `j` can show in `world`.
    pub open spec fn is_sample<H: Hittable + ?Sized>(self, world: &H, i: i32, j: i32, c: Color) -> bool {
        exists|ray: Ray| #[trigger]
            self.can_get_ray(i, j, ray) && is_ray_color(
                world,
                ray,
                self.config.max_depth as int,
                c,
            )
    }

    /// Whether `sum` is among the sums of colors that `n` rays through the
    /// pixel in the column `i` of the row `j` can show in `world`.
    pub open spec fn is_pixel_sum<H: Hittable + ?Sized>(self, world: &H, i: i32, j: i32, n: int, sum: Color) -> bool
        decreases n,
    {
        if n <= 0 {
            sum == black_spec()
        } else {
            exists|prev: Color, c: Color|
                {
                    &&& self.is_pixel_sum(world, i, j, n - 1, prev)
                    &&& self.is_sample(world, i, j, c)
                    &&& sum == #[trigger] prev.add_spec(c)
                }
        }
    }

    /// No rays add up to black.
    pub proof fn lemma_pixel_sum_of_none<H: Hittable + ?Sized>(self, world: &H, i: i32, j: i32)
        ensures
            self.is_pixel_sum(world, i, j, 0, black_spec()),
    {
    }

    /// One ray more adds one of the colors that it can show.
    pub proof fn lemma_pixel_sum_of_more<H: Hittable + ?Sized>(
        self,
        world: &H,
        i: i32,
        j: i32,
        n: int,
        prev: Color,
        c: Color,
    )
        requires
            n >= 0,
            self.is_pixel_sum(world, i, j, n, prev),
            self.is_sample(world, i, j, c),
        ensures
            self.is_pixel_sum(world, i, j, n + 1, prev.add_spec(c)),
    {
        let sum = prev.add_spec(c);
        assert(self.is_pixel_sum(world, i, j, n + 1 - 1, prev));
        assert(sum == prev.add_spec(c));
    }

    /// Whether `p` is among the pixels that the camera can take of `world`
    /// in the column `i` of the row `j`.
    pub open spec fn is_pixel<H: Hittable + ?Sized>(self, world: &H, i: i32, j: i32, p: Pixel) -> bool {
        exists|sum: Color| #[trigger]
            self.is_pixel_sum(world, i, j, self.config.samples_per_pixel as int, sum) && p
                == pixel_spec(sum, self.config.samples_per_pixel)
    }

    /// A camera with the configuration of [`CameraConfig::new`], not yet
    /// initialized.
    pub fn new() -> (camera: Camera)
        ensures
            camera.config == CameraConfig::default_spec(),
            camera.viewport == Viewport::zero_spec(),
    {
        let zero = Vec3::new(Scalar::zero(), Scalar::zero(), Scalar::zero());
        Camera {
            config: CameraConfig::new(),
            viewport: Viewport {
                image_height: 0,
                center: zero,
                pixel00_loc: zero,
                pixel_delta_u: zero,
                pixel_delta_v: zero,
                u: zero,
                v: zero,
                w: zero,
                defocus_radius: Scalar::zero(),
                defocus_disk_u: zero,
                defocus_disk_v: zero,
            },
        }
    }

    /// Derives the viewport from the configuration.
    pub fn initialize(&mut self)
        ensures
            final(self).config == old(self).config,
            final(self).viewport == Viewport::of_spec(old(self).config),
            final(self).viewport.image_height >= 1,
    {
        self.viewport = Viewport::of(&self.config);
    }

    /// The black that a ray shows which cannot be followed further.
    pub fn black() -> (c: Color)
        ensures
            c == black_spec(),
    {
        Vec3::new(Scalar::zero(), Scalar::zero(), Scalar::zero())
    }

    /// The color of the background behind the ray `r`.
    pub fn background(r: &Ray) -> (c: Color)
        ensures
            c == background_spec(*r),
    {
        let unit_direction = r.direction().unit_vector();
        let a = Scalar::from_raw(HALF_RAW) * (unit_direction.y() + Scalar::one());
        let white = Vec3::new(Scalar::one(), Scalar::one(), Scalar::one());
        let blue = Vec3::new(
            Scalar::from_raw(HALF_RAW),
            Scalar::from_raw(SKY_GREEN_RAW),
            Scalar::one(),
        );
        white * (Scalar::one() - a) + blue * a
    }

    /// The color that a ray shows after `out` happened to it at a surface,
    /// when the scattered ray shows the color `rest`.
    pub fn shade(out: Option<Scatter>, rest: Color) -> (c: Color)
        ensures
            c == shade_spec(out, rest),
    {
        match out {
            Some(s) => s.attenuation * rest,
            None => Camera::black(),
        }
    }

    /// The color that the ray `r` shows in `world` when it may be
    /// scattered `depth` times. Without depth it is black, whatever the
    /// world holds.
    pub fn ray_color<H: Hittable + ?Sized>(r: Ray, depth: i32, world: &H) -> (c: Color)
        ensures
            is_ray_color(world, r, depth as int, c),
            depth <= 0 ==> c == black_spec(),
            depth > 0 && world.hit_spec(r, visible_spec()) is None ==> c == background_spec(r),
        decreases depth,
    {
        if depth <= 0 {
            proof {
                lemma_ray_color_without_depth(world, r, depth as int);
            }
            return Camera::black();
        }
        let visible = Interval::new(Scalar::from_raw(HIT_MIN_RAW), Scalar::infinity());
        match world.hit(&r, visible) {
            Some(rec) => {
                let out = rec.mat.scatter(&r, &rec);
                let rest = match out {
                    Some(s) => Camera::ray_color(s.scattered, depth - 1, world),
                    None => Camera::black(),
                };
                proof {
                    lemma_ray_color_of_hit(world, r, depth as int, out, rest);
                }
                Camera::shade(out, rest)
            },
            None => {
                proof {
                    lemma_ray_color_of_miss(world, r, depth as int);
                }
                Camera::background(&r)
            },
        }
    }

    /// The color that the ray `r` shows in `world` when surfaces are
    /// colored by their normals alone, whatever they are made of: the
    /// shade of the normal where the ray hits a surface at a parameter
    /// above zero, and the background elsewhere.
    pub fn normal_color<H: Hittable + ?Sized>(r: &Ray, world: &H) -> (c: Color)
        ensures
            c == (match world.hit_spec(
                *r,
                Interval { min: Scalar::zero_spec(), max: Scalar::infinity_spec() },
            ) {
                Some(rec) => normal_shade_spec(rec.normal),
                None => background_spec(*r),
            }),
    {
        match world.hit(r, Interval::new(Scalar::zero(), Scalar::infinity())) {
            Some(rec) => {
                let white = Vec3::new(Scalar::one(), Scalar::one(), Scalar::one());
                (rec.normal + white) * Scalar::from_raw(HALF_RAW)
            },
            None => Camera::background(r),
        }
    }

    /// The offset of the point of a pixel at the fractions `px` and `py`
    /// of its width and height, from its middle.
    pub fn pixel_sample_square_with(&self, px: Scalar, py: Scalar) -> (offset: Vec3)
        ensures
            offset == self.viewport.pixel_offset_spec(px, py),
    {
        let half = Scalar::from_raw(HALF_RAW);
        (self.viewport.pixel_delta_u * (half.neg() + px)) + (self.viewport.pixel_delta_v * (
        half.neg() + py))
    }

    /// The offset of a random point of a pixel from its middle.
    pub fn pixel_sample_square(&self) -> (offset: Vec3)
        ensures
            exists|px: Scalar, py: Scalar|
                is_fraction(px) && is_fraction(py) && offset
                    == #[trigger] self.viewport.pixel_offset_spec(px, py),
    {
        let px = random_fraction();
        let py = random_fraction();
        self.pixel_sample_square_with(px, py)
    }

    /// The ray through the pixel in the column `i` of the row `j`, for
    /// the fractions `px` and `py` and the point `lens` of the unit disk.
    pub fn get_ray_with(&self, i: i32, j: i32, px: Scalar, py: Scalar, lens: Vec3) -> (ray: Ray)
        ensures
            ray == self.ray_spec(i, j, px, py, lens),
    {
        let pixel_center = self.viewport.pixel00_loc + (self.viewport.pixel_delta_u * i) + (
        self.viewport.pixel_delta_v * j);
        let pixel_sample = pixel_center + self.pixel_sample_square_with(px, py);
        let ray_origin = if self.viewport.defocus_radius > Scalar::zero() {
            self.viewport.center + (self.viewport.defocus_disk_u * lens.x()) + (
            self.viewport.defocus_disk_v * lens.y())
        } else {
            self.viewport.center
        };
        Ray::new(ray_origin, pixel_sample - ray_origin)
    }

    /// A ray through a random point of the pixel in the column `i` of the
    /// row `j`, from a random point of the lens where the lens has a size.
    pub fn get_ray(&self, i: i32, j: i32) -> (ray: Ray)
        ensures
            self.can_get_ray(i, j, ray),
    {
        let px = random_fraction();
        let py = random_fraction();
        let lens = if self.viewport.defocus_radius > Scalar::zero() {
            Vec3::random_in_unit_disk()
        } else {
            Vec3::new(Scalar::zero(), Scalar::zero(), Scalar::zero())
        };
        proof {
            assert(Vec3::zero_spec().length_squared_spec()@ == 0);
        }
        self.get_ray_with(i, j, px, py, lens)
    }

    /// The sum of the colors that `samples_per_pixel` rays through the
    /// pixel in the column `i` of the row `j` show in `world`.
    pub fn pixel_color<H: Hittable + ?Sized>(&self, i: i32, j: i32, world: &H) -> (sum: Color)
        ensures
            self.is_pixel_sum(world, i, j, self.config.samples_per_pixel as int, sum),
    {
        let mut pixel_color = Camera::black();
        let mut sample: i32 = 0;
        proof {
            self.lemma_pixel_sum_of_none(world, i, j);
        }
        while sample < self.config.samples_per_pixel
            invariant
                0 <= sample,
                sample <= self.config.samples_per_pixel || sample == 0,
                self.is_pixel_sum(world, i, j, sample as int, pixel_color),
            decreases self.config.samples_per_pixel - sample,
        {
            let r = self.get_ray(i, j);
            let c = Camera::ray_color(r, self.config.max_depth, world);
            proof {
                self.lemma_pixel_sum_of_more(world, i, j, sample as int, pixel_color, c);
            }
            pixel_color = pixel_color + c;
            sample = sample + 1;
        }
        pixel_color
    }

    /// The pixel in the column `i` of the row `j` of the picture of
    /// `world`.
    pub fn pixel<H: Hittable + ?Sized>(&self, i: i32, j: i32, world: &H) -> (p: Pixel)
        ensures
            self.is_pixel(world, i, j, p),
    {
        let sum = self.pixel_color(i, j, world);
        to_pixel(sum, self.config.samples_per_pixel)
    }

    /// Takes the picture of `world`: initializes the camera and returns
    /// the pixels row by row, the top row first, each row from left to
    /// right.
    pub fn render<H: Hittable + ?Sized>(&mut self, world: &H) -> (image: Vec<Pixel>)
        ensures
            final(self).config == old(self).config,
            final(self).viewport == Viewport::of_spec(old(self).config),
            image@.len() == old(self).config.columns_spec() * old(
                self,
            ).config.image_height_spec(),
            forall|i: int, j: int|
                0 <= i < old(self).config.columns_spec() && 0 <= j < old(
                    self,
                ).config.image_height_spec() ==> final(self).is_pixel(
                    world,
                    i as i32,
                    j as i32,
                    #[trigger] pixel_at(image@, old(self).config.columns_spec(), i, j),
                ),
    {
        self.initialize();
        let width = self.config.image_width;
        let height = self.viewport.image_height;
        let ghost columns = self.config.columns_spec();
        let mut image: Vec<Pixel> = Vec::new();
        let mut j: i32 = 0;
        while j < height
            invariant
                0 <= j <= height,
                width == self.config.image_width,
                columns == self.config.columns_spec(),
                image@.len() == columns * j,
                forall|a: int, b: int|
                    0 <= a < columns && 0 <= b < j ==> self.is_pixel(
                        world,
                        a as i32,
                        b as i32,
                        #[trigger] pixel_at(image@, columns, a, b),
                    ),
            decreases height - j,
        {
            let mut i: i32 = 0;
            while i < width
                invariant
                    0 <= j < height,
                    0 <= i,
                    i <= width || width < 0,
                    i <= columns,
                    width == self.config.image_width,
                    columns == self.config.columns_spec(),
                    image@.len() == columns * j + i,
                    forall|a: int, b: int|
                        0 <= a < columns && 0 <= b < j ==> self.is_pixel(
                            world,
                            a as i32,
                            b as i32,
                            #[trigger] pixel_at(image@, columns, a, b),
                        ),
                    forall|a: int|
                        0 <= a < i ==> self.is_pixel(
                            world,
                            a as i32,
                            j,
                            #[trigger] pixel_at(image@, columns, a, j as int),
                        ),
                decreases width - i,
            {
                let p = self.pixel(i, j, world);
                let ghost before = image@;
                image.push(p);
                proof {
                    assert forall|a: int, b: int| 0 <= a < columns && 0 <= b < j implies #[trigger] pixel_at(
                        image@,
                        columns,
                        a,
                        b,
                    ) == pixel_at(before, columns, a, b) by {
                        assert(b * columns + a < columns * j) by (nonlinear_arith)
                            requires
                                0 <= a < columns,
                                0 <= b < j,
                        ;
                    }
                    assert(j * columns + i == columns * j + i) by (nonlinear_arith);
                    assert forall|a: int| 0 <= a < i implies #[trigger] pixel_at(
                        image@,
                        columns,
                        a,
                        j as int,
                    ) == pixel_at(before, columns, a, j as int) by {
                        assert(j * columns + a == columns * j + a) by (nonlinear_arith);
                    }
                    assert(pixel_at(image@, columns, i as int, j as int) == p);
                }
                i = i + 1;
            }
            proof {
                assert(columns * (j + 1) == columns * j + columns) by (nonlinear_arith);
            }
            j = j + 1;
        }
        image
    }
}

} // verus!
