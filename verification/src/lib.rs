//! A ray-tracing kernel over fixed-point arithmetic.
//!
//! The kernel follows rays from a [`camera::Camera`] into a scene of
//! [`hittable::Hittable`] surfaces, lets the [`material::Material`] of each
//! surface hit scatter them, and turns the light gathered into
//! [`color::Pixel`]s. Numbers are [`scalar::Scalar`]s, fixed-point numbers
//! whose arithmetic is total: it saturates where it would overflow and
//! divides by zero without failing, so that every function here returns.
//!
//! Random numbers come from one place, [`utility::random_fraction`]. Each
//! function that draws has a twin that is handed what was drawn, and is a
//! function of its arguments alone.

pub mod scalar;
pub mod utility;
pub mod vector;
pub mod interval;
pub mod ray;
pub mod material;
pub mod hittable;
pub mod hittable_list;
pub mod color;
pub mod camera;
