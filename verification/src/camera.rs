//! The pinhole camera.

use vstd::prelude::*;

use crate::fixed::{fx_mul, sat_neg, sat_sub, spec_mul, spec_neg, spec_sub, HALF};
use crate::vec3::{vnormalize, Vec3};

verus! {

/// A pinhole camera: an origin, a focal length and the sensor extents.
#[derive(Clone, Copy, Debug, PartialEq, Eq, Structural)]
pub struct Camera {
    pub origin: Vec3,
    pub focal_len: i64,
    pub sensor_w: i64,
    pub sensor_h: i64,
}

/// The unnormalized direction through the normalized image point `(u, v)`:
/// the sensor offset from the image center, looking down the negative axis.
pub open spec fn camera_dir(c: Camera, u: int, v: int) -> Vec3 {
    Vec3 {
        x: spec_mul(spec_sub(u, HALF as int), c.sensor_w as int) as i64,
        y: spec_neg(spec_mul(spec_sub(v, HALF as int), c.sensor_h as int)) as i64,
        z: spec_neg(c.focal_len as int) as i64,
    }
}

/// The unit direction through the normalized image point `(u, v)`.
pub open spec fn camera_project(c: Camera, u: int, v: int) -> Vec3 {
    vnormalize(camera_dir(c, u, v))
}

impl Camera {
    /// Projects a normalized image coordinate (each component nominally in
    /// `[0, SCALE]`) to a unit ray direction.
    pub fn project(&self, u: i64, v: i64) -> (d: Vec3)
        ensures
            d == camera_project(*self, u as int, v as int),
    {
        let dir = Vec3 {
            x: fx_mul(sat_sub(u, HALF), self.sensor_w),
            y: sat_neg(fx_mul(sat_sub(v, HALF), self.sensor_h)),
            z: sat_neg(self.focal_len),
        };
        dir.normalize()
    }
}

} // verus!
