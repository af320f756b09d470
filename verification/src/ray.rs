//! Rays.

use vstd::prelude::*;

use crate::vec3::Vec3;

verus! {

/// A ray: an origin and a direction. The marcher advances by the local
/// distance times the direction, so a non-unit direction scales every step.
#[derive(Clone, Copy, Debug, PartialEq, Eq, Structural)]
pub struct Ray {
    pub origin: Vec3,
    pub direction: Vec3,
}

} // verus!
