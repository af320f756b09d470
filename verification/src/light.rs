//! Light descriptors.

use vstd::prelude::*;

use crate::vec3::Vec3;

verus! {

/// A light carried by an entity: an intensity and a kind.
#[derive(Clone, Copy, Debug, PartialEq, Eq, Structural)]
pub struct Light {
    pub intensity: i64,
    pub kind: LightKind,
}

/// The kinds of light the shader understands.
#[derive(Clone, Copy, Debug, PartialEq, Eq, Structural)]
#[non_exhaustive]
pub enum LightKind {
    /// Overrides all accumulated lighting with a flat intensity.
    AllBright,
    /// Falls off with the inverse square of the distance to the hit point.
    Point,
    /// Directional: no falloff; carries a direction vector.
    Infinite(Vec3),
}

} // verus!
