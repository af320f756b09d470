//! 3D vectors over fixed-point scalars.

use vstd::prelude::*;

use crate::fixed::{
    abs_u64, fx_div, fx_mul, iabs, isqrt, sat, sat_add, sat_neg, sat_sub, spec_add, spec_div,
    spec_isqrt, spec_mul, spec_neg, spec_sub,
};

verus! {

/// A world-space vector; each component is a fixed-point scalar.
#[derive(Clone, Copy, Debug, PartialEq, Eq, Structural)]
pub struct Vec3 {
    pub x: i64,
    pub y: i64,
    pub z: i64,
}

/// Componentwise saturating sum.
pub open spec fn vadd(a: Vec3, b: Vec3) -> Vec3 {
    Vec3 {
        x: spec_add(a.x as int, b.x as int) as i64,
        y: spec_add(a.y as int, b.y as int) as i64,
        z: spec_add(a.z as int, b.z as int) as i64,
    }
}

/// Componentwise saturating difference.
pub open spec fn vsub(a: Vec3, b: Vec3) -> Vec3 {
    Vec3 {
        x: spec_sub(a.x as int, b.x as int) as i64,
        y: spec_sub(a.y as int, b.y as int) as i64,
        z: spec_sub(a.z as int, b.z as int) as i64,
    }
}

/// Componentwise saturating negation.
pub open spec fn vneg(a: Vec3) -> Vec3 {
    Vec3 {
        x: spec_neg(a.x as int) as i64,
        y: spec_neg(a.y as int) as i64,
        z: spec_neg(a.z as int) as i64,
    }
}

/// The vector scaled by a fixed-point scalar.
pub open spec fn vscale(a: Vec3, s: int) -> Vec3 {
    Vec3 {
        x: spec_mul(a.x as int, s) as i64,
        y: spec_mul(a.y as int, s) as i64,
        z: spec_mul(a.z as int, s) as i64,
    }
}

/// The fixed-point dot product, saturating as it accumulates.
pub open spec fn vdot(a: Vec3, b: Vec3) -> int {
    spec_add(
        spec_add(spec_mul(a.x as int, b.x as int), spec_mul(a.y as int, b.y as int)),
        spec_mul(a.z as int, b.z as int),
    )
}

/// The exact sum of the squared raw components; scaled by `SCALE * SCALE`.
pub open spec fn raw_norm_sq(a: Vec3) -> int {
    a.x as int * a.x as int + a.y as int * a.y as int + a.z as int * a.z as int
}

/// The Euclidean length: the integer square root of the exact sum of raw
/// squares, saturated into the scalar range.
pub open spec fn vnorm(a: Vec3) -> int {
    sat(spec_isqrt(raw_norm_sq(a) as nat) as int)
}

/// The vector rescaled to unit length; the zero vector stays zero.
pub open spec fn vnormalize(a: Vec3) -> Vec3 {
    if vnorm(a) == 0 {
        a
    } else {
        Vec3 {
            x: spec_div(a.x as int, vnorm(a)) as i64,
            y: spec_div(a.y as int, vnorm(a)) as i64,
            z: spec_div(a.z as int, vnorm(a)) as i64,
        }
    }
}

/// The Euclidean length of a 2D vector, saturated into the scalar range.
pub open spec fn spec_norm2(x: int, z: int) -> int {
    sat(spec_isqrt((x * x + z * z) as nat) as int)
}

/// The length of the 2D vector `(x, z)`.
pub fn norm2(x: i64, z: i64) -> (n: i64)
    ensures
        n == spec_norm2(x as int, z as int),
{
    let mx: u128 = abs_u64(x) as u128;
    let mz: u128 = abs_u64(z) as u128;
    proof {
        assert(mx * mx + mz * mz <= u128::MAX && mx * mx == iabs(x as int) * iabs(x as int)
            && mz * mz == iabs(z as int) * iabs(z as int)) by (nonlinear_arith)
            requires
                mx == iabs(x as int),
                mz == iabs(z as int),
                mx <= 0x8000000000000000u128,
                mz <= 0x8000000000000000u128,
        ;
        assert(iabs(x as int) * iabs(x as int) == x as int * x as int) by (nonlinear_arith);
        assert(iabs(z as int) * iabs(z as int) == z as int * z as int) by (nonlinear_arith);
    }
    let s: u128 = mx * mx + mz * mz;
    let r: u64 = isqrt(s);
    if r > i64::MAX as u64 {
        i64::MAX
    } else {
        r as i64
    }
}

impl Vec3 {
    pub fn new(x: i64, y: i64, z: i64) -> (v: Vec3)
        ensures
            v == (Vec3 { x, y, z }),
    {
        Vec3 { x, y, z }
    }

    pub fn zero() -> (v: Vec3)
        ensures
            v == (Vec3 { x: 0i64, y: 0i64, z: 0i64 }),
    {
        Vec3 { x: 0, y: 0, z: 0 }
    }

    pub fn add(self, o: Vec3) -> (v: Vec3)
        ensures
            v == vadd(self, o),
    {
        Vec3 { x: sat_add(self.x, o.x), y: sat_add(self.y, o.y), z: sat_add(self.z, o.z) }
    }

    pub fn sub(self, o: Vec3) -> (v: Vec3)
        ensures
            v == vsub(self, o),
    {
        Vec3 { x: sat_sub(self.x, o.x), y: sat_sub(self.y, o.y), z: sat_sub(self.z, o.z) }
    }

    pub fn neg(self) -> (v: Vec3)
        ensures
            v == vneg(self),
    {
        Vec3 { x: sat_neg(self.x), y: sat_neg(self.y), z: sat_neg(self.z) }
    }

    pub fn scale(self, s: i64) -> (v: Vec3)
        ensures
            v == vscale(self, s as int),
    {
        Vec3 { x: fx_mul(self.x, s), y: fx_mul(self.y, s), z: fx_mul(self.z, s) }
    }

    pub fn dot(self, o: Vec3) -> (d: i64)
        ensures
            d == vdot(self, o),
    {
        sat_add(sat_add(fx_mul(self.x, o.x), fx_mul(self.y, o.y)), fx_mul(self.z, o.z))
    }

    pub fn norm(self) -> (n: i64)
        ensures
            n == vnorm(self),
    {
        let mx: u128 = abs_u64(self.x) as u128;
        let my: u128 = abs_u64(self.y) as u128;
        let mz: u128 = abs_u64(self.z) as u128;
        proof {
            assert(mx * mx + my * my + mz * mz <= u128::MAX
                && mx * mx == iabs(self.x as int) * iabs(self.x as int)
                && my * my == iabs(self.y as int) * iabs(self.y as int)
                && mz * mz == iabs(self.z as int) * iabs(self.z as int)) by (nonlinear_arith)
                requires
                    mx == iabs(self.x as int),
                    my == iabs(self.y as int),
                    mz == iabs(self.z as int),
                    mx <= 0x8000000000000000u128,
                    my <= 0x8000000000000000u128,
                    mz <= 0x8000000000000000u128,
            ;
            assert(iabs(self.x as int) * iabs(self.x as int) == self.x as int * self.x as int)
                by (nonlinear_arith);
            assert(iabs(self.y as int) * iabs(self.y as int) == self.y as int * self.y as int)
                by (nonlinear_arith);
            assert(iabs(self.z as int) * iabs(self.z as int) == self.z as int * self.z as int)
                by (nonlinear_arith);
        }
        let s: u128 = mx * mx + my * my + mz * mz;
        let r: u64 = isqrt(s);
        if r > i64::MAX as u64 {
            i64::MAX
        } else {
            r as i64
        }
    }

    pub fn normalize(self) -> (v: Vec3)
        ensures
            v == vnormalize(self),
    {
        let n: i64 = self.norm();
        if n == 0 {
            self
        } else {
            Vec3 { x: fx_div(self.x, n), y: fx_div(self.y, n), z: fx_div(self.z, n) }
        }
    }
}

} // verus!
