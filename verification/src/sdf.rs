//! Implicit surfaces: a closed tree of primitives and boolean combinators.
//!
//! A surface is a signed-distance field together with an intrinsic color and
//! a parameterization. The combinators form the usual distance-field
//! algebra: union takes the smaller distance, overlap the larger, and cut
//! subtracts the second operand from the first. Color and parameterization
//! attribution follow the operand that produced the winning distance; on
//! equal distances the first operand wins.

use vstd::prelude::*;

use crate::color::Color;
use crate::fixed::{
    div_count, fx_div, imax, imin, sat_add, sat_neg, sat_sub, spec_add, spec_div, spec_div_count,
    spec_neg, spec_sub, HALF, SCALE,
};
use crate::vec3::{norm2, spec_norm2, vnorm, vnormalize, Vec3};

verus! {

/// One renderable implicit surface.
#[derive(Debug, PartialEq)]
pub enum Sdf {
    /// A sphere of the given radius about the local origin, with a uniform
    /// intrinsic color.
    Sphere { radius: i64, color: Color },
    /// The union of two surfaces: the smaller distance wins.
    Union(Box<Sdf>, Box<Sdf>),
    /// The intersection of two surfaces: the larger distance wins.
    Overlap(Box<Sdf>, Box<Sdf>),
    /// The first surface with the second removed: the larger of the first
    /// distance and the negated second distance wins.
    Cut(Box<Sdf>, Box<Sdf>),
}

/// The signed distance from `p` to the surface, in the surface's own frame.
pub open spec fn sdf_dist(s: Sdf, p: Vec3) -> int
    decreases s,
{
    match s {
        Sdf::Sphere { radius, color } => spec_sub(vnorm(p), radius as int),
        Sdf::Union(a, b) => vstd::math::min(sdf_dist(*a, p), sdf_dist(*b, p)),
        Sdf::Overlap(a, b) => vstd::math::max(sdf_dist(*a, p), sdf_dist(*b, p)),
        Sdf::Cut(a, b) => vstd::math::max(sdf_dist(*a, p), spec_neg(sdf_dist(*b, p))),
    }
}

/// The intrinsic color at `p`: the operand that produced the winning
/// distance is charged with it, the first operand winning ties.
pub open spec fn sdf_shade(s: Sdf, p: Vec3) -> Color
    decreases s,
{
    match s {
        Sdf::Sphere { radius, color } => color,
        Sdf::Union(a, b) => if sdf_dist(*a, p) <= sdf_dist(*b, p) {
            sdf_shade(*a, p)
        } else {
            sdf_shade(*b, p)
        },
        Sdf::Overlap(a, b) => if sdf_dist(*a, p) >= sdf_dist(*b, p) {
            sdf_shade(*a, p)
        } else {
            sdf_shade(*b, p)
        },
        Sdf::Cut(a, b) => if sdf_dist(*a, p) >= spec_neg(sdf_dist(*b, p)) {
            sdf_shade(*a, p)
        } else {
            sdf_shade(*b, p)
        },
    }
}

/// The spherical parameterization of the direction of `p`.
pub open spec fn sphere_uv(p: Vec3) -> (int, int) {
    let opt = vnormalize(p);
    let vcoord = spec_sub(SCALE as int, spec_div_count(spec_add(opt.y as int, SCALE as int), 2));
    let n2 = spec_norm2(opt.x as int, opt.z as int);
    let nz = if n2 == 0 {
        0
    } else {
        spec_div(opt.z as int, n2)
    };
    let u0 = spec_sub(HALF as int, spec_div_count(spec_add(nz, SCALE as int), 4));
    let ucoord = if opt.x >= 0 {
        spec_sub(SCALE as int, u0)
    } else {
        u0
    };
    (ucoord, vcoord)
}

/// The surface parameterization at `p`, attributed exactly as the color is.
pub open spec fn sdf_uv(s: Sdf, p: Vec3) -> (int, int)
    decreases s,
{
    match s {
        Sdf::Sphere { radius, color } => sphere_uv(p),
        Sdf::Union(a, b) => if sdf_dist(*a, p) <= sdf_dist(*b, p) {
            sdf_uv(*a, p)
        } else {
            sdf_uv(*b, p)
        },
        Sdf::Overlap(a, b) => if sdf_dist(*a, p) >= sdf_dist(*b, p) {
            sdf_uv(*a, p)
        } else {
            sdf_uv(*b, p)
        },
        Sdf::Cut(a, b) => if sdf_dist(*a, p) >= spec_neg(sdf_dist(*b, p)) {
            sdf_uv(*a, p)
        } else {
            sdf_uv(*b, p)
        },
    }
}

impl Sdf {
    /// The signed distance from `pt` to this surface.
    pub fn compute_dist(&self, pt: &Vec3) -> (d: i64)
        ensures
            d == sdf_dist(*self, *pt),
        decreases *self,
    {
        match self {
            Sdf::Sphere { radius, color } => sat_sub(pt.norm(), *radius),
            Sdf::Union(a, b) => imin(a.compute_dist(pt), b.compute_dist(pt)),
            Sdf::Overlap(a, b) => imax(a.compute_dist(pt), b.compute_dist(pt)),
            Sdf::Cut(a, b) => imax(a.compute_dist(pt), sat_neg(b.compute_dist(pt))),
        }
    }

    /// The intrinsic color of this surface at `pt`, before lighting.
    pub fn shade(&self, pt: &Vec3) -> (c: Color)
        ensures
            c == sdf_shade(*self, *pt),
        decreases *self,
    {
        match self {
            Sdf::Sphere { radius, color } => *color,
            Sdf::Union(a, b) => if a.compute_dist(pt) <= b.compute_dist(pt) {
                a.shade(pt)
            } else {
                b.shade(pt)
            },
            Sdf::Overlap(a, b) => if a.compute_dist(pt) >= b.compute_dist(pt) {
                a.shade(pt)
            } else {
                b.shade(pt)
            },
            Sdf::Cut(a, b) => if a.compute_dist(pt) >= sat_neg(b.compute_dist(pt)) {
                a.shade(pt)
            } else {
                b.shade(pt)
            },
        }
    }

    /// The surface parameterization at `pt`. Computed for contract
    /// completeness; nothing downstream consumes it.
    pub fn uv(&self, pt: &Vec3) -> (r: (i64, i64))
        ensures
            (r.0 as int, r.1 as int) == sdf_uv(*self, *pt),
        decreases *self,
    {
        match self {
            Sdf::Sphere { radius, color } => {
                let opt: Vec3 = pt.normalize();
                let vcoord: i64 = sat_sub(SCALE, div_count(sat_add(opt.y, SCALE), 2));
                let n2: i64 = norm2(opt.x, opt.z);
                let nz: i64 = if n2 == 0 {
                    0
                } else {
                    fx_div(opt.z, n2)
                };
                let u0: i64 = sat_sub(HALF, div_count(sat_add(nz, SCALE), 4));
                let ucoord: i64 = if opt.x >= 0 {
                    sat_sub(SCALE, u0)
                } else {
                    u0
                };
                (ucoord, vcoord)
            },
            Sdf::Union(a, b) => if a.compute_dist(pt) <= b.compute_dist(pt) {
                a.uv(pt)
            } else {
                b.uv(pt)
            },
            Sdf::Overlap(a, b) => if a.compute_dist(pt) >= b.compute_dist(pt) {
                a.uv(pt)
            } else {
                b.uv(pt)
            },
            Sdf::Cut(a, b) => if a.compute_dist(pt) >= sat_neg(b.compute_dist(pt)) {
                a.uv(pt)
            } else {
                b.uv(pt)
            },
        }
    }

    /// A structurally equal copy, proved equal; intersection results carry
    /// one so that they outlive the scene entry they came from.
    pub fn duplicate(&self) -> (r: Sdf)
        ensures
            r == *self,
        decreases *self,
    {
        match self {
            Sdf::Sphere { radius, color } => Sdf::Sphere { radius: *radius, color: *color },
            Sdf::Union(a, b) => Sdf::Union(Box::new(a.duplicate()), Box::new(b.duplicate())),
            Sdf::Overlap(a, b) => Sdf::Overlap(Box::new(a.duplicate()), Box::new(b.duplicate())),
            Sdf::Cut(a, b) => Sdf::Cut(Box::new(a.duplicate()), Box::new(b.duplicate())),
        }
    }
}

/// A sphere with a uniform intrinsic color.
pub fn color_sphere(radius: i64, color: Color) -> (s: Sdf)
    ensures
        s == (Sdf::Sphere { radius, color }),
{
    Sdf::Sphere { radius, color }
}

/// Every distance the algebra yields stays within the scalar range: the
/// primitives saturate and the combinators only select.
pub proof fn lemma_sdf_dist_in_range(s: Sdf, p: Vec3)
    ensures
        i64::MIN <= sdf_dist(s, p) <= i64::MAX,
    decreases s,
{
    match s {
        Sdf::Sphere { radius, color } => {},
        Sdf::Union(a, b) => {
            lemma_sdf_dist_in_range(*a, p);
            lemma_sdf_dist_in_range(*b, p);
        },
        Sdf::Overlap(a, b) => {
            lemma_sdf_dist_in_range(*a, p);
            lemma_sdf_dist_in_range(*b, p);
        },
        Sdf::Cut(a, b) => {
            lemma_sdf_dist_in_range(*a, p);
            lemma_sdf_dist_in_range(*b, p);
        },
    }
}

/// The union's distance is the pointwise minimum of its operands'.
pub proof fn lemma_union_dist(a: Sdf, b: Sdf, p: Vec3)
    ensures
        sdf_dist(Sdf::Union(Box::new(a), Box::new(b)), p) == vstd::math::min(
            sdf_dist(a, p),
            sdf_dist(b, p),
        ),
{
}

/// The overlap's distance is the pointwise maximum of its operands'.
pub proof fn lemma_overlap_dist(a: Sdf, b: Sdf, p: Vec3)
    ensures
        sdf_dist(Sdf::Overlap(Box::new(a), Box::new(b)), p) == vstd::math::max(
            sdf_dist(a, p),
            sdf_dist(b, p),
        ),
{
}

/// The cut's distance is the pointwise maximum of the first operand's
/// distance and the second's negation.
pub proof fn lemma_cut_dist(a: Sdf, b: Sdf, p: Vec3)
    ensures
        sdf_dist(Sdf::Cut(Box::new(a), Box::new(b)), p) == vstd::math::max(
            sdf_dist(a, p),
            spec_neg(sdf_dist(b, p)),
        ),
{
}

} // verus!
