//! The scene store and the sphere-tracing intersector.
//!
//! The scene is a columnar store: every attribute lives in its own column,
//! indexed by a dense entity identifier, and each entity carries any subset
//! of {position, surface, light, color}. The intersector marches a ray
//! through every eligible entity's distance field and reports the first
//! surface it touches, or no hit.

use vstd::prelude::*;

use crate::camera::Camera;
use crate::color::Color;
use crate::light::Light;
use crate::ray::Ray;
use crate::sdf::{sdf_dist, Sdf};
use crate::vec3::{vadd, vnorm, vscale, vsub, Vec3};

verus! {

/// The defensive bound on marching steps: the march stops with a no-hit
/// once a single ray has advanced this many times without settling.
pub const MAX_STEPS: u32 = 10000;

/// The entity store: one column per attribute, all of one length, indexed
/// by the entity identifier.
pub struct Scene {
    pub positions: Vec<Option<Vec3>>,
    pub surfaces: Vec<Option<Sdf>>,
    pub lights: Vec<Option<Light>>,
    pub colors: Vec<Option<Color>>,
}

impl Scene {
    /// All columns cover the same entities.
    pub open spec fn wf(self) -> bool {
        &&& self.surfaces@.len() == self.positions@.len()
        &&& self.lights@.len() == self.positions@.len()
        &&& self.colors@.len() == self.positions@.len()
    }

    /// The number of entities.
    pub open spec fn spec_len(self) -> int {
        self.positions@.len() as int
    }

    /// An empty scene.
    pub fn new() -> (s: Scene)
        ensures
            s.wf(),
            s.spec_len() == 0,
    {
        Scene { positions: Vec::new(), surfaces: Vec::new(), lights: Vec::new(), colors: Vec::new() }
    }

    /// Adds one entity with the given subset of attributes and returns its
    /// identifier.
    pub fn spawn(
        &mut self,
        position: Option<Vec3>,
        surface: Option<Sdf>,
        light: Option<Light>,
        color: Option<Color>,
    ) -> (id: usize)
        requires
            old(self).wf(),
        ensures
            final(self).wf(),
            id == old(self).spec_len(),
            final(self).positions@ == old(self).positions@.push(position),
            final(self).surfaces@ == old(self).surfaces@.push(surface),
            final(self).lights@ == old(self).lights@.push(light),
            final(self).colors@ == old(self).colors@.push(color),
    {
        let id = self.positions.len();
        self.positions.push(position);
        self.surfaces.push(surface);
        self.lights.push(light);
        self.colors.push(color);
        id
    }

    /// The number of entities.
    pub fn len(&self) -> (n: usize)
        ensures
            n == self.spec_len(),
    {
        self.positions.len()
    }
}

/// Which entities an intersection query may test.
#[derive(Clone, Copy, Debug, PartialEq, Eq, Structural)]
pub enum IntersectMode {
    /// All surface-bearing entities but the named one (shadow rays).
    Not(usize),
    /// All surface-bearing entities (primary visibility rays).
    Every,
    /// Exactly the named entity (single-occluder queries).
    One(usize),
}

/// An entity can occlude a ray when it has both a position and a surface.
pub open spec fn eligible(s: Scene, i: int) -> bool {
    &&& 0 <= i < s.spec_len()
    &&& s.positions@[i].is_some()
    &&& s.surfaces@[i].is_some()
}

pub open spec fn mode_allows(mode: IntersectMode, i: int) -> bool {
    match mode {
        IntersectMode::Not(id) => i != id,
        IntersectMode::Every => true,
        IntersectMode::One(id) => i == id,
    }
}

/// The signed distance from the marching point to entity `i`'s surface,
/// evaluated in the entity's own frame.
pub open spec fn cand_dist(s: Scene, i: int, p: Vec3) -> int
    recommends
        eligible(s, i),
{
    sdf_dist(s.surfaces@[i].unwrap(), vsub(p, s.positions@[i].unwrap()))
}

/// The nearest eligible candidate among entities `i..`, as an entity
/// identifier and its distance; on equal distances the lowest identifier
/// wins.
pub open spec fn spec_best_from(s: Scene, mode: IntersectMode, p: Vec3, i: int) -> Option<(usize, i64)>
    decreases s.spec_len() - i,
{
    if i < 0 || i >= s.spec_len() {
        None
    } else {
        let rest = spec_best_from(s, mode, p, i + 1);
        if eligible(s, i) && mode_allows(mode, i) {
            let d = cand_dist(s, i, p) as i64;
            match rest {
                Option::None => Some((i as usize, d)),
                Option::Some(pair) => if d <= pair.1 {
                    Some((i as usize, d))
                } else {
                    rest
                },
            }
        } else {
            rest
        }
    }
}

/// The nearest eligible candidate for one marching step.
pub open spec fn spec_best(s: Scene, mode: IntersectMode, p: Vec3) -> Option<(usize, i64)> {
    spec_best_from(s, mode, p, 0)
}

/// A winning candidate is an eligible, mode-allowed entity at its own
/// distance.
pub proof fn lemma_best_from_sound(s: Scene, mode: IntersectMode, p: Vec3, i: int)
    ensures
        match spec_best_from(s, mode, p, i) {
            Option::Some(pair) => {
                &&& i <= pair.0 < s.spec_len()
                &&& eligible(s, pair.0 as int)
                &&& mode_allows(mode, pair.0 as int)
                &&& pair.1 == cand_dist(s, pair.0 as int, p)
            },
            Option::None => true,
        },
    decreases s.spec_len() - i,
{
    assert(vstd::std_specs::vec::spec_vec_len(&s.positions) == s.positions@.len()) by {
        broadcast use vstd::std_specs::vec::axiom_spec_len;

    }
    if i < 0 || i >= s.spec_len() {
    } else {
        lemma_best_from_sound(s, mode, p, i + 1);
        if eligible(s, i) && mode_allows(mode, i) {
            crate::sdf::lemma_sdf_dist_in_range(
                s.surfaces@[i].unwrap(),
                vsub(p, s.positions@[i].unwrap()),
            );
        }
    }
}

/// The result of a successful intersection query.
#[derive(Debug)]
pub struct Intersect {
    /// The entity that was hit.
    pub entity: usize,
    /// A copy of the surface that was hit, valid independent of the scene.
    pub sdf: Sdf,
    /// The world-space hit point.
    pub intersect: Vec3,
    /// The hit point in the entity's own frame.
    pub local: Vec3,
    /// How many marching steps the query consumed.
    pub steps: u32,
    /// The distance from the ray origin to the hit point.
    pub distance: i64,
}

/// The hit record the march reports for entity `i` at `point`.
pub open spec fn march_hit(s: Scene, origin: Vec3, i: int, point: Vec3, steps: u32) -> Intersect
    recommends
        eligible(s, i),
{
    Intersect {
        entity: i as usize,
        sdf: s.surfaces@[i].unwrap(),
        intersect: point,
        local: vsub(point, s.positions@[i].unwrap()),
        steps: steps,
        distance: vnorm(vsub(origin, point)) as i64,
    }
}

/// One ray march from `point` with `steps` steps already counted: the
/// nearest candidate decides between a hit (distance at most `threshold`),
/// an escape (distance beyond `max`), or an advance by the distance along
/// the direction.
pub open spec fn spec_march(
    s: Scene,
    mode: IntersectMode,
    origin: Vec3,
    dir: Vec3,
    threshold: i64,
    max: i64,
    point: Vec3,
    steps: u32,
) -> Option<Intersect>
    decreases MAX_STEPS - steps,
{
    match spec_best(s, mode, point) {
        Option::None => None,
        Option::Some(pair) => {
            if pair.1 <= threshold {
                Some(march_hit(s, origin, pair.0 as int, point, steps))
            } else if pair.1 > max {
                None
            } else if steps >= MAX_STEPS {
                None
            } else {
                spec_march(
                    s,
                    mode,
                    origin,
                    dir,
                    threshold,
                    max,
                    vadd(point, vscale(dir, pair.1 as int)),
                    (steps + 1) as u32,
                )
            }
        },
    }
}

/// A whole intersection query, marching from the ray origin.
pub open spec fn spec_intersect(
    s: Scene,
    mode: IntersectMode,
    ray: Ray,
    threshold: i64,
    max: i64,
) -> Option<Intersect> {
    spec_march(s, mode, ray.origin, ray.direction, threshold, max, ray.origin, 1)
}

impl Scene {
    /// The nearest eligible candidate at `p`, or none when no entity is
    /// eligible under the mode.
    fn best_candidate(&self, mode: IntersectMode, p: &Vec3) -> (r: Option<(usize, i64)>)
        requires
            self.wf(),
        ensures
            r == spec_best(*self, mode, *p),
    {
        let n = self.positions.len();
        let mut best: Option<(usize, i64)> = None;
        let mut i: usize = n;
        while i > 0
            invariant
                self.wf(),
                i <= n,
                n == self.spec_len(),
                best == spec_best_from(*self, mode, *p, i as int),
            decreases i,
        {
            i = i - 1;
            let allowed: bool = match mode {
                IntersectMode::Not(id) => i != id,
                IntersectMode::Every => true,
                IntersectMode::One(id) => i == id,
            };
            if allowed && self.positions[i].is_some() {
                if let Some(sdf) = &self.surfaces[i] {
                    let pos: Vec3 = self.positions[i].unwrap();
                    let local: Vec3 = p.sub(pos);
                    let d: i64 = sdf.compute_dist(&local);
                    best = match best {
                        Option::None => Some((i, d)),
                        Option::Some(pair) => if d <= pair.1 {
                            Some((i, d))
                        } else {
                            Some(pair)
                        },
                    };
                }
            }
        }
        best
    }
}

/// The scene together with the camera that views it.
pub struct World {
    pub ecs: Scene,
    pub camera: Camera,
}

impl World {
    /// Primary visibility: every surface-bearing entity is eligible.
    pub fn intersect(&self, ray: &Ray, threshold: i64, max: i64) -> (r: Option<Intersect>)
        requires
            self.ecs.wf(),
        ensures
            r == spec_intersect(self.ecs, IntersectMode::Every, *ray, threshold, max),
    {
        self.intersect_inner(ray, threshold, max, IntersectMode::Every)
    }

    /// Shadow query: every surface-bearing entity but `not` is eligible.
    pub fn intersect_not(&self, not: usize, ray: &Ray, threshold: i64, max: i64) -> (r: Option<
        Intersect,
    >)
        requires
            self.ecs.wf(),
        ensures
            r == spec_intersect(self.ecs, IntersectMode::Not(not), *ray, threshold, max),
    {
        self.intersect_inner(ray, threshold, max, IntersectMode::Not(not))
    }

    /// Single-occluder query: only the entity `one` is eligible.
    pub fn intersect_one(&self, one: usize, ray: &Ray, threshold: i64, max: i64) -> (r: Option<
        Intersect,
    >)
        requires
            self.ecs.wf(),
        ensures
            r == spec_intersect(self.ecs, IntersectMode::One(one), *ray, threshold, max),
    {
        self.intersect_inner(ray, threshold, max, IntersectMode::One(one))
    }

    /// The sphere-tracing march shared by all query modes.
    fn intersect_inner(&self, ray: &Ray, threshold: i64, max: i64, mode: IntersectMode) -> (r:
        Option<Intersect>)
        requires
            self.ecs.wf(),
        ensures
            r == spec_intersect(self.ecs, mode, *ray, threshold, max),
    {
        let mut point: Vec3 = ray.origin;
        let mut steps: u32 = 1;
        loop
            invariant
                self.ecs.wf(),
                1 <= steps <= MAX_STEPS,
                spec_march(self.ecs, mode, ray.origin, ray.direction, threshold, max, point, steps)
                    == spec_intersect(self.ecs, mode, *ray, threshold, max),
            decreases MAX_STEPS - steps,
        {
            match self.ecs.best_candidate(mode, &point) {
                Option::None => {
                    return None;
                },
                Option::Some(pair) => {
                    let (i, d): (usize, i64) = pair;
                    proof {
                        lemma_best_from_sound(self.ecs, mode, point, 0);
                    }
                    if d <= threshold {
                        let pos: Vec3 = self.ecs.positions[i].unwrap();
                        let sdf: Sdf = match &self.ecs.surfaces[i] {
                            Some(sr) => sr.duplicate(),
                            None => {
                                proof {
                                    assert(false);
                                }
                                return None;
                            },
                        };
                        return Some(
                            Intersect {
                                entity: i,
                                sdf,
                                intersect: point,
                                local: point.sub(pos),
                                steps,
                                distance: ray.origin.sub(point).norm(),
                            },
                        );
                    } else if d > max {
                        return None;
                    } else if steps >= MAX_STEPS {
                        return None;
                    }
                    point = point.add(ray.direction.scale(d));
                    steps = steps + 1;
                },
            }
        }
    }
}

/// At any marching point whose nearest candidate lies beyond the trace
/// limit (and outside the hit threshold), the march stops with no hit.
pub proof fn lemma_march_escapes(
    s: Scene,
    mode: IntersectMode,
    origin: Vec3,
    dir: Vec3,
    threshold: i64,
    max: i64,
    point: Vec3,
    steps: u32,
)
    requires
        spec_best(s, mode, point).is_some(),
        spec_best(s, mode, point).unwrap().1 > max,
        spec_best(s, mode, point).unwrap().1 > threshold,
    ensures
        spec_march(s, mode, origin, dir, threshold, max, point, steps).is_none(),
{
}

/// A ray whose nearest eligible surface already lies beyond the trace
/// limit at the origin escapes at once: the query reports no hit.
pub proof fn lemma_escape_beyond_max(
    s: Scene,
    mode: IntersectMode,
    ray: Ray,
    threshold: i64,
    max: i64,
)
    requires
        spec_best(s, mode, ray.origin).is_some(),
        spec_best(s, mode, ray.origin).unwrap().1 > max,
        spec_best(s, mode, ray.origin).unwrap().1 > threshold,
    ensures
        spec_intersect(s, mode, ray, threshold, max).is_none(),
{
    lemma_march_escapes(s, mode, ray.origin, ray.direction, threshold, max, ray.origin, 1);
}

/// With no eligible candidate at all — an empty scene, or a mode that
/// excludes everything — the query reports no hit at once.
pub proof fn lemma_no_candidates(s: Scene, mode: IntersectMode, ray: Ray, threshold: i64, max: i64)
    requires
        spec_best(s, mode, ray.origin).is_none(),
    ensures
        spec_intersect(s, mode, ray, threshold, max).is_none(),
{
}

/// In an empty scene no candidate ever exists.
pub proof fn lemma_empty_scene_no_best(s: Scene, mode: IntersectMode, p: Vec3)
    requires
        s.spec_len() == 0,
    ensures
        spec_best(s, mode, p).is_none(),
{
}

/// Every hit the march reports lies within the hit threshold: the reported
/// surface is the hit entity's, the local point is the hit point in the
/// entity's frame, and the surface's distance there is at most `threshold`.
pub proof fn lemma_hit_within_threshold(
    s: Scene,
    mode: IntersectMode,
    origin: Vec3,
    dir: Vec3,
    threshold: i64,
    max: i64,
    point: Vec3,
    steps: u32,
)
    ensures
        match spec_march(s, mode, origin, dir, threshold, max, point, steps) {
            Option::Some(h) => {
                &&& eligible(s, h.entity as int)
                &&& h.sdf == s.surfaces@[h.entity as int].unwrap()
                &&& h.local == vsub(h.intersect, s.positions@[h.entity as int].unwrap())
                &&& sdf_dist(h.sdf, h.local) <= threshold
            },
            Option::None => true,
        },
    decreases MAX_STEPS - steps,
{
    match spec_best(s, mode, point) {
        Option::None => {},
        Option::Some(pair) => {
            lemma_best_from_sound(s, mode, point, 0);
            if pair.1 <= threshold {
            } else if pair.1 > max {
            } else if steps >= MAX_STEPS {
            } else {
                lemma_hit_within_threshold(
                    s,
                    mode,
                    origin,
                    dir,
                    threshold,
                    max,
                    vadd(point, vscale(dir, pair.1 as int)),
                    (steps + 1) as u32,
                );
            }
        },
    }
}

} // verus!
