//! The lighting evaluator and the frame renderer.

use vstd::prelude::*;

use crate::camera::camera_project;
use crate::color::{cadd, cdivn, cmul, cscale, Color};
use crate::fixed::{fx_div, fx_mul, spec_div, spec_mul, SCALE};
use crate::light::{Light, LightKind};
use crate::ray::Ray;
use crate::rng::{jitter_of, rng_next, row_seed, Jitter};
use crate::sdf::sdf_shade;
use crate::vec3::{vdot, vsub, Vec3};
use crate::world::{spec_intersect, Intersect, IntersectMode, Scene, World};

verus! {

/// The render parameters a host supplies for one frame.
#[derive(Clone, Copy, Debug, PartialEq, Eq, Structural)]
pub struct RenderParams {
    pub width: usize,
    pub height: usize,
    pub samples: u64,
    pub threshold: i64,
    pub max_dist: i64,
}

impl RenderParams {
    /// Dimensions and sample count are positive and small enough that all
    /// pixel-coordinate arithmetic stays exact.
    pub open spec fn wf(self) -> bool {
        &&& 1 <= self.width <= 65536
        &&& 1 <= self.height <= 65536
        &&& 1 <= self.samples <= 65536
        &&& self.width * self.height <= usize::MAX
    }
}

/// The lighting accumulator's initial value: black, with full alpha.
pub open spec fn light_init() -> Color {
    Color { red: 0, green: 0, blue: 0, alpha: SCALE }
}

/// The flat lighting an override light forces: its intensity on every
/// color channel.
pub open spec fn flat(intensity: i64) -> Color {
    Color { red: intensity, green: intensity, blue: intensity, alpha: SCALE }
}

/// An entity contributes light when it has a light, a position and a color.
pub open spec fn lit(s: Scene, i: int) -> bool {
    &&& 0 <= i < s.spec_len()
    &&& s.lights@[i].is_some()
    &&& s.positions@[i].is_some()
    &&& s.colors@[i].is_some()
}

/// The lighting accumulated over the light-bearing entities `i..`, starting
/// from `acc`, for the primary hit `hit`.
///
/// An `AllBright` light replaces the whole accumulation with its flat
/// intensity and stops the scan, so the first one in entity order wins. A
/// `Point` light casts a shadow ray from the hit point toward its position
/// (the direction is the light's position vector, deliberately not
/// normalized), excluding the hit entity; it is visible when nothing
/// occludes it, or when the occluder lies past the light by the sign
/// heuristic. Its contribution falls off with the inverse square of the
/// distance, the squared distance clamped to one raw unit so a light on the
/// hit point stays finite. An `Infinite` light tests occlusion against the
/// hit entity alone and contributes without falloff.
pub open spec fn spec_light_accum(
    s: Scene,
    hit: Intersect,
    threshold: i64,
    max: i64,
    i: int,
    acc: Color,
) -> Color
    decreases s.spec_len() - i,
{
    if i < 0 || i >= s.spec_len() {
        acc
    } else if lit(s, i) {
        let light = s.lights@[i].unwrap();
        let lpos = s.positions@[i].unwrap();
        let lcol = s.colors@[i].unwrap();
        match light.kind {
            LightKind::AllBright => flat(light.intensity),
            LightKind::Point => {
                let occ = spec_intersect(
                    s,
                    IntersectMode::Not(hit.entity),
                    Ray { origin: hit.intersect, direction: lpos },
                    threshold,
                    max,
                );
                let emit = match occ {
                    Option::None => true,
                    Option::Some(o) => vdot(lpos, o.intersect) < 0,
                };
                if emit {
                    let diff = vsub(lpos, hit.intersect);
                    let d2 = vdot(diff, diff);
                    let d2c = if d2 < 1 {
                        1
                    } else {
                        d2
                    };
                    let falloff = spec_div(SCALE as int, d2c);
                    spec_light_accum(
                        s,
                        hit,
                        threshold,
                        max,
                        i + 1,
                        cadd(acc, cscale(cscale(lcol, falloff), light.intensity as int)),
                    )
                } else {
                    spec_light_accum(s, hit, threshold, max, i + 1, acc)
                }
            },
            LightKind::Infinite(_) => {
                let occ = spec_intersect(
                    s,
                    IntersectMode::One(hit.entity),
                    Ray { origin: hit.intersect, direction: lpos },
                    threshold,
                    max,
                );
                if occ.is_none() {
                    spec_light_accum(
                        s,
                        hit,
                        threshold,
                        max,
                        i + 1,
                        cadd(acc, cscale(lcol, light.intensity as int)),
                    )
                } else {
                    spec_light_accum(s, hit, threshold, max, i + 1, acc)
                }
            },
        }
    } else {
        spec_light_accum(s, hit, threshold, max, i + 1, acc)
    }
}

/// The background color a missed ray contributes.
pub open spec fn background() -> Color {
    Color { red: 0, green: 0, blue: 0, alpha: SCALE }
}

/// One sample: intersect the primary ray from the world origin along
/// `dir`; on a miss the background, on a hit the surface's intrinsic color
/// combined, channel by channel — the alpha channel deliberately included —
/// with the accumulated lighting.
pub open spec fn spec_shader(w: World, dir: Vec3, threshold: i64, max: i64) -> Color {
    let origin = Vec3 { x: 0i64, y: 0i64, z: 0i64 };
    match spec_intersect(
        w.ecs,
        IntersectMode::Every,
        Ray { origin: origin, direction: dir },
        threshold,
        max,
    ) {
        Option::None => background(),
        Option::Some(hit) => cmul(
            sdf_shade(hit.sdf, hit.local),
            spec_light_accum(w.ecs, hit, threshold, max, 0, light_init()),
        ),
    }
}

/// Shades one primary ray direction.
pub fn shader(world: &World, dir: Vec3, threshold: i64, max_dist: i64) -> (c: Color)
    requires
        world.ecs.wf(),
    ensures
        c == spec_shader(*world, dir, threshold, max_dist),
{
    let origin = Vec3::zero();
    let hit: Intersect = match world.intersect(
        &Ray { origin, direction: dir },
        threshold,
        max_dist,
    ) {
        Some(h) => h,
        None => {
            return Color::new(0, 0, 0, SCALE);
        },
    };

    let mut lightness: Color = Color::new(0, 0, 0, SCALE);
    let n: usize = world.ecs.len();
    let mut i: usize = 0;
    while i < n
        invariant_except_break
            world.ecs.wf(),
            i <= n,
            n == world.ecs.spec_len(),
            spec_light_accum(world.ecs, hit, threshold, max_dist, i as int, lightness)
                == spec_light_accum(world.ecs, hit, threshold, max_dist, 0, light_init()),
        ensures
            lightness == spec_light_accum(world.ecs, hit, threshold, max_dist, 0, light_init()),
        decreases n - i,
    {
        if self_lit(&world.ecs, i) {
            let light: Light = world.ecs.lights[i].unwrap();
            let lpos: Vec3 = world.ecs.positions[i].unwrap();
            let lcol: Color = world.ecs.colors[i].unwrap();
            match light.kind {
                LightKind::AllBright => {
                    lightness = Color::new(
                        light.intensity,
                        light.intensity,
                        light.intensity,
                        SCALE,
                    );
                    break ;
                },
                LightKind::Point => {
                    let occ = world.intersect_not(
                        hit.entity,
                        &Ray { origin: hit.intersect, direction: lpos },
                        threshold,
                        max_dist,
                    );
                    let emit: bool = match &occ {
                        Some(o) => lpos.dot(o.intersect) < 0,
                        None => true,
                    };
                    if emit {
                        let diff: Vec3 = lpos.sub(hit.intersect);
                        let d2: i64 = diff.dot(diff);
                        let d2c: i64 = if d2 < 1 {
                            1
                        } else {
                            d2
                        };
                        let falloff: i64 = fx_div(SCALE, d2c);
                        lightness = lightness.add(lcol.scale(falloff).scale(light.intensity));
                    }
                },
                LightKind::Infinite(_) => {
                    let occ = world.intersect_one(
                        hit.entity,
                        &Ray { origin: hit.intersect, direction: lpos },
                        threshold,
                        max_dist,
                    );
                    if occ.is_none() {
                        lightness = lightness.add(lcol.scale(light.intensity));
                    }
                },
            }
        }
        i = i + 1;
    }

    hit.sdf.shade(&hit.local).mul(lightness)
}

/// Whether entity `i` carries all three light attributes.
fn self_lit(s: &Scene, i: usize) -> (r: bool)
    requires
        s.wf(),
        i < s.spec_len(),
    ensures
        r == lit(*s, i as int),
{
    s.lights[i].is_some() && s.positions[i].is_some() && s.colors[i].is_some()
}

/// A pixel accumulator's initial value: black, with full alpha. The
/// samples add onto it, so a pixel's alpha ends at `(samples + 1) / samples`
/// after averaging — the accumulation inherits that quirk deliberately.
pub open spec fn pixel_init() -> Color {
    Color { red: 0, green: 0, blue: 0, alpha: SCALE }
}

/// The normalized, jittered coordinate of a pixel: the pixel index plus a
/// fractional jitter, divided by the image extent.
pub open spec fn pixel_coord(index: int, j: int, extent: int) -> int
    recommends
        extent >= 1,
{
    (index * (SCALE as int) + j) / extent
}

/// `k` stochastic samples of pixel `(row, col)` added onto `acc`: each
/// sample draws two jitters, projects the jittered coordinate through the
/// camera, shades that direction, and adds the result. Yields the
/// accumulated color and the generator state after the draws.
pub open spec fn spec_sample_accum(
    w: World,
    params: RenderParams,
    row: int,
    col: int,
    k: int,
    state: u64,
    acc: Color,
) -> (Color, u64)
    decreases k,
{
    if k <= 0 {
        (acc, state)
    } else {
        let s1 = rng_next(state);
        let jx = jitter_of(s1);
        let s2 = rng_next(s1);
        let jy = jitter_of(s2);
        let u = pixel_coord(col, jx as int, params.width as int);
        let v = pixel_coord(row, jy as int, params.height as int);
        let c = spec_shader(
            w,
            camera_project(w.camera, u, v),
            params.threshold,
            params.max_dist,
        );
        spec_sample_accum(w, params, row, col, k - 1, s2, cadd(acc, c))
    }
}

/// One pixel: the average of its samples over the initial accumulator,
/// with the generator state the samples leave behind.
pub open spec fn spec_pixel(w: World, params: RenderParams, row: int, col: int, state: u64) -> (
    Color,
    u64,
) {
    let r = spec_sample_accum(w, params, row, col, params.samples as int, state, pixel_init());
    (cdivn(r.0, params.samples as int), r.1)
}

/// The pixels of one row from column `col` on, the generator state
/// threading through them left to right.
pub open spec fn spec_row_from(
    w: World,
    params: RenderParams,
    row: int,
    state: u64,
    col: int,
) -> Seq<Color>
    decreases params.width - col,
{
    if col < 0 || col >= params.width {
        Seq::empty()
    } else {
        let pr = spec_pixel(w, params, row, col, state);
        seq![pr.0] + spec_row_from(w, params, row, pr.1, col + 1)
    }
}

/// One whole row, from its own seeded generator.
pub open spec fn spec_render_row(w: World, params: RenderParams, row: int, rseed: u64) -> Seq<
    Color,
> {
    spec_row_from(w, params, row, rseed, 0)
}

/// The rows from `row` down, concatenated in row-major order; every row
/// seeds its own generator from the frame seed, so rows are independent.
pub open spec fn spec_rows_from(w: World, params: RenderParams, seed: u64, row: int) -> Seq<Color>
    decreases params.height - row,
{
    if row < 0 || row >= params.height {
        Seq::empty()
    } else {
        spec_render_row(w, params, row, row_seed(seed, row as u64)) + spec_rows_from(
            w,
            params,
            seed,
            row + 1,
        )
    }
}

/// The whole frame: a row-major pixel buffer, a function of the scene, the
/// camera, the parameters and the seed alone.
pub open spec fn spec_render(w: World, params: RenderParams, seed: u64) -> Seq<Color> {
    spec_rows_from(w, params, seed, 0)
}

/// The jittered coordinate of a pixel, exactly as the model states it.
fn coord(index: usize, j: i64, extent: usize) -> (c: i64)
    requires
        index < extent,
        extent <= 65536,
        0 <= j < SCALE,
    ensures
        c == pixel_coord(index as int, j as int, extent as int),
{
    let dividend: u64 = index as u64 * 65536 + j as u64;
    let q: u64 = dividend / (extent as u64);
    proof {
        assert(q <= dividend) by (nonlinear_arith)
            requires
                q == dividend / (extent as u64),
                extent >= 1,
        ;
    }
    q as i64
}

/// Renders one row of the image from its own generator seed.
pub fn render_row(world: &World, params: RenderParams, row: usize, rseed: u64) -> (px: Vec<Color>)
    requires
        world.ecs.wf(),
        params.wf(),
        row < params.height,
    ensures
        px@ == spec_render_row(*world, params, row as int, rseed),
{
    let mut px: Vec<Color> = Vec::new();
    let mut jit = Jitter::new(rseed);
    let mut col: usize = 0;
    while col < params.width
        invariant
            world.ecs.wf(),
            params.wf(),
            row < params.height,
            col <= params.width,
            px@.len() == col,
            px@ + spec_row_from(*world, params, row as int, jit.state, col as int)
                == spec_render_row(*world, params, row as int, rseed),
        decreases params.width - col,
    {
        let ghost state0 = jit.state;
        let mut acc: Color = Color::new(0, 0, 0, SCALE);
        let mut k: u64 = 0;
        while k < params.samples
            invariant
                world.ecs.wf(),
                params.wf(),
                row < params.height,
                col < params.width,
                k <= params.samples,
                spec_sample_accum(
                    *world,
                    params,
                    row as int,
                    col as int,
                    params.samples - k,
                    jit.state,
                    acc,
                ) == spec_sample_accum(
                    *world,
                    params,
                    row as int,
                    col as int,
                    params.samples as int,
                    state0,
                    pixel_init(),
                ),
            decreases params.samples - k,
        {
            let jx: i64 = jit.next_jitter();
            let jy: i64 = jit.next_jitter();
            let u: i64 = coord(col, jx, params.width);
            let v: i64 = coord(row, jy, params.height);
            let dir: Vec3 = world.camera.project(u, v);
            let c: Color = shader(world, dir, params.threshold, params.max_dist);
            acc = acc.add(c);
            k = k + 1;
        }
        let pixel: Color = acc.div_samples(params.samples);
        px.push(pixel);
        col = col + 1;
        proof {
            let rowseq = spec_render_row(*world, params, row as int, rseed);
            let prevpx = px@.drop_last();
            assert(prevpx.push(pixel) == px@);
            assert(prevpx + spec_row_from(*world, params, row as int, state0, col - 1 as int)
                == rowseq);
            assert(spec_row_from(*world, params, row as int, state0, col - 1 as int) == seq![pixel]
                + spec_row_from(*world, params, row as int, jit.state, col as int));
            assert(px@ + spec_row_from(*world, params, row as int, jit.state, col as int) =~= prevpx
                + (seq![pixel] + spec_row_from(*world, params, row as int, jit.state, col as int)));
        }
    }
    proof {
        assert(spec_row_from(*world, params, row as int, jit.state, col as int) =~= Seq::<
            Color,
        >::empty());
        assert(px@ + Seq::<Color>::empty() =~= px@);
    }
    px
}

/// Renders the whole frame row by row; the buffer is row-major, of length
/// `width * height`.
pub fn render(world: &World, params: RenderParams, seed: u64) -> (buf: Vec<Color>)
    requires
        world.ecs.wf(),
        params.wf(),
    ensures
        buf@ == spec_render(*world, params, seed),
        buf@.len() == params.height * params.width,
{
    proof {
        lemma_render_len(*world, params, seed);
    }
    let mut buf: Vec<Color> = Vec::new();
    let mut row: usize = 0;
    while row < params.height
        invariant
            world.ecs.wf(),
            params.wf(),
            row <= params.height,
            buf@ + spec_rows_from(*world, params, seed, row as int) == spec_render(
                *world,
                params,
                seed,
            ),
        decreases params.height - row,
    {
        let rseed: u64 = crate::rng::mix_row_seed(seed, row as u64);
        let mut rowpx: Vec<Color> = render_row(world, params, row, rseed);
        let ghost prevbuf = buf@;
        let ghost rowseq = rowpx@;
        buf.append(&mut rowpx);
        row = row + 1;
        proof {
            assert(spec_rows_from(*world, params, seed, row - 1 as int) == rowseq
                + spec_rows_from(*world, params, seed, row as int));
            assert(buf@ + spec_rows_from(*world, params, seed, row as int) =~= prevbuf + (rowseq
                + spec_rows_from(*world, params, seed, row as int)));
        }
    }
    proof {
        assert(spec_rows_from(*world, params, seed, row as int) =~= Seq::<Color>::empty());
        assert(buf@ + Seq::<Color>::empty() =~= buf@);
    }
    buf
}

/// One tenth of a unit, in raw units (truncated).
pub const TENTH: i64 = 6553;

/// Four tenths of a unit, in raw units (truncated).
pub const FOUR_TENTHS: i64 = 26214;

/// Two units, in raw units.
pub const TWO: i64 = 131072;

/// Four units, in raw units.
pub const FOUR: i64 = 262144;

/// A gradient background: a ground tint below the horizon, a sky gradient
/// above it.
pub open spec fn spec_background_shader(dir: Vec3) -> Color {
    if dir.y < 0 {
        Color { red: TENTH, green: FOUR_TENTHS, blue: TENTH, alpha: SCALE }
    } else {
        Color {
            red: spec_mul(dir.y as int, TWO as int) as i64,
            green: spec_mul(dir.y as int, FOUR as int) as i64,
            blue: SCALE,
            alpha: SCALE,
        }
    }
}

/// An alternative background for missed rays: ground below the horizon, a
/// sky gradient above. The frame renderer does not consume it; it is kept
/// as part of the shading palette.
pub fn background_shader(_world: &World, dir: &Vec3) -> (c: Color)
    ensures
        c == spec_background_shader(*dir),
{
    if dir.y < 0 {
        Color { red: TENTH, green: FOUR_TENTHS, blue: TENTH, alpha: SCALE }
    } else {
        Color {
            red: fx_mul(dir.y, TWO),
            green: fx_mul(dir.y, FOUR),
            blue: SCALE,
            alpha: SCALE,
        }
    }
}

/// Whether some entity at `i` or beyond carries an `AllBright` light.
pub open spec fn has_allbright_from(s: Scene, i: int) -> bool
    decreases s.spec_len() - i,
{
    if i < 0 || i >= s.spec_len() {
        false
    } else {
        (lit(s, i) && s.lights@[i].unwrap().kind is AllBright) || has_allbright_from(s, i + 1)
    }
}

/// The intensity of the first `AllBright` light at `i` or beyond.
pub open spec fn first_allbright_intensity(s: Scene, i: int) -> i64
    recommends
        has_allbright_from(s, i),
    decreases s.spec_len() - i,
{
    if i < 0 || i >= s.spec_len() {
        0
    } else if lit(s, i) && s.lights@[i].unwrap().kind is AllBright {
        s.lights@[i].unwrap().intensity
    } else {
        first_allbright_intensity(s, i + 1)
    }
}

/// Law: when any light-bearing entity carries an `AllBright` light, the
/// accumulated lighting is the flat intensity of the first such entity,
/// whatever was accumulated before it and whatever other lights the scene
/// holds — the override replaces the accumulation and stops the scan.
pub proof fn lemma_allbright_overrides(
    s: Scene,
    hit: Intersect,
    threshold: i64,
    max: i64,
    i: int,
    acc: Color,
)
    requires
        has_allbright_from(s, i),
    ensures
        spec_light_accum(s, hit, threshold, max, i, acc) == flat(first_allbright_intensity(s, i)),
    decreases s.spec_len() - i,
{
    if i < 0 || i >= s.spec_len() {
    } else if lit(s, i) && s.lights@[i].unwrap().kind is AllBright {
    } else {
        if lit(s, i) {
            let light = s.lights@[i].unwrap();
            let lpos = s.positions@[i].unwrap();
            let lcol = s.colors@[i].unwrap();
            match light.kind {
                LightKind::AllBright => {},
                LightKind::Point => {
                    let diff = vsub(lpos, hit.intersect);
                    let d2 = vdot(diff, diff);
                    let d2c = if d2 < 1 {
                        1
                    } else {
                        d2
                    };
                    let falloff = spec_div(SCALE as int, d2c);
                    lemma_allbright_overrides(s, hit, threshold, max, i + 1, acc);
                    lemma_allbright_overrides(
                        s,
                        hit,
                        threshold,
                        max,
                        i + 1,
                        cadd(acc, cscale(cscale(lcol, falloff), light.intensity as int)),
                    );
                },
                LightKind::Infinite(_) => {
                    lemma_allbright_overrides(s, hit, threshold, max, i + 1, acc);
                    lemma_allbright_overrides(
                        s,
                        hit,
                        threshold,
                        max,
                        i + 1,
                        cadd(acc, cscale(lcol, light.intensity as int)),
                    );
                },
            }
        } else {
            lemma_allbright_overrides(s, hit, threshold, max, i + 1, acc);
        }
    }
}

/// Law: with an `AllBright` light anywhere in the scene, every hit's
/// lighting is that flat intensity, all other lights ignored.
pub proof fn lemma_allbright_flat_lighting(s: Scene, hit: Intersect, threshold: i64, max: i64)
    requires
        has_allbright_from(s, 0),
    ensures
        spec_light_accum(s, hit, threshold, max, 0, light_init()) == flat(
            first_allbright_intensity(s, 0),
        ),
{
    lemma_allbright_overrides(s, hit, threshold, max, 0, light_init());
}

/// A row's tail holds one pixel per remaining column.
pub proof fn lemma_row_len(w: World, params: RenderParams, row: int, state: u64, col: int)
    requires
        0 <= col <= params.width,
    ensures
        spec_row_from(w, params, row, state, col).len() == params.width - col,
    decreases params.width - col,
{
    if col >= params.width {
    } else {
        let pr = spec_pixel(w, params, row, col, state);
        lemma_row_len(w, params, row, pr.1, col + 1);
    }
}

/// The remaining rows hold one pixel per column of each remaining row.
pub proof fn lemma_rows_len(w: World, params: RenderParams, seed: u64, row: int)
    requires
        0 <= row <= params.height,
    ensures
        spec_rows_from(w, params, seed, row).len() == (params.height - row) * params.width,
    decreases params.height - row,
{
    if row >= params.height {
        assert((params.height - row) * params.width == 0) by (nonlinear_arith)
            requires
                row == params.height,
        ;
    } else {
        lemma_row_len(w, params, row as int, row_seed(seed, row as u64), 0);
        lemma_rows_len(w, params, seed, row + 1);
        assert((params.height - row) * params.width == params.width + (params.height - row - 1)
            * params.width) by (nonlinear_arith);
    }
}

/// The frame buffer is exactly `width * height` pixels, row-major.
pub proof fn lemma_render_len(w: World, params: RenderParams, seed: u64)
    requires
        params.height >= 0,
    ensures
        spec_render(w, params, seed).len() == params.height * params.width,
{
    lemma_rows_len(w, params, seed, 0);
}

/// In an empty scene every primary ray misses, so every sample is the
/// background.
pub proof fn lemma_empty_scene_shader(w: World, dir: Vec3, threshold: i64, max: i64)
    requires
        w.ecs.spec_len() == 0,
    ensures
        spec_shader(w, dir, threshold, max) == background(),
{
    let origin = Vec3 { x: 0i64, y: 0i64, z: 0i64 };
    let ray = Ray { origin: origin, direction: dir };
    crate::world::lemma_empty_scene_no_best(w.ecs, IntersectMode::Every, origin);
    crate::world::lemma_no_candidates(w.ecs, IntersectMode::Every, ray, threshold, max);
}

/// In an empty scene `k` samples add `k` background contributions onto a
/// black accumulator, raising only its alpha.
proof fn lemma_empty_scene_samples(
    w: World,
    params: RenderParams,
    row: int,
    col: int,
    k: int,
    state: u64,
    a: int,
)
    requires
        w.ecs.spec_len() == 0,
        0 <= a,
        0 <= k,
        a + k * (SCALE as int) <= i64::MAX,
    ensures
        spec_sample_accum(
            w,
            params,
            row,
            col,
            k,
            state,
            Color { red: 0, green: 0, blue: 0, alpha: a as i64 },
        ).0 == (Color { red: 0, green: 0, blue: 0, alpha: (a + k * (SCALE as int)) as i64 }),
    decreases k,
{
    if k <= 0 {
    } else {
        let s1 = rng_next(state);
        let s2 = rng_next(s1);
        let u = pixel_coord(col, jitter_of(s1) as int, params.width as int);
        let v = pixel_coord(row, jitter_of(s2) as int, params.height as int);
        lemma_empty_scene_shader(
            w,
            camera_project(w.camera, u, v),
            params.threshold,
            params.max_dist,
        );
        assert((k - 1) * (SCALE as int) == k * (SCALE as int) - SCALE) by (nonlinear_arith);
        lemma_empty_scene_samples(w, params, row, col, k - 1, s2, a + SCALE);
    }
}

/// The uniform pixel an empty scene produces: the averaged background,
/// whose alpha carries the accumulator's extra initial unit.
pub open spec fn background_pixel(samples: int) -> Color
    recommends
        samples >= 1,
{
    cdivn(
        Color { red: 0, green: 0, blue: 0, alpha: ((samples + 1) * (SCALE as int)) as i64 },
        samples,
    )
}

/// In an empty scene every pixel is the averaged background.
proof fn lemma_empty_scene_pixel(w: World, params: RenderParams, row: int, col: int, state: u64)
    requires
        w.ecs.spec_len() == 0,
        params.wf(),
    ensures
        spec_pixel(w, params, row, col, state).0 == background_pixel(params.samples as int),
{
    let k = params.samples as int;
    assert(SCALE + k * (SCALE as int) <= i64::MAX && (SCALE as int) + k * (SCALE as int) == (k + 1)
        * (SCALE as int)) by (nonlinear_arith)
        requires
            1 <= k <= 65536,
    ;
    lemma_empty_scene_samples(w, params, row, col, k, state, SCALE as int);
}

/// In an empty scene a row's tail is uniformly the averaged background.
proof fn lemma_empty_scene_row(w: World, params: RenderParams, row: int, state: u64, col: int)
    requires
        w.ecs.spec_len() == 0,
        params.wf(),
        0 <= col <= params.width,
    ensures
        spec_row_from(w, params, row, state, col).len() == params.width - col,
        forall|j: int|
            0 <= j < params.width - col ==> spec_row_from(w, params, row, state, col)[j]
                == background_pixel(params.samples as int),
    decreases params.width - col,
{
    if col >= params.width {
    } else {
        let pr = spec_pixel(w, params, row, col, state);
        lemma_empty_scene_pixel(w, params, row, col, state);
        lemma_empty_scene_row(w, params, row, pr.1, col + 1);
    }
}

/// In an empty scene all remaining rows are uniformly the averaged
/// background.
proof fn lemma_empty_scene_rows(w: World, params: RenderParams, seed: u64, row: int)
    requires
        w.ecs.spec_len() == 0,
        params.wf(),
        0 <= row <= params.height,
    ensures
        spec_rows_from(w, params, seed, row).len() == (params.height - row) * params.width,
        forall|j: int|
            0 <= j < spec_rows_from(w, params, seed, row).len() ==> spec_rows_from(
                w,
                params,
                seed,
                row,
            )[j] == background_pixel(params.samples as int),
    decreases params.height - row,
{
    if row >= params.height {
    } else {
        lemma_empty_scene_row(w, params, row as int, row_seed(seed, row as u64), 0);
        lemma_empty_scene_rows(w, params, seed, row + 1);
        assert((params.height - row) * params.width == params.width + (params.height - row - 1)
            * params.width) by (nonlinear_arith);
    }
}

/// Law: a scene with zero entities renders to a uniformly
/// background-colored buffer of the configured dimensions.
pub proof fn lemma_empty_scene_uniform(w: World, params: RenderParams, seed: u64)
    requires
        w.ecs.spec_len() == 0,
        params.wf(),
    ensures
        spec_render(w, params, seed).len() == params.height * params.width,
        forall|j: int|
            0 <= j < spec_render(w, params, seed).len() ==> spec_render(w, params, seed)[j]
                == background_pixel(params.samples as int),
{
    lemma_empty_scene_rows(w, params, seed, 0);
}

} // verus!
