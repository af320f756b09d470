//! The lighting evaluator.

use raymarch::camera::Camera;
use raymarch::color::Color;
use raymarch::fixed::SCALE;
use raymarch::light::{Light, LightKind};
use raymarch::render::{background_shader, shader};
use raymarch::sdf::color_sphere;
use raymarch::vec3::Vec3;
use raymarch::world::{Scene, World};

const S: i64 = SCALE;
const MAX_DIST: i64 = 100 * S;

fn camera() -> Camera {
    Camera { origin: Vec3::new(0, 0, 0), focal_len: 50 * S, sensor_w: 27 * S, sensor_h: 18 * S }
}

fn white() -> Color {
    Color::new(S, S, S, S)
}

fn red() -> Color {
    Color::new(S, 0, 0, S)
}

/// A white unit sphere ten units down the axis; the primary ray from the
/// origin hits it at (0, 0, -9).
fn sphere_scene() -> Scene {
    let mut scene = Scene::new();
    scene.spawn(
        Some(Vec3::new(0, 0, -10 * S)),
        Some(color_sphere(S, white())),
        None,
        None,
    );
    scene
}

fn view_dir() -> Vec3 {
    Vec3::new(0, 0, -S)
}

#[test]
fn point_light_inverse_square_falloff() {
    let mut scene = sphere_scene();
    // A red point light of intensity 5, three units above the hit point.
    scene.spawn(
        Some(Vec3::new(0, 3 * S, -9 * S)),
        None,
        Some(Light { intensity: 5 * S, kind: LightKind::Point }),
        Some(red()),
    );
    let world = World { ecs: scene, camera: camera() };
    let c = shader(&world, view_dir(), 1, MAX_DIST);
    // falloff == 1/9 in fixed point: 65536 / 9 truncates to 7281; the red
    // channel accumulates 7281 * 5 == 36405; alpha follows the light color's
    // alpha through the same arithmetic.
    assert_eq!(c, Color::new(36405, 0, 0, S + 36405));
}

#[test]
fn point_light_on_the_hit_point_is_clamped() {
    let mut scene = sphere_scene();
    // The light sits exactly on the hit point: the squared distance clamps
    // to one raw unit instead of dividing by zero.
    scene.spawn(
        Some(Vec3::new(0, 0, -9 * S)),
        None,
        Some(Light { intensity: S, kind: LightKind::Point }),
        Some(red()),
    );
    let world = World { ecs: scene, camera: camera() };
    let c = shader(&world, view_dir(), 1, MAX_DIST);
    let falloff: i64 = 4294967296; // SCALE * SCALE / 1
    assert_eq!(c, Color::new(falloff, 0, 0, S + falloff));
}

#[test]
fn occluded_point_light_contributes_nothing() {
    let mut scene = sphere_scene();
    // The shadow ray's direction is the light's position vector (0, 0, -1),
    // so from the hit point it marches further down the axis and strikes
    // the blocking sphere; the occluder's hit lies on the same side as the
    // light vector, so the emit heuristic rejects the light.
    scene.spawn(
        Some(Vec3::new(0, 0, -12 * S)),
        Some(color_sphere(S, white())),
        None,
        None,
    );
    scene.spawn(
        Some(Vec3::new(0, 0, -S)),
        None,
        Some(Light { intensity: 5 * S, kind: LightKind::Point }),
        Some(red()),
    );
    let world = World { ecs: scene, camera: camera() };
    let c = shader(&world, view_dir(), 1, MAX_DIST);
    assert_eq!(c, Color::new(0, 0, 0, S));
}

#[test]
fn occluder_judged_beyond_the_light_still_emits() {
    let mut scene = sphere_scene();
    // A second sphere touches the hit point from behind, so the shadow ray
    // finds an occluder at once, at the hit point itself; the dot of the
    // light vector (0, 0, +5) with the occluder's hit point (0, 0, -9) is
    // negative, so the heuristic judges the occluder to lie beyond the
    // light and grants visibility anyway.
    scene.spawn(
        Some(Vec3::new(0, 0, -11 * S)),
        Some(color_sphere(2 * S, white())),
        None,
        None,
    );
    scene.spawn(
        Some(Vec3::new(0, 0, 5 * S)),
        None,
        Some(Light { intensity: S, kind: LightKind::Point }),
        Some(red()),
    );
    let world = World { ecs: scene, camera: camera() };
    let c = shader(&world, view_dir(), 1, MAX_DIST);
    // Distance hit-to-light is 14 units: falloff == 65536/196 == 334.
    assert_eq!(c, Color::new(334, 0, 0, S + 334));
}

#[test]
fn allbright_overrides_regardless_of_position() {
    let allbright = Light { intensity: 2 * S, kind: LightKind::AllBright };
    let point = Light { intensity: 5 * S, kind: LightKind::Point };

    // AllBright after another light.
    let mut scene_a = sphere_scene();
    scene_a.spawn(Some(Vec3::new(0, 3 * S, -9 * S)), None, Some(point), Some(red()));
    scene_a.spawn(Some(Vec3::new(7 * S, 0, 0)), None, Some(allbright), Some(white()));
    let world_a = World { ecs: scene_a, camera: camera() };
    let c_a = shader(&world_a, view_dir(), 1, MAX_DIST);

    // AllBright before the other light.
    let mut scene_b = sphere_scene();
    scene_b.spawn(Some(Vec3::new(7 * S, 0, 0)), None, Some(allbright), Some(white()));
    scene_b.spawn(Some(Vec3::new(0, 3 * S, -9 * S)), None, Some(point), Some(red()));
    let world_b = World { ecs: scene_b, camera: camera() };
    let c_b = shader(&world_b, view_dir(), 1, MAX_DIST);

    // Either way the lighting is the flat intensity, other lights ignored.
    let expected = Color::new(2 * S, 2 * S, 2 * S, S);
    assert_eq!(c_a, expected);
    assert_eq!(c_b, expected);
}

#[test]
fn first_allbright_wins_on_conflict() {
    let mut scene = sphere_scene();
    scene.spawn(
        Some(Vec3::new(0, S, 0)),
        None,
        Some(Light { intensity: 2 * S, kind: LightKind::AllBright }),
        Some(white()),
    );
    scene.spawn(
        Some(Vec3::new(0, 2 * S, 0)),
        None,
        Some(Light { intensity: 3 * S, kind: LightKind::AllBright }),
        Some(white()),
    );
    let world = World { ecs: scene, camera: camera() };
    let c = shader(&world, view_dir(), 1, MAX_DIST);
    assert_eq!(c, Color::new(2 * S, 2 * S, 2 * S, S));
}

#[test]
fn infinite_light_is_self_occluded_at_the_surface() {
    let mut scene = sphere_scene();
    // The directional light's occlusion test is restricted to the hit
    // entity itself, and the hit point lies on that surface, so the test
    // finds an occluder at once and the light never contributes.
    scene.spawn(
        Some(Vec3::new(0, 3 * S, 0)),
        None,
        Some(Light { intensity: S, kind: LightKind::Infinite(Vec3::new(0, -S, 0)) }),
        Some(red()),
    );
    let world = World { ecs: scene, camera: camera() };
    let c = shader(&world, view_dir(), 1, MAX_DIST);
    assert_eq!(c, Color::new(0, 0, 0, S));
}

#[test]
fn background_gradient_splits_at_the_horizon() {
    let world = World { ecs: sphere_scene(), camera: camera() };
    // Below the horizon: the fixed ground tint.
    let ground = background_shader(&world, &Vec3::new(0, -S, -S));
    assert_eq!(ground, Color::new(6553, 26214, 6553, S));
    // Above it: a gradient of the upward component.
    let sky = background_shader(&world, &Vec3::new(0, S / 2, 0));
    assert_eq!(sky, Color::new(S, 2 * S, S, S));
}

#[test]
fn miss_shades_background() {
    let world = World { ecs: sphere_scene(), camera: camera() };
    // A ray pointing away from the sphere misses everything.
    let c = shader(&world, Vec3::new(0, S, 0), 1, MAX_DIST);
    assert_eq!(c, Color::new(0, 0, 0, S));
}

#[test]
fn lightless_hit_is_black() {
    let world = World { ecs: sphere_scene(), camera: camera() };
    let c = shader(&world, view_dir(), 1, MAX_DIST);
    // No lights: the accumulator stays black with full alpha, and the
    // white surface multiplied by black lighting is black.
    assert_eq!(c, Color::new(0, 0, 0, S));
}
