//! The frame renderer: determinism, dimensions, and the empty scene.

use raymarch::camera::Camera;
use raymarch::color::Color;
use raymarch::fixed::SCALE;
use raymarch::light::{Light, LightKind};
use raymarch::render::{render, render_row, RenderParams};
use raymarch::rng::Jitter;
use raymarch::sdf::color_sphere;
use raymarch::vec3::Vec3;
use raymarch::world::{Scene, World};

const S: i64 = SCALE;

fn camera() -> Camera {
    Camera { origin: Vec3::new(0, 0, 0), focal_len: 50 * S, sensor_w: 27 * S, sensor_h: 18 * S }
}

fn params(width: usize, height: usize, samples: u64) -> RenderParams {
    RenderParams { width, height, samples, threshold: 1, max_dist: 100 * S }
}

fn lit_sphere_world() -> World {
    let mut scene = Scene::new();
    scene.spawn(
        Some(Vec3::new(0, 0, -10 * S)),
        Some(color_sphere(S, Color::new(S, S, S, S))),
        None,
        None,
    );
    scene.spawn(
        Some(Vec3::new(0, 3 * S, -9 * S)),
        None,
        Some(Light { intensity: 5 * S, kind: LightKind::Point }),
        Some(Color::new(S, 0, 0, S)),
    );
    World { ecs: scene, camera: camera() }
}

#[test]
fn same_seed_renders_identically() {
    let world = lit_sphere_world();
    let p = params(6, 4, 2);
    let first = render(&world, p, 42);
    let second = render(&world, p, 42);
    assert_eq!(first, second);
}

#[test]
fn buffer_has_width_times_height_pixels() {
    let world = lit_sphere_world();
    let p = params(5, 3, 1);
    assert_eq!(render(&world, p, 7).len(), 15);
}

#[test]
fn rows_are_independent_of_evaluation_order() {
    // Rendering a row on its own, with its own seeded generator, yields
    // exactly the slice the whole frame holds for it.
    let world = lit_sphere_world();
    let p = params(4, 3, 2);
    let seed: u64 = 99;
    let frame = render(&world, p, seed);
    for row in 0..p.height {
        let rseed = seed.wrapping_add((row as u64).wrapping_mul(0x9E3779B97F4A7C15));
        let rowpx = render_row(&world, p, row, rseed);
        assert_eq!(&frame[row * p.width..(row + 1) * p.width], &rowpx[..]);
    }
}

#[test]
fn empty_scene_renders_uniform_background() {
    let world = World { ecs: Scene::new(), camera: camera() };
    let p = params(4, 3, 2);
    let frame = render(&world, p, 1234);
    assert_eq!(frame.len(), 12);
    // Each pixel starts at (0, 0, 0, 1), accumulates two background
    // samples of (0, 0, 0, 1), and divides by two: alpha is 3/2.
    let expected = Color::new(0, 0, 0, 3 * S / 2);
    for px in &frame {
        assert_eq!(*px, expected);
    }
}

#[test]
fn empty_scene_is_independent_of_the_seed() {
    let world = World { ecs: Scene::new(), camera: camera() };
    let p = params(3, 2, 4);
    assert_eq!(render(&world, p, 1), render(&world, p, 2));
}

#[test]
fn jitter_sequence_is_a_function_of_the_seed() {
    let mut a = Jitter::new(5);
    let mut b = Jitter::new(5);
    for _ in 0..16 {
        let x = a.next_jitter();
        let y = b.next_jitter();
        assert_eq!(x, y);
        assert!(0 <= x && x < S);
    }
    // A different seed diverges somewhere in the first few draws.
    let mut c = Jitter::new(6);
    let mut diverged = false;
    let mut a2 = Jitter::new(5);
    for _ in 0..16 {
        if a2.next_jitter() != c.next_jitter() {
            diverged = true;
        }
    }
    assert!(diverged);
}

#[test]
fn signed_jitter_stays_in_the_unit_range() {
    let mut j = Jitter::new(77);
    for _ in 0..32 {
        let r = j.signed_jitter();
        assert!(-S < r && r <= S);
    }
}

#[test]
fn single_pixel_frame_matches_its_row() {
    let world = lit_sphere_world();
    let p = params(1, 1, 1);
    let frame = render(&world, p, 3);
    let row = render_row(&world, p, 0, 3u64.wrapping_add(0));
    assert_eq!(frame, row);
}
