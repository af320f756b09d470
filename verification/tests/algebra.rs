//! Fixed-point scalar, vector and distance-field algebra.

use raymarch::color::Color;
use raymarch::fixed::{fx_div, fx_mul, isqrt, sat_add, sat_neg, sat_sub, SCALE};
use raymarch::sdf::{color_sphere, Sdf};
use raymarch::vec3::Vec3;

const S: i64 = SCALE;

fn white() -> Color {
    Color::new(S, S, S, S)
}

fn red() -> Color {
    Color::new(S, 0, 0, S)
}

fn blue() -> Color {
    Color::new(0, 0, S, S)
}

#[test]
fn fixed_mul_exact() {
    // 1.5 * 2.0 == 3.0
    assert_eq!(fx_mul(3 * S / 2, 2 * S), 3 * S);
    // 0.5 * 0.5 == 0.25
    assert_eq!(fx_mul(S / 2, S / 2), S / 4);
    assert_eq!(fx_mul(-S, 5 * S), -5 * S);
}

#[test]
fn fixed_div_and_zero_guard() {
    assert_eq!(fx_div(S, 2 * S), S / 2);
    assert_eq!(fx_div(-S, 2 * S), -S / 2);
    // A zero divisor yields zero rather than failing.
    assert_eq!(fx_div(S, 0), 0);
    // 1 / 9 in fixed point truncates.
    assert_eq!(fx_div(S, 9 * S), S / 9);
}

#[test]
fn fixed_saturates() {
    assert_eq!(sat_add(i64::MAX, 1), i64::MAX);
    assert_eq!(sat_sub(i64::MIN, 1), i64::MIN);
    assert_eq!(sat_neg(i64::MIN), i64::MAX);
    assert_eq!(sat_add(1, 2), 3);
}

#[test]
fn integer_square_root() {
    assert_eq!(isqrt(0), 0);
    assert_eq!(isqrt(3), 1);
    assert_eq!(isqrt(4), 2);
    assert_eq!(isqrt(25), 5);
    assert_eq!(isqrt(u128::MAX), u64::MAX);
}

#[test]
fn vector_norm_exact() {
    let v = Vec3::new(3 * S, 4 * S, 0);
    assert_eq!(v.norm(), 5 * S);
    let n = v.normalize();
    assert_eq!(n, Vec3::new(3 * S * S / (5 * S), 4 * S * S / (5 * S), 0));
    // The zero vector stays zero rather than failing.
    assert_eq!(Vec3::new(0, 0, 0).normalize(), Vec3::new(0, 0, 0));
}

#[test]
fn vector_dot() {
    let a = Vec3::new(S, 2 * S, 3 * S);
    let b = Vec3::new(4 * S, -5 * S, 6 * S);
    // 1*4 - 2*5 + 3*6 == 12
    assert_eq!(a.dot(b), 12 * S);
}

#[test]
fn sphere_distance_is_norm_minus_radius() {
    let s = color_sphere(S, white());
    // Two units from the center of a unit sphere: one unit outside.
    assert_eq!(s.compute_dist(&Vec3::new(0, 0, 2 * S)), S);
    // At the center: one unit inside, negative.
    assert_eq!(s.compute_dist(&Vec3::new(0, 0, 0)), -S);
}

#[test]
fn union_takes_minimum() {
    let a = color_sphere(S, red());
    let b = color_sphere(2 * S, blue());
    let u = Sdf::Union(Box::new(a), Box::new(b));
    let p = Vec3::new(0, 0, 4 * S);
    // min(4 - 1, 4 - 2) == 2
    assert_eq!(u.compute_dist(&p), 2 * S);
    // The second operand won the minimum, so it shades.
    assert_eq!(u.shade(&p), blue());
}

#[test]
fn overlap_takes_maximum() {
    let a = color_sphere(S, red());
    let b = color_sphere(2 * S, blue());
    let o = Sdf::Overlap(Box::new(a), Box::new(b));
    let p = Vec3::new(0, 0, 4 * S);
    // max(4 - 1, 4 - 2) == 3
    assert_eq!(o.compute_dist(&p), 3 * S);
    assert_eq!(o.shade(&p), red());
}

#[test]
fn cut_takes_maximum_of_negated() {
    let a = color_sphere(2 * S, red());
    let b = color_sphere(S, blue());
    let c = Sdf::Cut(Box::new(a), Box::new(b));
    let p = Vec3::new(0, 0, 4 * S);
    // max(4 - 2, -(4 - 1)) == 2
    assert_eq!(c.compute_dist(&p), 2 * S);
    assert_eq!(c.shade(&p), red());
    // Inside both: max(-1, -(-0.5)) favors the negated cut.
    let q = Vec3::new(0, 0, S / 2);
    assert_eq!(c.compute_dist(&q), S / 2);
    assert_eq!(c.shade(&q), blue());
}

#[test]
fn equal_distances_attribute_first_operand() {
    let a = color_sphere(S, red());
    let b = color_sphere(S, blue());
    let p = Vec3::new(0, 0, 3 * S);
    let u = Sdf::Union(Box::new(a.duplicate()), Box::new(b.duplicate()));
    assert_eq!(u.shade(&p), red());
    let o = Sdf::Overlap(Box::new(a.duplicate()), Box::new(b.duplicate()));
    assert_eq!(o.shade(&p), red());
}

#[test]
fn duplicate_is_structurally_equal() {
    let tree = Sdf::Cut(
        Box::new(Sdf::Union(
            Box::new(color_sphere(S, red())),
            Box::new(color_sphere(2 * S, blue())),
        )),
        Box::new(color_sphere(S / 2, white())),
    );
    assert_eq!(tree.duplicate(), tree);
}

#[test]
fn sphere_uv_poles() {
    let s = color_sphere(S, white());
    // Looking straight up: v == 1 - (1 + 1)/2 == 0.
    let (_, v_top) = s.uv(&Vec3::new(0, 5 * S, 0));
    assert_eq!(v_top, 0);
    // Looking straight down: v == 1 - (-1 + 1)/2 == 1.
    let (_, v_bot) = s.uv(&Vec3::new(0, -5 * S, 0));
    assert_eq!(v_bot, S);
}
