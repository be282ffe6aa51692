//! Arithmetic primitives: truncating division, integer square roots,
//! vector helpers and angle wrapping.

use intercept::num::{div_i64, div_i128, isqrt_u128, log2_floor};
use intercept::vec2::{Vec2I, Quadrant};
use intercept::controller::{wrap_to_pi, angle_diff};

#[test]
fn div_truncates_toward_zero() {
    assert_eq!(div_i64(7, 2), 3);
    assert_eq!(div_i64(-7, 2), -3);
    assert_eq!(div_i64(7, -2), -3);
    assert_eq!(div_i64(-7, -2), 3);
    assert_eq!(div_i64(-59, 60), 0);
    assert_eq!(div_i64(59, 60), 0);
    assert_eq!(div_i128(-1_000_000_000_000_000_000_000, 1000), -1_000_000_000_000_000_000);
}

#[test]
fn isqrt_exact_squares_and_neighbors() {
    assert_eq!(isqrt_u128(0), 0);
    assert_eq!(isqrt_u128(1), 1);
    assert_eq!(isqrt_u128(2), 1);
    assert_eq!(isqrt_u128(3), 1);
    assert_eq!(isqrt_u128(4), 2);
    assert_eq!(isqrt_u128(999_999_999_999_999_999), 999_999_999);
    assert_eq!(isqrt_u128(1_000_000_000_000_000_000), 1_000_000_000);
    assert_eq!(isqrt_u128(u128::MAX), 0xFFFF_FFFF_FFFF_FFFF);
}

#[test]
fn vector_length_floor() {
    assert_eq!(Vec2I::new(3, 4).len_floor(), 5);
    assert_eq!(Vec2I::new(1, 1).len_floor(), 1);
    assert_eq!(Vec2I::new(-3, -4).len_floor(), 5);
    assert_eq!(Vec2I::new(0, 0).len_floor(), 0);
    assert_eq!(Vec2I::new(1_000_000, 0).len_floor(), 1_000_000);
}

#[test]
fn vector_dot_product() {
    let a = Vec2I::new(2, 3);
    let b = Vec2I::new(-4, 5);
    assert_eq!(a.dot(b), 2 * -4 + 3 * 5);
    assert_eq!(a.norm2(), 13);
}

#[test]
fn quadrants() {
    assert_eq!(Vec2I::new(1, 1).get_quadrant(), Quadrant::One);
    assert_eq!(Vec2I::new(-1, 1).get_quadrant(), Quadrant::Two);
    assert_eq!(Vec2I::new(-1, -1).get_quadrant(), Quadrant::Three);
    assert_eq!(Vec2I::new(1, -1).get_quadrant(), Quadrant::Four);
    // Axes fall into the last quadrant checked.
    assert_eq!(Vec2I::new(0, 0).get_quadrant(), Quadrant::Four);
    assert_eq!(
        Vec2I::new(5, 5).get_relative_quadrant(Vec2I::new(4, 4)),
        Quadrant::One
    );
    assert_eq!(
        Vec2I::new(-5, 5).get_relative_quadrant(Vec2I::new(4, 4)),
        Quadrant::Two
    );
}

#[test]
fn wrap_angles() {
    assert_eq!(wrap_to_pi(0), 0);
    assert_eq!(wrap_to_pi(3141), 3141);
    assert_eq!(wrap_to_pi(4000), -2283);
    assert_eq!(wrap_to_pi(-4000), 2283);
    assert_eq!(wrap_to_pi(6283), 0);
}

#[test]
fn angle_differences() {
    assert_eq!(angle_diff(0, 1000), 1000);
    assert_eq!(angle_diff(1000, -1000), -2000);
    assert_eq!(angle_diff(3000, -3000), 283);
    assert_eq!(angle_diff(-3000, 3000), -283);
}

#[test]
fn log2_floor_values() {
    assert_eq!(log2_floor(1), 0);
    assert_eq!(log2_floor(2), 1);
    assert_eq!(log2_floor(3), 1);
    assert_eq!(log2_floor(4), 2);
    assert_eq!(log2_floor(1023), 9);
    assert_eq!(log2_floor(1024), 10);
}
