use pso::fixed::{SCALE, fmul, isqrt_u128, sat_add, sat_sub};
use pso::particle::Particle;

#[test]
fn fixed_point_products_are_exact() {
    // 1.5 * 2.0 == 3.0
    assert_eq!(fmul(3 * SCALE / 2, 2 * SCALE), 3 * SCALE);
    // (-1.5) * 2.0 == -3.0
    assert_eq!(fmul(-3 * SCALE / 2, 2 * SCALE), -3 * SCALE);
    // the product of two tiny values truncates toward zero
    assert_eq!(fmul(1, 1), 0);
    assert_eq!(fmul(-1, 999_999), 0);
    // multiplication by one is the identity
    assert_eq!(fmul(123_456_789, SCALE), 123_456_789);
}

#[test]
fn saturating_arithmetic_clamps_at_the_i64_range() {
    assert_eq!(sat_add(i64::MAX, 1), i64::MAX);
    assert_eq!(sat_add(i64::MIN, -1), i64::MIN);
    assert_eq!(sat_add(40, 2), 42);
    assert_eq!(sat_sub(i64::MIN, 1), i64::MIN);
    assert_eq!(sat_sub(i64::MAX, -1), i64::MAX);
    assert_eq!(sat_sub(40, 2), 38);
    assert_eq!(fmul(i64::MAX, i64::MAX), i64::MAX);
    assert_eq!(fmul(i64::MAX, i64::MIN), i64::MIN);
}

#[test]
fn integer_square_root_is_the_floor_root() {
    assert_eq!(isqrt_u128(0), 0);
    assert_eq!(isqrt_u128(1), 1);
    assert_eq!(isqrt_u128(15), 3);
    assert_eq!(isqrt_u128(16), 4);
    assert_eq!(isqrt_u128(17), 4);
    assert_eq!(isqrt_u128(u128::MAX), (1u128 << 64) - 1);
}

#[test]
fn euclidean_distance_of_a_right_triangle() {
    let a = Particle {
        position: vec![0, 0],
        velocity: vec![0, 0],
        personal_best: vec![0, 0],
    };
    let b = Particle {
        position: vec![3 * SCALE, 4 * SCALE],
        velocity: vec![0, 0],
        personal_best: vec![3 * SCALE, 4 * SCALE],
    };
    assert_eq!(a.distance(&b), 5 * SCALE);
    assert_eq!(b.distance(&a), 5 * SCALE);
    assert_eq!(a.distance(&a), 0);
}
