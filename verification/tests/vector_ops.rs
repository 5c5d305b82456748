use render3d::fixed::{fx_div, fx_even, fx_fdiv, fx_mul, fx_sqrt, CAP, ONE};
use render3d::vector::Vec3;

#[test]
fn fixed_mul_rescales_and_truncates() {
    assert_eq!(fx_mul(ONE, ONE), ONE);
    assert_eq!(fx_mul(2_000_000, 3_000_000), 6_000_000);
    assert_eq!(fx_mul(1_500_000, 1_500_000), 2_250_000);
    assert_eq!(fx_mul(-1_500_000, 1_500_000), -2_250_000);
    assert_eq!(fx_mul(1, 1), 0);
}

#[test]
fn fixed_div_rescales_and_handles_zero() {
    assert_eq!(fx_div(ONE, 2_000_000), 500_000);
    assert_eq!(fx_div(-ONE, 2_000_000), -500_000);
    assert_eq!(fx_div(7, 0), 0);
    assert_eq!(fx_div(CAP, 1), CAP);
}

#[test]
fn fixed_sqrt_is_exact_on_squares() {
    assert_eq!(fx_sqrt(ONE), ONE);
    assert_eq!(fx_sqrt(4_000_000), 2_000_000);
    assert_eq!(fx_sqrt(25), 5_000);
    assert_eq!(fx_sqrt(0), 0);
    assert_eq!(fx_sqrt(-3), 0);
}

#[test]
fn floor_division_rounds_down_for_negatives() {
    assert_eq!(fx_fdiv(7, 2), 3);
    assert_eq!(fx_fdiv(-7, 2), -4);
    assert_eq!(fx_fdiv(-6, 2), -3);
    assert!(fx_even(0));
    assert!(fx_even(-4));
    assert!(!fx_even(-3));
    assert!(!fx_even(5));
}

#[test]
fn normalize_of_unit_axis_is_identity() {
    let v = Vec3::new(ONE, 0, 0).normalize();
    assert_eq!(v, Vec3::new(ONE, 0, 0));
}

#[test]
fn normalize_produces_unit_vectors() {
    // A 3-4-0 triangle normalizes exactly.
    let v = Vec3::new(3_000, 4_000, 0).normalize();
    assert_eq!(v, Vec3::new(600_000, 800_000, 0));
    assert!(v.is_normalized());

    // An arbitrary non-zero vector normalizes within the tolerance.
    let w = Vec3::new(ONE, 2 * ONE, 3 * ONE).normalize();
    assert!(w.is_normalized());
    let u = Vec3::new(-7 * ONE, 355_113, 9 * ONE).normalize();
    assert!(u.is_normalized());
}

#[test]
fn cross_products_are_antisymmetric() {
    let a = Vec3::new(ONE, 2 * ONE, 3 * ONE);
    let b = Vec3::new(-5 * ONE, 700_000, 11);
    assert_eq!(a.cross(b), b.cross(a).neg());
    // The axes obey the right-hand rule.
    assert_eq!(Vec3::unit_x().cross(Vec3::unit_y()), Vec3::unit_z());
}

#[test]
fn dot_products_are_symmetric() {
    let a = Vec3::new(ONE, 2 * ONE, 3 * ONE);
    let b = Vec3::new(-5 * ONE, 700_000, 11);
    assert_eq!(a.dot(b), b.dot(a));
    assert_eq!(a.dot(b), -3_599_967);
}

#[test]
fn vector_plus_negation_is_zero() {
    let a = Vec3::new(123_456, -789, 42 * ONE);
    assert!(a.add(a.neg()).is_zero());
    assert!(Vec3::zero().is_zero());
    assert!(!a.is_zero());
}

#[test]
fn magnitude_of_pythagorean_triple_is_exact() {
    assert_eq!(Vec3::new(3 * ONE, 4 * ONE, 0).magnitude(), 5 * ONE);
    assert_eq!(Vec3::zero().magnitude(), 0);
}

#[test]
fn cosine_similarity_of_parallel_vectors_is_one() {
    let a = Vec3::new(2 * ONE, 0, 0);
    let b = Vec3::new(5 * ONE, 0, 0);
    assert_eq!(a.cos(b), ONE);
    assert_eq!(a.cos(Vec3::new(0, 3 * ONE, 0)), 0);
    assert_eq!(a.cos(Vec3::new(-ONE, 0, 0)), -ONE);
}
