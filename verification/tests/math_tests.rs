use rt::fx::{isqrt_u128, tdiv_i128, sin_turn, cos_turn, atan_fx, SCALE, EPS, DIST_MAX};
use rt::objects::discriminant;
use rt::ppm::gamma_byte;

#[test]
fn isqrt_exact_squares() {
    assert_eq!(isqrt_u128(0), 0);
    assert_eq!(isqrt_u128(1), 1);
    assert_eq!(isqrt_u128(16), 4);
    assert_eq!(isqrt_u128(15), 3);
    assert_eq!(isqrt_u128(1_000_000_000_000), 1_000_000);
    assert_eq!(isqrt_u128(u128::from(u64::MAX)), 4_294_967_295);
}

#[test]
fn truncating_division_rounds_toward_zero() {
    assert_eq!(tdiv_i128(7, 2), 3);
    assert_eq!(tdiv_i128(-7, 2), -3);
    assert_eq!(tdiv_i128(7, -2), -3);
    assert_eq!(tdiv_i128(-7, -2), 3);
    assert_eq!(tdiv_i128(0, 5), 0);
}

#[test]
fn discriminant_sign_decides() {
    // two real roots: b^2 - 4ac = 25 - 24 = 1
    assert_eq!(discriminant(1, 5, 6), Some(1));
    // the exact boundary yields Some(0), not None
    assert_eq!(discriminant(1, 2, 1), Some(0));
    // negative discriminant is a miss
    assert_eq!(discriminant(1, 1, 1), None);
}

#[test]
fn trig_fixed_points() {
    // sin of a quarter turn is exactly one
    assert_eq!(sin_turn(250_000), SCALE);
    assert_eq!(cos_turn(0), SCALE);
    assert_eq!(sin_turn(0), 0);
    // sin of three quarter turns is exactly minus one
    assert_eq!(sin_turn(750_000), -SCALE);
    // the arctangent approximation at one: 1 / 1.28
    assert_eq!(atan_fx(SCALE), 781_250);
    assert_eq!(atan_fx(-SCALE), -781_250);
    assert_eq!(atan_fx(0), 0);
}

#[test]
fn gamma_formula_exact_values() {
    // least o with o^11 >= b^5 * 255^6
    assert_eq!(gamma_byte(0), 0);
    assert_eq!(gamma_byte(1), 21);
    assert_eq!(gamma_byte(2), 29);
    assert_eq!(gamma_byte(64), 137);
    assert_eq!(gamma_byte(128), 187);
    assert_eq!(gamma_byte(200), 229);
    assert_eq!(gamma_byte(254), 255);
    assert_eq!(gamma_byte(255), 255);
}

#[test]
fn epsilon_and_sentinel_scale() {
    assert_eq!(EPS, 1);
    assert!(DIST_MAX > 0);
    assert_eq!(SCALE, 1_000_000);
}
