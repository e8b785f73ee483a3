use verse_core::fixed::{clamp_fx, fixed_mul, to_scaled, SCALE};

#[test]
fn scale_factor_is_two_to_sixteen() {
    assert_eq!(SCALE, 65536);
    assert_eq!(SCALE, 1i64 << 16);
}

#[test]
fn fixed_mul_exact_products() {
    // 2.0 * 3.0 == 6.0
    assert_eq!(fixed_mul(2 * SCALE, 3 * SCALE), 6 * SCALE);
    // 0.5 * 0.5 == 0.25
    assert_eq!(fixed_mul(SCALE / 2, SCALE / 2), SCALE / 4);
    // zero annihilates
    assert_eq!(fixed_mul(0, 12345678), 0);
}

#[test]
fn fixed_mul_negative_operands() {
    assert_eq!(fixed_mul(-2 * SCALE, 3 * SCALE), -6 * SCALE);
    assert_eq!(fixed_mul(-2 * SCALE, -3 * SCALE), 6 * SCALE);
    // floor semantics: -1/65536 scaled down still rounds toward minus infinity
    assert_eq!(fixed_mul(-1, 1), -1);
    assert_eq!(fixed_mul(1, 1), 0);
}

#[test]
fn clamp_fx_saturates() {
    assert_eq!(clamp_fx(-5, 0, SCALE), 0);
    assert_eq!(clamp_fx(SCALE + 1, 0, SCALE), SCALE);
    assert_eq!(clamp_fx(1234, 0, SCALE), 1234);
    assert_eq!(clamp_fx(0, 0, SCALE), 0);
    assert_eq!(clamp_fx(SCALE, 0, SCALE), SCALE);
}

#[test]
fn to_scaled_rounds_to_nearest() {
    // 5.1 == 51/10 -> 334233.6 rounds to 334234
    assert_eq!(to_scaled(51, 10), 334234);
    // 1.4 == 14/10 -> 91750.4 rounds down
    assert_eq!(to_scaled(14, 10), 91750);
    // whole numbers are exact
    assert_eq!(to_scaled(7, 1), 7 * SCALE);
    assert_eq!(to_scaled(0, 3), 0);
}

#[test]
fn to_scaled_ties_away_from_zero() {
    // 1/131072 scales to exactly one half of a unit: away from zero
    assert_eq!(to_scaled(1, 131072), 1);
    assert_eq!(to_scaled(-1, 131072), -1);
}

#[test]
fn to_scaled_round_trip_error_within_one_scale_unit() {
    // toReal(toScaled(x)) must sit within 1/SCALE of x
    let cases: [(i64, i64); 6] = [(51, 10), (-51, 10), (1, 3), (-2, 7), (355, 113), (0, 5)];
    for (num, den) in cases {
        let s = to_scaled(num, den);
        let back = s as f64 / SCALE as f64;
        let x = num as f64 / den as f64;
        assert!((back - x).abs() <= 1.0 / SCALE as f64, "{num}/{den}: {back} vs {x}");
    }
}
