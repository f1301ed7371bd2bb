use wave_world::fixed::add_clamped;
use wave_world::fixed::clamp_sym;
use wave_world::fixed::div_floor;
use wave_world::fixed::div_trunc;
use wave_world::fixed::isqrt;
use wave_world::fixed::ONE;
use wave_world::math::square;
use wave_world::math::Vec3;
use wave_world::math::GRAVITY;
use wave_world::math::PHYS_DT;
use wave_world::math::PI;

#[test]
fn constants() {
    assert_eq!(ONE, 1_000_000);
    assert_eq!(GRAVITY, 9_806_650);
    assert_eq!(PHYS_DT, 10_000);
    assert_eq!(PI, 3_141_600);
}

#[test]
fn truncating_division_rounds_toward_zero() {
    assert_eq!(div_trunc(7, 2), 3);
    assert_eq!(div_trunc(-7, 2), -3);
    assert_eq!(div_trunc(0, 5), 0);
    assert_eq!(div_trunc(-1, 1000), 0);
    assert_eq!(div_trunc(i64::MIN, 1), i64::MIN);
    assert_eq!(div_trunc(i64::MAX, i64::MAX), 1);
}

#[test]
fn floor_division_rounds_down() {
    assert_eq!(div_floor(7, 2), 3);
    assert_eq!(div_floor(-7, 2), -4);
    assert_eq!(div_floor(-8, 2), -4);
    assert_eq!(div_floor(-1, 1000), -1);
    assert_eq!(div_floor(0, 3), 0);
    assert_eq!(div_floor(i128::MIN, 1), i128::MIN);
    assert_eq!(div_floor(i128::MIN, i128::MAX), -2);
    assert_eq!(div_floor(i128::MAX, i128::MAX), 1);
}

#[test]
fn symmetric_clamp() {
    assert_eq!(clamp_sym(5, 10), 5);
    assert_eq!(clamp_sym(-5, 10), -5);
    assert_eq!(clamp_sym(11, 10), 10);
    assert_eq!(clamp_sym(-11, 10), -10);
    assert_eq!(clamp_sym(i64::MIN, 0), 0);
    assert_eq!(clamp_sym(i64::MIN, i64::MAX), -i64::MAX);
}

#[test]
fn clamped_sum_survives_overflow() {
    assert_eq!(add_clamped(1, 2, 10), 3);
    assert_eq!(add_clamped(7, 8, 10), 10);
    assert_eq!(add_clamped(-7, -8, 10), -10);
    assert_eq!(add_clamped(i64::MAX, i64::MAX, 100), 100);
    assert_eq!(add_clamped(i64::MIN, i64::MIN, 100), -100);
    assert_eq!(add_clamped(i64::MAX, i64::MIN, 100), -1);
    assert_eq!(add_clamped(i64::MAX, 1, i64::MAX), i64::MAX);
}

#[test]
fn integer_square_roots() {
    assert_eq!(isqrt(0), 0);
    assert_eq!(isqrt(1), 1);
    assert_eq!(isqrt(2), 1);
    assert_eq!(isqrt(3), 1);
    assert_eq!(isqrt(4), 2);
    assert_eq!(isqrt(99), 9);
    assert_eq!(isqrt(100), 10);
    assert_eq!(isqrt(2_000_000_000_000), 1_414_213);
    assert_eq!(isqrt(u128::MAX), u64::MAX);
    assert_eq!(isqrt((u64::MAX as u128) * (u64::MAX as u128)), u64::MAX);
    assert_eq!(isqrt((u64::MAX as u128) * (u64::MAX as u128) - 1), u64::MAX - 1);
    for n in 0u128..2000 {
        let r = isqrt(n) as u128;
        assert!(r * r <= n && n < (r + 1) * (r + 1));
    }
}

#[test]
fn squares_fit() {
    assert_eq!(square(0), 0);
    assert_eq!(square(-3), 9);
    assert_eq!(square(i64::MAX), (i64::MAX as u128) * (i64::MAX as u128));
    assert_eq!(square(i64::MIN), 1u128 << 126);
}

#[test]
fn vector_length() {
    assert_eq!(Vec3::new(3, 4, 0).norm(), 5);
    assert_eq!(Vec3::new(0, 0, 0).norm(), 0);
    assert_eq!(Vec3::new(-2 * ONE, 3 * ONE, 6 * ONE).norm(), 7_000_000);
    assert_eq!(Vec3::new(ONE, ONE, ONE).norm(), 1_732_050);
    assert_eq!(Vec3::new(i64::MIN, i64::MIN, i64::MIN).norm(), 15_975_348_984_942_515_101);
    assert_eq!(Vec3::zero(), Vec3::new(0, 0, 0));
}

#[test]
fn vectors_scale_to_a_given_length() {
    assert_eq!(Vec3::new(3, 4, 0).scaled_to(10), Vec3::new(6, 8, 0));
    assert_eq!(Vec3::new(-3, 0, -4).scaled_to(10), Vec3::new(-6, 0, -8));
    assert_eq!(Vec3::new(7, 0, 0).scaled_to(8_000_000), Vec3::new(8_000_000, 0, 0));
    assert_eq!(Vec3::new(0, -7, 0).scaled_to(1_000_000), Vec3::new(0, -1_000_000, 0));
    // Components round toward zero: (1, 1, 1) has length 1 when rounded down.
    assert_eq!(Vec3::new(ONE, ONE, ONE).scaled_to(1_000_000), Vec3::new(577_350, 577_350, 577_350));
    assert_eq!(Vec3::new(-ONE, ONE, -ONE).scaled_to(1_000_000), Vec3::new(-577_350, 577_350, -577_350));
    assert_eq!(
        Vec3::new(i64::MAX, 0, i64::MIN).scaled_to(u32::MAX),
        Vec3::new(3_037_000_499, 0, -3_037_000_499)
    );
}

#[test]
fn the_zero_vector_has_no_direction() {
    assert_eq!(Vec3::new(0, 0, 0).scaled_to(8_000_000), Vec3::new(0, 0, 0));
    assert_eq!(Vec3::new(0, 0, 0).scaled_to(0), Vec3::new(0, 0, 0));
    assert_eq!(Vec3::new(5, 5, 5).scaled_to(0), Vec3::new(0, 0, 0));
}
