use raytracer::Fx;

#[test]
fn multiplication_is_exact_on_representable_products() {
    let a = Fx::from_raw(1_500_000);  // 1.5
    let b = Fx::from_int(2);
    assert_eq!(a.mul(b).raw(), 3_000_000);
}

#[test]
fn multiplication_truncates_toward_zero() {
    let a = Fx::from_raw(333_333);  // ~1/3
    let b = Fx::from_raw(3);
    assert_eq!(a.mul(b).raw(), 0);  // 0.999999e-6 truncates to 0
    let c = Fx::from_raw(-333_333);
    assert_eq!(c.mul(b).raw(), 0);  // symmetric for negatives
}

#[test]
fn division_truncates_toward_zero() {
    let a = Fx::from_int(1);
    let b = Fx::from_int(3);
    assert_eq!(a.div(b).raw(), 333_333);
    assert_eq!(a.neg().div(b).raw(), -333_333);
}

#[test]
fn division_by_zero_is_zero() {
    let a = Fx::from_int(7);
    assert_eq!(a.div(Fx::zero()).raw(), 0);
}

#[test]
fn sqrt_of_four_is_two() {
    assert_eq!(Fx::from_int(4).sqrt().raw(), 2_000_000);
}

#[test]
fn sqrt_of_two_matches_truncated_root() {
    assert_eq!(Fx::from_int(2).sqrt().raw(), 1_414_213);
}

#[test]
fn sqrt_of_negative_is_zero() {
    assert_eq!(Fx::from_int(-9).sqrt().raw(), 0);
}

#[test]
fn pow_of_half_cubed() {
    let half = Fx::from_raw(500_000);
    assert_eq!(half.pow(3).raw(), 125_000);
}

#[test]
fn pow_zero_exponent_is_one() {
    assert_eq!(Fx::from_int(9).pow(0).raw(), 1_000_000);
}

#[test]
fn clamp01_clamps_both_ends() {
    assert_eq!(Fx::from_int(2).clamp01().raw(), 1_000_000);
    assert_eq!(Fx::from_int(-2).clamp01().raw(), 0);
    assert_eq!(Fx::from_raw(250_000).clamp01().raw(), 250_000);
}

#[test]
fn out_of_range_values_saturate() {
    let huge = Fx::from_int(i64::MAX);
    assert_eq!(huge.raw(), 1_000_000_000_000_000);
    let tiny = Fx::from_int(i64::MIN);
    assert_eq!(tiny.raw(), -1_000_000_000_000_000);
    let sum = huge.add(huge);
    assert_eq!(sum.raw(), 1_000_000_000_000_000);
}
