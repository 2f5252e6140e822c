use economysim::amount::{copy_vec, zero_vec, Amount, MICROS_PER_UNIT};

#[test]
fn whole_units_are_a_million_micros() {
    assert_eq!(MICROS_PER_UNIT, 1_000_000);
    assert_eq!(Amount::from_units(10).micros, 10_000_000);
    assert_eq!(Amount::from_units(-3).micros, -3_000_000);
    assert_eq!(Amount::zero().micros, 0);
    assert_eq!(Amount::from_micros(42).micros, 42);
}

#[test]
fn from_units_saturates() {
    assert_eq!(Amount::from_units(i64::MAX).micros, i64::MAX);
    assert_eq!(Amount::from_units(i64::MIN).micros, i64::MIN);
}

#[test]
fn sums_and_differences_saturate() {
    let a = Amount::from_micros(i64::MAX - 1);
    assert_eq!(a.saturating_add(Amount::from_micros(5)).micros, i64::MAX);
    assert_eq!(Amount::from_micros(i64::MIN + 1).saturating_sub(Amount::from_micros(5)).micros, i64::MIN);
    assert_eq!(Amount::from_units(2).saturating_add(Amount::from_units(3)), Amount::from_units(5));
    assert_eq!(Amount::from_units(2).saturating_sub(Amount::from_units(3)), Amount::from_units(-1));
    assert_eq!(Amount::from_micros(i64::MIN).saturating_neg().micros, i64::MAX);
    assert_eq!(Amount::from_units(7).saturating_neg(), Amount::from_units(-7));
}

#[test]
fn products_round_toward_zero() {
    let third = Amount::from_micros(333_333);
    assert_eq!(Amount::from_units(10).saturating_mul(third).micros, 3_333_330);
    assert_eq!(Amount::from_micros(1).saturating_mul(Amount::from_micros(999_999)).micros, 0);
    assert_eq!(Amount::from_micros(-1).saturating_mul(Amount::from_micros(999_999)).micros, 0);
    assert_eq!(Amount::from_micros(-1_500_000).saturating_mul(Amount::from_micros(1_500_001)).micros, -2_250_001);
    assert_eq!(Amount::from_micros(1_500_000).saturating_mul(Amount::from_micros(1_500_001)).micros, 2_250_001);
}

#[test]
fn products_saturate() {
    let big = Amount::from_micros(i64::MAX);
    assert_eq!(big.saturating_mul(big).micros, i64::MAX);
    assert_eq!(big.saturating_mul(Amount::from_micros(i64::MIN)).micros, i64::MIN);
}

#[test]
fn shares_round_toward_zero() {
    assert_eq!(Amount::from_micros(10).shared_among(3).micros, 3);
    assert_eq!(Amount::from_micros(-10).shared_among(3).micros, -3);
    assert_eq!(Amount::from_micros(i64::MIN).shared_among(1).micros, i64::MIN);
}

#[test]
fn floors_and_clamps() {
    let one = Amount::from_units(1);
    let two = Amount::from_units(2);
    let three = Amount::from_units(3);
    assert_eq!(one.at_least(two), two);
    assert_eq!(three.at_least(two), three);
    assert_eq!(one.clamped(two, three), two);
    assert_eq!(Amount::from_units(5).clamped(two, three), three);
    assert_eq!(Amount::from_micros(2_500_000).clamped(two, three).micros, 2_500_000);
}

#[test]
fn zero_vec_holds_zeros() {
    let v = zero_vec(4);
    assert_eq!(v.len(), 4);
    assert!(v.iter().all(|a| a.micros == 0));
    assert!(zero_vec(0).is_empty());
}

#[test]
fn copy_vec_holds_the_same_quantities() {
    let v = vec![Amount::from_units(1), Amount::from_micros(-7), Amount::zero()];
    assert_eq!(copy_vec(&v), v);
    assert!(copy_vec(&Vec::new()).is_empty());
}
