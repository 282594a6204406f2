use steadifi::decimal::Decimal;

const ONE: u128 = 1_000_000_000_000_000_000;

#[test]
fn from_ratio_scales_by_eighteen_places() {
    assert_eq!(Decimal::checked_from_ratio(9, 10), Some(Decimal::raw(900_000_000_000_000_000)));
    assert_eq!(Decimal::checked_from_ratio(1, 3), Some(Decimal::raw(333_333_333_333_333_333)));
    assert_eq!(Decimal::checked_from_ratio(1_000_000, 1_000_000), Some(Decimal::one()));
    assert_eq!(Decimal::checked_from_ratio(5, 0), None);
    assert_eq!(Decimal::checked_from_ratio(u128::MAX, 1), None);
}

#[test]
fn mul_rounds_down_and_checks_range() {
    let a = Decimal::raw(3 * ONE / 2);
    let b = Decimal::raw(2 * ONE);
    assert_eq!(a.checked_mul(b), Some(Decimal::raw(3 * ONE)));
    assert_eq!(Decimal::raw(1).checked_mul(Decimal::raw(1)), Some(Decimal::raw(0)));
    assert_eq!(Decimal::raw(u128::MAX).checked_mul(b), None);
    assert_eq!(Decimal::raw(u128::MAX).checked_mul(Decimal::one()), Some(Decimal::raw(u128::MAX)));
}

#[test]
fn add_and_compare() {
    assert_eq!(Decimal::one().checked_add(Decimal::one()), Some(Decimal::raw(2 * ONE)));
    assert_eq!(Decimal::raw(u128::MAX).checked_add(Decimal::raw(1)), None);
    assert!(Decimal::one().ge(&Decimal::zero()));
    assert!(!Decimal::zero().ge(&Decimal::one()));
}
