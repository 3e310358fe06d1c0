use senswap::umath::UMath;

fn num(i: u64, f: u64) -> UMath {
    UMath::new(i, f).unwrap()
}

#[test]
fn umath_new_bounds_fraction() {
    assert!(UMath::new(1, 1_000_000_001).is_none());
    assert_eq!(UMath::new(1, 5), Some(UMath { i: 1, f: 5 }));
}

#[test]
fn umath_add_carries() {
    assert_eq!(num(1, 500_000_000).add(&num(2, 700_000_000)), Some(num(4, 200_000_000)));
    assert_eq!(num(u64::MAX, 0).add(&num(1, 0)), None);
}

#[test]
fn umath_sub() {
    assert_eq!(num(3, 200_000_000).sub(&num(1, 700_000_000)), Some(num(1, 500_000_000)));
    assert_eq!(num(3, 700_000_000).sub(&num(1, 200_000_000)), Some(num(2, 500_000_000)));
    assert_eq!(num(1, 5).sub(&num(1, 5)), Some(num(0, 0)));
    assert_eq!(num(1, 5).sub(&num(1, 3)), None);
    assert_eq!(num(1, 0).sub(&num(2, 0)), None);
    assert_eq!(num(2, 1_000_000_000).sub(&num(1, 0)), Some(num(1, 1_000_000_000)));
}

#[test]
fn umath_mul_and_sqr() {
    assert_eq!(num(1, 500_000_000).mul(&num(2, 0)), Some(num(3, 0)));
    assert_eq!(num(0, 500_000_000).mul(&num(0, 500_000_000)), Some(num(0, 250_000_000)));
    assert_eq!(num(3, 0).sqr(), Some(num(9, 0)));
    assert_eq!(num(u64::MAX, 0).mul(&num(2, 0)), None);
}

#[test]
fn umath_div() {
    assert_eq!(num(1, 0).div(&num(3, 0)), Some(num(0, 333_333_333)));
    assert_eq!(num(7, 500_000_000).div(&num(2, 500_000_000)), Some(num(3, 0)));
    assert_eq!(num(1, 0).div(&num(0, 0)), None);
}

#[test]
fn umath_sqrt() {
    assert_eq!(num(4, 0).sqrt(), Some(num(2, 0)));
    assert_eq!(num(2, 0).sqrt(), Some(num(1, 414_213_562)));
    assert_eq!(num(0, 0).sqrt(), Some(num(0, 0)));
}
