use senswap::math::Roots;

#[test]
fn sqrt_small_values() {
    let expected: [u128; 10] = [0, 1, 1, 1, 2, 2, 2, 2, 2, 3];
    for (n, r) in expected.iter().enumerate() {
        assert_eq!((n as u128).sqrt(), *r);
    }
}

#[test]
fn sqrt_perfect_squares_and_neighbours() {
    assert_eq!(1_000_000u128.sqrt(), 1_000);
    assert_eq!(999_999u128.sqrt(), 999);
    assert_eq!(1_000_001u128.sqrt(), 1_000);
}

#[test]
fn sqrt_of_largest_value() {
    assert_eq!(u128::MAX.sqrt(), u64::MAX as u128);
}

#[test]
fn cbrt_small_values() {
    assert_eq!(0u128.cbrt(), 0);
    assert_eq!(1u128.cbrt(), 1);
    assert_eq!(7u128.cbrt(), 1);
    assert_eq!(8u128.cbrt(), 2);
    assert_eq!(26u128.cbrt(), 2);
    assert_eq!(27u128.cbrt(), 3);
    assert_eq!(63u128.cbrt(), 3);
    assert_eq!(64u128.cbrt(), 4);
}

#[test]
fn cbrt_where_newton_oscillates() {
    // The Newton iterates for these alternate between 4 and 5.
    assert_eq!(112u128.cbrt(), 4);
    assert_eq!(120u128.cbrt(), 4);
    assert_eq!(124u128.cbrt(), 4);
    assert_eq!(125u128.cbrt(), 5);
}

#[test]
fn cbrt_of_largest_value() {
    assert_eq!(u128::MAX.cbrt(), 6_981_463_658_331);
}

#[test]
fn cbrt_of_scaled_reserve() {
    assert_eq!((1_000_000_000u128 * 1_000_000_000_000_000_000).cbrt(), 1_000_000_000);
}
