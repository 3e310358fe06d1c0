use senswap::oracle::Oracle;

#[test]
fn curve_rejects_zero_reserves() {
    assert_eq!(Oracle::curve(0, 1, 1), None);
    assert_eq!(Oracle::curve(1, 0, 1), None);
    assert_eq!(Oracle::curve(1, 1, 0), None);
}

#[test]
fn curve_rejects_empty_result() {
    assert_eq!(Oracle::curve(1_000, 1, 1), None);
}

#[test]
fn curve_rounds_down() {
    assert_eq!(Oracle::curve(2_100_000_000, 2_000_000_000, 4_000_000_000), Some(3_809_523_809));
}

#[test]
fn curve_keeps_product_within_one_unit() {
    let (bid, ask, amount) = (1_000u64, 5_000u64, 100u64);
    let new_ask = Oracle::curve(bid + amount, bid, ask).unwrap();
    assert_eq!(new_ask, 4_545);
    let (nb, na) = ((bid + amount) as u128, new_ask as u128);
    assert!(nb * na <= (bid as u128) * (ask as u128));
    assert!(nb * (na + 1) > (bid as u128) * (ask as u128));
}

#[test]
fn curve_in_fee_first_swap() {
    let r = Oracle::curve_in_fee(2_100_000_000, 2_000_000_000, 4_000_000_000, false);
    assert_eq!(r, Some((3_809_523_809 + 476_190, 189_904_763, 95_238)));
}

#[test]
fn curve_in_fee_exempt_takes_no_earning() {
    let r = Oracle::curve_in_fee(2_100_000_000, 2_000_000_000, 1_000_000_000, true);
    assert_eq!(r, Some((952_499_999, 47_500_001, 0)));
}

#[test]
fn fee_strictly_reduces_large_outputs() {
    // gross = 1_000 - 600 = 400: the fee is one unit.
    let (_, paid, earning) = Oracle::curve_in_fee(1_000, 600, 1_000, false).unwrap();
    assert_eq!(earning, 0);
    assert_eq!(paid, 399);
}

#[test]
fn fee_vanishes_on_tiny_outputs() {
    // gross = 1: neither fee nor earning reaches one unit.
    let (new_ask, paid, earning) = Oracle::curve_in_fee(2, 1, 2, false).unwrap();
    assert_eq!((new_ask, paid, earning), (1, 1, 0));
}

#[test]
fn earning_positive_from_two_thousand() {
    // gross = 4_000 - 2_000 = 2_000.
    let (_, paid, earning) = Oracle::curve_in_fee(4_000, 2_000, 4_000, false).unwrap();
    assert_eq!(earning, 1);
    assert_eq!(paid, 2_000 - 5 - 1);
}

#[test]
fn rake_split_zero_delta() {
    assert_eq!(Oracle::_rake(0, 1, 1, 1), Some((0, 0, 0)));
    assert_eq!(Oracle::_rake(5, 0, 1, 1), None);
}

#[test]
fn rake_split_single_deposit() {
    let r = Oracle::_rake(100_000_000, 1_000_000_000, 2_000_000_000, 4_000_000_000);
    assert_eq!(r, Some((34_397_765, 62_541_384, 125_082_774)));
}

#[test]
fn rake_balanced_deposit() {
    let r = Oracle::rake(
        100_000_000,
        200_000_000,
        400_000_000,
        1_000_000_000,
        2_000_000_000,
        4_000_000_000,
        1_000_000_000,
    );
    assert_eq!(r, Some((99_999_998, 1_100_000_000, 2_200_000_000, 4_400_000_000)));
}

#[test]
fn rake_single_asset_deposits() {
    let s = Oracle::rake(100_000_000, 0, 0, 1_000_000_000, 2_000_000_000, 4_000_000_000, 1_000_000_000);
    assert_eq!(s, Some((32_280_117, 1_100_000_000, 2_000_000_000, 4_000_000_000)));
    let a = Oracle::rake(0, 200_000_000, 0, 1_000_000_000, 2_000_000_000, 4_000_000_000, 1_000_000_000);
    assert_eq!(a, Some((32_280_114, 1_000_000_000, 2_200_000_000, 4_000_000_000)));
}

#[test]
fn rake_reserves_add_up() {
    let (lpt, rs, ra, rb) = Oracle::rake(7, 11, 13, 5_000, 6_000, 7_000, 9_000).unwrap();
    assert_eq!((rs, ra, rb), (5_007, 6_011, 7_013));
    assert!(9_000u64.checked_add(lpt).is_some());
}

#[test]
fn rake_overflow_fails() {
    assert_eq!(Oracle::rake(u64::MAX, 0, 0, 1, 1, 1, 1), None);
    assert_eq!(Oracle::rake(1, 0, 0, 0, 1, 1, 1), None);
}

#[test]
fn rake_fails_when_supply_would_overflow() {
    let r = Oracle::rake(100_000_000, 0, 0, 1_000_000_000, 2_000_000_000, 4_000_000_000, u64::MAX - 10);
    assert_eq!(r, None);
    let fits = Oracle::rake(100_000_000, 0, 0, 1_000_000_000, 2_000_000_000, 4_000_000_000, 1_000_000_000);
    assert!(fits.is_some());
}
