use tusdt::account::{same_bytes, AccountId};
use tusdt::fixed_point::mul_div;
use tusdt::lending::{
    accrue, debt_limit, min_bid, share, weigh_time, Accrual, MILLISECONDS_PER_HOUR,
};
use tusdt::ratio::Ratio;
use tusdt::storage::{Mapping, StorageVec};

const ONE: u128 = 1_000_000_000_000_000_000;

#[test]
fn accounts_compare_by_every_byte() {
    let a = AccountId([1; 32]);
    let mut b = a;
    assert_eq!(a, b);
    b.0[31] = 2;
    assert_ne!(a, b);
    assert!(same_bytes(&a.0, &[1; 32]));
}

#[test]
fn products_are_divided_at_full_width() {
    assert_eq!(mul_div(7, 3, 2), Some(10));
    assert_eq!(mul_div(u128::MAX, u128::MAX, u128::MAX), Some(u128::MAX));
    assert_eq!(mul_div(u128::MAX, 2, 3), Some(u128::MAX / 3 * 2));
    assert_eq!(mul_div(u128::MAX, 2, 1), None);
    assert_eq!(mul_div(1, 1, 0), None);
    assert_eq!(mul_div(0, u128::MAX, 5), Some(0));
}

#[test]
fn ratios_round_down() {
    assert_eq!(Ratio::one().into_inner(), ONE);
    assert_eq!(Ratio::from_basis_points(500).into_inner(), 50_000_000_000_000_000);
    assert_eq!(Ratio::from_integer(3).into_inner(), 3 * ONE);
    assert_eq!(Ratio::from_inner(99_999_999_999_999).to_basis_points(), Some(0));
    assert_eq!(Ratio::from_basis_points(u32::MAX).to_basis_points(), Some(u32::MAX));
    assert_eq!(Ratio::from_inner(u128::MAX).to_basis_points(), None);
    assert!(Ratio::from_inner(0).is_zero());
    assert!(!Ratio::one().is_zero());
    let third = Ratio::one().checked_div_int(3).unwrap();
    assert_eq!(third.into_inner(), 333_333_333_333_333_333);
    assert_eq!(third.checked_mul_value(10), Some(3));
    assert_eq!(third.checked_div_value(10), Some(30));
    assert_eq!(Ratio::one().checked_div_int(0), None);
    assert_eq!(Ratio::from_inner(0).checked_div_value(1), None);
    assert_eq!(third.checked_mul(third), Some(Ratio::from_inner(111_111_111_111_111_110)));
    assert_eq!(Ratio::from_inner(u128::MAX).checked_mul(Ratio::from_integer(2)), None);
    assert_eq!(Ratio::from_inner(u128::MAX).checked_mul_value(u128::MAX), None);
}

#[test]
fn powers_multiply_out() {
    let r = Ratio::from_basis_points(11_000);
    assert_eq!(r.checked_pow(0), Some(Ratio::one()));
    assert_eq!(r.checked_pow(1), Some(r));
    assert_eq!(r.checked_pow(2), Some(Ratio::from_basis_points(12_100)));
    assert_eq!(r.checked_pow(3), Some(Ratio::from_basis_points(13_310)));
    assert_eq!(Ratio::from_integer(10).checked_pow(20), Some(Ratio::from_integer(100_000_000_000_000_000_000)));
    assert_eq!(Ratio::from_integer(10).checked_pow(21), None);
    assert_eq!(Ratio::one().checked_pow(u128::MAX), Some(Ratio::one()));
}

#[test]
fn powers_are_close_to_exact_and_grow() {
    // A year at 5%, compounded hourly, is about 5.127%.
    let hourly = Ratio::from_inner(1_000_000_000_000_000_000 + 50_000_000_000_000_000 / 8_760);
    let year = hourly.checked_pow(8_760).unwrap().into_inner();
    assert!(year > 1_051_260_000_000_000_000 && year < 1_051_280_000_000_000_000);
    // Rounding loses less than one part in 10^18 for each factor.
    let third = Ratio::from_inner(1_333_333_333_333_333_333);
    let cube = third.checked_pow(3).unwrap().into_inner();
    assert!(cube <= 2_370_370_370_370_370_368 && cube > 2_370_370_370_370_370_368 - 8);
    let mut last = Ratio::one().into_inner();
    for n in 0..200u128 {
        let next = hourly.checked_pow(n).unwrap().into_inner();
        assert!(next >= last);
        last = next;
    }
    assert_eq!(hourly.checked_pow(0), Some(Ratio::one()));
    assert_eq!(hourly.checked_pow(1), Some(hourly));
    assert!(third.checked_pow(7).unwrap().into_inner() > hourly.checked_pow(7).unwrap().into_inner());
}

#[test]
fn limits_divide_the_value_by_the_ratio() {
    let price = Ratio::from_basis_points(25_000);
    assert_eq!(share(price, 100), Some(250));
    assert_eq!(debt_limit(Ratio::from_basis_points(15_000), price, 100), Some(166));
    assert_eq!(debt_limit(Ratio::from_basis_points(12_000), price, 100), Some(208));
    assert_eq!(debt_limit(Ratio::from_inner(0), price, 100), None);
    assert_eq!(share(Ratio::from_integer(2), u64::MAX), None);
    assert_eq!(debt_limit(Ratio::from_basis_points(5_000), Ratio::one(), u64::MAX), None);
}

#[test]
fn least_bid_adds_the_fee() {
    assert_eq!(min_bid(Ratio::from_basis_points(100), 1_000), Some(1_010));
    assert_eq!(min_bid(Ratio::from_basis_points(100), 99), Some(99));
    assert_eq!(min_bid(Ratio::from_basis_points(100), u64::MAX), None);
    assert_eq!(min_bid(Ratio::from_inner(0), u64::MAX), Some(u64::MAX));
}

#[test]
fn interest_compounds_by_whole_hours() {
    let rate = Ratio::from_basis_points(500);
    let hour = MILLISECONDS_PER_HOUR;
    let same = |debt: u64, last: u64| Some(Accrual {
        debt_balance: debt,
        total_interest_accrued: 7,
        last_interest_accrued_at: last,
        interest: 0,
    });
    // Time has not moved, or not by an hour.
    assert_eq!(accrue(1_000, 7, 50, rate, 50), same(1_000, 50));
    assert_eq!(accrue(1_000, 7, 50, rate, 49), same(1_000, 50));
    assert_eq!(accrue(1_000, 7, 50, rate, 50 + hour - 1), same(1_000, 50));
    // Without debt or a rate only the time moves.
    assert_eq!(accrue(0, 7, 50, rate, 60), same(0, 60));
    assert_eq!(accrue(1_000, 7, 50, Ratio::from_inner(0), 60), same(1_000, 60));
    // An hour, and an hour with a rest.
    let charged = Accrual {
        debt_balance: 10_000_057_077,
        total_interest_accrued: 57_084,
        last_interest_accrued_at: 50 + hour,
        interest: 57_077,
    };
    assert_eq!(accrue(10_000_000_000, 7, 50, rate, 50 + hour), Some(charged));
    assert_eq!(accrue(10_000_000_000, 7, 50, rate, 50 + 2 * hour - 1), Some(charged));
    // Accruing again at that time changes nothing.
    assert_eq!(
        accrue(charged.debt_balance, charged.total_interest_accrued, charged.last_interest_accrued_at, rate, 50 + hour),
        Some(Accrual { interest: 0, ..charged })
    );
    // The debt is held at the largest balance; the total of interest is not.
    let full = accrue(u64::MAX, 0, 0, rate, hour).unwrap();
    assert_eq!((full.debt_balance, full.interest), (u64::MAX, 0));
    assert_eq!(accrue(10_000_000_000, u64::MAX, 0, rate, hour), None);
    // A growth that does not fit is refused.
    assert_eq!(accrue(1, 0, 0, Ratio::from_inner(u128::MAX), 100 * hour), None);
}

#[test]
fn accrual_time_is_weighted_by_debt() {
    assert_eq!(weigh_time(100, 3, 200, 1), Some(125));
    assert_eq!(weigh_time(100, 0, 200, 1), Some(100));
    assert_eq!(weigh_time(100, 3, 200, 0), Some(100));
    assert_eq!(weigh_time(0, u64::MAX, 1, 1), None);
    assert_eq!(weigh_time(u64::MAX, u64::MAX - 1, u64::MAX, 1), Some(u64::MAX));
}

#[test]
fn mappings_keep_one_value_per_key() {
    let mut m: Mapping<(AccountId, u32), u64> = Mapping::new();
    let a = AccountId([1; 32]);
    let b = AccountId([2; 32]);
    assert_eq!(m.get(&(a, 0)), None);
    m.insert((a, 0), 5);
    m.insert((b, 0), 6);
    m.insert((a, 1), 7);
    m.insert((a, 0), 8);
    assert_eq!(m.get(&(a, 0)), Some(&8));
    assert_eq!(m.get(&(b, 0)), Some(&6));
    assert!(m.contains(&(a, 1)));
    assert_eq!(m.remove(&(a, 0)), Some(8));
    assert_eq!(m.remove(&(a, 0)), None);
    assert_eq!(m.get(&(a, 1)), Some(&7));
    assert_eq!(m.get(&(b, 0)), Some(&6));
    let mut entries = m.entries().clone();
    entries.sort_by_key(|e| e.1);
    assert_eq!(entries, vec![((b, 0), 6), ((a, 1), 7)]);
}

#[test]
fn lists_keep_their_order() {
    let mut v: StorageVec<u64> = StorageVec::new();
    assert_eq!(v.len(), 0);
    assert_eq!(v.get(0), None);
    v.push(4);
    v.push(9);
    assert_eq!(v.len(), 2);
    assert_eq!(v.get(1), Some(&9));
    assert_eq!(v.get(2), None);
}
