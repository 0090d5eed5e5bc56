use tusdt::account::AccountId;
use tusdt::host::Context;
use tusdt::ratio::Ratio;
use tusdt::storage::Mapping;
use tusdt::vault::{Error, TusdtVault, Vault, VaultParams};

const HOUR: u64 = 3_600_000;

fn owner() -> AccountId {
    AccountId([1; 32])
}

fn ctx(now: u64) -> Context {
    Context { caller: owner(), contract: AccountId([9; 32]), now, transferred_value: 0 }
}

/// The default ratios, and caps around 1_000.
fn native_vault() -> TusdtVault {
    TusdtVault {
        params: VaultParams {
            collateral_ratio: Ratio::from_basis_points(15_000),
            liquidation_ratio: Ratio::from_basis_points(12_000),
            interest_rate: Ratio::from_basis_points(500),
            liquidation_fee: Ratio::from_basis_points(100),
            min_vault_collateral: 100,
            max_vault_collateral: 1_000,
            max_total_collateral: 1_500,
        },
        total_collateral_balance: 0,
        vaults: Mapping::new(),
        owner_total_debt: Mapping::new(),
        liquidation_auctions: Mapping::new(),
    }
}

fn record(debt: u64) -> Vault {
    Vault {
        id: 0,
        owner: owner(),
        collateral_balance: 600,
        borrowed_token_balance: debt,
        debt_balance: debt,
        total_interest_accrued: 0,
        created_at: 0,
        last_interest_accrued_at: 0,
    }
}

#[test]
fn records_are_loaded_unless_in_liquidation() {
    let mut v = native_vault();
    assert_eq!(v.load_vault(owner(), 0), Err(Error::VaultNotFound));
    assert_eq!(v.load_caller_vault(&ctx(0), 0), Err(Error::VaultNotFound));
    v.save_vault(owner(), 0, &record(5)).unwrap();
    assert_eq!(v.load_vault(owner(), 0), Ok(record(5)));
    assert_eq!(v.load_caller_vault(&ctx(0), 0), Ok((owner(), record(5))));
    assert_eq!(v.ensure_not_in_liquidation(owner(), 0), Ok(()));
    v.liquidation_auctions.insert((owner(), 0), 3);
    assert_eq!(v.ensure_not_in_liquidation(owner(), 0), Err(Error::VaultInLiquidation));
    assert_eq!(v.load_caller_vault(&ctx(0), 0), Err(Error::VaultInLiquidation));
    assert_eq!(v.load_vault(owner(), 0), Ok(record(5)));
}

#[test]
fn saving_keeps_the_owners_total() {
    let mut v = native_vault();
    v.save_vault(owner(), 0, &record(5)).unwrap();
    v.save_vault(owner(), 1, &record(7)).unwrap();
    assert_eq!(v.owner_total_debt.get(&owner()), Some(&12));
    v.save_vault(owner(), 0, &record(2)).unwrap();
    assert_eq!(v.owner_total_debt.get(&owner()), Some(&9));
    assert_eq!(v.save_vault(owner(), 0, &record(u64::MAX)), Err(Error::ArithmeticError));
    assert_eq!(v.load_vault(owner(), 0), Ok(record(2)));
    assert_eq!(v.owner_total_debt.get(&owner()), Some(&9));
    assert_eq!(v.sync_owner_total_debt(owner(), 10, 0), Err(Error::ArithmeticError));
}

#[test]
fn risk_limits_follow_the_ratios() {
    let v = native_vault();
    let price = Ratio::from_basis_points(20_000);
    assert_eq!(TusdtVault::collateral_value(price, 600), Ok(1_200));
    assert_eq!(v.max_borrow_allowed(price, 600), Ok(800));
    assert_eq!(v.liquidation_limit(price, 600), Ok(1_000));
    assert_eq!(v.is_liquidatable(price, &record(1_000)), Ok(false));
    assert_eq!(v.is_liquidatable(price, &record(1_001)), Ok(true));
    assert_eq!(v.liquidation_min_bid(1_000), Ok(1_010));
    assert_eq!(v.liquidation_min_bid(u64::MAX), Err(Error::ArithmeticError));
    assert_eq!(TusdtVault::collateral_value(price, u64::MAX), Err(Error::ArithmeticError));
    assert_eq!(v.max_borrow_allowed(price, u64::MAX), Err(Error::ArithmeticError));
    let full = Vault { collateral_balance: u64::MAX, ..record(1) };
    assert_eq!(v.is_liquidatable(price, &full), Err(Error::ArithmeticError));
}

#[test]
fn collateral_keeps_within_its_bounds() {
    let mut v = native_vault();
    assert_eq!(v.ensure_collateral_bounds(500, 0), Err(Error::InsufficientCollateral));
    assert_eq!(v.ensure_collateral_bounds(0, 99), Err(Error::InsufficientCollateral));
    assert_eq!(v.ensure_collateral_bounds(0, 100), Ok((100, 100)));
    assert_eq!(v.ensure_collateral_bounds(400, 600), Ok((1_000, 600)));
    assert_eq!(v.ensure_collateral_bounds(400, 601), Err(Error::CollateralCapExceeded));
    assert_eq!(v.ensure_collateral_bounds(1, u64::MAX), Err(Error::ArithmeticError));
    v.total_collateral_balance = 1_000;
    assert_eq!(v.ensure_collateral_bounds(400, 500), Ok((900, 1_500)));
    assert_eq!(v.ensure_collateral_bounds(400, 501), Err(Error::CollateralCapExceeded));
    v.total_collateral_balance = u64::MAX;
    assert_eq!(v.ensure_collateral_bounds(400, 1), Err(Error::ArithmeticError));
}

#[test]
fn interest_grows_a_record() {
    let v = native_vault();
    let mut r = record(10_000_000_000);
    assert_eq!(v.accrue_interest_for_vault(&ctx(HOUR - 1), &mut r), Ok(0));
    assert_eq!(r, record(10_000_000_000));
    assert_eq!(v.accrue_interest_for_vault(&ctx(2 * HOUR + 9), &mut r), Ok(114_155));
    assert_eq!(r.debt_balance, 10_000_114_155);
    assert_eq!(r.total_interest_accrued, 114_155);
    assert_eq!(r.last_interest_accrued_at, 2 * HOUR);
    r.total_interest_accrued = u64::MAX;
    let before = r;
    assert_eq!(
        v.accrue_interest_for_vault(&ctx(4 * HOUR), &mut r),
        Err(Error::ArithmeticError)
    );
    assert_eq!(r, before);
}

#[test]
fn accrual_without_debt_rate_or_time_changes_nothing() {
    let mut v = native_vault();
    let mut idle = record(0);
    idle.last_interest_accrued_at = 7;
    let before = idle;
    assert_eq!(v.accrue_interest_for_vault(&ctx(5 * HOUR), &mut idle), Ok(0));
    assert_eq!(idle, before);

    let mut r = record(10_000_000_000);
    r.last_interest_accrued_at = 3 * HOUR;
    let before = r;
    assert_eq!(v.accrue_interest_for_vault(&ctx(3 * HOUR), &mut r), Ok(0));
    assert_eq!(v.accrue_interest_for_vault(&ctx(HOUR), &mut r), Ok(0));
    assert_eq!(r, before);

    v.params.interest_rate = Ratio::from_basis_points(0);
    assert_eq!(v.accrue_interest_for_vault(&ctx(50 * HOUR), &mut r), Ok(0));
    assert_eq!(r, before);
}

#[test]
fn a_new_borrow_moves_the_accrual_time() {
    let v = native_vault();
    let mut r = record(300);
    v.adjust_last_interest_accrued_at_for_new_borrow(&ctx(1_000), &mut r, 100).unwrap();
    assert_eq!(r.last_interest_accrued_at, 250);
    assert_eq!(
        v.adjust_last_interest_accrued_at_for_new_borrow(&ctx(1_000), &mut r, u64::MAX),
        Err(Error::ArithmeticError)
    );
    assert_eq!(r.last_interest_accrued_at, 250);
}
