//! The vault for native collateral: its records, its risk rules and its interest.
use vstd::prelude::*;
use crate::account::{AccountId, Balance};
use crate::fixed_point::is_floor;
use crate::host::Context;
use crate::lending::{
    accrue, accrued, debt_limit, debt_limit_of, grown_debt, min_bid, min_bid_of, share, share_of,
    weigh_time, weighted_time,
};
use crate::lending_laws::{
    law_accrual_charges_whole_hours, law_collateral_bears_debt, law_debt_limit_is_exact,
    law_least_bid_is_exact, law_share_is_exact, law_weighted_time_is_the_average,
};
use crate::ratio::Ratio;
use crate::storage::Mapping;

verus! {

/// A user's record: collateral held, principal borrowed, accrued debt, and times.
#[derive(Debug, Clone, Copy, PartialEq, Eq)]
pub struct Vault {
    pub id: u32,
    pub owner: AccountId,
    pub collateral_balance: Balance,
    pub borrowed_token_balance: Balance,
    pub debt_balance: Balance,
    pub total_interest_accrued: Balance,
    pub created_at: u64,
    pub last_interest_accrued_at: u64,
}

/// The vault's risk parameters.
#[derive(Debug, Clone, Copy, PartialEq, Eq)]
pub struct VaultParams {
    pub collateral_ratio: Ratio,
    pub liquidation_ratio: Ratio,
    pub interest_rate: Ratio,
    pub liquidation_fee: Ratio,
    pub min_vault_collateral: Balance,
    pub max_vault_collateral: Balance,
    pub max_total_collateral: Balance,
}

/// Errors returned by the vault.
#[derive(Debug, Clone, Copy, PartialEq, Eq, Structural)]
pub enum Error {
    VaultNotFound,
    VaultInLiquidation,
    InsufficientCollateral,
    CollateralCapExceeded,
    ArithmeticError,
}

/// The vault's contents.
#[verifier::ext_equal]
pub struct VaultState {
    pub params: VaultParams,
    pub total_collateral_balance: Balance,
    pub vaults: Map<(AccountId, u32), Vault>,
    pub owner_total_debt: Map<AccountId, Balance>,
    pub liquidation_auctions: Map<(AccountId, u32), u32>,
}

/// An absent number is an arithmetic error.
pub open spec fn or_arithmetic<T>(v: Option<T>) -> Result<T, Error> {
    match v {
        Some(x) => Ok(x),
        None => Err(Error::ArithmeticError),
    }
}

fn ok_or_arithmetic<T>(v: Option<T>) -> (r: Result<T, Error>)
    ensures
        r == or_arithmetic(v),
{
    match v {
        Some(x) => Ok(x),
        None => Err(Error::ArithmeticError),
    }
}

/// The debt of all of an owner's vaults.
pub open spec fn total_debt(s: VaultState, owner: AccountId) -> Balance {
    if s.owner_total_debt.contains_key(owner) {
        s.owner_total_debt[owner]
    } else {
        0
    }
}

/// The debt of a stored vault; none before it is stored.
pub open spec fn stored_debt(s: VaultState, owner: AccountId, vault_id: u32) -> Balance {
    if s.vaults.contains_key((owner, vault_id)) {
        s.vaults[(owner, vault_id)].debt_balance
    } else {
        0
    }
}

/// An owner's debt after one vault's debt becomes `next`.
pub open spec fn synced_debt(s: VaultState, owner: AccountId, previous: Balance, next: Balance) ->
    Option<Balance> {
    if total_debt(s, owner) < previous {
        None
    } else if total_debt(s, owner) - previous + next > Balance::MAX {
        None
    } else {
        Some((total_debt(s, owner) - previous + next) as Balance)
    }
}

/// Whether a collateral addition keeps within the bounds of a vault and of all vaults; the
/// balances that follow from it.
pub open spec fn bounded_addition(s: VaultState, vault_current: Balance, addition: Balance) ->
    Result<(Balance, Balance), Error> {
    let vault = vault_current + addition;
    let total = s.total_collateral_balance + addition;
    if addition == 0 {
        Err(Error::InsufficientCollateral)
    } else if vault > Balance::MAX {
        Err(Error::ArithmeticError)
    } else if vault < s.params.min_vault_collateral {
        Err(Error::InsufficientCollateral)
    } else if vault > s.params.max_vault_collateral {
        Err(Error::CollateralCapExceeded)
    } else if total > Balance::MAX {
        Err(Error::ArithmeticError)
    } else if total > s.params.max_total_collateral {
        Err(Error::CollateralCapExceeded)
    } else {
        Ok((vault as Balance, total as Balance))
    }
}

/// The vault of native collateral.
pub struct TusdtVault {
    pub params: VaultParams,
    pub total_collateral_balance: Balance,
    pub vaults: Mapping<(AccountId, u32), Vault>,
    pub owner_total_debt: Mapping<AccountId, Balance>,
    /// Running liquidation auctions by vault.
    pub liquidation_auctions: Mapping<(AccountId, u32), u32>,
}

impl View for TusdtVault {
    type V = VaultState;

    open spec fn view(&self) -> VaultState {
        VaultState {
            params: self.params,
            total_collateral_balance: self.total_collateral_balance,
            vaults: self.vaults@,
            owner_total_debt: self.owner_total_debt@,
            liquidation_auctions: self.liquidation_auctions@,
        }
    }
}

impl TusdtVault {
    /// Checks that no liquidation auction runs for a vault.
    pub fn ensure_not_in_liquidation(&self, owner: AccountId, vault_id: u32) -> (r: Result<
        (),
        Error,
    >)
        ensures
            r == (if self@.liquidation_auctions.contains_key((owner, vault_id)) {
                Err::<(), Error>(Error::VaultInLiquidation)
            } else {
                Ok(())
            }),
    {
        if self.liquidation_auctions.contains(&(owner, vault_id)) {
            return Err(Error::VaultInLiquidation);
        }
        Ok(())
    }

    /// The caller's vault, which must exist and not be in liquidation.
    pub fn load_caller_vault(&self, ctx: &Context, vault_id: u32) -> (r: Result<
        (AccountId, Vault),
        Error,
    >)
        ensures
            r == (if !self@.vaults.contains_key((ctx.caller, vault_id)) {
                Err::<(AccountId, Vault), Error>(Error::VaultNotFound)
            } else if self@.liquidation_auctions.contains_key((ctx.caller, vault_id)) {
                Err(Error::VaultInLiquidation)
            } else {
                Ok((ctx.caller, self@.vaults[(ctx.caller, vault_id)]))
            }),
    {
        let vault: Vault = match self.vaults.get(&(ctx.caller, vault_id)) {
            Some(v) => *v,
            None => {
                return Err(Error::VaultNotFound);
            },
        };
        match self.ensure_not_in_liquidation(ctx.caller, vault_id) {
            Ok(()) => Ok((ctx.caller, vault)),
            Err(e) => Err(e),
        }
    }

    /// Any owner's vault, in liquidation or not.
    pub fn load_vault(&self, owner: AccountId, vault_id: u32) -> (r: Result<Vault, Error>)
        ensures
            r == (if self@.vaults.contains_key((owner, vault_id)) {
                Ok::<Vault, Error>(self@.vaults[(owner, vault_id)])
            } else {
                Err(Error::VaultNotFound)
            }),
    {
        match self.vaults.get(&(owner, vault_id)) {
            Some(v) => Ok(*v),
            None => Err(Error::VaultNotFound),
        }
    }

    /// Stores a vault and keeps the owner's total debt in step.
    pub fn save_vault(&mut self, owner: AccountId, vault_id: u32, vault: &Vault) -> (r: Result<
        (),
        Error,
    >)
        ensures
            match synced_debt(
                old(self)@,
                owner,
                stored_debt(old(self)@, owner, vault_id),
                vault.debt_balance,
            ) {
                None => r == Err::<(), Error>(Error::ArithmeticError) && final(self)@ == old(self)@,
                Some(total) => r == Ok::<(), Error>(()) && final(self)@ == (VaultState {
                    vaults: old(self)@.vaults.insert((owner, vault_id), *vault),
                    owner_total_debt: old(self)@.owner_total_debt.insert(owner, total),
                    ..old(self)@
                }),
            },
    {
        let previous: Balance = match self.vaults.get(&(owner, vault_id)) {
            Some(v) => v.debt_balance,
            None => 0,
        };
        match self.sync_owner_total_debt(owner, previous, vault.debt_balance) {
            Ok(()) => {
                self.vaults.insert((owner, vault_id), *vault);
                Ok(())
            },
            Err(e) => Err(e),
        }
    }

    /// Replaces one vault's debt in its owner's total.
    pub fn sync_owner_total_debt(
        &mut self,
        owner: AccountId,
        previous_vault_debt: Balance,
        next_vault_debt: Balance,
    ) -> (r: Result<(), Error>)
        ensures
            match synced_debt(old(self)@, owner, previous_vault_debt, next_vault_debt) {
                None => r == Err::<(), Error>(Error::ArithmeticError) && final(self)@ == old(self)@,
                Some(total) => r == Ok::<(), Error>(()) && final(self)@ == (VaultState {
                    owner_total_debt: old(self)@.owner_total_debt.insert(owner, total),
                    ..old(self)@
                }),
            },
    {
        let current: Balance = match self.owner_total_debt.get(&owner) {
            Some(d) => *d,
            None => 0,
        };
        if current < previous_vault_debt {
            return Err(Error::ArithmeticError);
        }
        match (current - previous_vault_debt).checked_add(next_vault_debt) {
            Some(total) => {
                self.owner_total_debt.insert(owner, total);
                Ok(())
            },
            None => Err(Error::ArithmeticError),
        }
    }

    /// The value of collateral in the borrowed token.
    pub fn collateral_value(price: Ratio, collateral_balance: Balance) -> (r: Result<Balance, Error>)
        ensures
            r == or_arithmetic(share_of(price, collateral_balance)),
            r matches Ok(value) ==> is_floor(
                value as int,
                price.inner * collateral_balance,
                1_000_000_000_000_000_000,
            ),
    {
        proof {
            law_share_is_exact(price, collateral_balance);
        }
        ok_or_arithmetic(share(price, collateral_balance))
    }

    /// The most that may be borrowed against collateral: its value over the collateral ratio.
    pub fn max_borrow_allowed(&self, price: Ratio, collateral_balance: Balance) -> (r: Result<
        Balance,
        Error,
    >)
        ensures
            r == or_arithmetic(
                debt_limit_of(self@.params.collateral_ratio, price, collateral_balance),
            ),
            r matches Ok(limit) ==> forall|value: int| #[trigger]
                is_floor(value, price.inner * collateral_balance, 1_000_000_000_000_000_000)
                    ==> is_floor(
                    limit as int,
                    value * 1_000_000_000_000_000_000,
                    self@.params.collateral_ratio.inner as int,
                ),
    {
        proof {
            assert forall|value: int| #[trigger]
                is_floor(value, price.inner * collateral_balance, 1_000_000_000_000_000_000)
                    && debt_limit_of(
                    self@.params.collateral_ratio,
                    price,
                    collateral_balance,
                ) is Some implies is_floor(
                debt_limit_of(self@.params.collateral_ratio, price, collateral_balance)->0 as int,
                value * 1_000_000_000_000_000_000,
                self@.params.collateral_ratio.inner as int,
            ) by {
                law_debt_limit_is_exact(
                    self@.params.collateral_ratio,
                    price,
                    collateral_balance,
                    value,
                );
            }
        }
        ok_or_arithmetic(debt_limit(self.params.collateral_ratio, price, collateral_balance))
    }

    /// The debt above which a vault can be liquidated: its collateral's value over the
    /// liquidation ratio.
    pub fn liquidation_limit(&self, price: Ratio, collateral_balance: Balance) -> (r: Result<
        Balance,
        Error,
    >)
        ensures
            r == or_arithmetic(
                debt_limit_of(self@.params.liquidation_ratio, price, collateral_balance),
            ),
            r matches Ok(limit) ==> forall|value: int| #[trigger]
                is_floor(value, price.inner * collateral_balance, 1_000_000_000_000_000_000)
                    ==> is_floor(
                    limit as int,
                    value * 1_000_000_000_000_000_000,
                    self@.params.liquidation_ratio.inner as int,
                ),
    {
        proof {
            assert forall|value: int| #[trigger]
                is_floor(value, price.inner * collateral_balance, 1_000_000_000_000_000_000)
                    && debt_limit_of(
                    self@.params.liquidation_ratio,
                    price,
                    collateral_balance,
                ) is Some implies is_floor(
                debt_limit_of(self@.params.liquidation_ratio, price, collateral_balance)->0 as int,
                value * 1_000_000_000_000_000_000,
                self@.params.liquidation_ratio.inner as int,
            ) by {
                law_debt_limit_is_exact(
                    self@.params.liquidation_ratio,
                    price,
                    collateral_balance,
                    value,
                );
            }
        }
        ok_or_arithmetic(debt_limit(self.params.liquidation_ratio, price, collateral_balance))
    }

    /// Whether a vault's debt exceeds its liquidation limit.
    pub fn is_liquidatable(&self, price: Ratio, vault: &Vault) -> (r: Result<bool, Error>)
        ensures
            r == (match debt_limit_of(
                self@.params.liquidation_ratio,
                price,
                vault.collateral_balance,
            ) {
                Some(limit) => Ok::<bool, Error>(vault.debt_balance > limit),
                None => Err(Error::ArithmeticError),
            }),
            r matches Ok(unsafe_now) ==> forall|value: int| #[trigger]
                is_floor(value, price.inner * vault.collateral_balance, 1_000_000_000_000_000_000)
                    ==> (unsafe_now <==> vault.debt_balance * self@.params.liquidation_ratio.inner
                    > value * 1_000_000_000_000_000_000),
    {
        proof {
            assert forall|value: int| #[trigger]
                is_floor(value, price.inner * vault.collateral_balance, 1_000_000_000_000_000_000)
                    && debt_limit_of(
                    self@.params.liquidation_ratio,
                    price,
                    vault.collateral_balance,
                ) is Some implies (vault.debt_balance > debt_limit_of(
                self@.params.liquidation_ratio,
                price,
                vault.collateral_balance,
            )->0 <==> vault.debt_balance * self@.params.liquidation_ratio.inner > value
                * 1_000_000_000_000_000_000) by {
                law_collateral_bears_debt(
                    self@.params.liquidation_ratio,
                    price,
                    vault.collateral_balance,
                    value,
                    vault.debt_balance as int,
                );
            }
        }
        match self.liquidation_limit(price, vault.collateral_balance) {
            Ok(limit) => Ok(vault.debt_balance > limit),
            Err(e) => Err(e),
        }
    }

    /// The least winning bid of a liquidation auction: the debt and the liquidation fee on it.
    pub fn liquidation_min_bid(&self, debt_balance: Balance) -> (r: Result<Balance, Error>)
        ensures
            r == or_arithmetic(min_bid_of(self@.params.liquidation_fee, debt_balance)),
            r matches Ok(bid) ==> is_floor(
                bid - debt_balance,
                self@.params.liquidation_fee.inner * debt_balance,
                1_000_000_000_000_000_000,
            ),
    {
        proof {
            law_least_bid_is_exact(self.params.liquidation_fee, debt_balance);
        }
        ok_or_arithmetic(min_bid(self.params.liquidation_fee, debt_balance))
    }

    /// Holds a collateral addition against the least and the most that a vault may have and the
    /// most that all may have. On success, the vault's and the total balance that follow.
    pub fn ensure_collateral_bounds(&self, vault_current: Balance, addition: Balance) -> (r: Result<
        (Balance, Balance),
        Error,
    >)
        ensures
            r == bounded_addition(self@, vault_current, addition),
    {
        if addition == 0 {
            return Err(Error::InsufficientCollateral);
        }
        let projected_vault: Balance = match vault_current.checked_add(addition) {
            Some(v) => v,
            None => {
                return Err(Error::ArithmeticError);
            },
        };
        if projected_vault < self.params.min_vault_collateral {
            return Err(Error::InsufficientCollateral);
        }
        if projected_vault > self.params.max_vault_collateral {
            return Err(Error::CollateralCapExceeded);
        }
        let projected_total: Balance = match self.total_collateral_balance.checked_add(addition) {
            Some(t) => t,
            None => {
                return Err(Error::ArithmeticError);
            },
        };
        if projected_total > self.params.max_total_collateral {
            return Err(Error::CollateralCapExceeded);
        }
        Ok((projected_vault, projected_total))
    }

    /// Accrues hourly-compounded interest on a vault's debt: `(1 + rate / 8760)^hours` over the
    /// whole hours since the last accrual. On success, the increase in debt.
    ///
    /// Without debt, at a zero rate, or when time has not advanced past the last accrual, nothing
    /// changes.
    pub fn accrue_interest_for_vault(&self, ctx: &Context, vault: &mut Vault) -> (r: Result<
        Balance,
        Error,
    >)
        ensures
            old(vault).debt_balance == 0 || self@.params.interest_rate.inner == 0 || ctx.now
                <= old(vault).last_interest_accrued_at ==> r == Ok::<Balance, Error>(0)
                && *final(vault) == *old(vault),
            old(vault).debt_balance > 0 && self@.params.interest_rate.inner > 0 ==> match accrued(
                old(vault).debt_balance,
                old(vault).total_interest_accrued,
                old(vault).last_interest_accrued_at,
                self@.params.interest_rate,
                ctx.now,
            ) {
                None => r == Err::<Balance, Error>(Error::ArithmeticError) && *final(vault) == *old(
                    vault,
                ),
                Some(a) => r == Ok::<Balance, Error>(a.interest) && *final(vault) == (Vault {
                    debt_balance: a.debt_balance,
                    total_interest_accrued: a.total_interest_accrued,
                    last_interest_accrued_at: a.last_interest_accrued_at,
                    ..*old(vault)
                }),
            },
            old(vault).debt_balance > 0 && self@.params.interest_rate.inner > 0 && ctx.now > old(
                vault,
            ).last_interest_accrued_at && r is Ok ==> forall|hours: nat| #[trigger]
                is_floor(
                    hours as int,
                    ctx.now - old(vault).last_interest_accrued_at,
                    3_600_000,
                ) && hours > 0 ==> grown_debt(
                    old(vault).debt_balance,
                    self@.params.interest_rate,
                    hours,
                ) == Some(final(vault).debt_balance) && final(vault).last_interest_accrued_at == old(
                    vault,
                ).last_interest_accrued_at + hours * 3_600_000,
    {
        proof {
            let v = *old(vault);
            let rate = self.params.interest_rate;
            assert forall|hours: nat| #[trigger]
                is_floor(hours as int, ctx.now - v.last_interest_accrued_at, 3_600_000) && hours > 0
                    && v.debt_balance > 0 && rate.inner > 0 && ctx.now > v.last_interest_accrued_at
                    && accrued(
                    v.debt_balance,
                    v.total_interest_accrued,
                    v.last_interest_accrued_at,
                    rate,
                    ctx.now,
                ) is Some implies ({
                let a = accrued(
                    v.debt_balance,
                    v.total_interest_accrued,
                    v.last_interest_accrued_at,
                    rate,
                    ctx.now,
                )->0;
                grown_debt(v.debt_balance, rate, hours) == Some(a.debt_balance)
                    && a.last_interest_accrued_at == v.last_interest_accrued_at + hours * 3_600_000
            }) by {
                law_accrual_charges_whole_hours(
                    v.debt_balance,
                    v.total_interest_accrued,
                    v.last_interest_accrued_at,
                    rate,
                    ctx.now,
                    hours,
                );
            }
        }
        if vault.debt_balance == 0 || self.params.interest_rate.is_zero() {
            return Ok(0);
        }
        match accrue(
            vault.debt_balance,
            vault.total_interest_accrued,
            vault.last_interest_accrued_at,
            self.params.interest_rate,
            ctx.now,
        ) {
            Some(a) => {
                vault.debt_balance = a.debt_balance;
                vault.total_interest_accrued = a.total_interest_accrued;
                vault.last_interest_accrued_at = a.last_interest_accrued_at;
                Ok(a.interest)
            },
            None => Err(Error::ArithmeticError),
        }
    }

    /// Moves the time of accrual to the debt-weighted average of itself and now when a new borrow
    /// joins an older debt in the middle of an hour.
    pub fn adjust_last_interest_accrued_at_for_new_borrow(
        &self,
        ctx: &Context,
        vault: &mut Vault,
        amount: Balance,
    ) -> (r: Result<(), Error>)
        ensures
            match weighted_time(
                old(vault).last_interest_accrued_at,
                old(vault).debt_balance,
                ctx.now,
                amount,
            ) {
                None => r == Err::<(), Error>(Error::ArithmeticError) && *final(vault) == *old(
                    vault,
                ),
                Some(t) => r == Ok::<(), Error>(()) && *final(vault) == (Vault {
                    last_interest_accrued_at: t,
                    ..*old(vault)
                }),
            },
            r is Ok && old(vault).debt_balance > 0 && amount > 0 ==> is_floor(
                final(vault).last_interest_accrued_at as int,
                old(vault).last_interest_accrued_at * old(vault).debt_balance + ctx.now * amount,
                old(vault).debt_balance + amount,
            ),
    {
        proof {
            law_weighted_time_is_the_average(
                vault.last_interest_accrued_at,
                vault.debt_balance,
                ctx.now,
                amount,
            );
        }
        match weigh_time(vault.last_interest_accrued_at, vault.debt_balance, ctx.now, amount) {
            Some(t) => {
                vault.last_interest_accrued_at = t;
                Ok(())
            },
            None => Err(Error::ArithmeticError),
        }
    }
}

/// What may be borrowed at a price is not liquidatable at that price, as long as the liquidation
/// ratio does not exceed the collateral ratio.
pub proof fn law_allowed_debt_is_safe(s: VaultState, price: Ratio, vault: Vault)
    requires
        0 < s.params.liquidation_ratio.inner <= s.params.collateral_ratio.inner,
        debt_limit_of(s.params.liquidation_ratio, price, vault.collateral_balance) is Some,
        debt_limit_of(s.params.collateral_ratio, price, vault.collateral_balance) matches Some(max)
            && vault.debt_balance <= max,
    ensures
        vault.debt_balance <= debt_limit_of(
            s.params.liquidation_ratio,
            price,
            vault.collateral_balance,
        )->0,
{
    crate::lending::law_stricter_ratio_bears_less(
        s.params.collateral_ratio,
        s.params.liquidation_ratio,
        price,
        vault.collateral_balance,
    );
}

/// Storing a vault moves its owner's total by exactly the change of that vault's debt, so that a
/// total which is the sum of the owner's debts stays so; other owners' totals stay.
pub proof fn law_save_keeps_total_in_step(
    s: VaultState,
    owner: AccountId,
    vault_id: u32,
    vault: Vault,
    other: AccountId,
)
    requires
        synced_debt(s, owner, stored_debt(s, owner, vault_id), vault.debt_balance) is Some,
        other != owner,
    ensures
        ({
            let t = VaultState {
                vaults: s.vaults.insert((owner, vault_id), vault),
                owner_total_debt: s.owner_total_debt.insert(
                    owner,
                    synced_debt(s, owner, stored_debt(s, owner, vault_id), vault.debt_balance)->0,
                ),
                ..s
            };
            &&& total_debt(t, owner) - stored_debt(t, owner, vault_id) == total_debt(s, owner)
                - stored_debt(s, owner, vault_id)
            &&& total_debt(t, other) == total_debt(s, other)
        }),
{
}

/// An accepted addition keeps a vault and the total within their caps, and both grow by it.
pub proof fn law_addition_within_caps(s: VaultState, vault_current: Balance, addition: Balance)
    requires
        bounded_addition(s, vault_current, addition) is Ok,
    ensures
        ({
            let (vault, total) = bounded_addition(s, vault_current, addition)->Ok_0;
            &&& vault == vault_current + addition
            &&& total == s.total_collateral_balance + addition
            &&& s.params.min_vault_collateral <= vault <= s.params.max_vault_collateral
            &&& total <= s.params.max_total_collateral
        }),
{
}

/// An addition is accepted exactly when it adds something and leaves the vault between the least
/// and the most that one may have, and all vaults at most at the most that all may have. The
/// first bound that it breaks is the reason to refuse it.
pub proof fn law_addition_is_accepted_exactly_when(
    s: VaultState,
    vault_current: Balance,
    addition: Balance,
)
    ensures
        ({
            let r = bounded_addition(s, vault_current, addition);
            let vault = vault_current + addition;
            let total = s.total_collateral_balance + addition;
            &&& addition > 0 && s.params.min_vault_collateral <= vault
                <= s.params.max_vault_collateral && total <= s.params.max_total_collateral ==> r
                == Ok::<(Balance, Balance), Error>((vault as Balance, total as Balance))
            &&& addition == 0 ==> r == Err::<(Balance, Balance), Error>(
                Error::InsufficientCollateral,
            )
            &&& addition > 0 && vault < s.params.min_vault_collateral ==> r == Err::<
                (Balance, Balance),
                Error,
            >(Error::InsufficientCollateral)
            &&& addition > 0 && s.params.min_vault_collateral <= vault <= u64::MAX && vault
                > s.params.max_vault_collateral ==> r == Err::<(Balance, Balance), Error>(
                Error::CollateralCapExceeded,
            )
            &&& addition > 0 && s.params.min_vault_collateral <= vault
                <= s.params.max_vault_collateral && total <= u64::MAX && total
                > s.params.max_total_collateral ==> r == Err::<(Balance, Balance), Error>(
                Error::CollateralCapExceeded,
            )
            &&& vault > u64::MAX ==> r == Err::<(Balance, Balance), Error>(Error::ArithmeticError)
        }),
{
}

/// An owner's debt follows exactly the change of one vault's debt, wherever it can.
pub proof fn law_total_debt_follows(
    s: VaultState,
    owner: AccountId,
    previous: Balance,
    next: Balance,
)
    ensures
        ({
            let before = if s.owner_total_debt.contains_key(owner) {
                s.owner_total_debt[owner] as int
            } else {
                0
            };
            match synced_debt(s, owner, previous, next) {
                Some(after) => after == before - previous + next && previous <= before,
                None => previous > before || before - previous + next > u64::MAX,
            }
        }),
{
}

/// A number that is absent is an arithmetic error, and one that is there is the result.
pub proof fn law_absent_is_arithmetic_error(v: Option<Balance>)
    ensures
        match v {
            Some(x) => or_arithmetic(v) == Ok::<Balance, Error>(x),
            None => or_arithmetic(v) == Err::<Balance, Error>(Error::ArithmeticError),
        },
{
}

} // verus!
