//! The alpha vault's rules as relations: when a debt is borne, when a vault can be liquidated,
//! what interest is charged, and which price counts.
use vstd::prelude::*;
use crate::account::{AccountId, Balance};
use crate::fixed_point::{is_floor, lemma_division_rounds_down};
use crate::host::{
    fail, law_writes_run_in_order, progress, Call, Context, Reply, StakeInfo, Step, Write,
};
use crate::lending::grown_debt;
use crate::lending_laws::{
    law_accrual_charges_whole_hours, law_collateral_bears_debt, law_least_bid_is_exact,
    law_rao_are_billionths, law_share_is_exact,
};
use crate::peers::{AuctionRecord, PriceData};
use crate::ratio::Ratio;
use crate::trace::lemma_failed_write;
use crate::vault_alpha::{
    ContractParamsUpdateCancelled, ContractParamsUpdateScheduled, ContractParamsUpdated, Error,
    Event, GlobalParamsUpdateCancelled, GlobalParamsUpdateScheduled, GlobalParamsUpdated,
    PendingContractParamsUpdate, PendingGlobalParamsUpdate, Vault, VaultContractParams,
    VaultContractParamsConfig, VaultGlobalParams, VaultGlobalParamsConfig,
};
use crate::vault_alpha_model::{
    accrue_result, add_step, borrow_step, borrow_writes, can_save, can_take_out,
    cancel_globals_result, cancel_params_result, child_governance_writes, claim_excess_next,
    claim_excess_step, claim_surplus_step, config_of, create_step, default_globals, default_params,
    execute_globals_result, execute_params_result, fee_of, global_config_of, globals_cancelled,
    globals_executed, globals_of, globals_scheduled, initial_alpha_state, liquidatable, page_bounds,
    paid, params_cancelled, params_executed, params_of, params_on, params_scheduled, price_step,
    priced_read, release_step, repay_step, repay_writes, schedule_result, settle_step,
    settle_writes, to_bps, token_transfer, trigger_step, update_governance_step, with_interest,
    AlphaState,
};

verus! {

/// Whether `p` are the parameters in force on a subnet: those that were set for it, else a
/// collateral ratio of 150%, a liquidation ratio of 120%, 5% of interest a year and a liquidation
/// fee of 1%.
pub open spec fn in_force(s: AlphaState, netuid: u16, p: VaultContractParams) -> bool {
    if s.netuid_params.contains_key(netuid) {
        p == s.netuid_params[netuid]
    } else {
        &&& p.collateral_ratio.inner == 1_500_000_000_000_000_000
        &&& p.liquidation_ratio.inner == 1_200_000_000_000_000_000
        &&& p.interest_rate.inner == 50_000_000_000_000_000
        &&& p.liquidation_fee.inner == 10_000_000_000_000_000
    }
}

proof fn lemma_in_force(s: AlphaState, netuid: u16, p: VaultContractParams)
    requires
        in_force(s, netuid, p),
    ensures
        p == params_on(s, netuid),
{
}

/// Whether collateral worth `value` has a debt limit at a ratio.
pub open spec fn has_limit(ratio: Ratio, value: int) -> bool {
    &&& ratio.inner > 0
    &&& value <= 0xffff_ffff_ffff_ffff
    &&& value * 1_000_000_000_000_000_000 < 0x1_0000_0000_0000_0000int * ratio.inner
}

/// A vault can be liquidated exactly when its debt exceeds its collateral's value divided by the
/// liquidation ratio in force on its subnet.
pub proof fn law_liquidatable_exactly_when(
    s: AlphaState,
    price: Ratio,
    v: Vault,
    p: VaultContractParams,
    value: int,
)
    requires
        s.netuid_params.contains_key(v.netuid) ==> p == s.netuid_params[v.netuid],
        !s.netuid_params.contains_key(v.netuid) ==> p.liquidation_ratio.inner
            == 1_200_000_000_000_000_000,
        value * 1_000_000_000_000_000_000 <= price.inner * v.collateral_balance < (value + 1)
            * 1_000_000_000_000_000_000,
    ensures
        ({
            let ratio = p.liquidation_ratio.inner as int;
            let fits = ratio > 0 && value <= 0xffff_ffff_ffff_ffff && value
                * 1_000_000_000_000_000_000 < 0x1_0000_0000_0000_0000int * ratio;
            &&& fits ==> liquidatable(s, price, v) == Ok::<bool, Error>(
                v.debt_balance * ratio > value * 1_000_000_000_000_000_000,
            )
            &&& !fits ==> liquidatable(s, price, v) == Err::<bool, Error>(Error::ArithmeticError)
        }),
{
    assert(p.liquidation_ratio == params_on(s, v.netuid).liquidation_ratio);
    assert(is_floor(value, price.inner * v.collateral_balance, 1_000_000_000_000_000_000));
    law_collateral_bears_debt(
        p.liquidation_ratio,
        price,
        v.collateral_balance,
        value,
        v.debt_balance as int,
    );
}

/// Whether `price` is the price of a subnet's alpha in TUSDT by the two readings: the oracle's
/// price, committed in the past and not longer ago than allowed, times the chain's price in rao.
pub open spec fn priced(s: AlphaState, ctx: Context, replies: Seq<Reply>, price: Ratio) -> bool {
    &&& replies.len() >= 2
    &&& replies[0] is Price
    &&& replies[0]->Price_0 is Some
    &&& replies[1] is Amount
    &&& ({
        let data = replies[0]->Price_0->0;
        let rao = replies[1]->Amount_0;
        &&& data.committed_at <= ctx.now
        &&& ctx.now - data.committed_at <= s.global_params.max_oracle_age_ms
        &&& data.price.inner > 0
        &&& is_floor(
            price.inner as int,
            data.price.inner * (rao * 1_000_000_000),
            1_000_000_000_000_000_000,
        )
    })
}

/// The price of a subnet's alpha comes from the oracle and from the chain, in that order.
pub proof fn law_price_is_read(
    s: AlphaState,
    ctx: Context,
    netuid: u16,
    replies: Seq<Reply>,
    price: Ratio,
)
    ensures
        replies.len() == 0 ==> price_step(s, ctx, netuid, replies, 0) == Step::<Ratio, Error>::Call(
            Call::OracleLatestPrice { oracle: s.oracle },
        ),
        priced(s, ctx, replies, price) ==> {
            &&& price_step(s, ctx, netuid, replies, 0) == Step::<Ratio, Error>::Done(Ok(price))
            &&& price_step(s, ctx, netuid, replies.take(1), 0) == Step::<Ratio, Error>::Call(
                Call::AlphaPrice { netuid },
            )
        },
        price_step(s, ctx, netuid, replies, 0) == Step::<Ratio, Error>::Done(Ok(price)) ==> (
        replies[0] is Price ==> priced(s, ctx, replies, price)),
{
    if replies.len() >= 2 && replies[0] is Price && replies[0]->Price_0 is Some
        && replies[1] is Amount {
        let data = replies[0]->Price_0->0;
        let rao = replies[1]->Amount_0;
        law_rao_are_billionths(rao);
        let product = data.price.inner * (rao * 1_000_000_000);
        assert(product >= 0) by (nonlinear_arith)
            requires
                product == data.price.inner * (rao * 1_000_000_000),
                data.price.inner >= 0,
                rao >= 0,
        ;
        lemma_division_rounds_down(product, 1_000_000_000_000_000_000);
        assert(replies.take(1)[0] == replies[0]);
    }
}

/// Why a price is not accepted.
pub proof fn law_price_refusals(
    s: AlphaState,
    ctx: Context,
    netuid: u16,
    replies: Seq<Reply>,
    data: PriceData,
)
    ensures
        ({
            let r = price_step(s, ctx, netuid, replies, 0);
            let fresh = data.committed_at <= ctx.now && ctx.now - data.committed_at
                <= s.global_params.max_oracle_age_ms;
            &&& replies.len() > 0 && replies[0] == Reply::Price(None) ==> r == fail::<Ratio, Error>(
                Error::OraclePriceUnavailable,
            )
            &&& replies.len() > 0 && replies[0] == Reply::Price(Some(data)) ==> {
                &&& !fresh ==> r == fail::<Ratio, Error>(Error::OraclePriceStale)
                &&& fresh && data.price.inner == 0 ==> r == fail::<Ratio, Error>(
                    Error::OraclePriceUnavailable,
                )
                &&& fresh && data.price.inner > 0 && replies.len() == 1 ==> r == Step::<
                    Ratio,
                    Error,
                >::Call(Call::AlphaPrice { netuid })
                &&& fresh && data.price.inner > 0 && replies.len() > 1 && !(replies[1] is Amount)
                    ==> r == fail::<Ratio, Error>(Error::ChainExtensionFailed)
            }
        }),
{
}

/// A liquidation is refused exactly when the vault's debt, interest included, is at most its
/// collateral's value divided by the liquidation ratio in force: for every such debt the answer is
/// that it cannot be liquidated, and for every larger one the liquidation goes ahead.
pub proof fn law_liquidation_goes_ahead_exactly_when(
    s: AlphaState,
    ctx: Context,
    owner: AccountId,
    vault_id: u32,
    replies: Seq<Reply>,
    v: Vault,
    p: VaultContractParams,
    price: Ratio,
    value: int,
)
    requires
        !s.paused,
        !s.liquidation_auctions.contains_key((owner, vault_id)),
        s.vaults.contains_key((owner, vault_id)),
        with_interest(s, ctx, s.vaults[(owner, vault_id)]) == Ok::<Vault, Error>(v),
        replies.len() == 2,
        priced(s, ctx, replies, price),
        s.netuid_params.contains_key(v.netuid) ==> p == s.netuid_params[v.netuid],
        !s.netuid_params.contains_key(v.netuid) ==> p.liquidation_ratio.inner
            == 1_200_000_000_000_000_000,
        value * 1_000_000_000_000_000_000 <= price.inner * v.collateral_balance < (value + 1)
            * 1_000_000_000_000_000_000,
        p.liquidation_ratio.inner > 0,
        value <= 0xffff_ffff_ffff_ffff,
        value * 1_000_000_000_000_000_000 < 0x1_0000_0000_0000_0000int * p.liquidation_ratio.inner,
    ensures
        v.debt_balance * p.liquidation_ratio.inner <= value * 1_000_000_000_000_000_000
            ==> trigger_step(s, ctx, owner, vault_id, replies) == fail::<u32, Error>(
            Error::NotLiquidatable,
        ),
        v.debt_balance * p.liquidation_ratio.inner > value * 1_000_000_000_000_000_000
            ==> trigger_step(s, ctx, owner, vault_id, replies) == Step::<u32, Error>::Call(
            Call::NativeBalance,
        ),
{
    law_price_is_read(s, ctx, v.netuid, replies, price);
    law_liquidatable_exactly_when(s, price, v, p, value);
}

/// Interest is charged at the rate in force on the vault's subnet: after `hours >= 1` whole hours
/// a debt has grown to `grown_debt` at that rate, the interest on record has grown by the same,
/// and the clock has moved past those hours. Nothing else of the vault changes.
pub proof fn law_interest_at_the_rate_in_force(
    s: AlphaState,
    ctx: Context,
    v: Vault,
    p: VaultContractParams,
    hours: nat,
)
    requires
        s.netuid_params.contains_key(v.netuid) ==> p == s.netuid_params[v.netuid],
        !s.netuid_params.contains_key(v.netuid) ==> p.interest_rate.inner == 50_000_000_000_000_000,
        v.last_interest_accrued_at < ctx.now,
        hours * 3_600_000 <= ctx.now - v.last_interest_accrued_at < (hours + 1) * 3_600_000,
        hours >= 1,
        v.debt_balance > 0,
        p.interest_rate.inner > 0,
    ensures
        match with_interest(s, ctx, v) {
            Ok(w) => {
                &&& grown_debt(v.debt_balance, p.interest_rate, hours) == Some(w.debt_balance)
                &&& w.total_interest_accrued == v.total_interest_accrued + (w.debt_balance
                    - v.debt_balance)
                &&& w.last_interest_accrued_at == v.last_interest_accrued_at + hours * 3_600_000
                &&& w.id == v.id && w.owner == v.owner && w.netuid == v.netuid
                &&& w.collateral_balance == v.collateral_balance
                &&& w.borrowed_token_balance == v.borrowed_token_balance
                &&& w.created_at == v.created_at
            },
            Err(e) => e == Error::ArithmeticError && match grown_debt(
                v.debt_balance,
                p.interest_rate,
                hours,
            ) {
                Some(next) => v.total_interest_accrued + (next - v.debt_balance)
                    > 0xffff_ffff_ffff_ffff,
                None => true,
            },
        },
{
    assert(p.interest_rate == params_on(s, v.netuid).interest_rate);
    assert(is_floor(hours as int, ctx.now - v.last_interest_accrued_at, 3_600_000));
    law_accrual_charges_whole_hours(
        v.debt_balance,
        v.total_interest_accrued,
        v.last_interest_accrued_at,
        p.interest_rate,
        ctx.now,
        hours,
    );
}

/// No interest is charged without debt, without a rate, or before a whole hour has passed; without
/// debt or without a rate the clock follows the time.
pub proof fn law_no_interest(
    s: AlphaState,
    ctx: Context,
    v: Vault,
    p: VaultContractParams,
)
    requires
        in_force(s, v.netuid, p),
    ensures
        ({
            let idle = v.debt_balance == 0 || p.interest_rate.inner == 0;
            &&& ctx.now <= v.last_interest_accrued_at || (!idle && ctx.now
                - v.last_interest_accrued_at < 3_600_000) ==> with_interest(s, ctx, v) == Ok::<
                Vault,
                Error,
            >(v)
            &&& ctx.now > v.last_interest_accrued_at && idle ==> with_interest(s, ctx, v) == Ok::<
                Vault,
                Error,
            >(Vault { last_interest_accrued_at: ctx.now, ..v })
        }),
{
    lemma_in_force(s, v.netuid, p);
    if v.last_interest_accrued_at <= ctx.now {
        let elapsed = ctx.now - v.last_interest_accrued_at;
        lemma_division_rounds_down(elapsed, 3_600_000);
        law_accrual_charges_whole_hours(
            v.debt_balance,
            v.total_interest_accrued,
            v.last_interest_accrued_at,
            p.interest_rate,
            ctx.now,
            (elapsed / 3_600_000) as nat,
        );
    } else {
        law_accrual_charges_whole_hours(
            v.debt_balance,
            v.total_interest_accrued,
            v.last_interest_accrued_at,
            p.interest_rate,
            ctx.now,
            0,
        );
    }
}

/// Anyone can bring the interest of a vault up to date, and is told the debt that results: for a
/// vault in debt, with a rate in force and `hours >= 1` whole hours elapsed, what the debt has
/// grown to at that rate.
pub proof fn law_accrual_reports_the_grown_debt(
    s: AlphaState,
    ctx: Context,
    owner: AccountId,
    vault_id: u32,
    p: VaultContractParams,
    hours: nat,
)
    requires
        accrue_result(s, ctx, owner, vault_id) is Ok,
        s.netuid_params.contains_key(s.vaults[(owner, vault_id)].netuid) ==> p
            == s.netuid_params[s.vaults[(owner, vault_id)].netuid],
        !s.netuid_params.contains_key(s.vaults[(owner, vault_id)].netuid) ==> p.interest_rate.inner
            == 50_000_000_000_000_000,
        s.vaults[(owner, vault_id)].last_interest_accrued_at < ctx.now,
        hours * 3_600_000 <= ctx.now - s.vaults[(owner, vault_id)].last_interest_accrued_at < (hours
            + 1) * 3_600_000,
        hours >= 1,
        s.vaults[(owner, vault_id)].debt_balance > 0,
        p.interest_rate.inner > 0,
    ensures
        grown_debt(s.vaults[(owner, vault_id)].debt_balance, p.interest_rate, hours) == Some(
            accrue_result(s, ctx, owner, vault_id)->Ok_0,
        ),
{
    law_interest_at_the_rate_in_force(s, ctx, s.vaults[(owner, vault_id)], p, hours);
}

/// An owner's debt as the books have it.
pub open spec fn owed(s: AlphaState, owner: AccountId) -> int {
    if s.owner_total_debt.contains_key(owner) {
        s.owner_total_debt[owner] as int
    } else {
        0
    }
}

/// The collateral of a subnet as the books have it.
pub open spec fn booked(s: AlphaState, netuid: u16) -> int {
    if s.netuid_total_collateral.contains_key(netuid) {
        s.netuid_total_collateral[netuid] as int
    } else {
        0
    }
}

/// Whether the owner's debt can follow a vault's debt to `debt`.
pub open spec fn fits_books(s: AlphaState, key: (AccountId, u32), debt: int) -> bool {
    &&& s.vaults.contains_key(key)
    &&& owed(s, key.0) >= s.vaults[key].debt_balance
    &&& owed(s, key.0) - s.vaults[key].debt_balance + debt <= 0xffff_ffff_ffff_ffff
}

/// The fee on an amount is the share of it that the parameters in force ask for, rounded down.
pub proof fn law_fee_is_the_share_in_force(s: AlphaState, amount: Balance)
    ensures
        match fee_of(s, amount) {
            Some(fee) => is_floor(
                fee as int,
                s.global_params.transaction_fee.inner * amount,
                1_000_000_000_000_000_000,
            ),
            None => s.global_params.transaction_fee.inner * amount
                >= 0x1_0000_0000_0000_0000int * 1_000_000_000_000_000_000,
        },
{
    law_share_is_exact(s.global_params.transaction_fee, amount);
}

/// A borrow is granted exactly when the debt after it, times the collateral ratio in force, is at
/// most the collateral's value; a larger one is refused for that reason.
pub proof fn law_borrow_is_granted_exactly_when(
    s: AlphaState,
    ctx: Context,
    vault_id: u32,
    amount: Balance,
    replies: Seq<Reply>,
    v: Vault,
    p: VaultContractParams,
    price: Ratio,
    value: int,
    fee: Balance,
)
    requires
        !s.paused,
        !s.liquidation_auctions.contains_key((ctx.caller, vault_id)),
        s.vaults.contains_key((ctx.caller, vault_id)),
        with_interest(s, ctx, s.vaults[(ctx.caller, vault_id)]) == Ok::<Vault, Error>(v),
        amount > 0,
        is_floor(
            fee as int,
            s.global_params.transaction_fee.inner * amount,
            1_000_000_000_000_000_000,
        ),
        fee <= amount,
        replies.len() >= 4,
        priced(s, ctx, replies, price),
        !(replies[2] is Failed),
        !(replies[3] is Failed),
        in_force(s, v.netuid, p),
        is_floor(value, price.inner * v.collateral_balance, 1_000_000_000_000_000_000),
        has_limit(p.collateral_ratio, value),
        v.borrowed_token_balance + amount <= u64::MAX,
        v.debt_balance + amount <= u64::MAX,
        fits_books(s, (ctx.caller, vault_id), v.debt_balance + amount),
    ensures
        (v.debt_balance + amount) * p.collateral_ratio.inner <= value * 1_000_000_000_000_000_000
            ==> borrow_step(s, ctx, vault_id, amount, replies) == Step::<(), Error>::Done(Ok(())),
        (v.debt_balance + amount) * p.collateral_ratio.inner > value * 1_000_000_000_000_000_000
            ==> borrow_step(s, ctx, vault_id, amount, replies) == fail::<(), Error>(
            Error::CollateralRatioExceeded,
        ),
{
    lemma_in_force(s, v.netuid, p);
    law_price_is_read(s, ctx, v.netuid, replies, price);
    law_fee_is_the_share_in_force(s, amount);
    lemma_division_rounds_down(
        s.global_params.transaction_fee.inner * amount,
        1_000_000_000_000_000_000,
    );
    law_collateral_bears_debt(
        p.collateral_ratio,
        price,
        v.collateral_balance,
        value,
        v.debt_balance + amount,
    );
    reveal_with_fuel(progress, 3);
    assert(fee_of(s, amount) == Some(fee));
    assert(progress(borrow_writes(s, ctx.caller, amount, fee), replies, 2, 0) is Complete);
}

/// Collateral of a vault in debt is released exactly when the debt, times the collateral ratio in
/// force, is at most the value of what stays; a larger release is refused for that reason.
pub proof fn law_release_is_granted_exactly_when(
    s: AlphaState,
    ctx: Context,
    vault_id: u32,
    amount: Balance,
    dest_coldkey: AccountId,
    replies: Seq<Reply>,
    v: Vault,
    p: VaultContractParams,
    price: Ratio,
    value: int,
)
    requires
        !s.paused,
        !s.liquidation_auctions.contains_key((ctx.caller, vault_id)),
        s.vaults.contains_key((ctx.caller, vault_id)),
        with_interest(s, ctx, s.vaults[(ctx.caller, vault_id)]) == Ok::<Vault, Error>(v),
        v.debt_balance > 0,
        amount <= v.collateral_balance,
        amount <= s.total_collateral_balance,
        amount <= booked(s, v.netuid),
        replies.len() >= 3,
        priced(s, ctx, replies, price),
        !(replies[2] is Failed),
        in_force(s, v.netuid, p),
        is_floor(value, price.inner * (v.collateral_balance - amount), 1_000_000_000_000_000_000),
        has_limit(p.collateral_ratio, value),
        fits_books(s, (ctx.caller, vault_id), v.debt_balance as int),
    ensures
        v.debt_balance * p.collateral_ratio.inner <= value * 1_000_000_000_000_000_000
            ==> release_step(s, ctx, vault_id, amount, dest_coldkey, replies) == Step::<
            (),
            Error,
        >::Done(Ok(())),
        v.debt_balance * p.collateral_ratio.inner > value * 1_000_000_000_000_000_000
            ==> release_step(s, ctx, vault_id, amount, dest_coldkey, replies) == fail::<(), Error>(
            Error::CollateralRatioExceeded,
        ),
{
    lemma_in_force(s, v.netuid, p);
    law_price_is_read(s, ctx, v.netuid, replies, price);
    law_collateral_bears_debt(
        p.collateral_ratio,
        price,
        (v.collateral_balance - amount) as Balance,
        value,
        v.debt_balance as int,
    );
    reveal_with_fuel(progress, 3);
}

/// A repayment is taken exactly when it is at most the debt and the payer holds it and the fee.
pub proof fn law_repayment_is_taken_exactly_when(
    s: AlphaState,
    ctx: Context,
    vault_id: u32,
    amount: Balance,
    replies: Seq<Reply>,
    v: Vault,
    fee: Balance,
)
    requires
        !s.paused,
        !s.liquidation_auctions.contains_key((ctx.caller, vault_id)),
        s.vaults.contains_key((ctx.caller, vault_id)),
        with_interest(s, ctx, s.vaults[(ctx.caller, vault_id)]) == Ok::<Vault, Error>(v),
        v.borrowed_token_balance <= v.debt_balance,
        amount > 0,
        is_floor(
            fee as int,
            s.global_params.transaction_fee.inner * amount,
            1_000_000_000_000_000_000,
        ),
        amount + fee <= u64::MAX,
        replies.len() >= 3,
        replies[0] is Amount,
        !(replies[1] is Failed),
        !(replies[2] is Failed),
        fits_books(s, (ctx.caller, vault_id), v.debt_balance as int),
    ensures
        ({
            let r = repay_step(s, ctx, vault_id, amount, replies);
            let held = replies[0]->Amount_0;
            &&& amount <= v.debt_balance && held >= amount + fee ==> r == Step::<(), Error>::Done(
                Ok(()),
            )
            &&& amount > v.debt_balance ==> r == fail::<(), Error>(Error::RepayAmountTooHigh)
            &&& amount <= v.debt_balance && held < amount + fee ==> r == fail::<(), Error>(
                Error::InsufficientTokenBalance,
            )
        }),
{
    law_fee_is_the_share_in_force(s, amount);
    lemma_division_rounds_down(
        s.global_params.transaction_fee.inner * amount,
        1_000_000_000_000_000_000,
    );
    assert(fee_of(s, amount) == Some(fee));
    reveal_with_fuel(progress, 3);
    if amount <= v.debt_balance {
        let interest = paid(v, amount)->Ok_0.1.interest_payment;
        assert(progress(repay_writes(s, ctx.caller, amount, fee, interest), replies, 1, 0)
            is Complete);
    }
}

/// Parameters in basis points: each stands for that many ten-thousandths. A configuration of a
/// subnet is refused exactly when a ratio is zero or the collateral ratio is the smaller one.
pub proof fn law_subnet_parameters(c: VaultContractParamsConfig)
    ensures
        ({
            let valid = 0 < c.liquidation_ratio <= c.collateral_ratio;
            &&& !valid ==> params_of(c) == Err::<VaultContractParams, Error>(Error::InvalidRatio)
            &&& valid ==> (params_of(c) matches Ok(p) && {
                &&& p.collateral_ratio.inner == c.collateral_ratio * 100_000_000_000_000
                &&& p.liquidation_ratio.inner == c.liquidation_ratio * 100_000_000_000_000
                &&& p.interest_rate.inner == c.interest_rate * 100_000_000_000_000
                &&& p.liquidation_fee.inner == c.liquidation_fee * 100_000_000_000_000
            })
        }),
{
}

/// A contract-wide configuration is refused exactly when the fee exceeds 100% or a time is zero.
pub proof fn law_contract_parameters(c: VaultGlobalParamsConfig)
    ensures
        ({
            let r = globals_of(c);
            let fee_ok = c.transaction_fee <= 10_000;
            &&& !fee_ok ==> r == Err::<VaultGlobalParams, Error>(Error::InvalidTransactionFee)
            &&& fee_ok && c.auction_duration_ms == 0 ==> r == Err::<VaultGlobalParams, Error>(
                Error::InvalidAuctionDuration,
            )
            &&& fee_ok && c.auction_duration_ms > 0 && c.max_oracle_age_ms == 0 ==> r == Err::<
                VaultGlobalParams,
                Error,
            >(Error::InvalidOracleMaxAge)
            &&& fee_ok && c.auction_duration_ms > 0 && c.max_oracle_age_ms > 0 ==> (r matches Ok(
                p,
            ) && {
                &&& p.transaction_fee.inner == c.transaction_fee * 100_000_000_000_000
                &&& p.auction_duration_ms == c.auction_duration_ms
                &&& p.max_oracle_age_ms == c.max_oracle_age_ms
            })
        }),
{
}

/// Parameters change by governance alone and never at once: an update can be executed from one day
/// after it was scheduled, by anyone, and puts what was scheduled in force.
pub proof fn law_updates_wait_a_day(
    s: AlphaState,
    ctx: Context,
    later: Context,
    netuid: u16,
    c: VaultContractParamsConfig,
    g: VaultGlobalParamsConfig,
)
    ensures
        ctx.caller != s.governance ==> {
            &&& schedule_result(s, ctx, params_of(c)) == Err::<u64, Error>(Error::NotGovernance)
            &&& schedule_result(s, ctx, globals_of(g)) == Err::<u64, Error>(Error::NotGovernance)
            &&& cancel_params_result(s, ctx, netuid) == Err::<(), Error>(Error::NotGovernance)
            &&& cancel_globals_result(s, ctx) == Err::<(), Error>(Error::NotGovernance)
        },
        ctx.caller == s.governance && ctx.now + 86_400_000 <= u64::MAX ==> {
            &&& params_of(c) is Ok ==> schedule_result(s, ctx, params_of(c)) == Ok::<u64, Error>(
                (ctx.now + 86_400_000) as u64,
            )
            &&& params_of(c) is Err ==> schedule_result(s, ctx, params_of(c)) == Err::<u64, Error>(
                params_of(c)->Err_0,
            )
            &&& globals_of(g) is Ok ==> schedule_result(s, ctx, globals_of(g)) == Ok::<u64, Error>(
                (ctx.now + 86_400_000) as u64,
            )
            &&& globals_of(g) is Err ==> schedule_result(s, ctx, globals_of(g)) == Err::<
                u64,
                Error,
            >(globals_of(g)->Err_0)
        },
        s.pending_contract_params_updates.contains_key(netuid) ==> {
            let pending = s.pending_contract_params_updates[netuid];
            &&& later.now < pending.execute_after ==> execute_params_result(s, later, netuid)
                == Err::<VaultContractParams, Error>(Error::ContractParamsUpdateTimelockActive)
            &&& later.now >= pending.execute_after ==> execute_params_result(s, later, netuid)
                == params_of(pending.params)
            &&& ctx.caller == s.governance ==> cancel_params_result(s, ctx, netuid) is Ok
        },
        !s.pending_contract_params_updates.contains_key(netuid) ==> {
            &&& execute_params_result(s, later, netuid) == Err::<VaultContractParams, Error>(
                Error::NoPendingContractParamsUpdate,
            )
            &&& ctx.caller == s.governance ==> cancel_params_result(s, ctx, netuid) == Err::<
                (),
                Error,
            >(Error::NoPendingContractParamsUpdate)
        },
        match s.pending_global_params_update {
            Some(pending) => {
                &&& later.now < pending.execute_after ==> execute_globals_result(s, later) == Err::<
                    VaultGlobalParams,
                    Error,
                >(Error::ContractParamsUpdateTimelockActive)
                &&& later.now >= pending.execute_after ==> execute_globals_result(s, later)
                    == globals_of(pending.params)
                &&& ctx.caller == s.governance ==> cancel_globals_result(s, ctx) is Ok
            },
            None => {
                &&& execute_globals_result(s, later) == Err::<VaultGlobalParams, Error>(
                    Error::NoPendingContractParamsUpdate,
                )
                &&& ctx.caller == s.governance ==> cancel_globals_result(s, ctx) == Err::<
                    (),
                    Error,
                >(Error::NoPendingContractParamsUpdate)
            },
        },
{
}

/// A new vault contract is open, governed by its maker, empty, with no fee, auctions of an hour and
/// prices of at most an hour's age. Where no parameters were set, the defaults are in force.
pub proof fn law_new_vault_contract(
    governance: AccountId,
    treasury: AccountId,
    hotkey: AccountId,
    token: AccountId,
    auction: AccountId,
    oracle: AccountId,
    netuid: u16,
)
    ensures
        ({
            let s = initial_alpha_state(governance, treasury, hotkey, token, auction, oracle);
            &&& s.governance == governance && s.platform == governance && s.treasury == treasury
            &&& s.vault_hotkey == hotkey && s.token == token && s.auction == auction
            &&& s.oracle == oracle
            &&& !s.paused && s.total_collateral_balance == 0
            &&& s.approved_netuids == Set::<u16>::empty()
            &&& s.netuid_total_collateral == Map::<u16, Balance>::empty()
            &&& s.netuid_params == Map::<u16, VaultContractParams>::empty()
            &&& s.pending_contract_params_updates == Map::<u16, PendingContractParamsUpdate>::empty()
            &&& s.pending_global_params_update == None::<PendingGlobalParamsUpdate>
            &&& s.vaults == Map::<(AccountId, u32), Vault>::empty()
            &&& s.owner_total_debt == Map::<AccountId, Balance>::empty()
            &&& s.vault_count == Map::<AccountId, u32>::empty()
            &&& s.vault_keys.len() == 0 && s.events.len() == 0
            &&& s.liquidation_auctions == Map::<(AccountId, u32), u32>::empty()
            &&& s.pending_deposits == Map::<(AccountId, u16), Balance>::empty()
            &&& s.global_params.transaction_fee.inner == 0
            &&& s.global_params.auction_duration_ms == 3_600_000
            &&& s.global_params.max_oracle_age_ms == 3_600_000
            &&& in_force(s, netuid, params_on(s, netuid))
            &&& in_force(s, netuid, default_params())
            &&& s.global_params == default_globals()
        }),
{
}

/// Why a message about the caller's vault is refused before anything is read, the first reason
/// that holds.
pub proof fn law_vault_refusals(
    s: AlphaState,
    ctx: Context,
    vault_id: u32,
    amount: Balance,
    dest_coldkey: AccountId,
    replies: Seq<Reply>,
)
    ensures
        ({
            let key = (ctx.caller, vault_id);
            let found = !s.paused && s.vaults.contains_key(key);
            let free = found && !s.liquidation_auctions.contains_key(key);
            &&& s.paused ==> {
                &&& borrow_step(s, ctx, vault_id, amount, replies) == fail::<(), Error>(
                    Error::ContractPaused,
                )
                &&& repay_step(s, ctx, vault_id, amount, replies) == fail::<(), Error>(
                    Error::ContractPaused,
                )
                &&& release_step(s, ctx, vault_id, amount, dest_coldkey, replies) == fail::<
                    (),
                    Error,
                >(Error::ContractPaused)
            }
            &&& !s.paused && !s.vaults.contains_key(key) ==> {
                &&& borrow_step(s, ctx, vault_id, amount, replies) == fail::<(), Error>(
                    Error::VaultNotFound,
                )
                &&& repay_step(s, ctx, vault_id, amount, replies) == fail::<(), Error>(
                    Error::VaultNotFound,
                )
                &&& release_step(s, ctx, vault_id, amount, dest_coldkey, replies) == fail::<
                    (),
                    Error,
                >(Error::VaultNotFound)
            }
            &&& found && !free ==> {
                &&& borrow_step(s, ctx, vault_id, amount, replies) == fail::<(), Error>(
                    Error::VaultInLiquidation,
                )
                &&& repay_step(s, ctx, vault_id, amount, replies) == fail::<(), Error>(
                    Error::VaultInLiquidation,
                )
                &&& release_step(s, ctx, vault_id, amount, dest_coldkey, replies) == fail::<
                    (),
                    Error,
                >(Error::VaultInLiquidation)
            }
            &&& free && amount > s.vaults[key].collateral_balance ==> release_step(
                s,
                ctx,
                vault_id,
                amount,
                dest_coldkey,
                replies,
            ) == fail::<(), Error>(Error::InsufficientCollateral)
        }),
{
}

/// Why a message about any owner's vault is refused, the first reason that holds.
pub proof fn law_public_refusals(
    s: AlphaState,
    ctx: Context,
    owner: AccountId,
    vault_id: u32,
    replies: Seq<Reply>,
)
    ensures
        ({
            let key = (owner, vault_id);
            let running = s.liquidation_auctions.contains_key(key);
            let found = s.vaults.contains_key(key);
            let a = accrue_result(s, ctx, owner, vault_id);
            let t = trigger_step(s, ctx, owner, vault_id, replies);
            &&& s.paused ==> a == Err::<Balance, Error>(Error::ContractPaused) && t == fail::<
                u32,
                Error,
            >(Error::ContractPaused)
            &&& !s.paused && running ==> a == Err::<Balance, Error>(Error::VaultInLiquidation) && t
                == fail::<u32, Error>(Error::LiquidationAuctionExists)
            &&& !s.paused && !running && !found ==> a == Err::<Balance, Error>(Error::VaultNotFound)
                && t == fail::<u32, Error>(Error::VaultNotFound)
        }),
{
}

/// Why a vault is not opened, the first reason that holds.
pub proof fn law_opening_refusals(
    s: AlphaState,
    ctx: Context,
    netuid: u16,
    replies: Seq<Reply>,
    info: StakeInfo,
)
    ensures
        ({
            let r = create_step(s, ctx, netuid, replies);
            let approved = !s.paused && s.approved_netuids.contains(netuid);
            let intended = approved && s.pending_deposits.contains_key((ctx.caller, netuid));
            let amount = s.pending_deposits[(ctx.caller, netuid)];
            let answered = intended && replies.len() > 0;
            &&& s.paused ==> r == fail::<u32, Error>(Error::ContractPaused)
            &&& !s.paused && !approved ==> r == fail::<u32, Error>(Error::UnapprovedNetuid)
            &&& approved && !intended ==> r == fail::<u32, Error>(Error::NotDepositor)
            &&& answered && !(replies[0] is Stake) ==> r == fail::<u32, Error>(
                Error::ChainExtensionFailed,
            )
            &&& answered && replies[0] == Reply::Stake(None) ==> r == fail::<u32, Error>(
                Error::NoAlphaStakeFound,
            )
            &&& answered && replies[0] == Reply::Stake(Some(info)) ==> {
                &&& info.stake < info.locked ==> r == fail::<u32, Error>(Error::ArithmeticError)
                &&& info.stake == info.locked ==> r == fail::<u32, Error>(Error::NoAlphaStakeFound)
                &&& info.stake > info.locked && booked(s, netuid) + amount <= u64::MAX && info.stake
                    - info.locked < booked(s, netuid) + amount ==> r == fail::<u32, Error>(
                    Error::InsufficientCollateral,
                )
            }
        }),
{
}

/// Why a vault is not topped up, the first reason that holds.
pub proof fn law_top_up_refusals(
    s: AlphaState,
    ctx: Context,
    vault_id: u32,
    replies: Seq<Reply>,
    info: StakeInfo,
)
    requires
        !s.paused,
        s.vaults.contains_key((ctx.caller, vault_id)),
        !s.liquidation_auctions.contains_key((ctx.caller, vault_id)),
        replies.len() > 0,
    ensures
        ({
            let r = add_step(s, ctx, vault_id, replies);
            let v = s.vaults[(ctx.caller, vault_id)];
            &&& !(replies[0] is Stake) ==> r == fail::<(), Error>(Error::ChainExtensionFailed)
            &&& replies[0] == Reply::Stake(None) ==> r == fail::<(), Error>(
                Error::NoAlphaStakeFound,
            )
            &&& replies[0] == Reply::Stake(Some(info)) ==> {
                let added = info.stake - info.locked - booked(s, v.netuid);
                &&& info.stake < info.locked ==> r == fail::<(), Error>(Error::ArithmeticError)
                &&& info.stake == info.locked ==> r == fail::<(), Error>(Error::NoAlphaStakeFound)
                &&& info.stake > info.locked && added <= 0 ==> r == fail::<(), Error>(
                    Error::InsufficientCollateral,
                )
                &&& added > 0 && (v.collateral_balance + added > u64::MAX
                    || s.total_collateral_balance + added > u64::MAX) ==> r == fail::<(), Error>(
                    Error::ArithmeticError,
                )
                &&& added > 0 && info.stake > info.locked && v.collateral_balance + added
                    <= u64::MAX && s.total_collateral_balance + added <= u64::MAX && fits_books(
                    s,
                    (ctx.caller, vault_id),
                    v.debt_balance as int,
                ) ==> r == Step::<(), Error>::Done(Ok(()))
            }
        }),
{
}

/// What the vault reports when a call fails: a failed payment is a failed transfer, a failed call
/// on the auction is one of the auction, on the oracle one of the oracle, and any other failure is
/// one of the chain.
pub open spec fn failure_of(call: Call) -> Error {
    match call {
        Call::TokenTransfer { .. } => Error::TransferFailed,
        Call::TokenMint { .. } => Error::TransferFailed,
        Call::TokenBurn { .. } => Error::TransferFailed,
        Call::NativeTransfer { .. } => Error::TransferFailed,
        Call::AuctionTransferWinningBid { .. } => Error::AuctionContractCallFailed,
        Call::AuctionUpdateGovernance { .. } => Error::AuctionContractCallFailed,
        Call::AuctionCreate { .. } => Error::AuctionContractCallFailed,
        Call::OracleUpdateGovernance { .. } => Error::OracleCallFailed,
        _ => Error::ChainExtensionFailed,
    }
}

/// A message whose payment or transfer fails ends with that failure: no later call is made.
pub proof fn law_failed_call_ends_the_message(
    s: AlphaState,
    ctx: Context,
    owner: AccountId,
    vault_id: u32,
    amount: Balance,
    dest_coldkey: AccountId,
    replies: Seq<Reply>,
    call: Call,
)
    requires
        call is TokenTransfer || call is TokenMint || call is TokenBurn || call is NativeTransfer
            || call is TransferStake || call is AuctionTransferWinningBid
            || call is AuctionUpdateGovernance || call is OracleUpdateGovernance || call is AlphaPrice,
    ensures
        borrow_step(s, ctx, vault_id, amount, replies) == Step::<(), Error>::Call(call)
            ==> borrow_step(s, ctx, vault_id, amount, replies.push(Reply::Failed)) == fail::<
            (),
            Error,
        >(failure_of(call)),
        repay_step(s, ctx, vault_id, amount, replies) == Step::<(), Error>::Call(call)
            ==> repay_step(s, ctx, vault_id, amount, replies.push(Reply::Failed)) == fail::<
            (),
            Error,
        >(failure_of(call)),
        release_step(s, ctx, vault_id, amount, dest_coldkey, replies) == Step::<(), Error>::Call(
            call,
        ) ==> release_step(
            s,
            ctx,
            vault_id,
            amount,
            dest_coldkey,
            replies.push(Reply::Failed),
        ) == fail::<(), Error>(failure_of(call)),
        settle_step(s, ctx, owner, vault_id, replies) == Step::<(), Error>::Call(call)
            ==> settle_step(s, ctx, owner, vault_id, replies.push(Reply::Failed)) == fail::<
            (),
            Error,
        >(failure_of(call)),
        claim_surplus_step(s, ctx, amount, replies) == Step::<(), Error>::Call(call)
            ==> claim_surplus_step(s, ctx, amount, replies.push(Reply::Failed)) == fail::<
            (),
            Error,
        >(failure_of(call)),
        update_governance_step(s, ctx, owner, replies) == Step::<(), Error>::Call(call)
            ==> update_governance_step(s, ctx, owner, replies.push(Reply::Failed)) == fail::<
            (),
            Error,
        >(failure_of(call)),
{
    let longer = replies.push(Reply::Failed);
    let key = (ctx.caller, vault_id);
    assert(replies.len() > 0 ==> longer[0] == replies[0]);
    assert(replies.len() > 1 ==> longer[1] == replies[1]);
    if borrow_step(s, ctx, vault_id, amount, replies) == Step::<(), Error>::Call(call)
        && replies.len() >= 2 {
        let v = with_interest(s, ctx, s.vaults[key])->Ok_0;
        let fee = fee_of(s, amount)->0;
        assert(price_step(s, ctx, v.netuid, longer, 0) == price_step(
            s,
            ctx,
            v.netuid,
            replies,
            0,
        ));
        let outcome = if can_save(s, key, (v.debt_balance + amount) as Balance) {
            Ok::<(), Error>(())
        } else {
            Err(Error::ArithmeticError)
        };
        let i = lemma_failed_write(
            borrow_writes(s, ctx.caller, amount, fee),
            replies,
            2,
            outcome,
            call,
        );
    }
    if repay_step(s, ctx, vault_id, amount, replies) == Step::<(), Error>::Call(call)
        && replies.len() >= 1 {
        let v = with_interest(s, ctx, s.vaults[key])->Ok_0;
        let fee = fee_of(s, amount)->0;
        let after = paid(v, amount)->Ok_0.0;
        let outcome = if can_save(s, key, after.debt_balance) {
            Ok::<(), Error>(())
        } else {
            Err(Error::ArithmeticError)
        };
        let i = lemma_failed_write(
            repay_writes(s, ctx.caller, amount, fee, paid(v, amount)->Ok_0.1.interest_payment),
            replies,
            1,
            outcome,
            call,
        );
    }
    if release_step(s, ctx, vault_id, amount, dest_coldkey, replies) == Step::<(), Error>::Call(
        call,
    ) {
        let v = with_interest(s, ctx, s.vaults[key])->Ok_0;
        let writes = seq![
            Write {
                call: Call::TransferStake {
                    destination: dest_coldkey,
                    hotkey: s.vault_hotkey,
                    origin_netuid: v.netuid,
                    destination_netuid: v.netuid,
                    amount,
                },
                on_failure: Error::ChainExtensionFailed,
            },
        ];
        let outcome = if can_take_out(s, key, v.netuid, amount, v.debt_balance) {
            Ok::<(), Error>(())
        } else {
            Err(Error::ArithmeticError)
        };
        if v.debt_balance == 0 {
            let i = lemma_failed_write(writes, replies, 0, outcome, call);
        } else if replies.len() >= 2 {
            assert(price_step(s, ctx, v.netuid, longer, 0) == price_step(
                s,
                ctx,
                v.netuid,
                replies,
                0,
            ));
            let i = lemma_failed_write(writes, replies, 2, outcome, call);
        }
    }
    if settle_step(s, ctx, owner, vault_id, replies) == Step::<(), Error>::Call(call)
        && replies.len() >= 1 {
        let k = (owner, vault_id);
        let a = replies[0]->Auction_0->0;
        let fee = fee_of(s, a.collateral_balance)->0;
        let p = paid(s.vaults[k], a.debt_balance)->Ok_0.1;
        let outcome = if fee > a.collateral_balance {
            Err(Error::ArithmeticError)
        } else {
            Ok::<(), Error>(())
        };
        let i = lemma_failed_write(
            settle_writes(
                s,
                ctx,
                s.liquidation_auctions[k],
                a.highest_bidder->0,
                a.collateral_balance,
                fee,
                p,
            ),
            replies,
            1,
            outcome,
            call,
        );
    }
    if claim_surplus_step(s, ctx, amount, replies) == Step::<(), Error>::Call(call) {
        let i = lemma_failed_write(
            seq![token_transfer(s, s.treasury, amount)],
            replies,
            0,
            Ok::<(), Error>(()),
            call,
        );
    }
    if update_governance_step(s, ctx, owner, replies) == Step::<(), Error>::Call(call) {
        let i = lemma_failed_write(
            child_governance_writes(s, owner),
            replies,
            0,
            Ok::<(), Error>(()),
            call,
        );
    }
}

/// A liquidation whose collateral cannot be unstaked, or whose auction cannot be opened, is called
/// off with that failure; so is a claim that cannot unstake.
pub proof fn law_failed_unstaking(
    s: AlphaState,
    ctx: Context,
    owner: AccountId,
    vault_id: u32,
    netuid: u16,
    replies: Seq<Reply>,
)
    ensures
        trigger_step(s, ctx, owner, vault_id, replies) matches Step::Call(Call::RemoveStake { .. })
            ==> trigger_step(s, ctx, owner, vault_id, replies.push(Reply::Failed)) == fail::<
            u32,
            Error,
        >(Error::TransferFailed),
        trigger_step(s, ctx, owner, vault_id, replies) matches Step::Call(
            Call::AuctionCreate { .. },
        ) ==> trigger_step(s, ctx, owner, vault_id, replies.push(Reply::Failed)) == fail::<
            u32,
            Error,
        >(Error::AuctionContractCallFailed),
        claim_excess_step(s, ctx, netuid, replies) matches Step::Call(Call::RemoveStake { .. })
            ==> claim_excess_step(s, ctx, netuid, replies.push(Reply::Failed)) == fail::<
            (),
            Error,
        >(Error::ChainExtensionFailed),
{
    reveal_with_fuel(progress, 2);
    let longer = replies.push(Reply::Failed);
    assert(forall|j: int| 0 <= j < replies.len() ==> longer[j] == replies[j]);
    assert(longer[replies.len() as int] is Failed);
    if replies.len() >= 2 && s.vaults.contains_key((owner, vault_id)) {
        let v = with_interest(s, ctx, s.vaults[(owner, vault_id)])->Ok_0;
        assert(price_step(s, ctx, v.netuid, longer, 0) == price_step(
            s,
            ctx,
            v.netuid,
            replies,
            0,
        ));
    }
}

/// What a claim of excess does before it unstakes: only governance may, it reads the contract's own
/// stake, and without a stake that can be moved there is nothing to do.
pub proof fn law_claim_refusals(
    s: AlphaState,
    ctx: Context,
    netuid: u16,
    replies: Seq<Reply>,
    info: StakeInfo,
)
    ensures
        ({
            let r = claim_excess_step(s, ctx, netuid, replies);
            &&& ctx.caller != s.governance ==> r == fail::<(), Error>(Error::NotGovernance)
            &&& ctx.caller == s.governance && replies.len() == 0 ==> r == Step::<(), Error>::Call(
                Call::StakeInfo { hotkey: s.vault_hotkey, coldkey: ctx.contract, netuid },
            )
            &&& ctx.caller == s.governance && replies.len() > 0 ==> {
                &&& !(replies[0] is Stake) ==> r == fail::<(), Error>(Error::ChainExtensionFailed)
                &&& replies[0] == Reply::Stake(None) ==> r == Step::<(), Error>::Done(Ok(()))
                    && claim_excess_next(s, netuid, replies) == s
                &&& replies[0] == Reply::Stake(Some(info)) && info.stake == info.locked ==> r
                    == Step::<(), Error>::Done(Ok(())) && claim_excess_next(s, netuid, replies) == s
                &&& replies[0] == Reply::Stake(Some(info)) && info.stake < info.locked ==> r
                    == fail::<(), Error>(Error::ArithmeticError)
            }
        }),
{
}

/// Parameter updates on record: a scheduled one waits under its subnet and changes nothing else, an
/// executed one puts the parameters in force on its subnet and is gone, a cancelled one is gone.
pub proof fn law_updates_are_recorded(
    s: AlphaState,
    netuid: u16,
    c: VaultContractParamsConfig,
    p: VaultContractParams,
    g: VaultGlobalParamsConfig,
    q: VaultGlobalParams,
    execute_after: u64,
)
    ensures
        params_scheduled(s, netuid, c, execute_after) == (AlphaState {
            pending_contract_params_updates: s.pending_contract_params_updates.insert(
                netuid,
                PendingContractParamsUpdate { params: c, execute_after },
            ),
            events: s.events.push(
                Event::ContractParamsUpdateScheduled(
                    ContractParamsUpdateScheduled { params: c, execute_after },
                ),
            ),
            ..s
        }),
        params_executed(s, netuid, p) == (AlphaState {
            netuid_params: s.netuid_params.insert(netuid, p),
            pending_contract_params_updates: s.pending_contract_params_updates.remove(netuid),
            events: s.events.push(
                Event::ContractParamsUpdated(
                    ContractParamsUpdated {
                        params: s.pending_contract_params_updates[netuid].params,
                    },
                ),
            ),
            ..s
        }),
        in_force(params_executed(s, netuid, p), netuid, p),
        params_cancelled(s, netuid) == (AlphaState {
            pending_contract_params_updates: s.pending_contract_params_updates.remove(netuid),
            events: s.events.push(
                Event::ContractParamsUpdateCancelled(
                    ContractParamsUpdateCancelled {
                        params: s.pending_contract_params_updates[netuid].params,
                    },
                ),
            ),
            ..s
        }),
        globals_scheduled(s, g, execute_after) == (AlphaState {
            pending_global_params_update: Some(
                PendingGlobalParamsUpdate { params: g, execute_after },
            ),
            events: s.events.push(
                Event::GlobalParamsUpdateScheduled(
                    GlobalParamsUpdateScheduled { params: g, execute_after },
                ),
            ),
            ..s
        }),
        s.pending_global_params_update is Some ==> {
            let params = s.pending_global_params_update->0.params;
            &&& globals_executed(s, q) == (AlphaState {
                global_params: q,
                pending_global_params_update: None,
                events: s.events.push(
                    Event::GlobalParamsUpdated(GlobalParamsUpdated { params }),
                ),
                ..s
            })
            &&& globals_cancelled(s) == (AlphaState {
                pending_global_params_update: None,
                events: s.events.push(
                    Event::GlobalParamsUpdateCancelled(GlobalParamsUpdateCancelled { params }),
                ),
                ..s
            })
        },
{
}

/// Parameters are reported in whole basis points, rounded down; a ratio of more basis points than
/// can be reported is reported as zero.
pub proof fn law_parameters_are_reported(p: VaultContractParams, q: VaultGlobalParams)
    requires
        p.collateral_ratio.inner < 0x1_0000_0000int * 100_000_000_000_000,
        p.liquidation_ratio.inner < 0x1_0000_0000int * 100_000_000_000_000,
        p.interest_rate.inner < 0x1_0000_0000int * 100_000_000_000_000,
        p.liquidation_fee.inner < 0x1_0000_0000int * 100_000_000_000_000,
        q.transaction_fee.inner < 0x1_0000_0000int * 100_000_000_000_000,
    ensures
        ({
            let c = config_of(p);
            let g = global_config_of(q);
            let bp = 100_000_000_000_000int;
            &&& is_floor(c.collateral_ratio as int, p.collateral_ratio.inner as int, bp)
            &&& is_floor(c.liquidation_ratio as int, p.liquidation_ratio.inner as int, bp)
            &&& is_floor(c.interest_rate as int, p.interest_rate.inner as int, bp)
            &&& is_floor(c.liquidation_fee as int, p.liquidation_fee.inner as int, bp)
            &&& is_floor(g.transaction_fee as int, q.transaction_fee.inner as int, bp)
            &&& g.auction_duration_ms == q.auction_duration_ms
            &&& g.max_oracle_age_ms == q.max_oracle_age_ms
        }),
        forall|r: Ratio|
            r.inner >= 0x1_0000_0000int * 100_000_000_000_000 ==> #[trigger] to_bps(r) == 0,
{
    lemma_division_rounds_down(p.collateral_ratio.inner as int, 100_000_000_000_000);
    lemma_division_rounds_down(p.liquidation_ratio.inner as int, 100_000_000_000_000);
    lemma_division_rounds_down(p.interest_rate.inner as int, 100_000_000_000_000);
    lemma_division_rounds_down(p.liquidation_fee.inner as int, 100_000_000_000_000);
    lemma_division_rounds_down(q.transaction_fee.inner as int, 100_000_000_000_000);
}

/// A page holds ten places of a list, in order; the last page holds what is left, and a page
/// beyond the list holds none.
pub proof fn law_pages_hold_ten(page: u32, total: int)
    requires
        total >= 0,
    ensures
        ({
            let (start, end) = page_bounds(page, total);
            let first = page * 10;
            &&& first + 10 <= total ==> start == first && end == first + 10
            &&& first < total < first + 10 ==> start == first && end == total
            &&& first >= total ==> start == end
            &&& 0 <= start <= end <= total
        }),
{
}

/// A read that needs the price reads it for the vault's subnet and answers from the vault on
/// record.
pub proof fn law_priced_reads(
    s: AlphaState,
    ctx: Context,
    key: (AccountId, u32),
    replies: Seq<Reply>,
    of: spec_fn(Ratio, Vault) -> Option<Balance>,
    price: Ratio,
)
    ensures
        !s.vaults.contains_key(key) ==> priced_read(s, ctx, key, replies, of) == fail::<
            Balance,
            Error,
        >(Error::VaultNotFound),
        s.vaults.contains_key(key) && replies.len() == 0 ==> priced_read(s, ctx, key, replies, of)
            == Step::<Balance, Error>::Call(Call::OracleLatestPrice { oracle: s.oracle }),
        s.vaults.contains_key(key) && priced(s, ctx, replies, price) ==> {
            &&& priced_read(s, ctx, key, replies.take(1), of) == Step::<Balance, Error>::Call(
                Call::AlphaPrice { netuid: s.vaults[key].netuid },
            )
            &&& match of(price, s.vaults[key]) {
                Some(v) => priced_read(s, ctx, key, replies, of) == Step::<Balance, Error>::Done(
                    Ok(v),
                ),
                None => priced_read(s, ctx, key, replies, of) == fail::<Balance, Error>(
                    Error::ArithmeticError,
                ),
            }
        },
{
    law_price_is_read(s, ctx, s.vaults[key].netuid, replies, price);
}

/// Collateral of a vault without debt is released without a price, up to all of it.
pub proof fn law_free_collateral_is_released(
    s: AlphaState,
    ctx: Context,
    vault_id: u32,
    amount: Balance,
    dest_coldkey: AccountId,
    replies: Seq<Reply>,
    v: Vault,
)
    requires
        !s.paused,
        !s.liquidation_auctions.contains_key((ctx.caller, vault_id)),
        s.vaults.contains_key((ctx.caller, vault_id)),
        with_interest(s, ctx, s.vaults[(ctx.caller, vault_id)]) == Ok::<Vault, Error>(v),
        v.debt_balance == 0,
        amount <= v.collateral_balance,
        amount <= s.total_collateral_balance,
        amount <= booked(s, v.netuid),
        fits_books(s, (ctx.caller, vault_id), 0),
    ensures
        replies.len() == 0 ==> release_step(s, ctx, vault_id, amount, dest_coldkey, replies)
            == Step::<(), Error>::Call(
            Call::TransferStake {
                destination: dest_coldkey,
                hotkey: s.vault_hotkey,
                origin_netuid: v.netuid,
                destination_netuid: v.netuid,
                amount,
            },
        ),
        replies.len() > 0 && !(replies[0] is Failed) ==> release_step(
            s,
            ctx,
            vault_id,
            amount,
            dest_coldkey,
            replies,
        ) == Step::<(), Error>::Done(Ok(())),
{
    reveal_with_fuel(progress, 2);
}

/// A vault found unsafe is put up for auction whenever the calls succeed, the balance did not
/// shrink, the books cover the vault and the least bid fits.
pub proof fn law_unsafe_vault_is_auctioned(
    s: AlphaState,
    ctx: Context,
    owner: AccountId,
    vault_id: u32,
    replies: Seq<Reply>,
    v: Vault,
    p: VaultContractParams,
    price: Ratio,
    value: int,
    auction_id: u32,
)
    requires
        !s.paused,
        !s.liquidation_auctions.contains_key((owner, vault_id)),
        s.vaults.contains_key((owner, vault_id)),
        with_interest(s, ctx, s.vaults[(owner, vault_id)]) == Ok::<Vault, Error>(v),
        replies.len() >= 6,
        priced(s, ctx, replies, price),
        replies[2] is Amount,
        !(replies[3] is Failed),
        replies[4] is Amount,
        replies[5] == Reply::AuctionId(auction_id),
        in_force(s, v.netuid, p),
        is_floor(value, price.inner * v.collateral_balance, 1_000_000_000_000_000_000),
        has_limit(p.liquidation_ratio, value),
        v.debt_balance * p.liquidation_ratio.inner > value * 1_000_000_000_000_000_000,
        v.collateral_balance <= s.total_collateral_balance,
        v.collateral_balance <= booked(s, v.netuid),
        fits_books(s, (owner, vault_id), v.debt_balance as int),
        v.debt_balance * 1_000_000_000_000_000_000 + p.liquidation_fee.inner * v.debt_balance
            < 0x1_0000_0000_0000_0000int * 1_000_000_000_000_000_000,
    ensures
        replies[4]->Amount_0 >= replies[2]->Amount_0 ==> trigger_step(
            s,
            ctx,
            owner,
            vault_id,
            replies,
        ) == Step::<u32, Error>::Done(Ok(auction_id)),
        replies[4]->Amount_0 < replies[2]->Amount_0 ==> trigger_step(
            s,
            ctx,
            owner,
            vault_id,
            replies,
        ) == fail::<u32, Error>(Error::ArithmeticError),
{
    lemma_in_force(s, v.netuid, p);
    law_price_is_read(s, ctx, v.netuid, replies, price);
    law_liquidatable_exactly_when(s, price, v, p, value);
    law_least_bid_is_exact(p.liquidation_fee, v.debt_balance);
}

/// A finalized auction with a winner is settled whenever the calls succeed and its debt is within
/// the vault's.
pub proof fn law_finished_auction_is_settled(
    s: AlphaState,
    ctx: Context,
    owner: AccountId,
    vault_id: u32,
    replies: Seq<Reply>,
    a: AuctionRecord,
    fee: Balance,
)
    requires
        s.liquidation_auctions.contains_key((owner, vault_id)),
        s.vaults.contains_key((owner, vault_id)),
        replies.len() >= 6,
        replies[0] == Reply::Auction(Some(a)),
        forall|j: int| 1 <= j < 6 ==> !(#[trigger] replies[j] is Failed),
        a.is_finalized,
        a.highest_bidder is Some,
        a.debt_balance <= s.vaults[(owner, vault_id)].debt_balance,
        s.vaults[(owner, vault_id)].borrowed_token_balance <= s.vaults[(
            owner,
            vault_id,
        )].debt_balance,
        is_floor(
            fee as int,
            s.global_params.transaction_fee.inner * a.collateral_balance,
            1_000_000_000_000_000_000,
        ),
        fee <= a.collateral_balance,
        owed(s, owner) >= s.vaults[(owner, vault_id)].debt_balance,
    ensures
        settle_step(s, ctx, owner, vault_id, replies) == Step::<(), Error>::Done(Ok(())),
{
    law_fee_is_the_share_in_force(s, a.collateral_balance);
    lemma_division_rounds_down(
        s.global_params.transaction_fee.inner * a.collateral_balance,
        1_000_000_000_000_000_000,
    );
    assert(fee_of(s, a.collateral_balance) == Some(fee));
    let v = s.vaults[(owner, vault_id)];
    let p = paid(v, a.debt_balance)->Ok_0.1;
    let writes = settle_writes(
        s,
        ctx,
        s.liquidation_auctions[(owner, vault_id)],
        a.highest_bidder->0,
        a.collateral_balance,
        fee,
        p,
    );
    assert(writes.len() <= 5);
    law_writes_run_in_order(writes, replies, 1, Ok::<(), Error>(()), writes.len());
}

/// A claim of governance succeeds whenever its calls do and the balance did not shrink.
pub proof fn law_claim_is_open_to_governance(
    s: AlphaState,
    ctx: Context,
    netuid: u16,
    replies: Seq<Reply>,
    info: StakeInfo,
)
    requires
        ctx.caller == s.governance,
        replies.len() >= 5,
        replies[0] == Reply::Stake(Some(info)),
        info.stake >= info.locked,
        replies[1] is Amount,
        !(replies[2] is Failed),
        replies[3] is Amount,
        !(replies[4] is Failed),
    ensures
        replies[3]->Amount_0 >= replies[1]->Amount_0 ==> claim_excess_step(s, ctx, netuid, replies)
            == Step::<(), Error>::Done(Ok(())),
        replies[3]->Amount_0 < replies[1]->Amount_0 && info.stake - info.locked > booked(s, netuid)
            ==> claim_excess_step(s, ctx, netuid, replies) == fail::<(), Error>(
            Error::ArithmeticError,
        ),
{
    reveal_with_fuel(progress, 2);
}

/// Interest of any vault that is not in liquidation can be brought up to date while the contract is
/// open, as long as what results fits.
pub proof fn law_accrual_is_open_to_all(
    s: AlphaState,
    ctx: Context,
    owner: AccountId,
    vault_id: u32,
    v: Vault,
)
    requires
        !s.paused,
        !s.liquidation_auctions.contains_key((owner, vault_id)),
        s.vaults.contains_key((owner, vault_id)),
        with_interest(s, ctx, s.vaults[(owner, vault_id)]) == Ok::<Vault, Error>(v),
    ensures
        fits_books(s, (owner, vault_id), v.debt_balance as int) ==> accrue_result(
            s,
            ctx,
            owner,
            vault_id,
        ) == Ok::<Balance, Error>(v.debt_balance),
        !fits_books(s, (owner, vault_id), v.debt_balance as int) ==> accrue_result(
            s,
            ctx,
            owner,
            vault_id,
        ) == Err::<Balance, Error>(Error::ArithmeticError),
{
}

} // verus!
