//! The alpha vault as a mathematical state, and what each message does to it.
use vstd::prelude::*;
use crate::account::{AccountId, Balance};
use crate::fixed_point::mul_div_floor;
use crate::host::{conclude, fail, reply_amount, reply_stake, Call, Context, Reply, Step, Write};
use crate::lending::{
    accrued, alpha_ratio, debt_limit_of, min_bid_of, payment_split, share_of, weighted_time,
    DebtPaymentBreakdown,
};
use crate::peers::{AuctionRecord, PriceData};
use crate::ratio::{Ratio, RATIO_BASIS_POINT, RATIO_ONE};
use crate::vault_alpha::{
    CollateralAdded, CollateralReleased, ContractParamsUpdateCancelled,
    ContractParamsUpdateScheduled, ContractParamsUpdated, Error, Event, ExcessAlphaClaimed,
    GlobalParamsUpdateCancelled, GlobalParamsUpdateScheduled, GlobalParamsUpdated, InterestAccrued,
    LiquidationAuctionCreated, PendingContractParamsUpdate, PendingGlobalParamsUpdate,
    TokensBorrowed, TokensRepaid, Vault, VaultContractParams, VaultContractParamsConfig,
    VaultCreated, VaultGlobalParams, VaultGlobalParamsConfig, VaultGovernanceUpdated,
    VaultLiquidated, CONTRACT_PARAMS_TIMELOCK_MS, DEFAULT_AUCTION_DURATION_MS,
    DEFAULT_COLLATERAL_RATIO_BPS, DEFAULT_INTEREST_RATE_BPS, DEFAULT_LIQUIDATION_FEE_BPS,
    DEFAULT_LIQUIDATION_RATIO_BPS, DEFAULT_MAX_ORACLE_AGE_MS, DEFAULT_TRANSACTION_FEE_BPS,
    MAX_TRANSACTION_FEE_BPS, PAGE_SIZE,
};

verus! {

/// The alpha vault's contents.
#[verifier::ext_equal]
pub struct AlphaState {
    pub governance: AccountId,
    pub treasury: AccountId,
    pub platform: AccountId,
    pub paused: bool,
    pub token: AccountId,
    pub auction: AccountId,
    pub oracle: AccountId,
    pub total_collateral_balance: Balance,
    pub vault_hotkey: AccountId,
    pub approved_netuids: Set<u16>,
    pub netuid_total_collateral: Map<u16, Balance>,
    pub netuid_params: Map<u16, VaultContractParams>,
    pub pending_contract_params_updates: Map<u16, PendingContractParamsUpdate>,
    pub global_params: VaultGlobalParams,
    pub pending_global_params_update: Option<PendingGlobalParamsUpdate>,
    pub vaults: Map<(AccountId, u32), Vault>,
    pub owner_total_debt: Map<AccountId, Balance>,
    pub vault_count: Map<AccountId, u32>,
    pub vault_keys: Seq<(AccountId, u32)>,
    pub liquidation_auctions: Map<(AccountId, u32), u32>,
    pub pending_deposits: Map<(AccountId, u16), Balance>,
    pub events: Seq<Event>,
}

// ── Parameters ──────────────────────────────────────────────────────

/// Basis points as a ratio.
pub open spec fn bps(n: u32) -> Ratio {
    Ratio { inner: (n * RATIO_BASIS_POINT) as u128 }
}

/// A ratio in whole basis points, zero where there are too many.
pub open spec fn to_bps(r: Ratio) -> u32 {
    if r.inner / RATIO_BASIS_POINT <= u32::MAX {
        (r.inner / RATIO_BASIS_POINT) as u32
    } else {
        0
    }
}

/// The risk parameters of a subnet for which none were set.
pub open spec fn default_params() -> VaultContractParams {
    VaultContractParams {
        collateral_ratio: bps(DEFAULT_COLLATERAL_RATIO_BPS),
        liquidation_ratio: bps(DEFAULT_LIQUIDATION_RATIO_BPS),
        interest_rate: bps(DEFAULT_INTEREST_RATE_BPS),
        liquidation_fee: bps(DEFAULT_LIQUIDATION_FEE_BPS),
    }
}

/// The contract-wide parameters at the start.
pub open spec fn default_globals() -> VaultGlobalParams {
    VaultGlobalParams {
        transaction_fee: bps(DEFAULT_TRANSACTION_FEE_BPS),
        auction_duration_ms: DEFAULT_AUCTION_DURATION_MS,
        max_oracle_age_ms: DEFAULT_MAX_ORACLE_AGE_MS,
    }
}

/// A subnet's configuration as parameters. The ratios must not be zero, and the collateral ratio
/// must not fall short of the liquidation ratio.
pub open spec fn params_of(c: VaultContractParamsConfig) -> Result<VaultContractParams, Error> {
    if c.collateral_ratio == 0 || c.liquidation_ratio == 0 || c.collateral_ratio
        < c.liquidation_ratio {
        Err(Error::InvalidRatio)
    } else {
        Ok(
            VaultContractParams {
                collateral_ratio: bps(c.collateral_ratio),
                liquidation_ratio: bps(c.liquidation_ratio),
                interest_rate: bps(c.interest_rate),
                liquidation_fee: bps(c.liquidation_fee),
            },
        )
    }
}

/// Parameters of a subnet as a configuration.
pub open spec fn config_of(p: VaultContractParams) -> VaultContractParamsConfig {
    VaultContractParamsConfig {
        collateral_ratio: to_bps(p.collateral_ratio),
        liquidation_ratio: to_bps(p.liquidation_ratio),
        interest_rate: to_bps(p.interest_rate),
        liquidation_fee: to_bps(p.liquidation_fee),
    }
}

/// A contract-wide configuration as parameters. The fee is at most 100%, and neither an auction
/// nor the oracle's age may be zero.
pub open spec fn globals_of(c: VaultGlobalParamsConfig) -> Result<VaultGlobalParams, Error> {
    if c.transaction_fee > MAX_TRANSACTION_FEE_BPS {
        Err(Error::InvalidTransactionFee)
    } else if c.auction_duration_ms == 0 {
        Err(Error::InvalidAuctionDuration)
    } else if c.max_oracle_age_ms == 0 {
        Err(Error::InvalidOracleMaxAge)
    } else {
        Ok(
            VaultGlobalParams {
                transaction_fee: bps(c.transaction_fee),
                auction_duration_ms: c.auction_duration_ms,
                max_oracle_age_ms: c.max_oracle_age_ms,
            },
        )
    }
}

/// Contract-wide parameters as a configuration.
pub open spec fn global_config_of(p: VaultGlobalParams) -> VaultGlobalParamsConfig {
    VaultGlobalParamsConfig {
        transaction_fee: to_bps(p.transaction_fee),
        auction_duration_ms: p.auction_duration_ms,
        max_oracle_age_ms: p.max_oracle_age_ms,
    }
}

/// The parameters in force on a subnet.
pub open spec fn params_on(s: AlphaState, netuid: u16) -> VaultContractParams {
    if s.netuid_params.contains_key(netuid) {
        s.netuid_params[netuid]
    } else {
        default_params()
    }
}

// ── Lookups ─────────────────────────────────────────────────────────

/// The collateral of all vaults on a subnet.
pub open spec fn collateral_on(s: AlphaState, netuid: u16) -> Balance {
    if s.netuid_total_collateral.contains_key(netuid) {
        s.netuid_total_collateral[netuid]
    } else {
        0
    }
}

/// The debt of all of an owner's vaults.
pub open spec fn total_debt(s: AlphaState, owner: AccountId) -> Balance {
    if s.owner_total_debt.contains_key(owner) {
        s.owner_total_debt[owner]
    } else {
        0
    }
}

/// How many vaults an owner has opened.
pub open spec fn count_of(s: AlphaState, owner: AccountId) -> u32 {
    if s.vault_count.contains_key(owner) {
        s.vault_count[owner]
    } else {
        0
    }
}

/// The debt of a stored vault; none before it is stored.
pub open spec fn stored_debt(s: AlphaState, key: (AccountId, u32)) -> Balance {
    if s.vaults.contains_key(key) {
        s.vaults[key].debt_balance
    } else {
        0
    }
}

// ── Shared rules ────────────────────────────────────────────────────

/// Whether the caller is governance.
pub open spec fn governance_only(s: AlphaState, ctx: Context) -> Result<(), Error> {
    if ctx.caller == s.governance {
        Ok(())
    } else {
        Err(Error::NotGovernance)
    }
}

/// Whether the caller is governance or the platform.
pub open spec fn governance_or_platform_only(s: AlphaState, ctx: Context) -> Result<(), Error> {
    if ctx.caller == s.governance || ctx.caller == s.platform {
        Ok(())
    } else {
        Err(Error::NotGovernanceOrPlatform)
    }
}

/// The caller's vault, which must exist and not be in liquidation.
pub open spec fn caller_vault(s: AlphaState, ctx: Context, vault_id: u32) -> Result<Vault, Error> {
    let key = (ctx.caller, vault_id);
    if !s.vaults.contains_key(key) {
        Err(Error::VaultNotFound)
    } else if s.liquidation_auctions.contains_key(key) {
        Err(Error::VaultInLiquidation)
    } else {
        Ok(s.vaults[key])
    }
}

/// A vault with its interest brought up to date.
pub open spec fn with_interest(s: AlphaState, ctx: Context, v: Vault) -> Result<Vault, Error> {
    match accrued(
        v.debt_balance,
        v.total_interest_accrued,
        v.last_interest_accrued_at,
        params_on(s, v.netuid).interest_rate,
        ctx.now,
    ) {
        None => Err(Error::ArithmeticError),
        Some(a) => Ok(
            Vault {
                debt_balance: a.debt_balance,
                total_interest_accrued: a.total_interest_accrued,
                last_interest_accrued_at: a.last_interest_accrued_at,
                ..v
            },
        ),
    }
}

/// An owner's debt after one vault's debt moves from `previous` to `next`.
pub open spec fn synced_debt(s: AlphaState, owner: AccountId, previous: Balance, next: Balance) ->
    Option<Balance> {
    if total_debt(s, owner) < previous {
        None
    } else if total_debt(s, owner) - previous + next > Balance::MAX {
        None
    } else {
        Some((total_debt(s, owner) - previous + next) as Balance)
    }
}

/// Whether a vault with this debt can be stored.
pub open spec fn can_save(s: AlphaState, key: (AccountId, u32), debt: Balance) -> bool {
    synced_debt(s, key.0, stored_debt(s, key), debt) is Some
}

/// The contents after a vault was stored and its owner's total debt followed.
pub open spec fn saved(s: AlphaState, key: (AccountId, u32), v: Vault) -> AlphaState {
    AlphaState {
        vaults: s.vaults.insert(key, v),
        owner_total_debt: s.owner_total_debt.insert(
            key.0,
            synced_debt(s, key.0, stored_debt(s, key), v.debt_balance)->0,
        ),
        ..s
    }
}

/// The contents with an event recorded.
pub open spec fn emitted(s: AlphaState, e: Event) -> AlphaState {
    AlphaState { events: s.events.push(e), ..s }
}

/// The alpha that a stake record lets the contract move: the total minus what is locked, if
/// there is any.
pub open spec fn movable_stake(reply: Reply) -> Result<Balance, Error> {
    match reply_stake(reply) {
        None => Err(Error::ChainExtensionFailed),
        Some(None) => Err(Error::NoAlphaStakeFound),
        Some(Some(info)) => if info.stake < info.locked {
            Err(Error::ArithmeticError)
        } else if info.stake == info.locked {
            Err(Error::NoAlphaStakeFound)
        } else {
            Ok((info.stake - info.locked) as Balance)
        },
    }
}

/// The read of the contract's own stake on a subnet.
pub open spec fn stake_read(s: AlphaState, ctx: Context, netuid: u16) -> Call {
    Call::StakeInfo { hotkey: s.vault_hotkey, coldkey: ctx.contract, netuid }
}

/// Holds the oracle's price against the time: it must exist, be no older than allowed, not lie in
/// the future, and not be zero.
pub open spec fn price_valid(data: Option<PriceData>, now: u64, max_age: u64) -> Result<
    PriceData,
    Error,
> {
    match data {
        None => Err(Error::OraclePriceUnavailable),
        Some(d) => if now < d.committed_at || now - d.committed_at > max_age {
            Err(Error::OraclePriceStale)
        } else if d.price.inner == 0 {
            Err(Error::OraclePriceUnavailable)
        } else {
            Ok(d)
        },
    }
}

/// TUSDT per alpha: TUSDT per TAO times TAO per alpha.
pub open spec fn combined_price(tusdt_per_tao: Ratio, alpha_price_rao: u64) -> Result<Ratio, Error> {
    match mul_div_floor(
        tusdt_per_tao.inner as int,
        alpha_ratio(alpha_price_rao).inner as int,
        RATIO_ONE as int,
    ) {
        Some(inner) => Ok(Ratio { inner }),
        None => Err(Error::ArithmeticError),
    }
}

/// Reads the price of a subnet's alpha, in TUSDT: the oracle's price first, the alpha price of
/// the chain second. Their replies stand at `from` and after.
pub open spec fn price_step(
    s: AlphaState,
    ctx: Context,
    netuid: u16,
    replies: Seq<Reply>,
    from: int,
) -> Step<Ratio, Error> {
    if replies.len() <= from {
        Step::Call(Call::OracleLatestPrice { oracle: s.oracle })
    } else {
        match price_valid(replies[from]->Price_0, ctx.now, s.global_params.max_oracle_age_ms) {
            Err(e) => fail(e),
            Ok(data) => if replies.len() <= from + 1 {
                Step::Call(Call::AlphaPrice { netuid })
            } else {
                match reply_amount(replies[from + 1]) {
                    None => fail(Error::ChainExtensionFailed),
                    Some(rao) => Step::Done(combined_price(data.price, rao)),
                }
            },
        }
    }
}

/// The oracle answers its read with a price or none.
pub open spec fn oracle_answers(replies: Seq<Reply>, at: int) -> bool {
    replies.len() > at ==> replies[at] is Price
}

/// The fee on an amount.
pub open spec fn fee_of(s: AlphaState, amount: Balance) -> Option<Balance> {
    share_of(s.global_params.transaction_fee, amount)
}

/// A vault after a payment, and how the payment splits.
pub open spec fn paid(v: Vault, amount: Balance) -> Result<(Vault, DebtPaymentBreakdown), Error> {
    let p = payment_split(v.debt_balance, v.borrowed_token_balance, amount);
    if amount > v.debt_balance {
        Err(Error::RepayAmountTooHigh)
    } else if v.debt_balance < v.borrowed_token_balance {
        Err(Error::ArithmeticError)
    } else {
        Ok(
            (
                Vault {
                    debt_balance: (v.debt_balance - amount) as Balance,
                    borrowed_token_balance: (v.borrowed_token_balance
                        - p.principal_payment) as Balance,
                    ..v
                },
                p,
            ),
        )
    }
}

// ── Construction ────────────────────────────────────────────────────

/// The contents of a fresh vault with its three child contracts.
pub open spec fn initial_alpha_state(
    governance: AccountId,
    treasury: AccountId,
    hotkey: AccountId,
    token: AccountId,
    auction: AccountId,
    oracle: AccountId,
) -> AlphaState {
    AlphaState {
        governance,
        treasury,
        platform: governance,
        paused: false,
        token,
        auction,
        oracle,
        total_collateral_balance: 0,
        vault_hotkey: hotkey,
        approved_netuids: Set::empty(),
        netuid_total_collateral: Map::empty(),
        netuid_params: Map::empty(),
        pending_contract_params_updates: Map::empty(),
        global_params: default_globals(),
        pending_global_params_update: None,
        vaults: Map::empty(),
        owner_total_debt: Map::empty(),
        vault_count: Map::empty(),
        vault_keys: Seq::empty(),
        liquidation_auctions: Map::empty(),
        pending_deposits: Map::empty(),
        events: Seq::empty(),
    }
}

// ── Parameter updates ───────────────────────────────────────────────

/// How scheduling an update ends: the time from which it can be executed.
pub open spec fn schedule_result<T>(
    s: AlphaState,
    ctx: Context,
    validated: Result<T, Error>,
) -> Result<u64, Error> {
    if ctx.caller != s.governance {
        Err(Error::NotGovernance)
    } else {
        match validated {
            Err(e) => Err(e),
            Ok(_) => if ctx.now + CONTRACT_PARAMS_TIMELOCK_MS > u64::MAX {
                Err(Error::ArithmeticError)
            } else {
                Ok((ctx.now + CONTRACT_PARAMS_TIMELOCK_MS) as u64)
            },
        }
    }
}

/// The contents after an update of a subnet's parameters was scheduled.
pub open spec fn params_scheduled(
    s: AlphaState,
    netuid: u16,
    params: VaultContractParamsConfig,
    execute_after: u64,
) -> AlphaState {
    emitted(
        AlphaState {
            pending_contract_params_updates: s.pending_contract_params_updates.insert(
                netuid,
                PendingContractParamsUpdate { params, execute_after },
            ),
            ..s
        },
        Event::ContractParamsUpdateScheduled(
            ContractParamsUpdateScheduled { params, execute_after },
        ),
    )
}

/// How executing a subnet's update ends: the new parameters.
pub open spec fn execute_params_result(s: AlphaState, ctx: Context, netuid: u16) -> Result<
    VaultContractParams,
    Error,
> {
    let pending = s.pending_contract_params_updates[netuid];
    if !s.pending_contract_params_updates.contains_key(netuid) {
        Err(Error::NoPendingContractParamsUpdate)
    } else if ctx.now < pending.execute_after {
        Err(Error::ContractParamsUpdateTimelockActive)
    } else {
        params_of(pending.params)
    }
}

/// The contents after a subnet's update was executed.
pub open spec fn params_executed(s: AlphaState, netuid: u16, new_params: VaultContractParams) ->
    AlphaState {
    emitted(
        AlphaState {
            netuid_params: s.netuid_params.insert(netuid, new_params),
            pending_contract_params_updates: s.pending_contract_params_updates.remove(netuid),
            ..s
        },
        Event::ContractParamsUpdated(
            ContractParamsUpdated { params: s.pending_contract_params_updates[netuid].params },
        ),
    )
}

/// How cancelling a subnet's update ends.
pub open spec fn cancel_params_result(s: AlphaState, ctx: Context, netuid: u16) -> Result<
    (),
    Error,
> {
    if ctx.caller != s.governance {
        Err(Error::NotGovernance)
    } else if !s.pending_contract_params_updates.contains_key(netuid) {
        Err(Error::NoPendingContractParamsUpdate)
    } else {
        Ok(())
    }
}

/// The contents after a subnet's update was cancelled.
pub open spec fn params_cancelled(s: AlphaState, netuid: u16) -> AlphaState {
    emitted(
        AlphaState {
            pending_contract_params_updates: s.pending_contract_params_updates.remove(netuid),
            ..s
        },
        Event::ContractParamsUpdateCancelled(
            ContractParamsUpdateCancelled {
                params: s.pending_contract_params_updates[netuid].params,
            },
        ),
    )
}

/// The contents after a contract-wide update was scheduled.
pub open spec fn globals_scheduled(
    s: AlphaState,
    params: VaultGlobalParamsConfig,
    execute_after: u64,
) -> AlphaState {
    emitted(
        AlphaState {
            pending_global_params_update: Some(
                PendingGlobalParamsUpdate { params, execute_after },
            ),
            ..s
        },
        Event::GlobalParamsUpdateScheduled(GlobalParamsUpdateScheduled { params, execute_after }),
    )
}

/// How executing the contract-wide update ends: the new parameters.
pub open spec fn execute_globals_result(s: AlphaState, ctx: Context) -> Result<
    VaultGlobalParams,
    Error,
> {
    match s.pending_global_params_update {
        None => Err(Error::NoPendingContractParamsUpdate),
        Some(pending) => if ctx.now < pending.execute_after {
            Err(Error::ContractParamsUpdateTimelockActive)
        } else {
            globals_of(pending.params)
        },
    }
}

/// The contents after the contract-wide update was executed.
pub open spec fn globals_executed(s: AlphaState, new_params: VaultGlobalParams) -> AlphaState {
    emitted(
        AlphaState { global_params: new_params, pending_global_params_update: None, ..s },
        Event::GlobalParamsUpdated(
            GlobalParamsUpdated { params: s.pending_global_params_update->0.params },
        ),
    )
}

/// How cancelling the contract-wide update ends.
pub open spec fn cancel_globals_result(s: AlphaState, ctx: Context) -> Result<(), Error> {
    if ctx.caller != s.governance {
        Err(Error::NotGovernance)
    } else if s.pending_global_params_update is None {
        Err(Error::NoPendingContractParamsUpdate)
    } else {
        Ok(())
    }
}

/// The contents after the contract-wide update was cancelled.
pub open spec fn globals_cancelled(s: AlphaState) -> AlphaState {
    emitted(
        AlphaState { pending_global_params_update: None, ..s },
        Event::GlobalParamsUpdateCancelled(
            GlobalParamsUpdateCancelled { params: s.pending_global_params_update->0.params },
        ),
    )
}

// ── Roles and treasury ──────────────────────────────────────────────

/// `update_governance`, step by step: the auction and the oracle follow.
pub open spec fn update_governance_step(
    s: AlphaState,
    ctx: Context,
    governance: AccountId,
    replies: Seq<Reply>,
) -> Step<(), Error> {
    match governance_only(s, ctx) {
        Err(e) => fail(e),
        Ok(()) => conclude(child_governance_writes(s, governance), replies, 0, Ok(())),
    }
}

/// The calls that hand governance of the child contracts on.
pub open spec fn child_governance_writes(s: AlphaState, governance: AccountId) -> Seq<
    Write<Error>,
> {
    seq![
        Write {
            call: Call::AuctionUpdateGovernance { auction: s.auction, governance },
            on_failure: Error::AuctionContractCallFailed,
        },
        Write {
            call: Call::OracleUpdateGovernance { oracle: s.oracle, governance },
            on_failure: Error::OracleCallFailed,
        },
    ]
}

/// The contents after `update_governance` succeeded.
pub open spec fn governance_updated(s: AlphaState, governance: AccountId) -> AlphaState {
    emitted(
        AlphaState { governance, ..s },
        Event::VaultGovernanceUpdated(
            VaultGovernanceUpdated {
                previous_governance: s.governance,
                new_governance: governance,
            },
        ),
    )
}

/// `claim_surplus_tusdt`, step by step.
pub open spec fn claim_surplus_step(
    s: AlphaState,
    ctx: Context,
    amount: Balance,
    replies: Seq<Reply>,
) -> Step<(), Error> {
    match governance_or_platform_only(s, ctx) {
        Err(e) => fail(e),
        Ok(()) => conclude(seq![token_transfer(s, s.treasury, amount)], replies, 0, Ok(())),
    }
}

/// A TUSDT payment of the contract.
pub open spec fn token_transfer(s: AlphaState, to: AccountId, amount: Balance) -> Write<Error> {
    Write {
        call: Call::TokenTransfer { token: s.token, to, amount },
        on_failure: Error::TransferFailed,
    }
}

/// A mint of TUSDT.
pub open spec fn token_mint(s: AlphaState, to: AccountId, amount: Balance) -> Write<Error> {
    Write { call: Call::TokenMint { token: s.token, to, amount }, on_failure: Error::TransferFailed }
}

/// A burn of TUSDT.
pub open spec fn token_burn(s: AlphaState, from: AccountId, amount: Balance) -> Write<Error> {
    Write {
        call: Call::TokenBurn { token: s.token, from, amount },
        on_failure: Error::TransferFailed,
    }
}

/// A native payment of the contract.
pub open spec fn native_transfer(to: AccountId, amount: Balance) -> Write<Error> {
    Write { call: Call::NativeTransfer { to, amount }, on_failure: Error::TransferFailed }
}

/// A list of one write when there is an amount, else of none.
pub open spec fn when_positive(amount: Balance, write: Write<Error>) -> Seq<Write<Error>> {
    if amount > 0 {
        seq![write]
    } else {
        seq![]
    }
}

/// The excess of the contract's stake over the collateral on a subnet.
pub open spec fn excess_on(s: AlphaState, netuid: u16, stake: Balance) -> int {
    stake - collateral_on(s, netuid)
}

/// `claim_excess_alpha`, step by step: the stake is read, the excess over the collateral is
/// unstaked between two readings of the native balance, and the gain goes to the treasury.
/// Without a stake, or without excess, there is nothing to do.
pub open spec fn claim_excess_step(
    s: AlphaState,
    ctx: Context,
    netuid: u16,
    replies: Seq<Reply>,
) -> Step<(), Error> {
    if ctx.caller != s.governance {
        fail(Error::NotGovernance)
    } else if replies.len() == 0 {
        Step::Call(stake_read(s, ctx, netuid))
    } else {
        match movable_stake(replies[0]) {
            Err(e) => if e == Error::NoAlphaStakeFound {
                Step::Done(Ok(()))
            } else {
                fail(e)
            },
            Ok(stake) => {
                let excess = excess_on(s, netuid, stake);
                if excess <= 0 {
                    Step::Done(Ok(()))
                } else if replies.len() == 1 {
                    Step::Call(Call::NativeBalance)
                } else if replies.len() == 2 {
                    Step::Call(
                        Call::RemoveStake {
                            hotkey: s.vault_hotkey,
                            netuid,
                            amount: excess as Balance,
                        },
                    )
                } else if replies[2] is Failed {
                    fail(Error::ChainExtensionFailed)
                } else if replies.len() == 3 {
                    Step::Call(Call::NativeBalance)
                } else {
                    let gain = replies[3]->Amount_0 - replies[1]->Amount_0;
                    if gain < 0 {
                        fail(Error::ArithmeticError)
                    } else {
                        conclude(
                            when_positive(
                                gain as Balance,
                                native_transfer(s.treasury, gain as Balance),
                            ),
                            replies,
                            4,
                            Ok(()),
                        )
                    }
                }
            },
        }
    }
}

/// The contents after `claim_excess_alpha` succeeded: a claim is recorded when there was excess.
pub open spec fn claim_excess_next(s: AlphaState, netuid: u16, replies: Seq<Reply>) -> AlphaState {
    match movable_stake(replies[0]) {
        Err(_) => s,
        Ok(stake) => if excess_on(s, netuid, stake) <= 0 {
            s
        } else {
            emitted(
                s,
                Event::ExcessAlphaClaimed(
                    ExcessAlphaClaimed {
                        netuid,
                        excess_alpha: excess_on(s, netuid, stake) as Balance,
                        tao_received: (replies[3]->Amount_0 - replies[1]->Amount_0) as Balance,
                    },
                ),
            )
        },
    }
}

// ── Vault lifecycle ─────────────────────────────────────────────────

/// How `deposit_alpha` ends.
pub open spec fn deposit_result(s: AlphaState, ctx: Context, amount: Balance, netuid: u16) ->
    Result<(), Error> {
    if s.paused {
        Err(Error::ContractPaused)
    } else if !s.approved_netuids.contains(netuid) {
        Err(Error::UnapprovedNetuid)
    } else if amount == 0 {
        Err(Error::InsufficientCollateral)
    } else if s.pending_deposits.contains_key((ctx.caller, netuid)) {
        Err(Error::InsufficientCollateral)
    } else {
        Ok(())
    }
}

/// The balances of a vault and of all vaults after a collateral addition.
pub open spec fn bounded_addition(s: AlphaState, vault_current: Balance, addition: Balance) ->
    Result<(Balance, Balance), Error> {
    if addition == 0 {
        Err(Error::InsufficientCollateral)
    } else if vault_current + addition > Balance::MAX {
        Err(Error::ArithmeticError)
    } else if s.total_collateral_balance + addition > Balance::MAX {
        Err(Error::ArithmeticError)
    } else {
        Ok(
            (
                (vault_current + addition) as Balance,
                (s.total_collateral_balance + addition) as Balance,
            ),
        )
    }
}

/// The vault that `create_alpha_vault` opens.
pub open spec fn opened_vault(s: AlphaState, ctx: Context, netuid: u16) -> Vault {
    Vault {
        id: count_of(s, ctx.caller),
        owner: ctx.caller,
        netuid,
        collateral_balance: s.pending_deposits[(ctx.caller, netuid)],
        borrowed_token_balance: 0,
        debt_balance: 0,
        total_interest_accrued: 0,
        created_at: ctx.now,
        last_interest_accrued_at: ctx.now,
    }
}

/// `create_alpha_vault`, step by step.
pub open spec fn create_step(s: AlphaState, ctx: Context, netuid: u16, replies: Seq<Reply>) -> Step<
    u32,
    Error,
> {
    let amount = s.pending_deposits[(ctx.caller, netuid)];
    let vault_id = count_of(s, ctx.caller);
    if s.paused {
        fail(Error::ContractPaused)
    } else if !s.approved_netuids.contains(netuid) {
        fail(Error::UnapprovedNetuid)
    } else if !s.pending_deposits.contains_key((ctx.caller, netuid)) {
        fail(Error::NotDepositor)
    } else if replies.len() == 0 {
        Step::Call(stake_read(s, ctx, netuid))
    } else {
        match movable_stake(replies[0]) {
            Err(e) => fail(e),
            Ok(stake) => if collateral_on(s, netuid) + amount > Balance::MAX {
                fail(Error::ArithmeticError)
            } else if stake < collateral_on(s, netuid) + amount {
                fail(Error::InsufficientCollateral)
            } else {
                match bounded_addition(s, 0, amount) {
                    Err(e) => fail(e),
                    Ok(_) => if !can_save(s, (ctx.caller, vault_id), 0) {
                        fail(Error::ArithmeticError)
                    } else if vault_id == u32::MAX {
                        fail(Error::ArithmeticError)
                    } else {
                        Step::Done(Ok(vault_id))
                    },
                }
            },
        }
    }
}

/// The contents after `create_alpha_vault` succeeded.
pub open spec fn create_next(s: AlphaState, ctx: Context, netuid: u16) -> AlphaState {
    let amount = s.pending_deposits[(ctx.caller, netuid)];
    let key = (ctx.caller, count_of(s, ctx.caller));
    emitted(
        AlphaState {
            vault_keys: s.vault_keys.push(key),
            pending_deposits: s.pending_deposits.remove((ctx.caller, netuid)),
            total_collateral_balance: (s.total_collateral_balance + amount) as Balance,
            netuid_total_collateral: s.netuid_total_collateral.insert(
                netuid,
                (collateral_on(s, netuid) + amount) as Balance,
            ),
            vault_count: s.vault_count.insert(ctx.caller, (key.1 + 1) as u32),
            ..saved(s, key, opened_vault(s, ctx, netuid))
        },
        Event::VaultCreated(VaultCreated { owner: ctx.caller, vault_id: key.1, amount }),
    )
}

/// `add_alpha_collateral`, step by step.
pub open spec fn add_step(s: AlphaState, ctx: Context, vault_id: u32, replies: Seq<Reply>) -> Step<
    (),
    Error,
> {
    if s.paused {
        fail(Error::ContractPaused)
    } else {
        match caller_vault(s, ctx, vault_id) {
            Err(e) => fail(e),
            Ok(v) => if replies.len() == 0 {
                Step::Call(stake_read(s, ctx, v.netuid))
            } else {
                match movable_stake(replies[0]) {
                    Err(e) => fail(e),
                    Ok(stake) => if stake < collateral_on(s, v.netuid) {
                        fail(Error::InsufficientCollateral)
                    } else {
                        match bounded_addition(
                            s,
                            v.collateral_balance,
                            (stake - collateral_on(s, v.netuid)) as Balance,
                        ) {
                            Err(e) => fail(e),
                            Ok(_) => if !can_save(s, (ctx.caller, vault_id), v.debt_balance) {
                                fail(Error::ArithmeticError)
                            } else {
                                Step::Done(Ok(()))
                            },
                        }
                    },
                }
            },
        }
    }
}

/// The contents after `add_alpha_collateral` succeeded: the vault takes all stake that no vault
/// had claimed.
pub open spec fn add_next(s: AlphaState, ctx: Context, vault_id: u32, replies: Seq<Reply>) ->
    AlphaState {
    let key = (ctx.caller, vault_id);
    let v = s.vaults[key];
    let stake = movable_stake(replies[0])->Ok_0;
    let addition = (stake - collateral_on(s, v.netuid)) as Balance;
    emitted(
        AlphaState {
            total_collateral_balance: (s.total_collateral_balance + addition) as Balance,
            netuid_total_collateral: s.netuid_total_collateral.insert(v.netuid, stake),
            ..saved(
                s,
                key,
                Vault { collateral_balance: (v.collateral_balance + addition) as Balance, ..v },
            )
        },
        Event::CollateralAdded(CollateralAdded { owner: ctx.caller, vault_id, amount: addition }),
    )
}

/// The mints of a borrow: the borrower gets the amount without the fee, the treasury the fee.
pub open spec fn borrow_writes(s: AlphaState, borrower: AccountId, amount: Balance, fee: Balance) ->
    Seq<Write<Error>> {
    let net = (amount - fee) as Balance;
    when_positive(net, token_mint(s, borrower, net)) + when_positive(
        fee,
        token_mint(s, s.treasury, fee),
    )
}

/// A vault after borrowing.
pub open spec fn borrowed(ctx: Context, v: Vault, amount: Balance) -> Vault {
    Vault {
        borrowed_token_balance: (v.borrowed_token_balance + amount) as Balance,
        debt_balance: (v.debt_balance + amount) as Balance,
        last_interest_accrued_at: weighted_time(
            v.last_interest_accrued_at,
            v.debt_balance,
            ctx.now,
            amount,
        )->0,
        ..v
    }
}

/// `borrow_token` of an amount on a vault whose interest is up to date, once the price is known.
pub open spec fn borrow_priced(
    s: AlphaState,
    ctx: Context,
    vault_id: u32,
    v: Vault,
    amount: Balance,
    fee: Balance,
    price: Ratio,
    replies: Seq<Reply>,
) -> Step<(), Error> {
    match debt_limit_of(params_on(s, v.netuid).collateral_ratio, price, v.collateral_balance) {
        None => fail(Error::ArithmeticError),
        Some(max) => if v.borrowed_token_balance + amount > Balance::MAX || v.debt_balance + amount
            > Balance::MAX {
            fail(Error::ArithmeticError)
        } else if v.debt_balance + amount > max {
            fail(Error::CollateralRatioExceeded)
        } else {
            conclude(
                borrow_writes(s, ctx.caller, amount, fee),
                replies,
                2,
                if can_save(s, (ctx.caller, vault_id), (v.debt_balance + amount) as Balance) {
                    Ok(())
                } else {
                    Err(Error::ArithmeticError)
                },
            )
        },
    }
}

/// `borrow_token`, step by step. Borrowing nothing only brings the interest up to date.
pub open spec fn borrow_step(
    s: AlphaState,
    ctx: Context,
    vault_id: u32,
    amount: Balance,
    replies: Seq<Reply>,
) -> Step<(), Error> {
    if s.paused {
        fail(Error::ContractPaused)
    } else {
        match caller_vault(s, ctx, vault_id) {
            Err(e) => fail(e),
            Ok(stored) => match with_interest(s, ctx, stored) {
                Err(e) => fail(e),
                Ok(v) => if amount == 0 {
                    if can_save(s, (ctx.caller, vault_id), v.debt_balance) {
                        Step::Done(Ok(()))
                    } else {
                        fail(Error::ArithmeticError)
                    }
                } else {
                    match fee_of(s, amount) {
                        None => fail(Error::ArithmeticError),
                        Some(fee) => if fee > amount {
                            fail(Error::ArithmeticError)
                        } else {
                            match price_step(s, ctx, v.netuid, replies, 0) {
                                Step::Call(call) => Step::Call(call),
                                Step::Done(Err(e)) => fail(e),
                                Step::Done(Ok(price)) => borrow_priced(
                                    s,
                                    ctx,
                                    vault_id,
                                    v,
                                    amount,
                                    fee,
                                    price,
                                    replies,
                                ),
                            }
                        },
                    }
                },
            },
        }
    }
}

/// The contents after `borrow_token` succeeded.
pub open spec fn borrow_next(s: AlphaState, ctx: Context, vault_id: u32, amount: Balance) ->
    AlphaState {
    let key = (ctx.caller, vault_id);
    let v = with_interest(s, ctx, s.vaults[key])->Ok_0;
    if amount == 0 {
        saved(s, key, v)
    } else {
        emitted(
            saved(s, key, borrowed(ctx, v, amount)),
            Event::TokensBorrowed(
                TokensBorrowed {
                    owner: ctx.caller,
                    vault_id,
                    amount,
                    transaction_fee: fee_of(s, amount)->0,
                },
            ),
        )
    }
}

/// The token calls of a repayment: the payer's amount and fee are burned, and the interest and
/// the fee are minted to the treasury.
pub open spec fn repay_writes(
    s: AlphaState,
    payer: AccountId,
    amount: Balance,
    fee: Balance,
    interest: Balance,
) -> Seq<Write<Error>> {
    seq![token_burn(s, payer, (amount + fee) as Balance)] + when_positive(
        (interest + fee) as Balance,
        token_mint(s, s.treasury, (interest + fee) as Balance),
    )
}

/// `repay_token`, step by step. Repaying nothing only brings the interest up to date.
pub open spec fn repay_step(
    s: AlphaState,
    ctx: Context,
    vault_id: u32,
    amount: Balance,
    replies: Seq<Reply>,
) -> Step<(), Error> {
    if s.paused {
        fail(Error::ContractPaused)
    } else {
        match caller_vault(s, ctx, vault_id) {
            Err(e) => fail(e),
            Ok(stored) => match with_interest(s, ctx, stored) {
                Err(e) => fail(e),
                Ok(v) => if amount == 0 {
                    if can_save(s, (ctx.caller, vault_id), v.debt_balance) {
                        Step::Done(Ok(()))
                    } else {
                        fail(Error::ArithmeticError)
                    }
                } else if amount > v.debt_balance {
                    fail(Error::RepayAmountTooHigh)
                } else {
                    match fee_of(s, amount) {
                        None => fail(Error::ArithmeticError),
                        Some(fee) => if amount + fee > Balance::MAX {
                            fail(Error::ArithmeticError)
                        } else if replies.len() == 0 {
                            Step::Call(Call::TokenBalanceOf { token: s.token, owner: ctx.caller })
                        } else if replies[0]->Amount_0 < amount + fee {
                            fail(Error::InsufficientTokenBalance)
                        } else {
                            match paid(v, amount) {
                                Err(e) => fail(e),
                                Ok((after, p)) => conclude(
                                    repay_writes(s, ctx.caller, amount, fee, p.interest_payment),
                                    replies,
                                    1,
                                    if can_save(s, (ctx.caller, vault_id), after.debt_balance) {
                                        Ok(())
                                    } else {
                                        Err(Error::ArithmeticError)
                                    },
                                ),
                            }
                        },
                    }
                },
            },
        }
    }
}

/// The contents after `repay_token` succeeded.
pub open spec fn repay_next(s: AlphaState, ctx: Context, vault_id: u32, amount: Balance) ->
    AlphaState {
    let key = (ctx.caller, vault_id);
    let v = with_interest(s, ctx, s.vaults[key])->Ok_0;
    if amount == 0 {
        saved(s, key, v)
    } else {
        emitted(
            saved(s, key, paid(v, amount)->Ok_0.0),
            Event::TokensRepaid(
                TokensRepaid {
                    owner: ctx.caller,
                    vault_id,
                    amount,
                    transaction_fee: fee_of(s, amount)->0,
                },
            ),
        )
    }
}

/// How `accrue_interest` ends: the debt.
pub open spec fn accrue_result(s: AlphaState, ctx: Context, owner: AccountId, vault_id: u32) ->
    Result<Balance, Error> {
    let key = (owner, vault_id);
    if s.paused {
        Err(Error::ContractPaused)
    } else if s.liquidation_auctions.contains_key(key) {
        Err(Error::VaultInLiquidation)
    } else if !s.vaults.contains_key(key) {
        Err(Error::VaultNotFound)
    } else {
        match with_interest(s, ctx, s.vaults[key]) {
            Err(e) => Err(e),
            Ok(v) => if can_save(s, key, v.debt_balance) {
                Ok(v.debt_balance)
            } else {
                Err(Error::ArithmeticError)
            },
        }
    }
}

/// The contents after `accrue_interest` succeeded.
pub open spec fn accrue_next(s: AlphaState, ctx: Context, owner: AccountId, vault_id: u32) ->
    AlphaState {
    let key = (owner, vault_id);
    let v = with_interest(s, ctx, s.vaults[key])->Ok_0;
    emitted(
        saved(s, key, v),
        Event::InterestAccrued(
            InterestAccrued {
                owner,
                vault_id,
                previous_debt_balance: s.vaults[key].debt_balance,
                debt_balance: v.debt_balance,
                accrued_at: v.last_interest_accrued_at,
            },
        ),
    )
}

/// Whether collateral can leave the books of all vaults, and a vault can be stored after it.
pub open spec fn can_take_out(
    s: AlphaState,
    key: (AccountId, u32),
    netuid: u16,
    amount: Balance,
    debt: Balance,
) -> bool {
    &&& s.total_collateral_balance >= amount
    &&& collateral_on(s, netuid) >= amount
    &&& can_save(s, key, debt)
}

/// The contents after collateral left the books and the vault was stored.
pub open spec fn taken_out(s: AlphaState, key: (AccountId, u32), v: Vault, amount: Balance) ->
    AlphaState {
    AlphaState {
        total_collateral_balance: (s.total_collateral_balance - amount) as Balance,
        netuid_total_collateral: s.netuid_total_collateral.insert(
            v.netuid,
            (collateral_on(s, v.netuid) - amount) as Balance,
        ),
        ..saved(s, key, v)
    }
}

/// The stake transfer of a release, and how the release ends after it.
pub open spec fn release_transfer(
    s: AlphaState,
    ctx: Context,
    vault_id: u32,
    v: Vault,
    amount: Balance,
    dest_coldkey: AccountId,
    replies: Seq<Reply>,
    from: nat,
) -> Step<(), Error> {
    conclude(
        seq![
            Write {
                call: Call::TransferStake {
                    destination: dest_coldkey,
                    hotkey: s.vault_hotkey,
                    origin_netuid: v.netuid,
                    destination_netuid: v.netuid,
                    amount,
                },
                on_failure: Error::ChainExtensionFailed,
            },
        ],
        replies,
        from,
        if can_take_out(s, (ctx.caller, vault_id), v.netuid, amount, v.debt_balance) {
            Ok(())
        } else {
            Err(Error::ArithmeticError)
        },
    )
}

/// Whether a release reads the price: only debt needs it.
pub open spec fn release_reads_price(s: AlphaState, ctx: Context, vault_id: u32) -> bool {
    s.vaults.contains_key((ctx.caller, vault_id)) && match with_interest(
        s,
        ctx,
        s.vaults[(ctx.caller, vault_id)],
    ) {
        Ok(v) => v.debt_balance > 0,
        Err(_) => false,
    }
}

/// `release_alpha_collateral`, step by step. A vault with debt must still bear it with the
/// collateral that stays.
pub open spec fn release_step(
    s: AlphaState,
    ctx: Context,
    vault_id: u32,
    amount: Balance,
    dest_coldkey: AccountId,
    replies: Seq<Reply>,
) -> Step<(), Error> {
    if s.paused {
        fail(Error::ContractPaused)
    } else {
        match caller_vault(s, ctx, vault_id) {
            Err(e) => fail(e),
            Ok(stored) => if stored.collateral_balance < amount {
                fail(Error::InsufficientCollateral)
            } else {
                match with_interest(s, ctx, stored) {
                    Err(e) => fail(e),
                    Ok(v) => if v.debt_balance == 0 {
                        release_transfer(s, ctx, vault_id, v, amount, dest_coldkey, replies, 0)
                    } else {
                        match price_step(s, ctx, v.netuid, replies, 0) {
                            Step::Call(call) => Step::Call(call),
                            Step::Done(Err(e)) => fail(e),
                            Step::Done(Ok(price)) => match debt_limit_of(
                                params_on(s, v.netuid).collateral_ratio,
                                price,
                                (v.collateral_balance - amount) as Balance,
                            ) {
                                None => fail(Error::ArithmeticError),
                                Some(max) => if v.debt_balance > max {
                                    fail(Error::CollateralRatioExceeded)
                                } else {
                                    release_transfer(
                                        s,
                                        ctx,
                                        vault_id,
                                        v,
                                        amount,
                                        dest_coldkey,
                                        replies,
                                        2,
                                    )
                                },
                            },
                        }
                    },
                }
            },
        }
    }
}

/// The contents after `release_alpha_collateral` succeeded.
pub open spec fn release_next(
    s: AlphaState,
    ctx: Context,
    vault_id: u32,
    amount: Balance,
    dest_coldkey: AccountId,
) -> AlphaState {
    let key = (ctx.caller, vault_id);
    let v = with_interest(s, ctx, s.vaults[key])->Ok_0;
    emitted(
        taken_out(
            s,
            key,
            Vault { collateral_balance: (v.collateral_balance - amount) as Balance, ..v },
            amount,
        ),
        Event::CollateralReleased(
            CollateralReleased { owner: ctx.caller, vault_id, amount, dest_coldkey },
        ),
    )
}

// ── Liquidation ─────────────────────────────────────────────────────

/// Whether a vault's debt exceeds what its collateral bears at the liquidation ratio.
pub open spec fn liquidatable(s: AlphaState, price: Ratio, v: Vault) -> Result<bool, Error> {
    match debt_limit_of(params_on(s, v.netuid).liquidation_ratio, price, v.collateral_balance) {
        None => Err(Error::ArithmeticError),
        Some(limit) => Ok(v.debt_balance > limit),
    }
}

/// `trigger_liquidation_auction` after the vault was found unsafe: all collateral is unstaked
/// between two readings of the native balance, and an auction is opened for the gain.
pub open spec fn trigger_unsafe(
    s: AlphaState,
    key: (AccountId, u32),
    v: Vault,
    price: Ratio,
    replies: Seq<Reply>,
) -> Step<u32, Error> {
    if replies.len() == 2 {
        Step::Call(Call::NativeBalance)
    } else if replies.len() == 3 {
        Step::Call(
            Call::RemoveStake {
                hotkey: s.vault_hotkey,
                netuid: v.netuid,
                amount: v.collateral_balance,
            },
        )
    } else if replies[3] is Failed {
        fail(Error::TransferFailed)
    } else if replies.len() == 4 {
        Step::Call(Call::NativeBalance)
    } else {
        let recovered = replies[4]->Amount_0 - replies[2]->Amount_0;
        if recovered < 0 {
            fail(Error::ArithmeticError)
        } else if !can_take_out(s, key, v.netuid, v.collateral_balance, v.debt_balance) {
            fail(Error::ArithmeticError)
        } else {
            match min_bid_of(params_on(s, v.netuid).liquidation_fee, v.debt_balance) {
                None => fail(Error::ArithmeticError),
                Some(bid) => if replies.len() == 5 {
                    Step::Call(
                        Call::AuctionCreate {
                            auction: s.auction,
                            owner: key.0,
                            vault_id: key.1,
                            collateral: recovered as Balance,
                            debt: v.debt_balance,
                            min_bid: bid,
                            price,
                            duration_ms: Some(s.global_params.auction_duration_ms),
                        },
                    )
                } else {
                    match replies[5] {
                        Reply::AuctionId(id) => Step::Done(Ok(id)),
                        _ => fail(Error::AuctionContractCallFailed),
                    }
                },
            }
        }
    }
}

/// `trigger_liquidation_auction`, step by step.
pub open spec fn trigger_step(
    s: AlphaState,
    ctx: Context,
    owner: AccountId,
    vault_id: u32,
    replies: Seq<Reply>,
) -> Step<u32, Error> {
    let key = (owner, vault_id);
    if s.paused {
        fail(Error::ContractPaused)
    } else if s.liquidation_auctions.contains_key(key) {
        fail(Error::LiquidationAuctionExists)
    } else if !s.vaults.contains_key(key) {
        fail(Error::VaultNotFound)
    } else {
        match with_interest(s, ctx, s.vaults[key]) {
            Err(e) => fail(e),
            Ok(v) => match price_step(s, ctx, v.netuid, replies, 0) {
                Step::Call(call) => Step::Call(call),
                Step::Done(Err(e)) => fail(e),
                Step::Done(Ok(price)) => match liquidatable(s, price, v) {
                    Err(e) => fail(e),
                    Ok(unsafe_now) => if !unsafe_now {
                        fail(Error::NotLiquidatable)
                    } else {
                        trigger_unsafe(s, key, v, price, replies)
                    },
                },
            },
        }
    }
}

/// The contents after `trigger_liquidation_auction` opened an auction: the collateral has left
/// the vault and the books.
pub open spec fn trigger_next(
    s: AlphaState,
    ctx: Context,
    owner: AccountId,
    vault_id: u32,
    auction_id: u32,
) -> AlphaState {
    let key = (owner, vault_id);
    let v = with_interest(s, ctx, s.vaults[key])->Ok_0;
    emitted(
        AlphaState {
            liquidation_auctions: s.liquidation_auctions.insert(key, auction_id),
            ..taken_out(s, key, Vault { collateral_balance: 0, ..v }, v.collateral_balance)
        },
        Event::LiquidationAuctionCreated(
            LiquidationAuctionCreated { owner, vault_id, auction_id },
        ),
    )
}

/// The calls of a settlement: the winning bid comes in, the fee and the collateral go out, the
/// principal is burned and the interest goes to the treasury.
pub open spec fn settle_writes(
    s: AlphaState,
    ctx: Context,
    auction_id: u32,
    winner: AccountId,
    sold: Balance,
    fee: Balance,
    p: DebtPaymentBreakdown,
) -> Seq<Write<Error>> {
    let collect = Write {
        call: Call::AuctionTransferWinningBid { auction: s.auction, auction_id, to: ctx.contract },
        on_failure: Error::AuctionContractCallFailed,
    };
    if fee > sold {
        seq![collect]
    } else {
        let to_winner = (sold - fee) as Balance;
        seq![collect] + when_positive(fee, native_transfer(s.treasury, fee)) + when_positive(
            to_winner,
            native_transfer(winner, to_winner),
        ) + seq![token_burn(s, ctx.contract, p.principal_payment)] + when_positive(
            p.interest_payment,
            token_transfer(s, s.treasury, p.interest_payment),
        )
    }
}

/// `settle_liquidation_auction`, step by step.
pub open spec fn settle_step(
    s: AlphaState,
    ctx: Context,
    owner: AccountId,
    vault_id: u32,
    replies: Seq<Reply>,
) -> Step<(), Error> {
    let key = (owner, vault_id);
    let auction_id = s.liquidation_auctions[key];
    if !s.liquidation_auctions.contains_key(key) {
        fail(Error::AuctionNotFound)
    } else if replies.len() == 0 {
        Step::Call(Call::AuctionGet { auction: s.auction, auction_id })
    } else {
        match replies[0]->Auction_0 {
            None => fail(Error::AuctionNotFound),
            Some(a) => if !a.is_finalized || a.highest_bidder is None {
                fail(Error::AuctionNotFinalized)
            } else if !s.vaults.contains_key(key) {
                fail(Error::VaultNotFound)
            } else {
                match fee_of(s, a.collateral_balance) {
                    None => fail(Error::ArithmeticError),
                    Some(fee) => match paid(s.vaults[key], a.debt_balance) {
                        Err(e) => fail(e),
                        Ok((after, p)) => if !can_save(s, key, after.debt_balance) {
                            fail(Error::ArithmeticError)
                        } else {
                            conclude(
                                settle_writes(
                                    s,
                                    ctx,
                                    auction_id,
                                    a.highest_bidder->0,
                                    a.collateral_balance,
                                    fee,
                                    p,
                                ),
                                replies,
                                1,
                                if fee > a.collateral_balance {
                                    Err(Error::ArithmeticError)
                                } else {
                                    Ok(())
                                },
                            )
                        },
                    },
                }
            },
        }
    }
}

/// The contents after `settle_liquidation_auction` succeeded.
pub open spec fn settle_next(
    s: AlphaState,
    owner: AccountId,
    vault_id: u32,
    a: AuctionRecord,
) -> AlphaState {
    let key = (owner, vault_id);
    emitted(
        AlphaState {
            liquidation_auctions: s.liquidation_auctions.remove(key),
            ..saved(s, key, paid(s.vaults[key], a.debt_balance)->Ok_0.0)
        },
        Event::VaultLiquidated(
            VaultLiquidated {
                owner,
                vault_id,
                auction_id: s.liquidation_auctions[key],
                winner: a.highest_bidder,
                winning_bid: a.highest_bid,
                collateral_sold: a.collateral_balance,
                transaction_fee: fee_of(s, a.collateral_balance)->0,
                debt_cleared: a.debt_balance,
            },
        ),
    )
}

// ── Reads ───────────────────────────────────────────────────────────

/// A read of a vault that needs the price: `get_vault_collateral_value` and `get_max_borrow`.
pub open spec fn priced_read(
    s: AlphaState,
    ctx: Context,
    key: (AccountId, u32),
    replies: Seq<Reply>,
    of: spec_fn(Ratio, Vault) -> Option<Balance>,
) -> Step<Balance, Error> {
    if !s.vaults.contains_key(key) {
        fail(Error::VaultNotFound)
    } else {
        match price_step(s, ctx, s.vaults[key].netuid, replies, 0) {
            Step::Call(call) => Step::Call(call),
            Step::Done(Err(e)) => fail(e),
            Step::Done(Ok(price)) => match of(price, s.vaults[key]) {
                Some(v) => Step::Done(Ok(v)),
                None => fail(Error::ArithmeticError),
            },
        }
    }
}

/// Where a page of a list starts and ends.
pub open spec fn page_bounds(page: u32, total: int) -> (int, int) {
    let start = page * PAGE_SIZE;
    let end = start + PAGE_SIZE;
    if start >= total {
        (total, total)
    } else if end <= total {
        (start, end)
    } else {
        (start, total)
    }
}

} // verus!
