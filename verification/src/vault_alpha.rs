//! The vault for alpha collateral: borrowing against subnet stake, and liquidation.
use vstd::prelude::*;
use crate::account::{AccountId, Balance};
use crate::fixed_point::is_floor;
use crate::host::{
    amount_in, run_to_end, stake_in, Call, Context, Reply, Step, Write,
};
use crate::lending::{
    accrue, alpha_ratio, debt_limit, debt_limit_of, min_bid, share, share_of, weigh_time,
    DebtPaymentBreakdown, RAO_PER_ALPHA_UNIT,
};
use crate::lending_laws::{law_debt_limit_is_exact, law_share_is_exact};
use crate::peers::{AuctionRecord, PriceData};
use crate::ratio::Ratio;
use crate::storage::{Mapping, StorageVec};
use crate::vault_alpha_model as model;
use crate::vault_alpha_model::AlphaState;
use crate::vault_rules::{in_force, law_price_is_read, priced};

verus! {

/// Vaults per page of a listing.
pub const PAGE_SIZE: u32 = 10;

/// Parameter updates wait for 24 hours.
pub const CONTRACT_PARAMS_TIMELOCK_MS: u64 = 86_400_000;

/// 150%.
pub const DEFAULT_COLLATERAL_RATIO_BPS: u32 = 15_000;

/// 120%.
pub const DEFAULT_LIQUIDATION_RATIO_BPS: u32 = 12_000;

/// 5% a year.
pub const DEFAULT_INTEREST_RATE_BPS: u32 = 500;

/// 1%.
pub const DEFAULT_LIQUIDATION_FEE_BPS: u32 = 100;

pub const DEFAULT_TRANSACTION_FEE_BPS: u32 = 0;

/// 100%.
pub const MAX_TRANSACTION_FEE_BPS: u32 = 10_000;

/// One hour.
pub const DEFAULT_AUCTION_DURATION_MS: u64 = 3_600_000;

/// One hour.
pub const DEFAULT_MAX_ORACLE_AGE_MS: u64 = 3_600_000;

/// A user's record backed by subnet alpha: alpha stake held, principal borrowed, accrued debt,
/// and times.
#[derive(Debug, Clone, Copy, PartialEq, Eq)]
pub struct Vault {
    pub id: u32,
    pub owner: AccountId,
    /// Which approved subnet this vault's alpha is from.
    pub netuid: u16,
    pub collateral_balance: Balance,
    pub borrowed_token_balance: Balance,
    pub debt_balance: Balance,
    pub total_interest_accrued: Balance,
    pub created_at: u64,
    pub last_interest_accrued_at: u64,
}

/// A subnet's risk parameters as the vault uses them.
#[derive(Debug, Copy, Clone, PartialEq, Eq)]
pub struct VaultContractParams {
    pub collateral_ratio: Ratio,
    pub liquidation_ratio: Ratio,
    pub interest_rate: Ratio,
    pub liquidation_fee: Ratio,
}

/// A subnet's risk parameters in basis points, where `100 = 1%`.
#[derive(Debug, Copy, Clone, PartialEq, Eq)]
pub struct VaultContractParamsConfig {
    pub collateral_ratio: u32,
    pub liquidation_ratio: u32,
    pub interest_rate: u32,
    pub liquidation_fee: u32,
}

/// A queued parameter update awaiting timelock expiry before it can be executed.
#[derive(Debug, Copy, Clone, PartialEq, Eq)]
pub struct PendingContractParamsUpdate {
    pub params: VaultContractParamsConfig,
    pub execute_after: u64,
}

/// Contract-wide (netuid-independent) parameters as the vault uses them.
#[derive(Debug, Copy, Clone, PartialEq, Eq)]
pub struct VaultGlobalParams {
    pub transaction_fee: Ratio,
    pub auction_duration_ms: u64,
    pub max_oracle_age_ms: u64,
}

/// Contract-wide parameters, the fee in basis points, where `100 = 1%`.
#[derive(Debug, Copy, Clone, PartialEq, Eq)]
pub struct VaultGlobalParamsConfig {
    pub transaction_fee: u32,
    pub auction_duration_ms: u64,
    pub max_oracle_age_ms: u64,
}

/// A queued global-parameter update awaiting timelock expiry.
#[derive(Debug, Copy, Clone, PartialEq, Eq)]
pub struct PendingGlobalParamsUpdate {
    pub params: VaultGlobalParamsConfig,
    pub execute_after: u64,
}

/// Emitted when a new alpha-backed vault is opened.
#[derive(Debug, Clone, Copy, PartialEq, Eq)]
pub struct VaultCreated {
    pub owner: AccountId,
    pub vault_id: u32,
    pub amount: Balance,
}

/// Emitted when alpha collateral is topped up on an existing vault.
#[derive(Debug, Clone, Copy, PartialEq, Eq)]
pub struct CollateralAdded {
    pub owner: AccountId,
    pub vault_id: u32,
    pub amount: Balance,
}

/// Emitted when alpha collateral is returned to the user.
#[derive(Debug, Clone, Copy, PartialEq, Eq)]
pub struct CollateralReleased {
    pub owner: AccountId,
    pub vault_id: u32,
    pub amount: Balance,
    pub dest_coldkey: AccountId,
}

/// Emitted when tUSDT is borrowed against a vault.
#[derive(Debug, Clone, Copy, PartialEq, Eq)]
pub struct TokensBorrowed {
    pub owner: AccountId,
    pub vault_id: u32,
    pub amount: Balance,
    pub transaction_fee: Balance,
}

/// Emitted when borrowed tUSDT is repaid.
#[derive(Debug, Clone, Copy, PartialEq, Eq)]
pub struct TokensRepaid {
    pub owner: AccountId,
    pub vault_id: u32,
    pub amount: Balance,
    pub transaction_fee: Balance,
}

/// Emitted when interest is accrued onto a vault's debt balance.
#[derive(Debug, Clone, Copy, PartialEq, Eq)]
pub struct InterestAccrued {
    pub owner: AccountId,
    pub vault_id: u32,
    pub previous_debt_balance: Balance,
    pub debt_balance: Balance,
    pub accrued_at: u64,
}

/// Emitted when a subnet's parameters take effect.
#[derive(Debug, Clone, Copy, PartialEq, Eq)]
pub struct ContractParamsUpdated {
    pub params: VaultContractParamsConfig,
}

/// Emitted when an update of a subnet's parameters is scheduled.
#[derive(Debug, Clone, Copy, PartialEq, Eq)]
pub struct ContractParamsUpdateScheduled {
    pub params: VaultContractParamsConfig,
    pub execute_after: u64,
}

/// Emitted when a scheduled update of a subnet's parameters is cancelled.
#[derive(Debug, Clone, Copy, PartialEq, Eq)]
pub struct ContractParamsUpdateCancelled {
    pub params: VaultContractParamsConfig,
}

/// Emitted when an update of the contract-wide parameters is scheduled.
#[derive(Debug, Clone, Copy, PartialEq, Eq)]
pub struct GlobalParamsUpdateScheduled {
    pub params: VaultGlobalParamsConfig,
    pub execute_after: u64,
}

/// Emitted when the contract-wide parameters take effect.
#[derive(Debug, Clone, Copy, PartialEq, Eq)]
pub struct GlobalParamsUpdated {
    pub params: VaultGlobalParamsConfig,
}

/// Emitted when a scheduled update of the contract-wide parameters is cancelled.
#[derive(Debug, Clone, Copy, PartialEq, Eq)]
pub struct GlobalParamsUpdateCancelled {
    pub params: VaultGlobalParamsConfig,
}

/// Emitted when governance is handed on.
#[derive(Debug, Clone, Copy, PartialEq, Eq)]
pub struct VaultGovernanceUpdated {
    pub previous_governance: AccountId,
    pub new_governance: AccountId,
}

/// Emitted when the treasury changes.
#[derive(Debug, Clone, Copy, PartialEq, Eq)]
pub struct VaultTreasuryUpdated {
    pub previous_treasury: AccountId,
    pub new_treasury: AccountId,
}

/// Emitted when the platform account changes.
#[derive(Debug, Clone, Copy, PartialEq, Eq)]
pub struct VaultPlatformUpdated {
    pub previous_platform: AccountId,
    pub new_platform: AccountId,
}

/// Emitted when the vault is paused.
#[derive(Debug, Clone, Copy, PartialEq, Eq)]
pub struct Paused {
}

/// Emitted when the vault is resumed.
#[derive(Debug, Clone, Copy, PartialEq, Eq)]
pub struct Unpaused {
}

/// Emitted when surplus TUSDT goes to the treasury.
#[derive(Debug, Clone, Copy, PartialEq, Eq)]
pub struct SurplusTusdtClaimed {
    pub recipient: AccountId,
    pub amount: Balance,
}

/// Emitted when excess alpha is unstaked for the treasury.
#[derive(Debug, Clone, Copy, PartialEq, Eq)]
pub struct ExcessAlphaClaimed {
    pub netuid: u16,
    pub excess_alpha: Balance,
    pub tao_received: Balance,
}

/// Emitted when a liquidation auction is opened.
#[derive(Debug, Clone, Copy, PartialEq, Eq)]
pub struct LiquidationAuctionCreated {
    pub owner: AccountId,
    pub vault_id: u32,
    pub auction_id: u32,
}

/// Emitted when a liquidation auction is settled.
#[derive(Debug, Clone, Copy, PartialEq, Eq)]
pub struct VaultLiquidated {
    pub owner: AccountId,
    pub vault_id: u32,
    pub auction_id: u32,
    pub winner: Option<AccountId>,
    pub winning_bid: Balance,
    pub collateral_sold: Balance,
    pub transaction_fee: Balance,
    pub debt_cleared: Balance,
}

/// An event of the alpha vault.
#[derive(Debug, Clone, Copy, PartialEq, Eq)]
pub enum Event {
    VaultCreated(VaultCreated),
    CollateralAdded(CollateralAdded),
    CollateralReleased(CollateralReleased),
    TokensBorrowed(TokensBorrowed),
    TokensRepaid(TokensRepaid),
    InterestAccrued(InterestAccrued),
    ContractParamsUpdated(ContractParamsUpdated),
    ContractParamsUpdateScheduled(ContractParamsUpdateScheduled),
    ContractParamsUpdateCancelled(ContractParamsUpdateCancelled),
    GlobalParamsUpdateScheduled(GlobalParamsUpdateScheduled),
    GlobalParamsUpdated(GlobalParamsUpdated),
    GlobalParamsUpdateCancelled(GlobalParamsUpdateCancelled),
    VaultGovernanceUpdated(VaultGovernanceUpdated),
    VaultTreasuryUpdated(VaultTreasuryUpdated),
    VaultPlatformUpdated(VaultPlatformUpdated),
    Paused(Paused),
    Unpaused(Unpaused),
    SurplusTusdtClaimed(SurplusTusdtClaimed),
    ExcessAlphaClaimed(ExcessAlphaClaimed),
    LiquidationAuctionCreated(LiquidationAuctionCreated),
    VaultLiquidated(VaultLiquidated),
}

/// Errors returned by the alpha vault contract.
#[derive(Debug, Clone, Copy, PartialEq, Eq, Structural)]
pub enum Error {
    VaultNotFound,
    InsufficientCollateral,
    NotVaultOwner,
    TransferFailed,
    InsufficientTokenBalance,
    InvalidTransactionFee,
    TokenBorrowedNotZero,
    InvalidRatio,
    InvalidAuctionDuration,
    CollateralRatioExceeded,
    LiquidationRatioExceeded,
    RepayAmountTooHigh,
    VaultInLiquidation,
    NotLiquidatable,
    LiquidationAuctionExists,
    AuctionContractCallFailed,
    AuctionNotFound,
    AuctionNotFinalized,
    ArithmeticError,
    NotGovernance,
    NotGovernanceOrPlatform,
    ContractPaused,
    OracleCallFailed,
    OraclePriceUnavailable,
    OraclePriceStale,
    InvalidOracleMaxAge,
    NoPendingContractParamsUpdate,
    ContractParamsUpdateTimelockActive,
    /// A chain call failed.
    ChainExtensionFailed,
    /// No alpha stake found for the vault's hotkey on the subnet.
    NoAlphaStakeFound,
    /// Caller did not register a deposit intent before calling create_alpha_vault.
    NotDepositor,
    /// The specified netuid is not in the approved set.
    UnapprovedNetuid,
}

/// Vault storage: roles, child contracts, risk parameters, and all per-owner records backed by
/// subnet alpha stake.
pub struct TusdtVaultAlpha {
    pub governance: AccountId,
    pub treasury: AccountId,
    pub platform: AccountId,
    pub paused: bool,
    /// Token address of tUSDT.
    pub token: AccountId,
    /// Auction contract address.
    pub auction: AccountId,
    /// Oracle providing the TUSDT/TAO price.
    pub oracle: AccountId,
    pub total_collateral_balance: Balance,
    /// The hotkey where all alpha collateral of this vault is staked.
    pub vault_hotkey: AccountId,
    /// Netuids whose alpha is accepted as collateral. Managed by governance.
    pub approved_netuids: Mapping<u16, ()>,
    /// Per-netuid total collateral, held against the contract's actual stake on each subnet.
    pub netuid_total_collateral: Mapping<u16, Balance>,
    pub netuid_params: Mapping<u16, VaultContractParams>,
    pub pending_contract_params_updates: Mapping<u16, PendingContractParamsUpdate>,
    /// Contract-wide parameters shared by all netuids.
    pub global_params: VaultGlobalParams,
    pub pending_global_params_update: Option<PendingGlobalParamsUpdate>,
    pub vaults: Mapping<(AccountId, u32), Vault>,
    pub owner_total_debt: Mapping<AccountId, Balance>,
    pub vault_count: Mapping<AccountId, u32>,
    pub vault_keys: StorageVec<(AccountId, u32)>,
    pub liquidation_auctions: Mapping<(AccountId, u32), u32>,
    /// Two-step deposit: the caller registers the amount and the subnet before transferring alpha
    /// stake, then calls `create_alpha_vault` to claim it.
    pub pending_deposits: Mapping<(AccountId, u16), Balance>,
    pub events: Vec<Event>,
}

impl View for TusdtVaultAlpha {
    type V = AlphaState;

    open spec fn view(&self) -> AlphaState {
        AlphaState {
            governance: self.governance,
            treasury: self.treasury,
            platform: self.platform,
            paused: self.paused,
            token: self.token,
            auction: self.auction,
            oracle: self.oracle,
            total_collateral_balance: self.total_collateral_balance,
            vault_hotkey: self.vault_hotkey,
            approved_netuids: self.approved_netuids@.dom(),
            netuid_total_collateral: self.netuid_total_collateral@,
            netuid_params: self.netuid_params@,
            pending_contract_params_updates: self.pending_contract_params_updates@,
            global_params: self.global_params,
            pending_global_params_update: self.pending_global_params_update,
            vaults: self.vaults@,
            owner_total_debt: self.owner_total_debt@,
            vault_count: self.vault_count@,
            vault_keys: self.vault_keys@,
            liquidation_auctions: self.liquidation_auctions@,
            pending_deposits: self.pending_deposits@,
            events: self.events@,
        }
    }
}

/// Appends a write when there is an amount.
fn push_when_positive(writes: &mut Vec<Write<Error>>, amount: Balance, write: Write<Error>)
    ensures
        final(writes)@ == old(writes)@ + model::when_positive(amount, write),
{
    if amount > 0 {
        writes.push(write);
    }
    assert(writes@ =~= old(writes)@ + model::when_positive(amount, write));
}

/// A ratio in whole basis points, zero where there are too many.
fn bps_or_zero(r: Ratio) -> (n: u32)
    ensures
        n == model::to_bps(r),
{
    match r.to_basis_points() {
        Some(n) => n,
        None => 0,
    }
}

/// The alpha that a stake record lets the contract move.
pub fn available_stake(reply: &Reply) -> (r: Result<Balance, Error>)
    ensures
        r == model::movable_stake(*reply),
{
    match stake_in(reply) {
        None => Err(Error::ChainExtensionFailed),
        Some(None) => Err(Error::NoAlphaStakeFound),
        Some(Some(info)) => {
            if info.stake < info.locked {
                return Err(Error::ArithmeticError);
            }
            let available: Balance = info.stake - info.locked;
            if available == 0 {
                return Err(Error::NoAlphaStakeFound);
            }
            Ok(available)
        },
    }
}

/// Parameters.
impl TusdtVaultAlpha {
    /// The risk parameters of a subnet for which none were set.
    pub fn default_contract_params() -> (p: VaultContractParams)
        ensures
            p == model::default_params(),
    {
        VaultContractParams {
            collateral_ratio: Ratio::from_basis_points(DEFAULT_COLLATERAL_RATIO_BPS),
            liquidation_ratio: Ratio::from_basis_points(DEFAULT_LIQUIDATION_RATIO_BPS),
            interest_rate: Ratio::from_basis_points(DEFAULT_INTEREST_RATE_BPS),
            liquidation_fee: Ratio::from_basis_points(DEFAULT_LIQUIDATION_FEE_BPS),
        }
    }

    /// The contract-wide parameters at the start.
    pub fn default_global_params() -> (p: VaultGlobalParams)
        ensures
            p == model::default_globals(),
    {
        VaultGlobalParams {
            transaction_fee: Ratio::from_basis_points(DEFAULT_TRANSACTION_FEE_BPS),
            auction_duration_ms: DEFAULT_AUCTION_DURATION_MS,
            max_oracle_age_ms: DEFAULT_MAX_ORACLE_AGE_MS,
        }
    }

    /// A subnet's configuration as parameters.
    pub fn contract_params_from_config(config: VaultContractParamsConfig) -> (r: Result<
        VaultContractParams,
        Error,
    >)
        ensures
            r == model::params_of(config),
    {
        if config.collateral_ratio == 0 || config.liquidation_ratio == 0 || config.collateral_ratio
            < config.liquidation_ratio {
            return Err(Error::InvalidRatio);
        }
        Ok(
            VaultContractParams {
                collateral_ratio: Ratio::from_basis_points(config.collateral_ratio),
                liquidation_ratio: Ratio::from_basis_points(config.liquidation_ratio),
                interest_rate: Ratio::from_basis_points(config.interest_rate),
                liquidation_fee: Ratio::from_basis_points(config.liquidation_fee),
            },
        )
    }

    /// Parameters of a subnet as a configuration.
    pub fn contract_params_to_config(params: VaultContractParams) -> (c: VaultContractParamsConfig)
        ensures
            c == model::config_of(params),
    {
        VaultContractParamsConfig {
            collateral_ratio: bps_or_zero(params.collateral_ratio),
            liquidation_ratio: bps_or_zero(params.liquidation_ratio),
            interest_rate: bps_or_zero(params.interest_rate),
            liquidation_fee: bps_or_zero(params.liquidation_fee),
        }
    }

    /// A contract-wide configuration as parameters.
    pub fn global_params_from_config(config: VaultGlobalParamsConfig) -> (r: Result<
        VaultGlobalParams,
        Error,
    >)
        ensures
            r == model::globals_of(config),
    {
        if config.transaction_fee > MAX_TRANSACTION_FEE_BPS {
            return Err(Error::InvalidTransactionFee);
        }
        if config.auction_duration_ms == 0 {
            return Err(Error::InvalidAuctionDuration);
        }
        if config.max_oracle_age_ms == 0 {
            return Err(Error::InvalidOracleMaxAge);
        }
        Ok(
            VaultGlobalParams {
                transaction_fee: Ratio::from_basis_points(config.transaction_fee),
                auction_duration_ms: config.auction_duration_ms,
                max_oracle_age_ms: config.max_oracle_age_ms,
            },
        )
    }

    /// Contract-wide parameters as a configuration.
    pub fn global_params_to_config(params: VaultGlobalParams) -> (c: VaultGlobalParamsConfig)
        ensures
            c == model::global_config_of(params),
    {
        VaultGlobalParamsConfig {
            transaction_fee: bps_or_zero(params.transaction_fee),
            auction_duration_ms: params.auction_duration_ms,
            max_oracle_age_ms: params.max_oracle_age_ms,
        }
    }

    /// The parameters in force on a subnet, the defaults where none were set.
    fn get_params(&self, netuid: u16) -> (p: VaultContractParams)
        ensures
            p == model::params_on(self@, netuid),
    {
        match self.netuid_params.get(&netuid) {
            Some(p) => *p,
            None => Self::default_contract_params(),
        }
    }
}

/// Shared rules.
impl TusdtVaultAlpha {
    fn ensure_governance(&self, ctx: &Context) -> (r: Result<(), Error>)
        ensures
            r == model::governance_only(self@, *ctx),
    {
        if ctx.caller != self.governance {
            return Err(Error::NotGovernance);
        }
        Ok(())
    }

    fn ensure_governance_or_platform(&self, ctx: &Context) -> (r: Result<(), Error>)
        ensures
            r == model::governance_or_platform_only(self@, *ctx),
    {
        if ctx.caller != self.governance && ctx.caller != self.platform {
            return Err(Error::NotGovernanceOrPlatform);
        }
        Ok(())
    }

    fn netuid_collateral(&self, netuid: u16) -> (b: Balance)
        ensures
            b == model::collateral_on(self@, netuid),
    {
        match self.netuid_total_collateral.get(&netuid) {
            Some(b) => *b,
            None => 0,
        }
    }

    fn load_caller_vault(&self, ctx: &Context, vault_id: u32) -> (r: Result<Vault, Error>)
        ensures
            r == model::caller_vault(self@, *ctx, vault_id),
    {
        match self.vaults.get(&(ctx.caller, vault_id)) {
            None => Err(Error::VaultNotFound),
            Some(v) => if self.liquidation_auctions.contains(&(ctx.caller, vault_id)) {
                Err(Error::VaultInLiquidation)
            } else {
                Ok(*v)
            },
        }
    }

    /// Brings a vault's interest up to date. On success, the increase in debt. Without debt or
    /// without a rate only the time of accrual moves, so that a first borrow, or a rate that is
    /// set later, is not charged for the time before it.
    fn accrue_interest_for_vault(&self, ctx: &Context, vault: &mut Vault) -> (r: Result<
        Balance,
        Error,
    >)
        ensures
            match model::with_interest(self@, *ctx, *old(vault)) {
                Ok(v) => r == Ok::<Balance, Error>(
                    (v.debt_balance - old(vault).debt_balance) as Balance,
                ) && *final(vault) == v,
                Err(e) => r == Err::<Balance, Error>(e) && *final(vault) == *old(vault),
            },
    {
        let rate: Ratio = self.get_params(vault.netuid).interest_rate;
        let accrual = accrue(
            vault.debt_balance,
            vault.total_interest_accrued,
            vault.last_interest_accrued_at,
            rate,
            ctx.now,
        );
        match accrual {
            Some(a) => {
                vault.debt_balance = a.debt_balance;
                vault.total_interest_accrued = a.total_interest_accrued;
                vault.last_interest_accrued_at = a.last_interest_accrued_at;
                Ok(a.interest)
            },
            None => Err(Error::ArithmeticError),
        }
    }

    /// The owner's total debt after one vault's debt moves from `previous` to `next`.
    fn total_debt_after(&self, owner: AccountId, previous: Balance, next: Balance) -> (r: Option<
        Balance,
    >)
        ensures
            r == model::synced_debt(self@, owner, previous, next),
    {
        let current: Balance = match self.owner_total_debt.get(&owner) {
            Some(d) => *d,
            None => 0,
        };
        if current < previous {
            return None;
        }
        (current - previous).checked_add(next)
    }

    fn stored_debt(&self, key: (AccountId, u32)) -> (d: Balance)
        ensures
            d == model::stored_debt(self@, key),
    {
        match self.vaults.get(&key) {
            Some(v) => v.debt_balance,
            None => 0,
        }
    }

    /// Whether a vault with this debt can be stored.
    fn can_save(&self, key: (AccountId, u32), debt: Balance) -> (r: bool)
        ensures
            r == model::can_save(self@, key, debt),
    {
        self.total_debt_after(key.0, self.stored_debt(key), debt).is_some()
    }

    /// Replaces one vault's debt in its owner's total.
    fn sync_owner_total_debt(&mut self, owner: AccountId, previous: Balance, next: Balance) -> (r:
        Result<(), Error>)
        ensures
            match model::synced_debt(old(self)@, owner, previous, next) {
                None => r == Err::<(), Error>(Error::ArithmeticError) && final(self)@ == old(self)@,
                Some(total) => r == Ok::<(), Error>(()) && final(self)@ == (AlphaState {
                    owner_total_debt: old(self)@.owner_total_debt.insert(owner, total),
                    ..old(self)@
                }),
            },
    {
        match self.total_debt_after(owner, previous, next) {
            Some(total) => {
                self.owner_total_debt.insert(owner, total);
                Ok(())
            },
            None => Err(Error::ArithmeticError),
        }
    }

    /// Stores a vault and keeps the owner's total debt in step.
    fn save_vault(&mut self, key: (AccountId, u32), vault: Vault) -> (r: Result<(), Error>)
        ensures
            r == (if model::can_save(old(self)@, key, vault.debt_balance) {
                Ok::<(), Error>(())
            } else {
                Err(Error::ArithmeticError)
            }),
            final(self)@ == (if r is Ok {
                model::saved(old(self)@, key, vault)
            } else {
                old(self)@
            }),
    {
        let previous: Balance = self.stored_debt(key);
        match self.sync_owner_total_debt(key.0, previous, vault.debt_balance) {
            Ok(()) => {
                self.vaults.insert(key, vault);
                assert(self@ =~= model::saved(old(self)@, key, vault));
                Ok(())
            },
            Err(e) => Err(e),
        }
    }

    fn emit(&mut self, event: Event)
        ensures
            final(self)@ == model::emitted(old(self)@, event),
    {
        self.events.push(event);
        assert(self@ =~= model::emitted(old(self)@, event));
    }

    /// Holds the oracle's price against the time.
    pub fn validate_price_data(price_data: Option<PriceData>, now: u64, max_oracle_age_ms: u64) -> (r:
        Result<PriceData, Error>)
        ensures
            r == model::price_valid(price_data, now, max_oracle_age_ms),
    {
        match price_data {
            None => Err(Error::OraclePriceUnavailable),
            Some(data) => {
                if now < data.committed_at || now - data.committed_at > max_oracle_age_ms {
                    return Err(Error::OraclePriceStale);
                }
                if data.price.is_zero() {
                    return Err(Error::OraclePriceUnavailable);
                }
                Ok(data)
            },
        }
    }

    /// TAO per alpha for a price in rao per alpha: `1_000_000_000` is `1.0`.
    pub fn alpha_price_rao_to_ratio(alpha_price_rao: u64) -> (r: Result<Ratio, Error>)
        ensures
            r == Ok::<Ratio, Error>(alpha_ratio(alpha_price_rao)),
    {
        match Ratio::from_integer(alpha_price_rao as u128).checked_div_int(RAO_PER_ALPHA_UNIT) {
            Some(ratio) => Ok(ratio),
            None => Err(Error::ArithmeticError),
        }
    }

    /// The price of a subnet's alpha in TUSDT: the oracle's TUSDT per TAO times the chain's TAO
    /// per alpha. The replies to the two reads stand at `from` and after.
    fn current_collateral_price(
        &self,
        ctx: &Context,
        netuid: u16,
        replies: &Vec<Reply>,
        from: usize,
    ) -> (step: Step<Ratio, Error>)
        requires
            model::oracle_answers(replies@, from as int),
            from < 100,
        ensures
            step == model::price_step(self@, *ctx, netuid, replies@, from as int),
    {
        if replies.len() <= from {
            return Step::Call(Call::OracleLatestPrice { oracle: self.oracle });
        }
        let answer: Option<PriceData> = match replies[from] {
            Reply::Price(data) => data,
            _ => None,
        };
        let data: PriceData = match Self::validate_price_data(
            answer,
            ctx.now,
            self.global_params.max_oracle_age_ms,
        ) {
            Ok(data) => data,
            Err(e) => {
                return Step::Done(Err(e));
            },
        };
        if replies.len() <= from + 1 {
            return Step::Call(Call::AlphaPrice { netuid });
        }
        match amount_in(&replies[from + 1]) {
            None => Step::Done(Err(Error::ChainExtensionFailed)),
            Some(rao) => match Self::alpha_price_rao_to_ratio(rao) {
                Err(e) => Step::Done(Err(e)),
                Ok(alpha_to_tao) => match data.price.checked_mul(alpha_to_tao) {
                    Some(price) => Step::Done(Ok(price)),
                    None => Step::Done(Err(Error::ArithmeticError)),
                },
            },
        }
    }

    /// The fee on an amount.
    pub fn calculate_transaction_fee(&self, amount: Balance) -> (r: Result<Balance, Error>)
        ensures
            r == (match model::fee_of(self@, amount) {
                Some(fee) => Ok::<Balance, Error>(fee),
                None => Err(Error::ArithmeticError),
            }),
    {
        match share(self.global_params.transaction_fee, amount) {
            Some(fee) => Ok(fee),
            None => Err(Error::ArithmeticError),
        }
    }

    /// The interest in a vault's debt.
    pub fn outstanding_interest(vault: &Vault) -> (r: Result<Balance, Error>)
        ensures
            r == (if vault.debt_balance < vault.borrowed_token_balance {
                Err::<Balance, Error>(Error::ArithmeticError)
            } else {
                Ok((vault.debt_balance - vault.borrowed_token_balance) as Balance)
            }),
    {
        if vault.debt_balance < vault.borrowed_token_balance {
            return Err(Error::ArithmeticError);
        }
        Ok(vault.debt_balance - vault.borrowed_token_balance)
    }

    /// Applies a payment to a vault: interest first, principal with what is left.
    pub fn apply_debt_payment(vault: &mut Vault, payment_amount: Balance) -> (r: Result<
        DebtPaymentBreakdown,
        Error,
    >)
        ensures
            match model::paid(*old(vault), payment_amount) {
                Ok((after, p)) => r == Ok::<DebtPaymentBreakdown, Error>(p) && *final(vault)
                    == after,
                Err(e) => r == Err::<DebtPaymentBreakdown, Error>(e) && *final(vault) == *old(
                    vault,
                ),
            },
    {
        if payment_amount > vault.debt_balance {
            return Err(Error::RepayAmountTooHigh);
        }
        let outstanding: Balance = match Self::outstanding_interest(vault) {
            Ok(o) => o,
            Err(e) => {
                return Err(e);
            },
        };
        let interest_payment: Balance = if payment_amount <= outstanding {
            payment_amount
        } else {
            outstanding
        };
        let principal_payment: Balance = payment_amount - interest_payment;
        vault.debt_balance = vault.debt_balance - payment_amount;
        vault.borrowed_token_balance = vault.borrowed_token_balance - principal_payment;
        Ok(DebtPaymentBreakdown { principal_payment, interest_payment })
    }

    fn max_borrow_allowed(&self, netuid: u16, price: Ratio, collateral_balance: Balance) -> (r:
        Option<Balance>)
        ensures
            r == debt_limit_of(
                model::params_on(self@, netuid).collateral_ratio,
                price,
                collateral_balance,
            ),
    {
        debt_limit(self.get_params(netuid).collateral_ratio, price, collateral_balance)
    }

    fn is_liquidatable(&self, price: Ratio, vault: &Vault) -> (r: Result<bool, Error>)
        ensures
            r == model::liquidatable(self@, price, *vault),
    {
        match debt_limit(
            self.get_params(vault.netuid).liquidation_ratio,
            price,
            vault.collateral_balance,
        ) {
            Some(limit) => Ok(vault.debt_balance > limit),
            None => Err(Error::ArithmeticError),
        }
    }

    fn ensure_collateral_bounds(&self, vault_current: Balance, addition: Balance) -> (r: Result<
        (Balance, Balance),
        Error,
    >)
        ensures
            r == model::bounded_addition(self@, vault_current, addition),
    {
        if addition == 0 {
            return Err(Error::InsufficientCollateral);
        }
        match vault_current.checked_add(addition) {
            None => Err(Error::ArithmeticError),
            Some(vault) => match self.total_collateral_balance.checked_add(addition) {
                None => Err(Error::ArithmeticError),
                Some(total) => Ok((vault, total)),
            },
        }
    }

    /// Whether collateral can leave the books and the vault can be stored after it.
    fn can_take_out(&self, key: (AccountId, u32), netuid: u16, amount: Balance, debt: Balance) -> (r:
        bool)
        ensures
            r == model::can_take_out(self@, key, netuid, amount, debt),
    {
        self.total_collateral_balance >= amount && self.netuid_collateral(netuid) >= amount
            && self.can_save(key, debt)
    }

    /// Takes collateral out of the books and stores the vault.
    fn take_out(&mut self, key: (AccountId, u32), vault: Vault, amount: Balance)
        requires
            model::can_take_out(old(self)@, key, vault.netuid, amount, vault.debt_balance),
        ensures
            final(self)@ == model::taken_out(old(self)@, key, vault, amount),
    {
        let left: Balance = self.netuid_collateral(vault.netuid) - amount;
        let saved = self.save_vault(key, vault);
        assert(saved is Ok);
        self.total_collateral_balance = self.total_collateral_balance - amount;
        self.netuid_total_collateral.insert(vault.netuid, left);
        assert(self@ =~= model::taken_out(old(self)@, key, vault, amount));
    }
}

/// Construction, governance and administration.
impl TusdtVaultAlpha {
    /// Sets the vault up. The token, the auction and the oracle are instantiated in this order,
    /// owned by this contract and governed by the caller, who becomes governance and platform.
    /// `hotkey` is the single staking position; `oracle_netuid` is the subnet whose neurons may
    /// submit prices. Governance must approve netuids before vaults can be created.
    pub fn new(
        ctx: &Context,
        treasury: AccountId,
        token_code_hash: [u8; 32],
        auction_code_hash: [u8; 32],
        oracle_code_hash: [u8; 32],
        oracle_netuid: u16,
        hotkey: AccountId,
        replies: &Vec<Reply>,
    ) -> (step: Step<TusdtVaultAlpha, Error>)
        requires
            forall|i: int| 0 <= i < 3 && i < replies@.len() ==> #[trigger] replies@[i] is Account,
        ensures
            replies@.len() == 0 ==> step == Step::<TusdtVaultAlpha, Error>::Call(
                Call::InstantiateToken {
                    code_hash: token_code_hash,
                    owner: ctx.contract,
                    salt: 0,
                },
            ),
            replies@.len() == 1 ==> step == Step::<TusdtVaultAlpha, Error>::Call(
                Call::InstantiateAuction {
                    code_hash: auction_code_hash,
                    vault: ctx.contract,
                    governance: ctx.caller,
                    token: replies@[0]->Account_0,
                    salt: 1,
                },
            ),
            replies@.len() == 2 ==> step == Step::<TusdtVaultAlpha, Error>::Call(
                Call::InstantiateOracle {
                    code_hash: oracle_code_hash,
                    vault: ctx.contract,
                    governance: ctx.caller,
                    netuid: oracle_netuid,
                    salt: 2,
                },
            ),
            replies@.len() >= 3 ==> (step matches Step::Done(Ok(v)) && v@
                == model::initial_alpha_state(
                ctx.caller,
                treasury,
                hotkey,
                replies@[0]->Account_0,
                replies@[1]->Account_0,
                replies@[2]->Account_0,
            )),
    {
        if replies.len() == 0 {
            return Step::Call(
                Call::InstantiateToken {
                    code_hash: token_code_hash,
                    owner: ctx.contract,
                    salt: 0,
                },
            );
        }
        assert(replies@[0] is Account);
        let token: AccountId = instantiated(&replies[0]);
        if replies.len() == 1 {
            return Step::Call(
                Call::InstantiateAuction {
                    code_hash: auction_code_hash,
                    vault: ctx.contract,
                    governance: ctx.caller,
                    token,
                    salt: 1,
                },
            );
        }
        assert(replies@[1] is Account);
        let auction: AccountId = instantiated(&replies[1]);
        if replies.len() == 2 {
            return Step::Call(
                Call::InstantiateOracle {
                    code_hash: oracle_code_hash,
                    vault: ctx.contract,
                    governance: ctx.caller,
                    netuid: oracle_netuid,
                    salt: 2,
                },
            );
        }
        assert(replies@[2] is Account);
        let oracle: AccountId = instantiated(&replies[2]);
        let vault = TusdtVaultAlpha {
            governance: ctx.caller,
            treasury,
            platform: ctx.caller,
            paused: false,
            token,
            auction,
            oracle,
            total_collateral_balance: 0,
            vault_hotkey: hotkey,
            approved_netuids: Mapping::new(),
            netuid_total_collateral: Mapping::new(),
            netuid_params: Mapping::new(),
            pending_contract_params_updates: Mapping::new(),
            global_params: Self::default_global_params(),
            pending_global_params_update: None,
            vaults: Mapping::new(),
            owner_total_debt: Mapping::new(),
            vault_count: Mapping::new(),
            vault_keys: StorageVec::new(),
            liquidation_auctions: Mapping::new(),
            pending_deposits: Mapping::new(),
            events: Vec::new(),
        };
        assert(vault@ =~= model::initial_alpha_state(
            ctx.caller,
            treasury,
            hotkey,
            token,
            auction,
            oracle,
        ));
        Step::Done(Ok(vault))
    }

    /// Schedules a per-netuid parameter update with the standard timelock. Governance only.
    pub fn set_contract_params(
        &mut self,
        ctx: &Context,
        netuid: u16,
        params: VaultContractParamsConfig,
    ) -> (r: Result<(), Error>)
        ensures
            match model::schedule_result(old(self)@, *ctx, model::params_of(params)) {
                Ok(execute_after) => r == Ok::<(), Error>(()) && final(self)@
                    == model::params_scheduled(old(self)@, netuid, params, execute_after),
                Err(e) => r == Err::<(), Error>(e) && final(self)@ == old(self)@,
            },
    {
        if ctx.caller != self.governance {
            return Err(Error::NotGovernance);
        }
        if let Err(e) = Self::contract_params_from_config(params) {
            return Err(e);
        }
        match ctx.now.checked_add(CONTRACT_PARAMS_TIMELOCK_MS) {
            Some(execute_after) => {
                self.pending_contract_params_updates.insert(
                    netuid,
                    PendingContractParamsUpdate { params, execute_after },
                );
                self.emit(
                    Event::ContractParamsUpdateScheduled(
                        ContractParamsUpdateScheduled { params, execute_after },
                    ),
                );
                assert(self@ =~= model::params_scheduled(old(self)@, netuid, params, execute_after));
                Ok(())
            },
            None => Err(Error::ArithmeticError),
        }
    }

    /// Executes the scheduled parameter update of a netuid once its timelock has elapsed.
    pub fn execute_contract_params_update(&mut self, ctx: &Context, netuid: u16) -> (r: Result<
        (),
        Error,
    >)
        ensures
            match model::execute_params_result(old(self)@, *ctx, netuid) {
                Ok(params) => r == Ok::<(), Error>(()) && final(self)@ == model::params_executed(
                    old(self)@,
                    netuid,
                    params,
                ),
                Err(e) => r == Err::<(), Error>(e) && final(self)@ == old(self)@,
            },
    {
        let pending: PendingContractParamsUpdate = match self.pending_contract_params_updates.get(
            &netuid,
        ) {
            Some(p) => *p,
            None => {
                return Err(Error::NoPendingContractParamsUpdate);
            },
        };
        if ctx.now < pending.execute_after {
            return Err(Error::ContractParamsUpdateTimelockActive);
        }
        match Self::contract_params_from_config(pending.params) {
            Ok(new_params) => {
                self.netuid_params.insert(netuid, new_params);
                self.pending_contract_params_updates.remove(&netuid);
                self.emit(
                    Event::ContractParamsUpdated(ContractParamsUpdated { params: pending.params }),
                );
                assert(self@ =~= model::params_executed(old(self)@, netuid, new_params));
                Ok(())
            },
            Err(e) => Err(e),
        }
    }

    /// Cancels the scheduled parameter update of a netuid. Governance only.
    pub fn cancel_contract_params_update(&mut self, ctx: &Context, netuid: u16) -> (r: Result<
        (),
        Error,
    >)
        ensures
            r == model::cancel_params_result(old(self)@, *ctx, netuid),
            final(self)@ == (if r is Ok {
                model::params_cancelled(old(self)@, netuid)
            } else {
                old(self)@
            }),
    {
        if ctx.caller != self.governance {
            return Err(Error::NotGovernance);
        }
        match self.pending_contract_params_updates.remove(&netuid) {
            Some(pending) => {
                self.emit(
                    Event::ContractParamsUpdateCancelled(
                        ContractParamsUpdateCancelled { params: pending.params },
                    ),
                );
                assert(self@ =~= model::params_cancelled(old(self)@, netuid));
                Ok(())
            },
            None => {
                assert(self@ =~= old(self)@);
                Err(Error::NoPendingContractParamsUpdate)
            },
        }
    }

    /// Schedules a contract-wide parameter update with the standard timelock. Governance only.
    pub fn set_global_params(&mut self, ctx: &Context, config: VaultGlobalParamsConfig) -> (r: Result<
        (),
        Error,
    >)
        ensures
            match model::schedule_result(old(self)@, *ctx, model::globals_of(config)) {
                Ok(execute_after) => r == Ok::<(), Error>(()) && final(self)@
                    == model::globals_scheduled(old(self)@, config, execute_after),
                Err(e) => r == Err::<(), Error>(e) && final(self)@ == old(self)@,
            },
    {
        if ctx.caller != self.governance {
            return Err(Error::NotGovernance);
        }
        if let Err(e) = Self::global_params_from_config(config) {
            return Err(e);
        }
        match ctx.now.checked_add(CONTRACT_PARAMS_TIMELOCK_MS) {
            Some(execute_after) => {
                self.pending_global_params_update =
                Some(PendingGlobalParamsUpdate { params: config, execute_after });
                self.emit(
                    Event::GlobalParamsUpdateScheduled(
                        GlobalParamsUpdateScheduled { params: config, execute_after },
                    ),
                );
                assert(self@ =~= model::globals_scheduled(old(self)@, config, execute_after));
                Ok(())
            },
            None => Err(Error::ArithmeticError),
        }
    }

    /// Executes the scheduled contract-wide update once its timelock has elapsed.
    pub fn execute_global_params_update(&mut self, ctx: &Context) -> (r: Result<(), Error>)
        ensures
            match model::execute_globals_result(old(self)@, *ctx) {
                Ok(params) => r == Ok::<(), Error>(()) && final(self)@ == model::globals_executed(
                    old(self)@,
                    params,
                ),
                Err(e) => r == Err::<(), Error>(e) && final(self)@ == old(self)@,
            },
    {
        let pending: PendingGlobalParamsUpdate = match self.pending_global_params_update {
            Some(p) => p,
            None => {
                return Err(Error::NoPendingContractParamsUpdate);
            },
        };
        if ctx.now < pending.execute_after {
            return Err(Error::ContractParamsUpdateTimelockActive);
        }
        match Self::global_params_from_config(pending.params) {
            Ok(new_params) => {
                self.global_params = new_params;
                self.pending_global_params_update = None;
                self.emit(
                    Event::GlobalParamsUpdated(GlobalParamsUpdated { params: pending.params }),
                );
                assert(self@ =~= model::globals_executed(old(self)@, new_params));
                Ok(())
            },
            Err(e) => Err(e),
        }
    }

    /// Cancels the scheduled contract-wide update. Governance only.
    pub fn cancel_global_params_update(&mut self, ctx: &Context) -> (r: Result<(), Error>)
        ensures
            r == model::cancel_globals_result(old(self)@, *ctx),
            final(self)@ == (if r is Ok {
                model::globals_cancelled(old(self)@)
            } else {
                old(self)@
            }),
    {
        if ctx.caller != self.governance {
            return Err(Error::NotGovernance);
        }
        match self.pending_global_params_update {
            Some(pending) => {
                self.pending_global_params_update = None;
                self.emit(
                    Event::GlobalParamsUpdateCancelled(
                        GlobalParamsUpdateCancelled { params: pending.params },
                    ),
                );
                assert(self@ =~= model::globals_cancelled(old(self)@));
                Ok(())
            },
            None => Err(Error::NoPendingContractParamsUpdate),
        }
    }

    /// Hands governance on, of this contract and of the auction and the oracle. Governance only.
    pub fn update_governance(
        &mut self,
        ctx: &Context,
        new_governance: AccountId,
        replies: &Vec<Reply>,
    ) -> (step: Step<(), Error>)
        ensures
            step == model::update_governance_step(old(self)@, *ctx, new_governance, replies@),
            final(self)@ == (if step matches Step::Done(Ok(_)) {
                model::governance_updated(old(self)@, new_governance)
            } else {
                old(self)@
            }),
    {
        if let Err(e) = self.ensure_governance(ctx) {
            return Step::Done(Err(e));
        }
        let step = self.sync_child_governance(new_governance, replies);
        if let Step::Done(Ok(_)) = step {
            let previous_governance: AccountId = self.governance;
            self.governance = new_governance;
            self.emit(
                Event::VaultGovernanceUpdated(
                    VaultGovernanceUpdated { previous_governance, new_governance },
                ),
            );
            assert(self@ =~= model::governance_updated(old(self)@, new_governance));
        }
        step
    }

    /// Hands governance of the child contracts on.
    fn sync_child_governance(&self, new_governance: AccountId, replies: &Vec<Reply>) -> (step: Step<
        (),
        Error,
    >)
        ensures
            step == crate::host::conclude(
                model::child_governance_writes(self@, new_governance),
                replies@,
                0,
                Ok(()),
            ),
    {
        let mut writes: Vec<Write<Error>> = Vec::new();
        writes.push(
            Write {
                call: Call::AuctionUpdateGovernance {
                    auction: self.auction,
                    governance: new_governance,
                },
                on_failure: Error::AuctionContractCallFailed,
            },
        );
        writes.push(
            Write {
                call: Call::OracleUpdateGovernance {
                    oracle: self.oracle,
                    governance: new_governance,
                },
                on_failure: Error::OracleCallFailed,
            },
        );
        assert(writes@ =~= model::child_governance_writes(self@, new_governance));
        run_to_end(&writes, replies, 0, Ok(()))
    }

    /// Sets the treasury. Governance only.
    pub fn update_treasury(&mut self, ctx: &Context, new_treasury: AccountId) -> (r: Result<
        (),
        Error,
    >)
        ensures
            r == model::governance_only(old(self)@, *ctx),
            final(self)@ == (if r is Ok {
                model::emitted(
                    AlphaState { treasury: new_treasury, ..old(self)@ },
                    Event::VaultTreasuryUpdated(
                        VaultTreasuryUpdated {
                            previous_treasury: old(self)@.treasury,
                            new_treasury,
                        },
                    ),
                )
            } else {
                old(self)@
            }),
    {
        if ctx.caller != self.governance {
            return Err(Error::NotGovernance);
        }
        let previous_treasury: AccountId = self.treasury;
        self.treasury = new_treasury;
        self.emit(
            Event::VaultTreasuryUpdated(VaultTreasuryUpdated { previous_treasury, new_treasury }),
        );
        Ok(())
    }

    /// Sets the platform account. Governance only.
    pub fn update_platform(&mut self, ctx: &Context, new_platform: AccountId) -> (r: Result<
        (),
        Error,
    >)
        ensures
            r == model::governance_only(old(self)@, *ctx),
            final(self)@ == (if r is Ok {
                model::emitted(
                    AlphaState { platform: new_platform, ..old(self)@ },
                    Event::VaultPlatformUpdated(
                        VaultPlatformUpdated {
                            previous_platform: old(self)@.platform,
                            new_platform,
                        },
                    ),
                )
            } else {
                old(self)@
            }),
    {
        if ctx.caller != self.governance {
            return Err(Error::NotGovernance);
        }
        let previous_platform: AccountId = self.platform;
        self.platform = new_platform;
        self.emit(
            Event::VaultPlatformUpdated(VaultPlatformUpdated { previous_platform, new_platform }),
        );
        Ok(())
    }

    /// Halts the vault's messages. Governance or platform.
    pub fn pause(&mut self, ctx: &Context) -> (r: Result<(), Error>)
        ensures
            r == model::governance_or_platform_only(old(self)@, *ctx),
            final(self)@ == (if r is Ok {
                model::emitted(AlphaState { paused: true, ..old(self)@ }, Event::Paused(Paused {  }))
            } else {
                old(self)@
            }),
    {
        if let Err(e) = self.ensure_governance_or_platform(ctx) {
            return Err(e);
        }
        self.paused = true;
        self.emit(Event::Paused(Paused {  }));
        Ok(())
    }

    /// Resumes the vault's messages. Governance only.
    pub fn unpause(&mut self, ctx: &Context) -> (r: Result<(), Error>)
        ensures
            r == model::governance_only(old(self)@, *ctx),
            final(self)@ == (if r is Ok {
                model::emitted(
                    AlphaState { paused: false, ..old(self)@ },
                    Event::Unpaused(Unpaused {  }),
                )
            } else {
                old(self)@
            }),
    {
        if let Err(e) = self.ensure_governance(ctx) {
            return Err(e);
        }
        self.paused = false;
        self.emit(Event::Unpaused(Unpaused {  }));
        Ok(())
    }

    /// Adds or removes a netuid from the approved set. Governance only.
    pub fn set_approved_netuid(&mut self, ctx: &Context, netuid: u16, approved: bool) -> (r: Result<
        (),
        Error,
    >)
        ensures
            r == model::governance_only(old(self)@, *ctx),
            final(self)@ == (if r is Ok {
                AlphaState {
                    approved_netuids: if approved {
                        old(self)@.approved_netuids.insert(netuid)
                    } else {
                        old(self)@.approved_netuids.remove(netuid)
                    },
                    ..old(self)@
                }
            } else {
                old(self)@
            }),
    {
        if let Err(e) = self.ensure_governance(ctx) {
            return Err(e);
        }
        if approved {
            self.approved_netuids.insert(netuid, ());
            assert(self@.approved_netuids =~= old(self)@.approved_netuids.insert(netuid));
        } else {
            self.approved_netuids.remove(&netuid);
            assert(self@.approved_netuids =~= old(self)@.approved_netuids.remove(netuid));
        }
        Ok(())
    }

    /// Whether a netuid is approved for collateral.
    pub fn is_approved_netuid(&self, netuid: u16) -> (r: bool)
        ensures
            r == self@.approved_netuids.contains(netuid),
    {
        self.approved_netuids.contains(&netuid)
    }

    /// Transfers surplus TUSDT held by the vault to the treasury. Governance or platform.
    pub fn claim_surplus_tusdt(&mut self, ctx: &Context, amount: Balance, replies: &Vec<Reply>) -> (
    step: Step<(), Error>)
        ensures
            step == model::claim_surplus_step(old(self)@, *ctx, amount, replies@),
            final(self)@ == (if step matches Step::Done(Ok(_)) {
                model::emitted(
                    old(self)@,
                    Event::SurplusTusdtClaimed(
                        SurplusTusdtClaimed { recipient: old(self)@.treasury, amount },
                    ),
                )
            } else {
                old(self)@
            }),
    {
        if let Err(e) = self.ensure_governance_or_platform(ctx) {
            return Step::Done(Err(e));
        }
        let mut writes: Vec<Write<Error>> = Vec::new();
        writes.push(
            Write {
                call: Call::TokenTransfer { token: self.token, to: self.treasury, amount },
                on_failure: Error::TransferFailed,
            },
        );
        assert(writes@ =~= seq![model::token_transfer(self@, self@.treasury, amount)]);
        let step = run_to_end(&writes, replies, 0, Ok(()));
        if let Step::Done(Ok(_)) = step {
            let recipient: AccountId = self.treasury;
            self.emit(Event::SurplusTusdtClaimed(SurplusTusdtClaimed { recipient, amount }));
        }
        step
    }

    /// Claims staking rewards on a subnet, that is the stake beyond the collateral of all vaults
    /// there: unstakes them to native TAO and sends it to the treasury. Without excess there is
    /// nothing to do. Governance only.
    pub fn claim_excess_alpha(&mut self, ctx: &Context, netuid: u16, replies: &Vec<Reply>) -> (step:
        Step<(), Error>)
        requires
            replies@.len() > 1 ==> replies@[1] is Amount,
            replies@.len() > 3 ==> replies@[3] is Amount,
        ensures
            step == model::claim_excess_step(old(self)@, *ctx, netuid, replies@),
            final(self)@ == (if step matches Step::Done(Ok(_)) {
                model::claim_excess_next(old(self)@, netuid, replies@)
            } else {
                old(self)@
            }),
    {
        if ctx.caller != self.governance {
            return Step::Done(Err(Error::NotGovernance));
        }
        if replies.len() == 0 {
            return Step::Call(
                Call::StakeInfo { hotkey: self.vault_hotkey, coldkey: ctx.contract, netuid },
            );
        }
        let stake: Balance = match available_stake(&replies[0]) {
            Ok(stake) => stake,
            Err(Error::NoAlphaStakeFound) => {
                return Step::Done(Ok(()));
            },
            Err(e) => {
                return Step::Done(Err(e));
            },
        };
        let booked: Balance = self.netuid_collateral(netuid);
        if stake <= booked {
            return Step::Done(Ok(()));
        }
        let excess: Balance = stake - booked;
        if replies.len() == 1 {
            return Step::Call(Call::NativeBalance);
        }
        if replies.len() == 2 {
            return Step::Call(
                Call::RemoveStake { hotkey: self.vault_hotkey, netuid, amount: excess },
            );
        }
        if matches!(replies[2], Reply::Failed) {
            return Step::Done(Err(Error::ChainExtensionFailed));
        }
        if replies.len() == 3 {
            return Step::Call(Call::NativeBalance);
        }
        let before: Balance = amount_or_zero(&replies[1]);
        let after: Balance = amount_or_zero(&replies[3]);
        if after < before {
            return Step::Done(Err(Error::ArithmeticError));
        }
        let tao_received: Balance = after - before;
        let mut writes: Vec<Write<Error>> = Vec::new();
        push_when_positive(
            &mut writes,
            tao_received,
            Write {
                call: Call::NativeTransfer { to: self.treasury, amount: tao_received },
                on_failure: Error::TransferFailed,
            },
        );
        assert(writes@ =~= model::when_positive(
            tao_received,
            model::native_transfer(self@.treasury, tao_received),
        ));
        let step = run_to_end(&writes, replies, 4, Ok(()));
        if let Step::Done(Ok(_)) = step {
            self.emit(
                Event::ExcessAlphaClaimed(
                    ExcessAlphaClaimed { netuid, excess_alpha: excess, tao_received },
                ),
            );
        }
        step
    }
}

/// The address in a reply to an instantiation.
fn instantiated(reply: &Reply) -> (a: AccountId)
    requires
        reply is Account,
    ensures
        a == reply->Account_0,
{
    match reply {
        Reply::Account(a) => *a,
        _ => AccountId([0u8; 32]),
    }
}

/// The amount in a reply to a read that always answers with one.
fn amount_or_zero(reply: &Reply) -> (v: u64)
    requires
        reply is Amount,
    ensures
        v == reply->Amount_0,
{
    match reply {
        Reply::Amount(v) => *v,
        _ => 0,
    }
}

/// The vault lifecycle.
impl TusdtVaultAlpha {
    /// Step 1 of the two-step alpha deposit: registers the caller's intent to deposit an amount
    /// of alpha stake on a subnet. The caller then transfers that stake for this vault's hotkey
    /// to this contract, and calls `create_alpha_vault`.
    pub fn deposit_alpha(&mut self, ctx: &Context, amount: Balance, netuid: u16) -> (r: Result<
        (),
        Error,
    >)
        ensures
            r == model::deposit_result(old(self)@, *ctx, amount, netuid),
            final(self)@ == (if r is Ok {
                AlphaState {
                    pending_deposits: old(self)@.pending_deposits.insert(
                        (ctx.caller, netuid),
                        amount,
                    ),
                    ..old(self)@
                }
            } else {
                old(self)@
            }),
    {
        if self.paused {
            return Err(Error::ContractPaused);
        }
        if !self.approved_netuids.contains(&netuid) {
            return Err(Error::UnapprovedNetuid);
        }
        if amount == 0 {
            return Err(Error::InsufficientCollateral);
        }
        if self.pending_deposits.contains(&(ctx.caller, netuid)) {
            return Err(Error::InsufficientCollateral);
        }
        self.pending_deposits.insert((ctx.caller, netuid), amount);
        Ok(())
    }

    /// Creates a new alpha-backed vault for the caller on a subnet, for the amount that the
    /// caller registered with `deposit_alpha`. The contract's stake there must cover all vaults
    /// and this one. On success, the vault's id.
    pub fn create_alpha_vault(&mut self, ctx: &Context, netuid: u16, replies: &Vec<Reply>) -> (step:
        Step<u32, Error>)
        requires
            old(self)@.vault_keys.len() < u32::MAX,
        ensures
            step == model::create_step(old(self)@, *ctx, netuid, replies@),
            final(self)@ == (if step matches Step::Done(Ok(_)) {
                model::create_next(old(self)@, *ctx, netuid)
            } else {
                old(self)@
            }),
    {
        if self.paused {
            return Step::Done(Err(Error::ContractPaused));
        }
        if !self.approved_netuids.contains(&netuid) {
            return Step::Done(Err(Error::UnapprovedNetuid));
        }
        let amount: Balance = match self.pending_deposits.get(&(ctx.caller, netuid)) {
            Some(a) => *a,
            None => {
                return Step::Done(Err(Error::NotDepositor));
            },
        };
        if replies.len() == 0 {
            return Step::Call(
                Call::StakeInfo { hotkey: self.vault_hotkey, coldkey: ctx.contract, netuid },
            );
        }
        let stake: Balance = match available_stake(&replies[0]) {
            Ok(stake) => stake,
            Err(e) => {
                return Step::Done(Err(e));
            },
        };
        let required: Balance = match self.netuid_collateral(netuid).checked_add(amount) {
            Some(r) => r,
            None => {
                return Step::Done(Err(Error::ArithmeticError));
            },
        };
        if stake < required {
            return Step::Done(Err(Error::InsufficientCollateral));
        }
        let projected_total: Balance = match self.ensure_collateral_bounds(0, amount) {
            Ok((_, total)) => total,
            Err(e) => {
                return Step::Done(Err(e));
            },
        };
        let vault_id: u32 = self.get_vaults_count(ctx.caller);
        let key: (AccountId, u32) = (ctx.caller, vault_id);
        let vault = Vault {
            id: vault_id,
            owner: ctx.caller,
            netuid,
            collateral_balance: amount,
            borrowed_token_balance: 0,
            debt_balance: 0,
            total_interest_accrued: 0,
            created_at: ctx.now,
            last_interest_accrued_at: ctx.now,
        };
        if !self.can_save(key, 0) || vault_id == u32::MAX {
            return Step::Done(Err(Error::ArithmeticError));
        }
        let saved = self.save_vault(key, vault);
        assert(saved is Ok);
        self.vault_keys.push(key);
        self.pending_deposits.remove(&(ctx.caller, netuid));
        self.total_collateral_balance = projected_total;
        self.netuid_total_collateral.insert(netuid, required);
        self.vault_count.insert(ctx.caller, vault_id + 1);
        self.emit(Event::VaultCreated(VaultCreated { owner: ctx.caller, vault_id, amount }));
        assert(self@ =~= model::create_next(old(self)@, *ctx, netuid));
        Step::Done(Ok(vault_id))
    }

    /// Tops a vault up with the stake that the caller transferred to this contract: all stake on
    /// the vault's subnet that no vault has claimed yet.
    pub fn add_alpha_collateral(&mut self, ctx: &Context, vault_id: u32, replies: &Vec<Reply>) -> (
    step: Step<(), Error>)
        ensures
            step == model::add_step(old(self)@, *ctx, vault_id, replies@),
            final(self)@ == (if step matches Step::Done(Ok(_)) {
                model::add_next(old(self)@, *ctx, vault_id, replies@)
            } else {
                old(self)@
            }),
    {
        if self.paused {
            return Step::Done(Err(Error::ContractPaused));
        }
        let mut vault: Vault = match self.load_caller_vault(ctx, vault_id) {
            Ok(v) => v,
            Err(e) => {
                return Step::Done(Err(e));
            },
        };
        if replies.len() == 0 {
            return Step::Call(
                Call::StakeInfo {
                    hotkey: self.vault_hotkey,
                    coldkey: ctx.contract,
                    netuid: vault.netuid,
                },
            );
        }
        let stake: Balance = match available_stake(&replies[0]) {
            Ok(stake) => stake,
            Err(e) => {
                return Step::Done(Err(e));
            },
        };
        let booked: Balance = self.netuid_collateral(vault.netuid);
        if stake < booked {
            return Step::Done(Err(Error::InsufficientCollateral));
        }
        let addition: Balance = stake - booked;
        let (projected_vault, projected_total): (Balance, Balance) =
            match self.ensure_collateral_bounds(vault.collateral_balance, addition) {
            Ok(projected) => projected,
            Err(e) => {
                return Step::Done(Err(e));
            },
        };
        let key: (AccountId, u32) = (ctx.caller, vault_id);
        if !self.can_save(key, vault.debt_balance) {
            return Step::Done(Err(Error::ArithmeticError));
        }
        vault.collateral_balance = projected_vault;
        let saved = self.save_vault(key, vault);
        assert(saved is Ok);
        self.total_collateral_balance = projected_total;
        self.netuid_total_collateral.insert(vault.netuid, stake);
        self.emit(
            Event::CollateralAdded(
                CollateralAdded { owner: ctx.caller, vault_id, amount: addition },
            ),
        );
        assert(self@ =~= model::add_next(old(self)@, *ctx, vault_id, replies@));
        Step::Done(Ok(()))
    }

    /// Borrows tokens against a vault's alpha collateral. The fee goes to the treasury, the rest
    /// to the caller.
    pub fn borrow_token(
        &mut self,
        ctx: &Context,
        vault_id: u32,
        amount: Balance,
        replies: &Vec<Reply>,
    ) -> (step: Step<(), Error>)
        requires
            model::oracle_answers(replies@, 0),
        ensures
            step == model::borrow_step(old(self)@, *ctx, vault_id, amount, replies@),
            final(self)@ == (if step matches Step::Done(Ok(_)) {
                model::borrow_next(old(self)@, *ctx, vault_id, amount)
            } else {
                old(self)@
            }),
    {
        if self.paused {
            return Step::Done(Err(Error::ContractPaused));
        }
        let mut vault: Vault = match self.load_caller_vault(ctx, vault_id) {
            Ok(v) => v,
            Err(e) => {
                return Step::Done(Err(e));
            },
        };
        if let Err(e) = self.accrue_interest_for_vault(ctx, &mut vault) {
            return Step::Done(Err(e));
        }
        let key: (AccountId, u32) = (ctx.caller, vault_id);
        if amount == 0 {
            return Step::Done(self.save_vault(key, vault));
        }
        let fee: Balance = match self.calculate_transaction_fee(amount) {
            Ok(fee) => fee,
            Err(e) => {
                return Step::Done(Err(e));
            },
        };
        if fee > amount {
            return Step::Done(Err(Error::ArithmeticError));
        }
        let net: Balance = amount - fee;
        let price: Ratio = match self.current_collateral_price(ctx, vault.netuid, replies, 0) {
            Step::Call(call) => {
                return Step::Call(call);
            },
            Step::Done(Err(e)) => {
                return Step::Done(Err(e));
            },
            Step::Done(Ok(price)) => price,
        };
        let max_borrow: Balance = match self.max_borrow_allowed(
            vault.netuid,
            price,
            vault.collateral_balance,
        ) {
            Some(max) => max,
            None => {
                return Step::Done(Err(Error::ArithmeticError));
            },
        };
        let projected_borrowed: Balance = match vault.borrowed_token_balance.checked_add(amount) {
            Some(b) => b,
            None => {
                return Step::Done(Err(Error::ArithmeticError));
            },
        };
        let projected_debt: Balance = match vault.debt_balance.checked_add(amount) {
            Some(d) => d,
            None => {
                return Step::Done(Err(Error::ArithmeticError));
            },
        };
        if projected_debt > max_borrow {
            return Step::Done(Err(Error::CollateralRatioExceeded));
        }
        let mut writes: Vec<Write<Error>> = Vec::new();
        push_when_positive(
            &mut writes,
            net,
            Write {
                call: Call::TokenMint { token: self.token, to: ctx.caller, amount: net },
                on_failure: Error::TransferFailed,
            },
        );
        push_when_positive(
            &mut writes,
            fee,
            Write {
                call: Call::TokenMint { token: self.token, to: self.treasury, amount: fee },
                on_failure: Error::TransferFailed,
            },
        );
        assert(writes@ =~= model::borrow_writes(self@, ctx.caller, amount, fee));
        let outcome: Result<(), Error> = if self.can_save(key, projected_debt) {
            Ok(())
        } else {
            Err(Error::ArithmeticError)
        };
        let step = run_to_end(&writes, replies, 2, outcome);
        if let Step::Done(Ok(_)) = step {
            let ghost before = vault;
            let accrued_at: Option<u64> = weigh_time(
                vault.last_interest_accrued_at,
                vault.debt_balance,
                ctx.now,
                amount,
            );
            if let Some(t) = accrued_at {
                vault.last_interest_accrued_at = t;
            }
            vault.borrowed_token_balance = projected_borrowed;
            vault.debt_balance = projected_debt;
            assert(vault == model::borrowed(*ctx, before, amount));
            let saved = self.save_vault(key, vault);
            assert(saved is Ok);
            self.emit(
                Event::TokensBorrowed(
                    TokensBorrowed { owner: ctx.caller, vault_id, amount, transaction_fee: fee },
                ),
            );
        }
        step
    }

    /// Repays borrowed tokens: the amount and the fee are burned from the caller; the interest in
    /// it and the fee are minted to the treasury.
    pub fn repay_token(
        &mut self,
        ctx: &Context,
        vault_id: u32,
        amount: Balance,
        replies: &Vec<Reply>,
    ) -> (step: Step<(), Error>)
        requires
            replies@.len() > 0 ==> replies@[0] is Amount,
        ensures
            step == model::repay_step(old(self)@, *ctx, vault_id, amount, replies@),
            final(self)@ == (if step matches Step::Done(Ok(_)) {
                model::repay_next(old(self)@, *ctx, vault_id, amount)
            } else {
                old(self)@
            }),
    {
        if self.paused {
            return Step::Done(Err(Error::ContractPaused));
        }
        let mut vault: Vault = match self.load_caller_vault(ctx, vault_id) {
            Ok(v) => v,
            Err(e) => {
                return Step::Done(Err(e));
            },
        };
        if let Err(e) = self.accrue_interest_for_vault(ctx, &mut vault) {
            return Step::Done(Err(e));
        }
        let key: (AccountId, u32) = (ctx.caller, vault_id);
        if amount == 0 {
            return Step::Done(self.save_vault(key, vault));
        }
        if amount > vault.debt_balance {
            return Step::Done(Err(Error::RepayAmountTooHigh));
        }
        let fee: Balance = match self.calculate_transaction_fee(amount) {
            Ok(fee) => fee,
            Err(e) => {
                return Step::Done(Err(e));
            },
        };
        let charge: Balance = match amount.checked_add(fee) {
            Some(c) => c,
            None => {
                return Step::Done(Err(Error::ArithmeticError));
            },
        };
        if replies.len() == 0 {
            return Step::Call(Call::TokenBalanceOf { token: self.token, owner: ctx.caller });
        }
        if let Err(e) = Self::ensure_token_balance_at_least(amount_or_zero(&replies[0]), charge) {
            return Step::Done(Err(e));
        }
        let payment: DebtPaymentBreakdown = match Self::apply_debt_payment(&mut vault, amount) {
            Ok(p) => p,
            Err(e) => {
                return Step::Done(Err(e));
            },
        };
        let treasury_mint: Balance = payment.interest_payment + fee;
        let mut writes: Vec<Write<Error>> = Vec::new();
        writes.push(
            Write {
                call: Call::TokenBurn { token: self.token, from: ctx.caller, amount: charge },
                on_failure: Error::TransferFailed,
            },
        );
        push_when_positive(
            &mut writes,
            treasury_mint,
            Write {
                call: Call::TokenMint {
                    token: self.token,
                    to: self.treasury,
                    amount: treasury_mint,
                },
                on_failure: Error::TransferFailed,
            },
        );
        assert(writes@ =~= model::repay_writes(
            self@,
            ctx.caller,
            amount,
            fee,
            payment.interest_payment,
        ));
        let outcome: Result<(), Error> = if self.can_save(key, vault.debt_balance) {
            Ok(())
        } else {
            Err(Error::ArithmeticError)
        };
        let step = run_to_end(&writes, replies, 1, outcome);
        if let Step::Done(Ok(_)) = step {
            let saved = self.save_vault(key, vault);
            assert(saved is Ok);
            self.emit(
                Event::TokensRepaid(
                    TokensRepaid { owner: ctx.caller, vault_id, amount, transaction_fee: fee },
                ),
            );
        }
        step
    }

    fn ensure_token_balance_at_least(balance: Balance, required_balance: Balance) -> (r: Result<
        (),
        Error,
    >)
        ensures
            r == (if balance < required_balance {
                Err::<(), Error>(Error::InsufficientTokenBalance)
            } else {
                Ok(())
            }),
    {
        if balance < required_balance {
            return Err(Error::InsufficientTokenBalance);
        }
        Ok(())
    }

    /// Accrues any elapsed interest for a vault; anyone may call it. On success, the debt.
    pub fn accrue_interest(&mut self, ctx: &Context, owner: AccountId, vault_id: u32) -> (r: Result<
        Balance,
        Error,
    >)
        ensures
            r == model::accrue_result(old(self)@, *ctx, owner, vault_id),
            final(self)@ == (if r is Ok {
                model::accrue_next(old(self)@, *ctx, owner, vault_id)
            } else {
                old(self)@
            }),
    {
        if self.paused {
            return Err(Error::ContractPaused);
        }
        let key: (AccountId, u32) = (owner, vault_id);
        if self.liquidation_auctions.contains(&key) {
            return Err(Error::VaultInLiquidation);
        }
        let mut vault: Vault = match self.vaults.get(&key) {
            Some(v) => *v,
            None => {
                return Err(Error::VaultNotFound);
            },
        };
        let previous_debt_balance: Balance = vault.debt_balance;
        if let Err(e) = self.accrue_interest_for_vault(ctx, &mut vault) {
            return Err(e);
        }
        if let Err(e) = self.save_vault(key, vault) {
            return Err(e);
        }
        self.emit(
            Event::InterestAccrued(
                InterestAccrued {
                    owner,
                    vault_id,
                    previous_debt_balance,
                    debt_balance: vault.debt_balance,
                    accrued_at: vault.last_interest_accrued_at,
                },
            ),
        );
        Ok(vault.debt_balance)
    }

    /// Releases alpha collateral from a vault: the stake goes to a destination coldkey. The
    /// collateral that stays must still bear the vault's debt.
    pub fn release_alpha_collateral(
        &mut self,
        ctx: &Context,
        vault_id: u32,
        amount: Balance,
        dest_coldkey: AccountId,
        replies: &Vec<Reply>,
    ) -> (step: Step<(), Error>)
        requires
            model::release_reads_price(old(self)@, *ctx, vault_id) ==> model::oracle_answers(
                replies@,
                0,
            ),
        ensures
            step == model::release_step(
                old(self)@,
                *ctx,
                vault_id,
                amount,
                dest_coldkey,
                replies@,
            ),
            final(self)@ == (if step matches Step::Done(Ok(_)) {
                model::release_next(old(self)@, *ctx, vault_id, amount, dest_coldkey)
            } else {
                old(self)@
            }),
    {
        if self.paused {
            return Step::Done(Err(Error::ContractPaused));
        }
        let mut vault: Vault = match self.load_caller_vault(ctx, vault_id) {
            Ok(v) => v,
            Err(e) => {
                return Step::Done(Err(e));
            },
        };
        if vault.collateral_balance < amount {
            return Step::Done(Err(Error::InsufficientCollateral));
        }
        if let Err(e) = self.accrue_interest_for_vault(ctx, &mut vault) {
            return Step::Done(Err(e));
        }
        let projected: Balance = vault.collateral_balance - amount;
        let key: (AccountId, u32) = (ctx.caller, vault_id);
        let mut from: usize = 0;
        if vault.debt_balance > 0 {
            let price: Ratio = match self.current_collateral_price(ctx, vault.netuid, replies, 0) {
                Step::Call(call) => {
                    return Step::Call(call);
                },
                Step::Done(Err(e)) => {
                    return Step::Done(Err(e));
                },
                Step::Done(Ok(price)) => price,
            };
            match self.max_borrow_allowed(vault.netuid, price, projected) {
                None => {
                    return Step::Done(Err(Error::ArithmeticError));
                },
                Some(max) => {
                    if vault.debt_balance > max {
                        return Step::Done(Err(Error::CollateralRatioExceeded));
                    }
                },
            }
            from = 2;
        }
        let mut writes: Vec<Write<Error>> = Vec::new();
        writes.push(
            Write {
                call: Call::TransferStake {
                    destination: dest_coldkey,
                    hotkey: self.vault_hotkey,
                    origin_netuid: vault.netuid,
                    destination_netuid: vault.netuid,
                    amount,
                },
                on_failure: Error::ChainExtensionFailed,
            },
        );
        let outcome: Result<(), Error> = if self.can_take_out(
            key,
            vault.netuid,
            amount,
            vault.debt_balance,
        ) {
            Ok(())
        } else {
            Err(Error::ArithmeticError)
        };
        assert(writes@ =~= seq![writes@[0]]);
        let step = run_to_end(&writes, replies, from, outcome);
        assert(step == model::release_transfer(
            self@,
            *ctx,
            vault_id,
            vault,
            amount,
            dest_coldkey,
            replies@,
            from as nat,
        ));
        if let Step::Done(Ok(_)) = step {
            vault.collateral_balance = projected;
            self.take_out(key, vault, amount);
            self.emit(
                Event::CollateralReleased(
                    CollateralReleased { owner: ctx.caller, vault_id, amount, dest_coldkey },
                ),
            );
        }
        step
    }
}

/// Liquidation.
impl TusdtVaultAlpha {
    /// Opens a liquidation auction for an unsafe vault. All alpha collateral is unstaked to native
    /// TAO first, and the auction sells exactly the TAO by which the contract's balance rose. On
    /// success, the auction's id.
    ///
    /// The native balance cannot fail to be read, so its two replies are amounts.
    pub fn trigger_liquidation_auction(
        &mut self,
        ctx: &Context,
        owner: AccountId,
        vault_id: u32,
        replies: &Vec<Reply>,
    ) -> (step: Step<u32, Error>)
        requires
            model::oracle_answers(replies@, 0),
            replies@.len() > 2 ==> replies@[2] is Amount,
            replies@.len() > 4 ==> replies@[4] is Amount,
        ensures
            step == model::trigger_step(old(self)@, *ctx, owner, vault_id, replies@),
            final(self)@ == (match step {
                Step::Done(Ok(auction_id)) => model::trigger_next(
                    old(self)@,
                    *ctx,
                    owner,
                    vault_id,
                    auction_id,
                ),
                _ => old(self)@,
            }),
    {
        if self.paused {
            return Step::Done(Err(Error::ContractPaused));
        }
        let key: (AccountId, u32) = (owner, vault_id);
        if self.liquidation_auctions.contains(&key) {
            return Step::Done(Err(Error::LiquidationAuctionExists));
        }
        let mut vault: Vault = match self.vaults.get(&key) {
            Some(v) => *v,
            None => {
                return Step::Done(Err(Error::VaultNotFound));
            },
        };
        if let Err(e) = self.accrue_interest_for_vault(ctx, &mut vault) {
            return Step::Done(Err(e));
        }
        let price: Ratio = match self.current_collateral_price(ctx, vault.netuid, replies, 0) {
            Step::Call(call) => {
                return Step::Call(call);
            },
            Step::Done(Err(e)) => {
                return Step::Done(Err(e));
            },
            Step::Done(Ok(price)) => price,
        };
        match self.is_liquidatable(price, &vault) {
            Err(e) => {
                return Step::Done(Err(e));
            },
            Ok(unsafe_now) => {
                if !unsafe_now {
                    return Step::Done(Err(Error::NotLiquidatable));
                }
            },
        }
        let collateral: Balance = vault.collateral_balance;
        if replies.len() == 2 {
            return Step::Call(Call::NativeBalance);
        }
        if replies.len() == 3 {
            return Step::Call(
                Call::RemoveStake {
                    hotkey: self.vault_hotkey,
                    netuid: vault.netuid,
                    amount: collateral,
                },
            );
        }
        if matches!(replies[3], Reply::Failed) {
            return Step::Done(Err(Error::TransferFailed));
        }
        if replies.len() == 4 {
            return Step::Call(Call::NativeBalance);
        }
        let (before, after): (u64, u64) = match (amount_in(&replies[2]), amount_in(&replies[4])) {
            (Some(b), Some(a)) => (b, a),
            _ => {
                assert(false);
                (0, 0)
            },
        };
        if after < before {
            return Step::Done(Err(Error::ArithmeticError));
        }
        let tao_received: Balance = after - before;
        if !self.can_take_out(key, vault.netuid, collateral, vault.debt_balance) {
            return Step::Done(Err(Error::ArithmeticError));
        }
        let bid: Balance = match min_bid(
            self.get_params(vault.netuid).liquidation_fee,
            vault.debt_balance,
        ) {
            Some(b) => b,
            None => {
                return Step::Done(Err(Error::ArithmeticError));
            },
        };
        if replies.len() == 5 {
            return Step::Call(
                Call::AuctionCreate {
                    auction: self.auction,
                    owner,
                    vault_id,
                    collateral: tao_received,
                    debt: vault.debt_balance,
                    min_bid: bid,
                    price,
                    duration_ms: Some(self.global_params.auction_duration_ms),
                },
            );
        }
        match replies[5] {
            Reply::AuctionId(auction_id) => {
                vault.collateral_balance = 0;
                self.take_out(key, vault, collateral);
                self.liquidation_auctions.insert(key, auction_id);
                self.emit(
                    Event::LiquidationAuctionCreated(
                        LiquidationAuctionCreated { owner, vault_id, auction_id },
                    ),
                );
                assert(self@ =~= model::trigger_next(
                    old(self)@,
                    *ctx,
                    owner,
                    vault_id,
                    auction_id,
                ));
                Step::Done(Ok(auction_id))
            },
            _ => Step::Done(Err(Error::AuctionContractCallFailed)),
        }
    }

    /// Settles a finalized liquidation auction: the collateral goes to the winner, the accrued
    /// interest to the treasury, and only principal is burned.
    pub fn settle_liquidation_auction(
        &mut self,
        ctx: &Context,
        owner: AccountId,
        vault_id: u32,
        replies: &Vec<Reply>,
    ) -> (step: Step<(), Error>)
        requires
            replies@.len() > 0 ==> replies@[0] is Auction,
        ensures
            step == model::settle_step(old(self)@, *ctx, owner, vault_id, replies@),
            final(self)@ == (if step matches Step::Done(Ok(_)) {
                model::settle_next(old(self)@, owner, vault_id, replies@[0]->Auction_0->0)
            } else {
                old(self)@
            }),
    {
        let key: (AccountId, u32) = (owner, vault_id);
        let auction_id: u32 = match self.liquidation_auctions.get(&key) {
            Some(id) => *id,
            None => {
                return Step::Done(Err(Error::AuctionNotFound));
            },
        };
        if replies.len() == 0 {
            return Step::Call(Call::AuctionGet { auction: self.auction, auction_id });
        }
        let auction: AuctionRecord = match replies[0] {
            Reply::Auction(Some(a)) => a,
            _ => {
                return Step::Done(Err(Error::AuctionNotFound));
            },
        };
        let winner: AccountId = match auction.highest_bidder {
            Some(w) => if auction.is_finalized {
                w
            } else {
                return Step::Done(Err(Error::AuctionNotFinalized));
            },
            None => {
                return Step::Done(Err(Error::AuctionNotFinalized));
            },
        };
        let mut vault: Vault = match self.vaults.get(&key) {
            Some(v) => *v,
            None => {
                return Step::Done(Err(Error::VaultNotFound));
            },
        };
        let sold: Balance = auction.collateral_balance;
        let fee: Balance = match self.calculate_transaction_fee(sold) {
            Ok(fee) => fee,
            Err(e) => {
                return Step::Done(Err(e));
            },
        };
        let payment: DebtPaymentBreakdown = match Self::apply_debt_payment(
            &mut vault,
            auction.debt_balance,
        ) {
            Ok(p) => p,
            Err(e) => {
                return Step::Done(Err(e));
            },
        };
        if !self.can_save(key, vault.debt_balance) {
            return Step::Done(Err(Error::ArithmeticError));
        }
        let writes: Vec<Write<Error>> = self.settlement(
            ctx,
            auction_id,
            winner,
            sold,
            fee,
            payment,
        );
        let outcome: Result<(), Error> = if fee > sold {
            Err(Error::ArithmeticError)
        } else {
            Ok(())
        };
        let step = run_to_end(&writes, replies, 1, outcome);
        if let Step::Done(Ok(_)) = step {
            let saved = self.save_vault(key, vault);
            assert(saved is Ok);
            self.liquidation_auctions.remove(&key);
            self.emit(
                Event::VaultLiquidated(
                    VaultLiquidated {
                        owner,
                        vault_id,
                        auction_id,
                        winner: Some(winner),
                        winning_bid: auction.highest_bid,
                        collateral_sold: sold,
                        transaction_fee: fee,
                        debt_cleared: auction.debt_balance,
                    },
                ),
            );
            assert(self@ =~= model::settle_next(old(self)@, owner, vault_id, auction));
        }
        step
    }

    /// The calls of a settlement.
    fn settlement(
        &self,
        ctx: &Context,
        auction_id: u32,
        winner: AccountId,
        sold: Balance,
        fee: Balance,
        payment: DebtPaymentBreakdown,
    ) -> (writes: Vec<Write<Error>>)
        ensures
            writes@ == model::settle_writes(self@, *ctx, auction_id, winner, sold, fee, payment),
    {
        let mut writes: Vec<Write<Error>> = Vec::new();
        writes.push(
            Write {
                call: Call::AuctionTransferWinningBid {
                    auction: self.auction,
                    auction_id,
                    to: ctx.contract,
                },
                on_failure: Error::AuctionContractCallFailed,
            },
        );
        if fee <= sold {
            let to_winner: Balance = sold - fee;
            push_when_positive(
                &mut writes,
                fee,
                Write {
                    call: Call::NativeTransfer { to: self.treasury, amount: fee },
                    on_failure: Error::TransferFailed,
                },
            );
            push_when_positive(
                &mut writes,
                to_winner,
                Write {
                    call: Call::NativeTransfer { to: winner, amount: to_winner },
                    on_failure: Error::TransferFailed,
                },
            );
            writes.push(
                Write {
                    call: Call::TokenBurn {
                        token: self.token,
                        from: ctx.contract,
                        amount: payment.principal_payment,
                    },
                    on_failure: Error::TransferFailed,
                },
            );
            push_when_positive(
                &mut writes,
                payment.interest_payment,
                Write {
                    call: Call::TokenTransfer {
                        token: self.token,
                        to: self.treasury,
                        amount: payment.interest_payment,
                    },
                    on_failure: Error::TransferFailed,
                },
            );
        }
        assert(writes@ =~= model::settle_writes(
            self@,
            *ctx,
            auction_id,
            winner,
            sold,
            fee,
            payment,
        ));
        writes
    }
}

/// Reads.
impl TusdtVaultAlpha {
    pub fn get_vault(&self, owner: AccountId, vault_id: u32) -> (r: Option<Vault>)
        ensures
            r == (if self@.vaults.contains_key((owner, vault_id)) {
                Some(self@.vaults[(owner, vault_id)])
            } else {
                None
            }),
    {
        match self.vaults.get(&(owner, vault_id)) {
            Some(v) => Some(*v),
            None => None,
        }
    }

    pub fn get_token_address(&self) -> (r: AccountId)
        ensures
            r == self@.token,
    {
        self.token
    }

    pub fn get_auction_address(&self) -> (r: AccountId)
        ensures
            r == self@.auction,
    {
        self.auction
    }

    pub fn get_oracle_address(&self) -> (r: AccountId)
        ensures
            r == self@.oracle,
    {
        self.oracle
    }

    pub fn governance(&self) -> (r: AccountId)
        ensures
            r == self@.governance,
    {
        self.governance
    }

    pub fn treasury(&self) -> (r: AccountId)
        ensures
            r == self@.treasury,
    {
        self.treasury
    }

    pub fn platform(&self) -> (r: AccountId)
        ensures
            r == self@.platform,
    {
        self.platform
    }

    pub fn paused(&self) -> (r: bool)
        ensures
            r == self@.paused,
    {
        self.paused
    }

    /// The risk parameters in force on a subnet.
    pub fn get_contract_params(&self, netuid: u16) -> (r: VaultContractParamsConfig)
        ensures
            r == model::config_of(model::params_on(self@, netuid)),
    {
        Self::contract_params_to_config(self.get_params(netuid))
    }

    /// The contract-wide parameters in force.
    pub fn get_global_params(&self) -> (r: VaultGlobalParamsConfig)
        ensures
            r == model::global_config_of(self@.global_params),
    {
        Self::global_params_to_config(self.global_params)
    }

    pub fn get_pending_contract_params_update(&self, netuid: u16) -> (r: Option<
        PendingContractParamsUpdate,
    >)
        ensures
            r == (if self@.pending_contract_params_updates.contains_key(netuid) {
                Some(self@.pending_contract_params_updates[netuid])
            } else {
                None
            }),
    {
        match self.pending_contract_params_updates.get(&netuid) {
            Some(p) => Some(*p),
            None => None,
        }
    }

    pub fn get_vault_collateral_balance(&self, owner: AccountId, vault_id: u32) -> (r: Option<
        Balance,
    >)
        ensures
            r == (if self@.vaults.contains_key((owner, vault_id)) {
                Some(self@.vaults[(owner, vault_id)].collateral_balance)
            } else {
                None
            }),
    {
        match self.vaults.get(&(owner, vault_id)) {
            Some(v) => Some(v.collateral_balance),
            None => None,
        }
    }

    pub fn get_total_collateral_balance(&self) -> (r: Balance)
        ensures
            r == self@.total_collateral_balance,
    {
        self.total_collateral_balance
    }

    pub fn get_total_debt(&self, owner: AccountId) -> (r: Balance)
        ensures
            r == model::total_debt(self@, owner),
    {
        match self.owner_total_debt.get(&owner) {
            Some(d) => *d,
            None => 0,
        }
    }

    /// The value of a vault's collateral in TUSDT.
    pub fn get_vault_collateral_value(
        &self,
        ctx: &Context,
        owner: AccountId,
        vault_id: u32,
        replies: &Vec<Reply>,
    ) -> (step: Step<Balance, Error>)
        requires
            model::oracle_answers(replies@, 0),
        ensures
            step == model::priced_read(
                self@,
                *ctx,
                (owner, vault_id),
                replies@,
                |price: Ratio, v: Vault| share_of(price, v.collateral_balance),
            ),
            step matches Step::Done(Ok(value)) ==> forall|price: Ratio| #[trigger]
                priced(self@, *ctx, replies@, price) ==> is_floor(
                    value as int,
                    price.inner * self@.vaults[(owner, vault_id)].collateral_balance,
                    1_000_000_000_000_000_000,
                ),
    {
        proof {
            let v = self@.vaults[(owner, vault_id)];
            assert forall|price: Ratio| #[trigger] priced(self@, *ctx, replies@, price) implies (
            share_of(price, v.collateral_balance) matches Some(value) ==> is_floor(
                value as int,
                price.inner * v.collateral_balance,
                1_000_000_000_000_000_000,
            )) && model::price_step(self@, *ctx, v.netuid, replies@, 0) == Step::<
                Ratio,
                Error,
            >::Done(Ok(price)) by {
                law_share_is_exact(price, v.collateral_balance);
                law_price_is_read(self@, *ctx, v.netuid, replies@, price);
            }
        }
        let vault: Vault = match self.vaults.get(&(owner, vault_id)) {
            Some(v) => *v,
            None => {
                return Step::Done(Err(Error::VaultNotFound));
            },
        };
        match self.current_collateral_price(ctx, vault.netuid, replies, 0) {
            Step::Call(call) => Step::Call(call),
            Step::Done(Err(e)) => Step::Done(Err(e)),
            Step::Done(Ok(price)) => match share(price, vault.collateral_balance) {
                Some(value) => Step::Done(Ok(value)),
                None => Step::Done(Err(Error::ArithmeticError)),
            },
        }
    }

    /// The most debt that a vault's collateral bears.
    pub fn get_max_borrow(
        &self,
        ctx: &Context,
        owner: AccountId,
        vault_id: u32,
        replies: &Vec<Reply>,
    ) -> (step: Step<Balance, Error>)
        requires
            model::oracle_answers(replies@, 0),
        ensures
            step == model::priced_read(
                self@,
                *ctx,
                (owner, vault_id),
                replies@,
                |price: Ratio, v: Vault|
                    debt_limit_of(
                        model::params_on(self@, v.netuid).collateral_ratio,
                        price,
                        v.collateral_balance,
                    ),
            ),
            step matches Step::Done(Ok(max)) ==> forall|
                price: Ratio,
                p: VaultContractParams,
                value: int,
            |
                #![trigger priced(self@, *ctx, replies@, price), in_force(
                    self@,
                    self@.vaults[(owner, vault_id)].netuid,
                    p,
                ), is_floor(
                    value,
                    price.inner * self@.vaults[(owner, vault_id)].collateral_balance,
                    1_000_000_000_000_000_000,
                )]
                priced(self@, *ctx, replies@, price) && in_force(
                    self@,
                    self@.vaults[(owner, vault_id)].netuid,
                    p,
                ) && is_floor(
                    value,
                    price.inner * self@.vaults[(owner, vault_id)].collateral_balance,
                    1_000_000_000_000_000_000,
                ) ==> is_floor(
                    max as int,
                    value * 1_000_000_000_000_000_000,
                    p.collateral_ratio.inner as int,
                ),
    {
        proof {
            let v = self@.vaults[(owner, vault_id)];
            assert forall|price: Ratio, p: VaultContractParams, value: int|
                #![trigger priced(self@, *ctx, replies@, price), in_force(
                    self@,
                    v.netuid,
                    p,
                ), is_floor(
                    value,
                    price.inner * v.collateral_balance,
                    1_000_000_000_000_000_000,
                )]
                priced(self@, *ctx, replies@, price) && in_force(self@, v.netuid, p) && is_floor(
                    value,
                    price.inner * v.collateral_balance,
                    1_000_000_000_000_000_000,
                ) implies model::price_step(self@, *ctx, v.netuid, replies@, 0) == Step::<
                Ratio,
                Error,
            >::Done(Ok(price)) && p == model::params_on(self@, v.netuid) && (debt_limit_of(
                p.collateral_ratio,
                price,
                v.collateral_balance,
            ) matches Some(max) ==> is_floor(
                max as int,
                value * 1_000_000_000_000_000_000,
                p.collateral_ratio.inner as int,
            )) by {
                law_debt_limit_is_exact(p.collateral_ratio, price, v.collateral_balance, value);
                law_price_is_read(self@, *ctx, v.netuid, replies@, price);
            }
        }
        let vault: Vault = match self.vaults.get(&(owner, vault_id)) {
            Some(v) => *v,
            None => {
                return Step::Done(Err(Error::VaultNotFound));
            },
        };
        match self.current_collateral_price(ctx, vault.netuid, replies, 0) {
            Step::Call(call) => Step::Call(call),
            Step::Done(Err(e)) => Step::Done(Err(e)),
            Step::Done(Ok(price)) => match self.max_borrow_allowed(
                vault.netuid,
                price,
                vault.collateral_balance,
            ) {
                Some(max) => Step::Done(Ok(max)),
                None => Step::Done(Err(Error::ArithmeticError)),
            },
        }
    }

    pub fn get_liquidation_auction_id(&self, owner: AccountId, vault_id: u32) -> (r: Option<u32>)
        ensures
            r == (if self@.liquidation_auctions.contains_key((owner, vault_id)) {
                Some(self@.liquidation_auctions[(owner, vault_id)])
            } else {
                None
            }),
    {
        match self.liquidation_auctions.get(&(owner, vault_id)) {
            Some(id) => Some(*id),
            None => None,
        }
    }

    pub fn get_total_vaults_count(&self) -> (r: u32)
        ensures
            r == self@.vault_keys.len(),
    {
        self.vault_keys.len()
    }

    pub fn get_vaults_count(&self, owner: AccountId) -> (r: u32)
        ensures
            r == model::count_of(self@, owner),
    {
        match self.vault_count.get(&owner) {
            Some(n) => *n,
            None => 0,
        }
    }

    /// A page of an owner's vaults, in the order of their ids. The vaults of the page must be
    /// stored.
    pub fn get_vaults(&self, owner: AccountId, page: u32) -> (r: Result<Vec<Vault>, Error>)
        requires
            forall|id: u32|
                model::page_bounds(page, model::count_of(self@, owner) as int).0 <= id
                    < model::page_bounds(page, model::count_of(self@, owner) as int).1
                    ==> #[trigger] self@.vaults.contains_key((owner, id)),
        ensures
            ({
                let (start, end) = model::page_bounds(page, model::count_of(self@, owner) as int);
                r matches Ok(vaults) && vaults@ == Seq::new(
                    (end - start) as nat,
                    |i: int| self@.vaults[(owner, (start + i) as u32)],
                )
            }),
    {
        let total: u32 = self.get_vaults_count(owner);
        let ghost bounds = model::page_bounds(page, total as int);
        let mut vaults: Vec<Vault> = Vec::new();
        let (start, end): (u32, u32) = page_range(page, total);
        let mut index: u32 = start;
        while index < end
            invariant
                bounds == (start as int, end as int),
                start <= index <= end,
                forall|id: u32|
                    bounds.0 <= id < bounds.1 ==> #[trigger] self@.vaults.contains_key((owner, id)),
                vaults@ == Seq::new(
                    (index - start) as nat,
                    |i: int| self@.vaults[(owner, (start + i) as u32)],
                ),
            decreases end - index,
        {
            assert(self@.vaults.contains_key((owner, index)));
            if let Some(v) = self.vaults.get(&(owner, index)) {
                vaults.push(*v);
            }
            index = index + 1;
            assert(vaults@ =~= Seq::new(
                (index - start) as nat,
                |i: int| self@.vaults[(owner, (start + i) as u32)],
            ));
        }
        Ok(vaults)
    }

    /// A page of all vaults, in the order of their creation. The vaults of the page must be
    /// stored.
    pub fn get_all_vaults(&self, page: u32) -> (r: Result<Vec<Vault>, Error>)
        requires
            forall|i: int|
                model::page_bounds(page, self@.vault_keys.len() as int).0 <= i < model::page_bounds(
                    page,
                    self@.vault_keys.len() as int,
                ).1 ==> self@.vaults.contains_key(#[trigger] self@.vault_keys[i]),
        ensures
            ({
                let (start, end) = model::page_bounds(page, self@.vault_keys.len() as int);
                r matches Ok(vaults) && vaults@ == Seq::new(
                    (end - start) as nat,
                    |i: int| self@.vaults[self@.vault_keys[start + i]],
                )
            }),
    {
        let total: u32 = self.vault_keys.len();
        let ghost bounds = model::page_bounds(page, total as int);
        let mut vaults: Vec<Vault> = Vec::new();
        let (start, end): (u32, u32) = page_range(page, total);
        let mut index: u32 = start;
        while index < end
            invariant
                bounds == (start as int, end as int),
                start <= index <= end <= self@.vault_keys.len(),
                forall|i: int|
                    bounds.0 <= i < bounds.1 ==> self@.vaults.contains_key(
                        #[trigger] self@.vault_keys[i],
                    ),
                vaults@ == Seq::new(
                    (index - start) as nat,
                    |i: int| self@.vaults[self@.vault_keys[start + i]],
                ),
            decreases end - index,
        {
            assert(self@.vaults.contains_key(self@.vault_keys[index as int]));
            if let Some(key) = self.vault_keys.get(index) {
                if let Some(v) = self.vaults.get(key) {
                    vaults.push(*v);
                }
            }
            index = index + 1;
            assert(vaults@ =~= Seq::new(
                (index - start) as nat,
                |i: int| self@.vaults[self@.vault_keys[start + i]],
            ));
        }
        Ok(vaults)
    }

    /// Hands out the events since the last call.
    pub fn take_events(&mut self) -> (r: Vec<Event>)
        ensures
            r@ == old(self)@.events,
            final(self)@ == (AlphaState { events: Seq::empty(), ..old(self)@ }),
    {
        let mut taken: Vec<Event> = Vec::new();
        std::mem::swap(&mut taken, &mut self.events);
        taken
    }
}

/// Where a page of a list of `total` items starts and ends.
fn page_range(page: u32, total: u32) -> (r: (u32, u32))
    ensures
        (r.0 as int, r.1 as int) == model::page_bounds(page, total as int),
{
    match page.checked_mul(PAGE_SIZE) {
        None => (total, total),
        Some(start) => if start >= total {
            (total, total)
        } else if total - start >= PAGE_SIZE {
            (start, start + PAGE_SIZE)
        } else {
            (start, total)
        },
    }
}

} // verus!
