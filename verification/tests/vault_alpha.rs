use tusdt::account::{AccountId, Balance};
use tusdt::host::{Call, Context, Reply, Step};
use tusdt::peers::{AuctionRecord, PriceData};
use tusdt::ratio::Ratio;
use tusdt::test_support::{
    default_accounts, register_mock, register_mock_chain_fails, register_mock_no_stake, set_caller,
    DefaultAccounts, TestEnvironment,
};
use tusdt::vault_alpha::{
    Error, Event, TusdtVaultAlpha, Vault, VaultContractParamsConfig, VaultGlobalParamsConfig,
};

const HOUR: u64 = 3_600_000;

const DAY: u64 = 24 * HOUR;

/// The vault with a chain, a token, an oracle and an auction around it.
struct World {
    vault: TusdtVaultAlpha,
    env: TestEnvironment,
    now: u64,
    /// TUSDT per TAO, in basis points; none when the oracle has no price.
    price_bps: Option<u32>,
    price_age: u64,
    /// Rao per alpha, in place of the mock's price.
    alpha_price: Option<u64>,
    token_balance: Balance,
    native: Balance,
    unstaked: Balance,
    auction_reply: Reply,
    auction: Option<AuctionRecord>,
    failing: Option<Call>,
    calls: Vec<Call>,
}

fn contract() -> AccountId {
    AccountId([0x10; 32])
}

impl World {
    fn ctx(&self) -> Context {
        Context {
            caller: self.env.caller,
            contract: self.env.callee,
            now: self.now,
            transferred_value: 0,
        }
    }

    fn answer(&mut self, call: Call) -> Reply {
        self.calls.push(call);
        if self.failing == Some(call) {
            return Reply::Failed;
        }
        match call {
            Call::OracleLatestPrice { .. } => Reply::Price(self.price_bps.map(|bps| PriceData {
                price: Ratio::from_basis_points(bps),
                committed_at: self.now - self.price_age,
            })),
            Call::AlphaPrice { .. } => match self.alpha_price {
                Some(rao) => Reply::Amount(rao),
                None => self.env.reply(&call).unwrap(),
            },
            Call::RemoveStake { .. } => {
                self.native += self.unstaked;
                self.env.reply(&call).unwrap()
            }
            Call::NativeBalance => Reply::Amount(self.native),
            Call::TokenBalanceOf { .. } => Reply::Amount(self.token_balance),
            Call::AuctionCreate { .. } => self.auction_reply,
            Call::AuctionGet { .. } => Reply::Auction(self.auction),
            _ => self.env.reply(&call).unwrap_or(Reply::Done),
        }
    }

    fn create_alpha_vault(&mut self, netuid: u16) -> Result<u32, Error> {
        let ctx = self.ctx();
        let mut replies: Vec<Reply> = Vec::new();
        loop {
            match self.vault.create_alpha_vault(&ctx, netuid, &replies) {
                Step::Done(r) => return r,
                Step::Call(call) => {
                    let reply = self.answer(call);
                    replies.push(reply);
                }
            }
        }
    }

    fn add_alpha_collateral(&mut self, id: u32) -> Result<(), Error> {
        let ctx = self.ctx();
        let mut replies: Vec<Reply> = Vec::new();
        loop {
            match self.vault.add_alpha_collateral(&ctx, id, &replies) {
                Step::Done(r) => return r,
                Step::Call(call) => {
                    let reply = self.answer(call);
                    replies.push(reply);
                }
            }
        }
    }

    fn borrow_token(&mut self, id: u32, amount: Balance) -> Result<(), Error> {
        let ctx = self.ctx();
        let mut replies: Vec<Reply> = Vec::new();
        loop {
            match self.vault.borrow_token(&ctx, id, amount, &replies) {
                Step::Done(r) => return r,
                Step::Call(call) => {
                    let reply = self.answer(call);
                    replies.push(reply);
                }
            }
        }
    }

    fn repay_token(&mut self, id: u32, amount: Balance) -> Result<(), Error> {
        let ctx = self.ctx();
        let mut replies: Vec<Reply> = Vec::new();
        loop {
            match self.vault.repay_token(&ctx, id, amount, &replies) {
                Step::Done(r) => return r,
                Step::Call(call) => {
                    let reply = self.answer(call);
                    replies.push(reply);
                }
            }
        }
    }

    fn release_alpha_collateral(&mut self, id: u32, amount: Balance, to: AccountId) -> Result<(), Error> {
        let ctx = self.ctx();
        let mut replies: Vec<Reply> = Vec::new();
        loop {
            match self.vault.release_alpha_collateral(&ctx, id, amount, to, &replies) {
                Step::Done(r) => return r,
                Step::Call(call) => {
                    let reply = self.answer(call);
                    replies.push(reply);
                }
            }
        }
    }

    fn trigger_liquidation_auction(&mut self, owner: AccountId, id: u32) -> Result<u32, Error> {
        let ctx = self.ctx();
        let mut replies: Vec<Reply> = Vec::new();
        loop {
            match self.vault.trigger_liquidation_auction(&ctx, owner, id, &replies) {
                Step::Done(r) => return r,
                Step::Call(call) => {
                    let reply = self.answer(call);
                    replies.push(reply);
                }
            }
        }
    }

    fn settle_liquidation_auction(&mut self, owner: AccountId, id: u32) -> Result<(), Error> {
        let ctx = self.ctx();
        let mut replies: Vec<Reply> = Vec::new();
        loop {
            match self.vault.settle_liquidation_auction(&ctx, owner, id, &replies) {
                Step::Done(r) => return r,
                Step::Call(call) => {
                    let reply = self.answer(call);
                    replies.push(reply);
                }
            }
        }
    }

    fn claim_excess_alpha(&mut self, netuid: u16) -> Result<(), Error> {
        let ctx = self.ctx();
        let mut replies: Vec<Reply> = Vec::new();
        loop {
            match self.vault.claim_excess_alpha(&ctx, netuid, &replies) {
                Step::Done(r) => return r,
                Step::Call(call) => {
                    let reply = self.answer(call);
                    replies.push(reply);
                }
            }
        }
    }

    fn get_max_borrow(&mut self, owner: AccountId, id: u32) -> Result<Balance, Error> {
        let ctx = self.ctx();
        let mut replies: Vec<Reply> = Vec::new();
        loop {
            match self.vault.get_max_borrow(&ctx, owner, id, &replies) {
                Step::Done(r) => return r,
                Step::Call(call) => {
                    let reply = self.answer(call);
                    replies.push(reply);
                }
            }
        }
    }

    fn get_vault_collateral_value(&mut self, owner: AccountId, id: u32) -> Result<Balance, Error> {
        let ctx = self.ctx();
        let mut replies: Vec<Reply> = Vec::new();
        loop {
            match self.vault.get_vault_collateral_value(&ctx, owner, id, &replies) {
                Step::Done(r) => return r,
                Step::Call(call) => {
                    let reply = self.answer(call);
                    replies.push(reply);
                }
            }
        }
    }

    fn deposit_alpha(&mut self, amount: Balance, netuid: u16) -> Result<(), Error> {
        let ctx = self.ctx();
        self.vault.deposit_alpha(&ctx, amount, netuid)
    }

    fn set_approved_netuid(&mut self, netuid: u16, approved: bool) -> Result<(), Error> {
        let ctx = self.ctx();
        self.vault.set_approved_netuid(&ctx, netuid, approved)
    }

    fn pause(&mut self) -> Result<(), Error> {
        let ctx = self.ctx();
        self.vault.pause(&ctx)
    }

    fn unpause(&mut self) -> Result<(), Error> {
        let ctx = self.ctx();
        self.vault.unpause(&ctx)
    }

    fn accrue(&mut self, owner: AccountId, id: u32) -> Result<Balance, Error> {
        let ctx = self.ctx();
        self.vault.accrue_interest(&ctx, owner, id)
    }

    fn stored(&self, owner: AccountId, id: u32) -> Vault {
        self.vault.get_vault(owner, id).unwrap()
    }

    fn set_fee(&mut self, bps: u32) {
        let governance = self.vault.governance();
        let caller = self.env.caller;
        set_caller(&mut self.env, governance);
        let mut config = self.vault.get_global_params();
        config.transaction_fee = bps;
        let ctx = self.ctx();
        self.vault.set_global_params(&ctx, config).unwrap();
        self.now += DAY;
        let ctx = self.ctx();
        self.vault.execute_global_params_update(&ctx).unwrap();
        set_caller(&mut self.env, caller);
    }

    /// Borrows against an existing vault of 10_000_000 and opens an auction for it.
    fn liquidate(&mut self, owner: AccountId, id: u32, auction_id: u32) {
        set_caller(&mut self.env, owner);
        self.price_bps = Some(10_000);
        self.borrow_token(id, 6_000_000).unwrap();
        self.price_bps = Some(7_000);
        self.auction_reply = Reply::AuctionId(auction_id);
        assert_eq!(self.trigger_liquidation_auction(owner, id), Ok(auction_id));
    }
}

/// Alice governs; the hotkey is bob, the token charlie, the auction django, the oracle eve.
fn setup() -> (World, DefaultAccounts) {
    let accounts = default_accounts();
    let env = TestEnvironment::new(accounts.alice, contract());
    let ctx = Context {
        caller: accounts.alice,
        contract: contract(),
        now: DAY,
        transferred_value: 0,
    };
    let replies = vec![
        Reply::Account(accounts.charlie),
        Reply::Account(accounts.django),
        Reply::Account(accounts.eve),
    ];
    let vault = match TusdtVaultAlpha::new(&ctx, accounts.alice, [1; 32], [2; 32], [3; 32], 113, accounts.bob, &replies) {
        Step::Done(Ok(v)) => v,
        _ => unreachable!(),
    };
    let world = World {
        vault,
        env,
        now: DAY,
        price_bps: Some(10_000),
        price_age: 0,
        alpha_price: None,
        token_balance: 0,
        native: 1_000,
        unstaked: 70,
        auction_reply: Reply::AuctionId(42),
        auction: None,
        failing: None,
        calls: Vec::new(),
    };
    (world, accounts)
}

fn setup_with_approved_netuid() -> (World, DefaultAccounts) {
    let (mut world, accounts) = setup();
    world.set_approved_netuid(1, true).unwrap();
    (world, accounts)
}

fn create_test_vault(world: &mut World, owner: AccountId, amount: u64) -> u32 {
    set_caller(&mut world.env, owner);
    world.deposit_alpha(amount, 1).unwrap();
    register_mock(&mut world.env, amount);
    world.create_alpha_vault(1).unwrap()
}

#[test]
fn constructor_sets_governance() {
    let (world, accounts) = setup();
    assert_eq!(world.vault.governance(), accounts.alice);
    assert_eq!(world.vault.platform(), accounts.alice);
    assert_eq!(world.vault.treasury(), accounts.alice);
    assert_eq!(world.vault.get_token_address(), accounts.charlie);
    assert_eq!(world.vault.get_auction_address(), accounts.django);
    assert_eq!(world.vault.get_oracle_address(), accounts.eve);
}

#[test]
fn constructor_instantiates_its_children_in_order() {
    let a = default_accounts();
    let ctx = Context { caller: a.alice, contract: contract(), now: 0, transferred_value: 0 };
    let step = |replies: Vec<Reply>| {
        match TusdtVaultAlpha::new(&ctx, a.frank, [1; 32], [2; 32], [3; 32], 113, a.bob, &replies) {
            Step::Call(call) => call,
            _ => unreachable!(),
        }
    };
    assert_eq!(
        step(vec![]),
        Call::InstantiateToken { code_hash: [1; 32], owner: contract(), salt: 0 }
    );
    assert_eq!(
        step(vec![Reply::Account(a.charlie)]),
        Call::InstantiateAuction {
            code_hash: [2; 32],
            vault: contract(),
            governance: a.alice,
            token: a.charlie,
            salt: 1,
        }
    );
    assert_eq!(
        step(vec![Reply::Account(a.charlie), Reply::Account(a.django)]),
        Call::InstantiateOracle {
            code_hash: [3; 32],
            vault: contract(),
            governance: a.alice,
            netuid: 113,
            salt: 2,
        }
    );
}

#[test]
fn paused_by_default() {
    let (world, _) = setup();
    assert!(!world.vault.paused());
}

#[test]
fn governance_can_pause_and_unpause() {
    let (mut world, _) = setup();
    world.pause().unwrap();
    assert!(world.vault.paused());
    world.unpause().unwrap();
    assert!(!world.vault.paused());
}

#[test]
fn non_governance_cannot_pause() {
    let (mut world, accounts) = setup();
    set_caller(&mut world.env, accounts.bob);
    assert!(world.pause().is_err());
    assert_eq!(world.pause(), Err(Error::NotGovernanceOrPlatform));
    assert_eq!(world.unpause(), Err(Error::NotGovernance));
}

#[test]
fn platform_pauses_but_does_not_resume() {
    let (mut world, accounts) = setup();
    let ctx = world.ctx();
    world.vault.update_platform(&ctx, accounts.frank).unwrap();
    world.vault.update_treasury(&ctx, accounts.eve).unwrap();
    assert_eq!(world.vault.platform(), accounts.frank);
    assert_eq!(world.vault.treasury(), accounts.eve);
    set_caller(&mut world.env, accounts.frank);
    world.pause().unwrap();
    assert_eq!(world.unpause(), Err(Error::NotGovernance));
    let ctx = world.ctx();
    assert_eq!(world.vault.update_platform(&ctx, accounts.frank), Err(Error::NotGovernance));
    assert_eq!(world.vault.update_treasury(&ctx, accounts.frank), Err(Error::NotGovernance));
}

#[test]
fn pause_blocks_every_operation() {
    let (mut world, accounts) = setup_with_approved_netuid();
    let id = create_test_vault(&mut world, accounts.alice, 10_000_000);
    world.pause().unwrap();
    world.calls.clear();
    assert_eq!(world.deposit_alpha(1, 1), Err(Error::ContractPaused));
    assert_eq!(world.create_alpha_vault(1), Err(Error::ContractPaused));
    assert_eq!(world.add_alpha_collateral(id), Err(Error::ContractPaused));
    assert_eq!(world.borrow_token(id, 1), Err(Error::ContractPaused));
    assert_eq!(world.repay_token(id, 1), Err(Error::ContractPaused));
    assert_eq!(world.accrue(accounts.alice, id), Err(Error::ContractPaused));
    assert_eq!(world.release_alpha_collateral(id, 1, accounts.alice), Err(Error::ContractPaused));
    assert_eq!(world.trigger_liquidation_auction(accounts.alice, id), Err(Error::ContractPaused));
    assert!(world.calls.is_empty());
}

#[test]
fn governance_can_manage_approved_netuids() {
    let (mut world, _) = setup();
    assert!(!world.vault.is_approved_netuid(1));
    world.set_approved_netuid(1, true).unwrap();
    assert!(world.vault.is_approved_netuid(1));
    world.set_approved_netuid(1, false).unwrap();
    assert!(!world.vault.is_approved_netuid(1));
}

#[test]
fn non_governance_cannot_manage_netuids() {
    let (mut world, accounts) = setup();
    set_caller(&mut world.env, accounts.bob);
    assert!(world.set_approved_netuid(1, true).is_err());
}

#[test]
fn deposit_alpha_rejected_for_unapproved_netuid() {
    let (mut world, _) = setup();
    assert!(world.deposit_alpha(100, 99).is_err());
    assert_eq!(world.deposit_alpha(100, 99), Err(Error::UnapprovedNetuid));
    assert_eq!(world.create_alpha_vault(99), Err(Error::UnapprovedNetuid));
}

#[test]
fn deposit_alpha_registers_intent() {
    let (mut world, _) = setup_with_approved_netuid();
    world.deposit_alpha(100, 1).unwrap();
}

#[test]
fn create_alpha_vault_fails_without_deposit() {
    let (mut world, accounts) = setup_with_approved_netuid();
    set_caller(&mut world.env, accounts.bob);
    assert!(world.create_alpha_vault(1).is_err());
    assert_eq!(world.create_alpha_vault(1), Err(Error::NotDepositor));
}

#[test]
fn create_alpha_vault_fails_for_wrong_depositor() {
    let (mut world, accounts) = setup_with_approved_netuid();
    world.deposit_alpha(100, 1).unwrap();
    set_caller(&mut world.env, accounts.bob);
    assert!(world.create_alpha_vault(1).is_err());
}

#[test]
fn duplicate_deposit_rejected() {
    let (mut world, _) = setup_with_approved_netuid();
    assert_eq!(world.deposit_alpha(0, 1), Err(Error::InsufficientCollateral));
    world.deposit_alpha(100, 1).unwrap();
    assert!(world.deposit_alpha(200, 1).is_err());
}

#[test]
fn same_caller_different_netuids_allowed() {
    let (mut world, _) = setup_with_approved_netuid();
    world.set_approved_netuid(2, true).unwrap();
    world.deposit_alpha(100, 1).unwrap();
    world.deposit_alpha(200, 2).unwrap();
}

#[test]
fn per_netuid_params_fallback_to_defaults() {
    let (world, _) = setup();
    let params = world.vault.get_contract_params(99);
    assert_eq!(params.collateral_ratio, 15_000);
    assert_eq!(params.liquidation_ratio, 12_000);
    assert_eq!(params.interest_rate, 500);
    assert_eq!(params.liquidation_fee, 100);
    assert_eq!(
        world.vault.get_global_params(),
        VaultGlobalParamsConfig {
            transaction_fee: 0,
            auction_duration_ms: 3_600_000,
            max_oracle_age_ms: 3_600_000,
        }
    );
}

#[test]
fn per_netuid_params_are_isolated() {
    let (mut world, _) = setup();
    let mut config1 = world.vault.get_contract_params(1);
    config1.collateral_ratio = 20_000;
    let ctx = world.ctx();
    world.vault.set_contract_params(&ctx, 1, config1).unwrap();
    let params2 = world.vault.get_contract_params(2);
    assert_eq!(params2.collateral_ratio, 15_000);

    // Nor does the executed update reach another subnet.
    world.now += DAY;
    let ctx = world.ctx();
    world.vault.execute_contract_params_update(&ctx, 1).unwrap();
    assert_eq!(world.vault.get_contract_params(1), config1);
    assert_eq!(world.vault.get_contract_params(2).collateral_ratio, 15_000);
}

#[test]
fn contract_params_wait_for_the_timelock() {
    let (mut world, accounts) = setup();
    let config = VaultContractParamsConfig {
        collateral_ratio: 20_000,
        liquidation_ratio: 13_000,
        interest_rate: 700,
        liquidation_fee: 200,
    };
    let ctx = world.ctx();
    assert_eq!(
        world.vault.execute_contract_params_update(&ctx, 1),
        Err(Error::NoPendingContractParamsUpdate)
    );
    world.vault.set_contract_params(&ctx, 1, config).unwrap();
    assert_eq!(
        world.vault.get_pending_contract_params_update(1).unwrap().execute_after,
        world.now + DAY
    );
    world.now += DAY - 1;
    let ctx = world.ctx();
    assert_eq!(
        world.vault.execute_contract_params_update(&ctx, 1),
        Err(Error::ContractParamsUpdateTimelockActive)
    );
    // Anyone executes it once it is due.
    world.now += 1;
    set_caller(&mut world.env, accounts.frank);
    let ctx = world.ctx();
    world.vault.execute_contract_params_update(&ctx, 1).unwrap();
    assert_eq!(world.vault.get_contract_params(1), config);
    assert!(world.vault.get_pending_contract_params_update(1).is_none());
}

#[test]
fn scheduled_params_can_be_cancelled() {
    let (mut world, accounts) = setup();
    let mut config = world.vault.get_contract_params(1);
    config.interest_rate = 9_999;
    let ctx = world.ctx();
    assert_eq!(
        world.vault.cancel_contract_params_update(&ctx, 1),
        Err(Error::NoPendingContractParamsUpdate)
    );
    world.vault.set_contract_params(&ctx, 1, config).unwrap();
    let mut stranger = ctx;
    stranger.caller = accounts.bob;
    assert_eq!(
        world.vault.cancel_contract_params_update(&stranger, 1),
        Err(Error::NotGovernance)
    );
    assert_eq!(
        world.vault.set_contract_params(&stranger, 1, config),
        Err(Error::NotGovernance)
    );
    world.vault.cancel_contract_params_update(&ctx, 1).unwrap();
    world.now += DAY;
    let ctx = world.ctx();
    assert_eq!(
        world.vault.execute_contract_params_update(&ctx, 1),
        Err(Error::NoPendingContractParamsUpdate)
    );
    assert_eq!(world.vault.get_contract_params(1).interest_rate, 500);
}

#[test]
fn unusable_params_are_refused() {
    let (mut world, _) = setup();
    let ctx = world.ctx();
    let good = world.vault.get_contract_params(1);
    let bad = [
        VaultContractParamsConfig { collateral_ratio: 0, ..good },
        VaultContractParamsConfig { liquidation_ratio: 0, ..good },
        VaultContractParamsConfig { collateral_ratio: 11_999, ..good },
    ];
    for config in bad {
        assert_eq!(world.vault.set_contract_params(&ctx, 1, config), Err(Error::InvalidRatio));
    }
    let good = world.vault.get_global_params();
    assert_eq!(
        world.vault.set_global_params(&ctx, VaultGlobalParamsConfig { transaction_fee: 10_001, ..good }),
        Err(Error::InvalidTransactionFee)
    );
    assert_eq!(
        world.vault.set_global_params(&ctx, VaultGlobalParamsConfig { auction_duration_ms: 0, ..good }),
        Err(Error::InvalidAuctionDuration)
    );
    assert_eq!(
        world.vault.set_global_params(&ctx, VaultGlobalParamsConfig { max_oracle_age_ms: 0, ..good }),
        Err(Error::InvalidOracleMaxAge)
    );
    let mut late = ctx;
    late.now = u64::MAX;
    assert_eq!(world.vault.set_global_params(&late, good), Err(Error::ArithmeticError));
}

#[test]
fn global_params_wait_for_the_timelock() {
    let (mut world, accounts) = setup();
    let config = VaultGlobalParamsConfig {
        transaction_fee: 25,
        auction_duration_ms: 7,
        max_oracle_age_ms: 8,
    };
    let ctx = world.ctx();
    let mut stranger = ctx;
    stranger.caller = accounts.bob;
    assert_eq!(world.vault.set_global_params(&stranger, config), Err(Error::NotGovernance));
    assert_eq!(
        world.vault.execute_global_params_update(&ctx),
        Err(Error::NoPendingContractParamsUpdate)
    );
    world.vault.set_global_params(&ctx, config).unwrap();
    assert_eq!(
        world.vault.execute_global_params_update(&ctx),
        Err(Error::ContractParamsUpdateTimelockActive)
    );
    assert_eq!(world.vault.cancel_global_params_update(&stranger), Err(Error::NotGovernance));
    world.vault.cancel_global_params_update(&ctx).unwrap();
    assert_eq!(
        world.vault.cancel_global_params_update(&ctx),
        Err(Error::NoPendingContractParamsUpdate)
    );
    world.vault.set_global_params(&ctx, config).unwrap();
    let mut due = ctx;
    due.now += DAY;
    world.vault.execute_global_params_update(&due).unwrap();
    assert_eq!(world.vault.get_global_params(), config);
}

#[test]
fn vault_count_starts_at_zero() {
    let (world, accounts) = setup();
    assert_eq!(world.vault.get_vaults_count(accounts.alice), 0);
    assert_eq!(world.vault.get_total_vaults_count(), 0);
}

#[test]
fn no_liquidation_auction_for_new_vault() {
    let (mut world, accounts) = setup_with_approved_netuid();
    let vault_id = create_test_vault(&mut world, accounts.alice, 10_000_000);
    assert!(world.vault.get_liquidation_auction_id(accounts.alice, vault_id).is_none());
    assert_eq!(world.vault.get_total_vaults_count(), 1);
}

#[test]
fn trigger_liquidation_auction_rejects_duplicate() {
    let (mut world, accounts) = setup_with_approved_netuid();
    world.vault.liquidation_auctions.insert((accounts.alice, 0), 42);

    // No vault is stored: the running auction is what counts.
    let result = world.trigger_liquidation_auction(accounts.alice, 0);
    assert_eq!(result, Err(Error::LiquidationAuctionExists));
}

#[test]
fn a_liquidated_vault_is_not_liquidated_again() {
    let (mut world, accounts) = setup_with_approved_netuid();
    let vault_id = create_test_vault(&mut world, accounts.alice, 10_000_000);
    world.liquidate(accounts.alice, vault_id, 42);
    let result = world.trigger_liquidation_auction(accounts.alice, vault_id);
    assert_eq!(result, Err(Error::LiquidationAuctionExists));
}

#[test]
fn settle_liquidation_auction_rejects_when_not_finalized() {
    let (mut world, accounts) = setup_with_approved_netuid();
    let result = world.settle_liquidation_auction(accounts.bob, 0);
    assert_eq!(result, Err(Error::AuctionNotFound));
}

#[test]
fn vault_in_liquidation_blocks_operations() {
    let (mut world, accounts) = setup_with_approved_netuid();
    let vault_id = create_test_vault(&mut world, accounts.alice, 10_000_000);
    world.vault.liquidation_auctions.insert((accounts.alice, vault_id), 99);

    set_caller(&mut world.env, accounts.alice);
    register_mock(&mut world.env, 2_000);
    let result = world.add_alpha_collateral(vault_id);
    assert_eq!(result, Err(Error::VaultInLiquidation));
    assert_eq!(world.borrow_token(vault_id, 1), Err(Error::VaultInLiquidation));
    assert_eq!(world.repay_token(vault_id, 1), Err(Error::VaultInLiquidation));
    assert_eq!(world.accrue(accounts.alice, vault_id), Err(Error::VaultInLiquidation));
}

#[test]
fn release_alpha_collateral_blocked_during_liquidation() {
    let (mut world, accounts) = setup_with_approved_netuid();
    let vault_id = create_test_vault(&mut world, accounts.alice, 10_000_000);
    world.vault.liquidation_auctions.insert((accounts.alice, vault_id), 99);

    set_caller(&mut world.env, accounts.alice);
    let result = world.release_alpha_collateral(vault_id, 100, accounts.alice);
    assert_eq!(result, Err(Error::VaultInLiquidation));
}

#[test]
fn create_alpha_vault_checks_stake_availability() {
    let (mut world, _) = setup_with_approved_netuid();
    world.deposit_alpha(10_000_000, 1).unwrap();

    register_mock(&mut world.env, 5_000_000);
    let result = world.create_alpha_vault(1);
    assert_eq!(result, Err(Error::InsufficientCollateral));
}

#[test]
fn create_alpha_vault_succeeds_with_sufficient_stake() {
    let (mut world, accounts) = setup_with_approved_netuid();
    world.deposit_alpha(10_000_000, 1).unwrap();

    register_mock(&mut world.env, 10_000_000);
    let vault_id = world.create_alpha_vault(1).unwrap();
    assert_eq!(vault_id, 0);
    assert_eq!(world.vault.get_vaults_count(accounts.alice), 1);
    assert_eq!(world.vault.get_total_vaults_count(), 1);

    let stored = world.stored(accounts.alice, 0);
    assert_eq!(stored.collateral_balance, 10_000_000);
    assert_eq!(stored.netuid, 1);
    assert_eq!(stored.owner, accounts.alice);
    // The intent is used up.
    assert_eq!(world.create_alpha_vault(1), Err(Error::NotDepositor));
}

#[test]
fn stake_covers_all_vaults_of_a_subnet() {
    let (mut world, accounts) = setup_with_approved_netuid();
    create_test_vault(&mut world, accounts.alice, 600);
    set_caller(&mut world.env, accounts.bob);
    world.deposit_alpha(500, 1).unwrap();
    register_mock(&mut world.env, 1_099);
    assert_eq!(world.create_alpha_vault(1), Err(Error::InsufficientCollateral));
    register_mock(&mut world.env, 1_100);
    assert_eq!(world.create_alpha_vault(1), Ok(0));
    assert_eq!(world.vault.get_total_collateral_balance(), 1_100);
    assert_eq!(world.vault.get_vault_collateral_balance(accounts.bob, 0), Some(500));
    assert_eq!(world.vault.get_vault_collateral_balance(accounts.bob, 1), None);
}

#[test]
fn stake_reads_fail_as_reported() {
    let (mut world, accounts) = setup_with_approved_netuid();
    world.deposit_alpha(100, 1).unwrap();
    register_mock_no_stake(&mut world.env);
    assert_eq!(world.create_alpha_vault(1), Err(Error::NoAlphaStakeFound));
    register_mock(&mut world.env, 0);
    assert_eq!(world.create_alpha_vault(1), Err(Error::NoAlphaStakeFound));
    register_mock_chain_fails(&mut world.env);
    assert_eq!(world.create_alpha_vault(1), Err(Error::ChainExtensionFailed));
    assert_eq!(
        world.calls[0],
        Call::StakeInfo { hotkey: accounts.bob, coldkey: contract(), netuid: 1 }
    );
}

#[test]
fn add_alpha_collateral_syncs_stake_delta() {
    let (mut world, accounts) = setup_with_approved_netuid();
    let vault_id = create_test_vault(&mut world, accounts.alice, 10_000_000);

    register_mock(&mut world.env, 15_000_000);
    world.add_alpha_collateral(vault_id).unwrap();

    let stored = world.stored(accounts.alice, vault_id);
    assert_eq!(stored.collateral_balance, 15_000_000);
    assert_eq!(world.vault.get_total_collateral_balance(), 15_000_000);
}

#[test]
fn add_alpha_collateral_rejects_if_no_new_stake() {
    let (mut world, accounts) = setup_with_approved_netuid();
    let vault_id = create_test_vault(&mut world, accounts.alice, 10_000_000);

    register_mock(&mut world.env, 10_000_000);
    let result = world.add_alpha_collateral(vault_id);
    assert_eq!(result, Err(Error::InsufficientCollateral));
    assert_eq!(world.add_alpha_collateral(7), Err(Error::VaultNotFound));
}

#[test]
fn governance_can_claim_excess_alpha() {
    let (mut world, accounts) = setup_with_approved_netuid();
    create_test_vault(&mut world, accounts.alice, 10_000_000);

    register_mock(&mut world.env, 15_000_000);
    world.calls.clear();
    world.claim_excess_alpha(1).unwrap();
    assert_eq!(
        world.calls[2],
        Call::RemoveStake { hotkey: accounts.bob, netuid: 1, amount: 5_000_000 }
    );
    assert_eq!(world.calls[4], Call::NativeTransfer { to: accounts.alice, amount: 70 });
    assert_eq!(world.vault.get_total_collateral_balance(), 10_000_000);
}

#[test]
fn non_governance_cannot_claim_excess_alpha() {
    let (mut world, accounts) = setup_with_approved_netuid();
    create_test_vault(&mut world, accounts.alice, 10_000_000);

    register_mock(&mut world.env, 15_000_000);
    set_caller(&mut world.env, accounts.bob);
    let result = world.claim_excess_alpha(1);
    assert_eq!(result, Err(Error::NotGovernance));
}

#[test]
fn claim_excess_alpha_noop_when_no_excess() {
    let (mut world, accounts) = setup_with_approved_netuid();
    create_test_vault(&mut world, accounts.alice, 10_000_000);

    register_mock(&mut world.env, 10_000_000);
    world.claim_excess_alpha(1).unwrap();
}

#[test]
fn claim_excess_alpha_noop_when_no_stake_on_netuid() {
    let (mut world, accounts) = setup_with_approved_netuid();
    create_test_vault(&mut world, accounts.alice, 10_000_000);

    register_mock_no_stake(&mut world.env);
    world.calls.clear();
    world.claim_excess_alpha(1).unwrap();
    assert_eq!(world.calls.len(), 1);
    register_mock_chain_fails(&mut world.env);
    assert_eq!(world.claim_excess_alpha(1), Err(Error::ChainExtensionFailed));
}

#[test]
fn claim_refuses_a_lower_balance() {
    let (mut world, accounts) = setup_with_approved_netuid();
    register_mock(&mut world.env, 5);
    let ctx = world.ctx();
    let stake = world
        .env
        .reply(&Call::StakeInfo { hotkey: accounts.bob, coldkey: contract(), netuid: 1 })
        .unwrap();
    let replies = vec![stake, Reply::Amount(2), Reply::Done, Reply::Amount(1)];
    assert_eq!(
        world.vault.claim_excess_alpha(&ctx, 1, &replies),
        Step::Done(Err(Error::ArithmeticError))
    );
    let replies = vec![stake, Reply::Amount(2), Reply::Failed];
    assert_eq!(
        world.vault.claim_excess_alpha(&ctx, 1, &replies),
        Step::Done(Err(Error::ChainExtensionFailed))
    );
    let replies = vec![stake, Reply::Amount(2), Reply::Done, Reply::Amount(3), Reply::Failed];
    assert_eq!(
        world.vault.claim_excess_alpha(&ctx, 1, &replies),
        Step::Done(Err(Error::TransferFailed))
    );
}

#[test]
fn surplus_goes_to_the_treasury() {
    let (mut world, accounts) = setup();
    let ctx = world.ctx();
    let call = Call::TokenTransfer { token: accounts.charlie, to: accounts.alice, amount: 9 };
    assert_eq!(world.vault.claim_surplus_tusdt(&ctx, 9, &vec![]), Step::Call(call));
    assert_eq!(
        world.vault.claim_surplus_tusdt(&ctx, 9, &vec![Reply::Failed]),
        Step::Done(Err(Error::TransferFailed))
    );
    assert_eq!(world.vault.claim_surplus_tusdt(&ctx, 9, &vec![Reply::Done]), Step::Done(Ok(())));
    let events = world.vault.take_events();
    assert!(matches!(events[0], Event::SurplusTusdtClaimed(e) if e.amount == 9));
    set_caller(&mut world.env, accounts.bob);
    let ctx = world.ctx();
    assert_eq!(
        world.vault.claim_surplus_tusdt(&ctx, 9, &vec![]),
        Step::Done(Err(Error::NotGovernanceOrPlatform))
    );
}

#[test]
fn governance_takes_its_children_along() {
    let (mut world, accounts) = setup();
    let ctx = world.ctx();
    let to = accounts.frank;
    assert_eq!(
        world.vault.update_governance(&ctx, to, &vec![]),
        Step::Call(Call::AuctionUpdateGovernance { auction: accounts.django, governance: to })
    );
    assert_eq!(
        world.vault.update_governance(&ctx, to, &vec![Reply::Failed]),
        Step::Done(Err(Error::AuctionContractCallFailed))
    );
    assert_eq!(
        world.vault.update_governance(&ctx, to, &vec![Reply::Done]),
        Step::Call(Call::OracleUpdateGovernance { oracle: accounts.eve, governance: to })
    );
    assert_eq!(
        world.vault.update_governance(&ctx, to, &vec![Reply::Done, Reply::Failed]),
        Step::Done(Err(Error::OracleCallFailed))
    );
    assert_eq!(world.vault.governance(), accounts.alice);
    assert_eq!(
        world.vault.update_governance(&ctx, to, &vec![Reply::Done, Reply::Done]),
        Step::Done(Ok(()))
    );
    assert_eq!(world.vault.governance(), to);
    assert_eq!(
        world.vault.update_governance(&ctx, to, &vec![]),
        Step::Done(Err(Error::NotGovernance))
    );
}

#[test]
fn borrowing_stops_at_the_collateral_ratio() {
    let (mut world, accounts) = setup_with_approved_netuid();
    let id = create_test_vault(&mut world, accounts.alice, 9_000_000);
    // 9_000_000 at 1.0 and 150%.
    assert_eq!(world.get_vault_collateral_value(accounts.alice, id), Ok(9_000_000));
    assert_eq!(world.get_max_borrow(accounts.alice, id), Ok(6_000_000));
    assert_eq!(world.borrow_token(id, 6_000_001), Err(Error::CollateralRatioExceeded));
    world.calls.clear();
    world.borrow_token(id, 6_000_000).unwrap();
    assert_eq!(
        world.calls,
        vec![
            Call::OracleLatestPrice { oracle: accounts.eve },
            Call::AlphaPrice { netuid: 1 },
            Call::TokenMint { token: accounts.charlie, to: accounts.alice, amount: 6_000_000 },
        ]
    );
    let v = world.stored(accounts.alice, id);
    assert_eq!((v.debt_balance, v.borrowed_token_balance), (6_000_000, 6_000_000));
    assert_eq!(world.vault.get_total_debt(accounts.alice), 6_000_000);
    // What may be borrowed is not liquidatable.
    assert_eq!(
        world.trigger_liquidation_auction(accounts.alice, id),
        Err(Error::NotLiquidatable)
    );
    assert_eq!(world.borrow_token(5, 1), Err(Error::VaultNotFound));
}

#[test]
fn fee_is_split_from_the_borrowed_amount() {
    let (mut world, accounts) = setup_with_approved_netuid();
    let id = create_test_vault(&mut world, accounts.bob, 9_000_000);
    world.set_fee(100);
    world.calls.clear();
    world.borrow_token(id, 1_000_000).unwrap();
    assert_eq!(
        world.calls[2..],
        [
            Call::TokenMint { token: accounts.charlie, to: accounts.bob, amount: 990_000 },
            Call::TokenMint { token: accounts.charlie, to: accounts.alice, amount: 10_000 },
        ]
    );
    assert_eq!(world.stored(accounts.bob, id).debt_balance, 1_000_000);
}

#[test]
fn a_failed_mint_borrows_nothing() {
    let (mut world, accounts) = setup_with_approved_netuid();
    let id = create_test_vault(&mut world, accounts.alice, 9_000_000);
    world.failing = Some(Call::TokenMint { token: accounts.charlie, to: accounts.alice, amount: 5 });
    assert_eq!(world.borrow_token(id, 5), Err(Error::TransferFailed));
    assert_eq!(world.stored(accounts.alice, id).debt_balance, 0);
}

#[test]
fn unusable_prices_block_borrowing() {
    let (mut world, accounts) = setup_with_approved_netuid();
    let id = create_test_vault(&mut world, accounts.alice, 9_000_000);
    world.price_bps = None;
    assert_eq!(world.borrow_token(id, 1), Err(Error::OraclePriceUnavailable));
    world.price_bps = Some(0);
    assert_eq!(world.borrow_token(id, 1), Err(Error::OraclePriceUnavailable));
    world.price_bps = Some(10_000);
    world.price_age = HOUR;
    assert_eq!(world.borrow_token(id, 1), Ok(()));
    world.price_age = HOUR + 1;
    assert_eq!(world.borrow_token(id, 1), Err(Error::OraclePriceStale));
    world.price_age = 0;
    world.failing = Some(Call::AlphaPrice { netuid: 1 });
    assert_eq!(world.borrow_token(id, 1), Err(Error::ChainExtensionFailed));
}

#[test]
fn price_validation_is_exact() {
    let data = PriceData { price: Ratio::one(), committed_at: 100 };
    assert_eq!(TusdtVaultAlpha::validate_price_data(Some(data), 110, 10), Ok(data));
    assert_eq!(
        TusdtVaultAlpha::validate_price_data(Some(data), 111, 10),
        Err(Error::OraclePriceStale)
    );
    assert_eq!(
        TusdtVaultAlpha::validate_price_data(Some(data), 99, 10),
        Err(Error::OraclePriceStale)
    );
    assert_eq!(
        TusdtVaultAlpha::validate_price_data(None, 99, 10),
        Err(Error::OraclePriceUnavailable)
    );
}

#[test]
fn alpha_price_scales_the_collateral() {
    let (mut world, accounts) = setup_with_approved_netuid();
    let id = create_test_vault(&mut world, accounts.alice, 9_000_000_000);
    assert_eq!(
        TusdtVaultAlpha::alpha_price_rao_to_ratio(377_277),
        Ok(Ratio::from_inner(377_277_000_000_000))
    );
    // 0.000377277 TAO per alpha, 250 TUSDT per TAO.
    world.alpha_price = Some(377_277);
    world.price_bps = Some(2_500_000);
    assert_eq!(
        world.get_vault_collateral_value(accounts.alice, id),
        Ok(848_873_250)
    );
    assert_eq!(world.get_max_borrow(accounts.alice, id), Ok(565_915_500));
    assert_eq!(world.get_max_borrow(accounts.alice, 9), Err(Error::VaultNotFound));
    world.alpha_price = Some(u64::MAX);
    world.price_bps = Some(u32::MAX);
    assert_eq!(
        world.get_vault_collateral_value(accounts.alice, id),
        Err(Error::ArithmeticError)
    );
}

#[test]
fn interest_is_charged_for_whole_hours() {
    let (mut world, accounts) = setup_with_approved_netuid();
    let id = create_test_vault(&mut world, accounts.alice, 90_000_000_000);
    world.borrow_token(id, 10_000_000_000).unwrap();
    let start = world.now;
    world.now = start + HOUR - 1;
    assert_eq!(world.accrue(accounts.alice, id), Ok(10_000_000_000));
    assert_eq!(world.stored(accounts.alice, id).last_interest_accrued_at, start);
    // 5% / 8760 of the debt for an hour.
    world.now = start + HOUR + 5;
    assert_eq!(world.accrue(accounts.alice, id), Ok(10_000_057_077));
    let v = world.stored(accounts.alice, id);
    assert_eq!(v.last_interest_accrued_at, start + HOUR);
    assert_eq!(v.total_interest_accrued, 57_077);
    assert_eq!(v.borrowed_token_balance, 10_000_000_000);
    // Again at the same time there is nothing to charge.
    assert_eq!(world.accrue(accounts.alice, id), Ok(10_000_057_077));
    assert_eq!(world.vault.get_total_debt(accounts.alice), 10_000_057_077);
    let events = world.vault.take_events();
    assert!(matches!(events[3], Event::InterestAccrued(e)
        if e.previous_debt_balance == 10_000_000_000 && e.debt_balance == 10_000_057_077
            && e.accrued_at == start + HOUR));
    assert_eq!(world.accrue(accounts.bob, 0), Err(Error::VaultNotFound));
}

#[test]
fn a_year_at_five_percent_costs_the_compound_rate() {
    let (mut world, accounts) = setup_with_approved_netuid();
    let id = create_test_vault(&mut world, accounts.alice, 90_000_000_000);
    world.borrow_token(id, 10_000_000_000).unwrap();
    world.now += 8_760 * HOUR;
    let debt = world.accrue(accounts.alice, id).unwrap();
    // About 5.13% a year.
    assert!(debt > 10_512_700_000 && debt < 10_512_711_000);
}

#[test]
fn borrowing_nothing_only_accrues() {
    let (mut world, accounts) = setup_with_approved_netuid();
    let id = create_test_vault(&mut world, accounts.alice, 90_000_000_000);
    world.borrow_token(id, 10_000_000_000).unwrap();
    world.now += HOUR;
    world.calls.clear();
    world.borrow_token(id, 0).unwrap();
    assert_eq!(world.stored(accounts.alice, id).debt_balance, 10_000_057_077);
    world.now += HOUR;
    world.repay_token(id, 0).unwrap();
    assert_eq!(world.stored(accounts.alice, id).debt_balance, 10_000_114_154);
    assert!(world.calls.is_empty());
}

#[test]
fn a_second_borrow_averages_the_accrual_time() {
    let (mut world, accounts) = setup_with_approved_netuid();
    let id = create_test_vault(&mut world, accounts.alice, 90_000_000_000);
    world.borrow_token(id, 3_000_000).unwrap();
    let start = world.now;
    world.now += 1_000_000;
    world.price_age = 0;
    world.borrow_token(id, 1_000_000).unwrap();
    assert_eq!(
        world.stored(accounts.alice, id).last_interest_accrued_at,
        start + 250_000
    );
}

#[test]
fn repayment_pays_interest_first() {
    let (mut world, accounts) = setup_with_approved_netuid();
    let id = create_test_vault(&mut world, accounts.bob, 90_000_000_000);
    world.borrow_token(id, 10_000_000_000).unwrap();
    world.now += HOUR;
    world.token_balance = 99_999;
    assert_eq!(world.repay_token(id, 100_000), Err(Error::InsufficientTokenBalance));
    world.token_balance = 100_000;
    world.calls.clear();
    world.repay_token(id, 100_000).unwrap();
    assert_eq!(
        world.calls,
        vec![
            Call::TokenBalanceOf { token: accounts.charlie, owner: accounts.bob },
            Call::TokenBurn { token: accounts.charlie, from: accounts.bob, amount: 100_000 },
            Call::TokenMint { token: accounts.charlie, to: accounts.alice, amount: 57_077 },
        ]
    );
    let v = world.stored(accounts.bob, id);
    assert_eq!(v.debt_balance, 10_000_057_077 - 100_000);
    assert_eq!(v.borrowed_token_balance, 10_000_000_000 - 42_923);
    assert_eq!(world.repay_token(id, 20_000_000_000), Err(Error::RepayAmountTooHigh));
    world.failing = Some(Call::TokenBurn { token: accounts.charlie, from: accounts.bob, amount: 1 });
    assert_eq!(world.repay_token(id, 1), Err(Error::TransferFailed));
}

#[test]
fn repayment_undoes_a_borrow() {
    let (mut world, accounts) = setup_with_approved_netuid();
    let id = create_test_vault(&mut world, accounts.bob, 90_000_000);
    world.set_fee(50);
    world.borrow_token(id, 1_000_000).unwrap();
    world.token_balance = 2_000_000;
    world.calls.clear();
    world.repay_token(id, 1_000_000).unwrap();
    // The fee comes on top and goes to the treasury.
    assert_eq!(
        world.calls[1..],
        [
            Call::TokenBurn { token: accounts.charlie, from: accounts.bob, amount: 1_005_000 },
            Call::TokenMint { token: accounts.charlie, to: accounts.alice, amount: 5_000 },
        ]
    );
    let v = world.stored(accounts.bob, id);
    assert_eq!((v.debt_balance, v.borrowed_token_balance), (0, 0));
    assert_eq!(world.vault.get_total_debt(accounts.bob), 0);
}

#[test]
fn payments_split_exactly() {
    let a = default_accounts();
    let mut v = Vault {
        id: 0,
        owner: a.alice,
        netuid: 1,
        collateral_balance: 0,
        borrowed_token_balance: 70,
        debt_balance: 100,
        total_interest_accrued: 30,
        created_at: 0,
        last_interest_accrued_at: 0,
    };
    assert_eq!(TusdtVaultAlpha::outstanding_interest(&v), Ok(30));
    let p = TusdtVaultAlpha::apply_debt_payment(&mut v, 20).unwrap();
    assert_eq!((p.interest_payment, p.principal_payment), (20, 0));
    let p = TusdtVaultAlpha::apply_debt_payment(&mut v, 50).unwrap();
    assert_eq!((p.interest_payment, p.principal_payment), (10, 40));
    assert_eq!((v.debt_balance, v.borrowed_token_balance), (30, 30));
    assert_eq!(TusdtVaultAlpha::apply_debt_payment(&mut v, 31), Err(Error::RepayAmountTooHigh));
    v.borrowed_token_balance = 31;
    assert_eq!(TusdtVaultAlpha::apply_debt_payment(&mut v, 1), Err(Error::ArithmeticError));
    assert_eq!(TusdtVaultAlpha::outstanding_interest(&v), Err(Error::ArithmeticError));
}

#[test]
fn collateral_is_released_while_debt_is_covered() {
    let (mut world, accounts) = setup_with_approved_netuid();
    let id = create_test_vault(&mut world, accounts.alice, 9_000_000);
    assert_eq!(
        world.release_alpha_collateral(id, 9_000_001, accounts.frank),
        Err(Error::InsufficientCollateral)
    );
    // Without debt no price is needed.
    world.calls.clear();
    world.release_alpha_collateral(id, 1_000_000, accounts.frank).unwrap();
    assert_eq!(
        world.calls,
        vec![Call::TransferStake {
            destination: accounts.frank,
            hotkey: accounts.bob,
            origin_netuid: 1,
            destination_netuid: 1,
            amount: 1_000_000,
        }]
    );
    world.borrow_token(id, 4_000_000).unwrap();
    assert_eq!(
        world.release_alpha_collateral(id, 2_000_001, accounts.frank),
        Err(Error::CollateralRatioExceeded)
    );
    world.release_alpha_collateral(id, 2_000_000, accounts.frank).unwrap();
    assert_eq!(world.stored(accounts.alice, id).collateral_balance, 6_000_000);
    assert_eq!(world.vault.get_total_collateral_balance(), 6_000_000);
    // The subnet's books followed: stake of six million leaves nothing to add.
    register_mock(&mut world.env, 6_000_000);
    assert_eq!(world.add_alpha_collateral(id), Err(Error::InsufficientCollateral));
}

#[test]
fn a_failed_release_keeps_the_collateral() {
    let (mut world, accounts) = setup_with_approved_netuid();
    let id = create_test_vault(&mut world, accounts.alice, 9_000_000);
    register_mock_chain_fails(&mut world.env);
    assert_eq!(
        world.release_alpha_collateral(id, 1, accounts.alice),
        Err(Error::ChainExtensionFailed)
    );
    assert_eq!(world.stored(accounts.alice, id).collateral_balance, 9_000_000);
}

#[test]
fn release_undoes_a_top_up() {
    let (mut world, accounts) = setup_with_approved_netuid();
    let id = create_test_vault(&mut world, accounts.alice, 9_000_000);
    register_mock(&mut world.env, 10_000_000);
    world.add_alpha_collateral(id).unwrap();
    world.release_alpha_collateral(id, 1_000_000, accounts.alice).unwrap();
    assert_eq!(world.stored(accounts.alice, id).collateral_balance, 9_000_000);
    assert_eq!(world.vault.get_total_collateral_balance(), 9_000_000);
}

#[test]
fn liquidation_runs_from_trigger_to_settlement() {
    let (mut world, accounts) = setup_with_approved_netuid();
    let id = create_test_vault(&mut world, accounts.bob, 10_000_000);
    world.borrow_token(id, 6_000_000).unwrap();
    world.now += HOUR;
    // At 0.7 the collateral bears 7_000_000 / 1.2 = 5_833_333.
    world.price_bps = Some(7_000);
    world.alpha_price = None;
    // Unstaking brings in less than the alpha price promises.
    world.unstaked = 9_000_000;
    set_caller(&mut world.env, accounts.frank);
    world.calls.clear();
    assert_eq!(world.trigger_liquidation_auction(accounts.bob, id), Ok(42));
    let debt = 6_000_034;
    assert_eq!(
        world.calls,
        vec![
            Call::OracleLatestPrice { oracle: accounts.eve },
            Call::AlphaPrice { netuid: 1 },
            Call::NativeBalance,
            Call::RemoveStake { hotkey: accounts.bob, netuid: 1, amount: 10_000_000 },
            Call::NativeBalance,
            Call::AuctionCreate {
                auction: accounts.django,
                owner: accounts.bob,
                vault_id: id,
                collateral: 9_000_000,
                debt,
                min_bid: debt + 60_000,
                price: Ratio::from_basis_points(7_000),
                duration_ms: Some(HOUR),
            },
        ]
    );
    assert_eq!(world.stored(accounts.bob, id).collateral_balance, 0);
    assert_eq!(world.vault.get_total_collateral_balance(), 0);
    assert_eq!(world.vault.get_liquidation_auction_id(accounts.bob, id), Some(42));

    let running = AuctionRecord {
        is_finalized: false,
        highest_bidder: Some(accounts.eve),
        highest_bid: 6_100_000,
        collateral_balance: 9_000_000,
        debt_balance: debt,
    };
    assert_eq!(world.settle_liquidation_auction(accounts.bob, id), Err(Error::AuctionNotFound));
    world.auction = Some(running);
    assert_eq!(
        world.settle_liquidation_auction(accounts.bob, id),
        Err(Error::AuctionNotFinalized)
    );
    world.auction = Some(AuctionRecord { is_finalized: true, highest_bidder: None, ..running });
    assert_eq!(
        world.settle_liquidation_auction(accounts.bob, id),
        Err(Error::AuctionNotFinalized)
    );
    world.auction = Some(AuctionRecord { is_finalized: true, ..running });
    world.set_fee(100);
    world.calls.clear();
    world.settle_liquidation_auction(accounts.bob, id).unwrap();
    assert_eq!(
        world.calls,
        vec![
            Call::AuctionGet { auction: accounts.django, auction_id: 42 },
            Call::AuctionTransferWinningBid { auction: accounts.django, auction_id: 42, to: contract() },
            Call::NativeTransfer { to: accounts.alice, amount: 90_000 },
            Call::NativeTransfer { to: accounts.eve, amount: 8_910_000 },
            Call::TokenBurn { token: accounts.charlie, from: contract(), amount: 6_000_000 },
            Call::TokenTransfer { token: accounts.charlie, to: accounts.alice, amount: 34 },
        ]
    );
    assert_eq!(world.stored(accounts.bob, id).debt_balance, 0);
    assert_eq!(world.vault.get_total_debt(accounts.bob), 0);
    assert_eq!(world.vault.get_liquidation_auction_id(accounts.bob, id), None);
    assert_eq!(world.settle_liquidation_auction(accounts.bob, id), Err(Error::AuctionNotFound));
    // The vault is usable again.
    assert_eq!(world.accrue(accounts.bob, id), Ok(0));
    let events = world.vault.take_events();
    assert!(events.iter().any(|e| matches!(e, Event::VaultLiquidated(l)
        if l.winner == Some(accounts.eve) && l.winning_bid == 6_100_000
            && l.debt_cleared == debt && l.transaction_fee == 90_000)));
}

#[test]
fn liquidation_reports_each_failure() {
    let (mut world, accounts) = setup_with_approved_netuid();
    let id = create_test_vault(&mut world, accounts.alice, 10_000_000);
    assert_eq!(world.trigger_liquidation_auction(accounts.bob, 0), Err(Error::VaultNotFound));
    world.borrow_token(id, 6_000_000).unwrap();
    assert_eq!(
        world.trigger_liquidation_auction(accounts.alice, id),
        Err(Error::NotLiquidatable)
    );
    world.price_bps = Some(7_000);
    world.auction_reply = Reply::Failed;
    assert_eq!(
        world.trigger_liquidation_auction(accounts.alice, id),
        Err(Error::AuctionContractCallFailed)
    );
    world.failing =
        Some(Call::RemoveStake { hotkey: accounts.bob, netuid: 1, amount: 10_000_000 });
    assert_eq!(
        world.trigger_liquidation_auction(accounts.alice, id),
        Err(Error::TransferFailed)
    );
    // Nothing of a failed attempt stays.
    assert_eq!(world.stored(accounts.alice, id).collateral_balance, 10_000_000);
    assert!(world.vault.get_liquidation_auction_id(accounts.alice, id).is_none());
    let ctx = world.ctx();
    let price = Reply::Price(Some(PriceData {
        price: Ratio::from_basis_points(7_000),
        committed_at: world.now,
    }));
    // The balance must not fall while the alpha is unstaked; an unchanged one sells nothing.
    let unstaked = |after: u64| {
        let rao = Reply::Amount(1_000_000_000);
        vec![price, rao, Reply::Amount(1_000), Reply::Done, Reply::Amount(after)]
    };
    assert_eq!(
        world.vault.trigger_liquidation_auction(&ctx, accounts.alice, id, &unstaked(999)),
        Step::Done(Err(Error::ArithmeticError))
    );
    let step = world.vault.trigger_liquidation_auction(&ctx, accounts.alice, id, &unstaked(1_000));
    assert!(matches!(step, Step::Call(Call::AuctionCreate { collateral: 0, .. })));
}

#[test]
fn settlement_reports_each_failure() {
    let (mut world, accounts) = setup_with_approved_netuid();
    let id = create_test_vault(&mut world, accounts.alice, 10_000_000);
    world.liquidate(accounts.alice, id, 5);
    let sold = AuctionRecord {
        is_finalized: true,
        highest_bidder: Some(accounts.eve),
        highest_bid: 1,
        collateral_balance: 10,
        debt_balance: 6_000_001,
    };
    let ctx = world.ctx();
    let settle = |world: &mut World, replies: Vec<Reply>| {
        world.vault.settle_liquidation_auction(&ctx, accounts.alice, id, &replies)
    };
    assert_eq!(
        settle(&mut world, vec![Reply::Auction(Some(sold))]),
        Step::Done(Err(Error::RepayAmountTooHigh))
    );
    let record = Reply::Auction(Some(AuctionRecord { debt_balance: 6_000_000, ..sold }));
    assert_eq!(
        settle(&mut world, vec![record, Reply::Failed]),
        Step::Done(Err(Error::AuctionContractCallFailed))
    );
    assert_eq!(
        settle(&mut world, vec![record, Reply::Done, Reply::Failed]),
        Step::Done(Err(Error::TransferFailed))
    );
    assert_eq!(
        settle(&mut world, vec![record, Reply::Done, Reply::Done, Reply::Failed]),
        Step::Done(Err(Error::TransferFailed))
    );
    assert_eq!(world.vault.get_liquidation_auction_id(accounts.alice, id), Some(5));
    assert_eq!(
        settle(&mut world, vec![record, Reply::Done, Reply::Done, Reply::Done]),
        Step::Done(Ok(()))
    );
}

#[test]
fn vaults_are_listed_by_pages() {
    let (mut world, accounts) = setup_with_approved_netuid();
    for i in 0..12u64 {
        set_caller(&mut world.env, accounts.alice);
        world.deposit_alpha(100 + i, 1).unwrap();
        register_mock(&mut world.env, 1_000_000);
        assert_eq!(world.create_alpha_vault(1), Ok(i as u32));
    }
    set_caller(&mut world.env, accounts.bob);
    world.deposit_alpha(7, 1).unwrap();
    world.create_alpha_vault(1).unwrap();

    let first = world.vault.get_vaults(accounts.alice, 0).unwrap();
    assert_eq!(first.len(), 10);
    assert_eq!(first[3].collateral_balance, 103);
    let second = world.vault.get_vaults(accounts.alice, 1).unwrap();
    assert_eq!(second.iter().map(|v| v.id).collect::<Vec<_>>(), vec![10, 11]);
    assert!(world.vault.get_vaults(accounts.alice, 2).unwrap().is_empty());
    assert!(world.vault.get_vaults(accounts.alice, u32::MAX).unwrap().is_empty());
    assert!(world.vault.get_vaults(accounts.eve, 0).unwrap().is_empty());

    let all = world.vault.get_all_vaults(1).unwrap();
    assert_eq!(all.len(), 3);
    assert_eq!(all[2].owner, accounts.bob);
    assert!(world.vault.get_all_vaults(u32::MAX).unwrap().is_empty());
    assert_eq!(world.vault.get_total_vaults_count(), 13);
    assert_eq!(world.vault.get_vaults_count(accounts.alice), 12);
}

#[test]
fn books_stay_the_sum_of_the_vaults() {
    let (mut world, accounts) = setup_with_approved_netuid();
    let a = create_test_vault(&mut world, accounts.alice, 9_000_000);
    world.deposit_alpha(3_000_000, 1).unwrap();
    register_mock(&mut world.env, 12_000_000);
    let b = world.create_alpha_vault(1).unwrap();
    world.borrow_token(a, 2_000_000).unwrap();
    world.borrow_token(b, 500_000).unwrap();
    world.now += 3 * HOUR;
    world.accrue(accounts.alice, a).unwrap();
    world.release_alpha_collateral(b, 1_000_000, accounts.alice).unwrap();
    let (va, vb) = (world.stored(accounts.alice, a), world.stored(accounts.alice, b));
    assert_eq!(
        world.vault.get_total_debt(accounts.alice),
        va.debt_balance + vb.debt_balance
    );
    assert_eq!(
        world.vault.get_total_collateral_balance(),
        va.collateral_balance + vb.collateral_balance
    );
}

#[test]
fn an_owner_runs_out_of_vault_numbers() {
    let (mut world, accounts) = setup_with_approved_netuid();
    world.vault.vault_count.insert(accounts.alice, u32::MAX);
    world.vault.pending_deposits.insert((accounts.alice, 1), 5);
    register_mock(&mut world.env, 5);
    assert_eq!(world.create_alpha_vault(1), Err(Error::ArithmeticError));
    assert_eq!(world.vault.get_total_vaults_count(), 0);
}
