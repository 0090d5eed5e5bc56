use tusdt::account::{AccountId, Balance};
use tusdt::host::{Call, Context, Reply, Step};
use tusdt::otc::{
    Collateral, Error, Event, Order, OrderSide, OrderStatus, TusdtOtc,
};
use tusdt::test_support::{
    default_accounts, register_mock, register_mock_chain_fails, register_mock_no_stake,
    register_mock_transfer_fails, set_caller, DefaultAccounts, TestEnvironment,
};

/// The marketplace with a chain around it. Calls that the chain's stake functions do not answer
/// succeed unless a test says otherwise.
struct Market {
    otc: TusdtOtc,
    env: TestEnvironment,
    value: Balance,
    /// The contract's native balance, and what unstaking adds to it.
    native: Balance,
    unstaked: Balance,
    stake_transfer_fails: bool,
    tokens_fail: bool,
    native_fails: bool,
    /// Rao per alpha, in place of the mock's price.
    alpha_price: Option<u64>,
    calls: Vec<Call>,
}

impl Market {
    fn ctx(&self) -> Context {
        Context {
            caller: self.env.caller,
            contract: self.env.callee,
            now: 1_000,
            transferred_value: self.value,
        }
    }

    fn answer(&mut self, call: Call) -> Reply {
        self.calls.push(call);
        match call {
            Call::TransferStake { .. } if self.stake_transfer_fails => Reply::Failed,
            Call::AlphaPrice { .. } if self.alpha_price.is_some() => {
                Reply::Amount(self.alpha_price.unwrap())
            }
            Call::RemoveStake { .. } => {
                self.native += self.unstaked;
                self.env.reply(&call).unwrap()
            }
            Call::NativeBalance => Reply::Amount(self.native),
            Call::NativeTransfer { .. } if self.native_fails => Reply::Failed,
            Call::TokenTransfer { .. } | Call::TokenTransferFrom { .. } if self.tokens_fail => Reply::Failed,
            _ => self.env.reply(&call).unwrap_or(Reply::Done),
        }
    }

    fn create_order(&mut self, netuid: u16, side: OrderSide, collateral: Collateral, counter: Collateral, price_bps: u32, amount: Balance) -> Result<u64, Error> {
        let ctx = self.ctx();
        let mut replies: Vec<Reply> = Vec::new();
        loop {
            match self.otc.create_order(&ctx, netuid, side, collateral, counter, price_bps, amount, &replies) {
                Step::Done(r) => return r,
                Step::Call(call) => {
                    let reply = self.answer(call);
                    replies.push(reply);
                }
            }
        }
    }

    fn fulfill_order(&mut self, id: u64) -> Result<(), Error> {
        let ctx = self.ctx();
        let mut replies: Vec<Reply> = Vec::new();
        loop {
            match self.otc.fulfill_order(&ctx, id, &replies) {
                Step::Done(r) => return r,
                Step::Call(call) => {
                    let reply = self.answer(call);
                    replies.push(reply);
                }
            }
        }
    }

    fn cancel_order(&mut self, id: u64) -> Result<(), Error> {
        let ctx = self.ctx();
        let mut replies: Vec<Reply> = Vec::new();
        loop {
            match self.otc.cancel_order(&ctx, id, &replies) {
                Step::Done(r) => return r,
                Step::Call(call) => {
                    let reply = self.answer(call);
                    replies.push(reply);
                }
            }
        }
    }

    fn claim_excess_alpha(&mut self, netuid: u16, recipient: AccountId) -> Result<(), Error> {
        let ctx = self.ctx();
        let mut replies: Vec<Reply> = Vec::new();
        loop {
            match self.otc.claim_excess_alpha(&ctx, netuid, recipient, &replies) {
                Step::Done(r) => return r,
                Step::Call(call) => {
                    let reply = self.answer(call);
                    replies.push(reply);
                }
            }
        }
    }

    fn pause(&mut self) -> Result<(), Error> {
        let ctx = self.ctx();
        self.otc.pause(&ctx)
    }

    fn unpause(&mut self) -> Result<(), Error> {
        let ctx = self.ctx();
        self.otc.unpause(&ctx)
    }

    fn order(&self, id: u64) -> Order {
        self.otc.get_order(id).unwrap()
    }

    fn sell(&mut self, amount: Balance) -> u64 {
        self.create_order(1, OrderSide::Sell, Collateral::Native, Collateral::Tusdt, 10_000, amount)
            .unwrap()
    }
}

/// The hotkey is bob, the token charlie, the fee 0.3%.
fn setup() -> (Market, DefaultAccounts) {
    let accounts = default_accounts();
    let market = Market {
        otc: TusdtOtc::new(accounts.alice, accounts.bob, accounts.charlie, 30),
        env: TestEnvironment::new(accounts.alice, AccountId([0x10; 32])),
        value: 0,
        native: 500,
        unstaked: 40,
        stake_transfer_fails: false,
        tokens_fail: false,
        native_fails: false,
        alpha_price: None,
        calls: Vec::new(),
    };
    (market, accounts)
}

#[test]
fn constructor_sets_owner() {
    let (market, accounts) = setup();
    assert_eq!(market.otc.owner(), accounts.alice);
    assert!(!market.otc.is_paused());
    assert_eq!(market.otc.hotkey(), accounts.bob);
    assert_eq!(market.otc.fee_rate_bps(), 30);
}

#[test]
fn constructor_caps_the_fee() {
    let a = default_accounts();
    assert_eq!(TusdtOtc::new(a.alice, a.bob, a.charlie, 10_000).fee_rate_bps(), 10_000);
    assert_eq!(TusdtOtc::new(a.alice, a.bob, a.charlie, 10_001).fee_rate_bps(), 10_000);
    assert_eq!(TusdtOtc::new(a.alice, a.bob, a.charlie, u32::MAX).fee_rate_bps(), 10_000);
}

#[test]
fn owner_can_pause_unpause() {
    let (mut market, _) = setup();
    market.pause().unwrap();
    assert!(market.otc.is_paused());
    market.unpause().unwrap();
    assert!(!market.otc.is_paused());
}

#[test]
fn non_owner_cannot_pause() {
    let (mut market, accounts) = setup();
    set_caller(&mut market.env, accounts.bob);
    assert!(market.pause().is_err());
    assert_eq!(market.unpause(), Err(Error::NotOwner));
}

#[test]
fn create_order_rejects_zero_price() {
    let (mut market, _) = setup();
    let res = market.create_order(1, OrderSide::Sell, Collateral::Native, Collateral::Tusdt, 0, 1_000_000);
    assert!(res.is_err());
    assert_eq!(res, Err(Error::InvalidPriceBps));
}

#[test]
fn paused_blocks_trading() {
    let (mut market, accounts) = setup();
    register_mock(&mut market.env, 1_000_000);
    let id = market.sell(1_000_000);
    market.pause().unwrap();
    assert!(market
        .create_order(1, OrderSide::Sell, Collateral::Native, Collateral::Tusdt, 10_000, 1_000_000)
        .is_err());
    set_caller(&mut market.env, accounts.bob);
    assert_eq!(market.fulfill_order(id), Err(Error::ContractPaused));
    // A maker can still get the alpha back.
    set_caller(&mut market.env, accounts.alice);
    market.cancel_order(id).unwrap();
}

#[test]
fn cancel_order_fails_for_non_maker() {
    let (mut market, accounts) = setup();
    register_mock(&mut market.env, 1_000_000);
    let id = market
        .create_order(1, OrderSide::Sell, Collateral::Native, Collateral::Tusdt, 10_000, 1_000_000)
        .unwrap();
    set_caller(&mut market.env, accounts.bob);
    assert_eq!(market.cancel_order(id), Err(Error::NotMaker));
}

#[test]
fn fulfill_order_rejects_maker_as_taker() {
    let (mut market, _) = setup();
    register_mock(&mut market.env, 1_000_000);
    let id = market
        .create_order(1, OrderSide::Sell, Collateral::Native, Collateral::Tusdt, 10_000, 1_000_000)
        .unwrap();
    assert_eq!(market.fulfill_order(id), Err(Error::CannotFulfillOwnOrder));
}

#[test]
fn get_order_returns_none_for_unknown_id() {
    let (mut market, _) = setup();
    assert!(market.otc.get_order(999).is_none());
    assert_eq!(market.cancel_order(999), Err(Error::OrderNotFound));
    assert_eq!(market.fulfill_order(999), Err(Error::OrderNotFound));
}

#[test]
fn scenario2_cancel_order_same_key_only() {
    let (mut market, accounts) = setup();
    register_mock(&mut market.env, 5_000_000);
    let order_id = market
        .create_order(1, OrderSide::Sell, Collateral::Native, Collateral::Tusdt, 10_000, 5_000_000)
        .unwrap();
    assert_eq!(market.order(order_id).status, OrderStatus::Active);

    set_caller(&mut market.env, accounts.bob);
    assert_eq!(market.cancel_order(order_id), Err(Error::NotMaker));

    set_caller(&mut market.env, accounts.alice);
    register_mock(&mut market.env, 5_000_000);
    market.cancel_order(order_id).unwrap();
    assert_eq!(market.order(order_id).status, OrderStatus::Cancelled);

    set_caller(&mut market.env, accounts.bob);
    assert_eq!(market.fulfill_order(order_id), Err(Error::OrderNotActive));
}

#[test]
fn scenario3_fulfill_transfer_fails_order_stays_active() {
    let (mut market, accounts) = setup();
    register_mock(&mut market.env, 10_000_000);
    let order_id = market
        .create_order(1, OrderSide::Sell, Collateral::Native, Collateral::Native, 10_000, 10_000_000)
        .unwrap();

    market.stake_transfer_fails = true;
    set_caller(&mut market.env, accounts.bob);
    market.value = 10_000_000_000;
    let result = market.fulfill_order(order_id);
    assert!(result.is_err());
    assert_eq!(result, Err(Error::ChainExtensionFailed));

    let order = market.order(order_id);
    assert_eq!(order.status, OrderStatus::Active);
    assert_eq!(market.otc.get_reserved_alpha(1), 10_000_000);

    set_caller(&mut market.env, accounts.alice);
    market.stake_transfer_fails = false;
    market.cancel_order(order_id).unwrap();
    assert_eq!(market.order(order_id).status, OrderStatus::Cancelled);
}

#[test]
fn probe_cannot_cancel_twice() {
    let (mut market, _) = setup();
    register_mock(&mut market.env, 5_000_000);
    let id = market
        .create_order(1, OrderSide::Sell, Collateral::Native, Collateral::Tusdt, 10_000, 5_000_000)
        .unwrap();
    market.cancel_order(id).unwrap();
    assert_eq!(market.cancel_order(id), Err(Error::OrderNotActive));
}

#[test]
fn probe_cancel_then_fulfill_rejected() {
    let (mut market, accounts) = setup();
    register_mock(&mut market.env, 5_000_000);
    let id = market
        .create_order(1, OrderSide::Sell, Collateral::Native, Collateral::Tusdt, 10_000, 5_000_000)
        .unwrap();
    market.cancel_order(id).unwrap();

    set_caller(&mut market.env, accounts.bob);
    assert_eq!(market.fulfill_order(id), Err(Error::OrderNotActive));
}

#[test]
fn probe_order_requires_collateral_amount_not_zero() {
    let (mut market, _) = setup();
    let res = market.create_order(1, OrderSide::Sell, Collateral::Native, Collateral::Tusdt, 10_000, 0);
    assert!(res.is_err());
    assert_eq!(res, Err(Error::InsufficientCollateral));
}

#[test]
fn sell_order_increments_reserved_alpha() {
    let (mut market, _) = setup();
    register_mock(&mut market.env, 1_000_000);
    assert_eq!(market.otc.get_reserved_alpha(1), 0);
    market
        .create_order(1, OrderSide::Sell, Collateral::Native, Collateral::Tusdt, 10_000, 1_000_000)
        .unwrap();
    assert_eq!(market.otc.get_reserved_alpha(1), 1_000_000);
}

#[test]
fn cancel_sell_order_decrements_reserved_alpha() {
    let (mut market, _) = setup();
    register_mock(&mut market.env, 1_000_000);
    let id = market
        .create_order(1, OrderSide::Sell, Collateral::Native, Collateral::Tusdt, 10_000, 1_000_000)
        .unwrap();
    assert_eq!(market.otc.get_reserved_alpha(1), 1_000_000);
    market.cancel_order(id).unwrap();
    assert_eq!(market.otc.get_reserved_alpha(1), 0);
}

#[test]
fn get_reserved_alpha_returns_zero_for_unknown_netuid() {
    let (market, _) = setup();
    assert_eq!(market.otc.get_reserved_alpha(99), 0);
}

#[test]
fn owner_can_claim_excess_alpha() {
    let (mut market, accounts) = setup();
    register_mock(&mut market.env, 2_000_000);
    market
        .create_order(1, OrderSide::Sell, Collateral::Native, Collateral::Tusdt, 10_000, 1_000_000)
        .unwrap();
    assert_eq!(market.otc.get_reserved_alpha(1), 1_000_000);

    market.calls.clear();
    market.claim_excess_alpha(1, accounts.bob).unwrap();
    assert_eq!(
        market.calls,
        vec![
            Call::StakeInfo { hotkey: accounts.bob, coldkey: AccountId([0x10; 32]), netuid: 1 },
            Call::NativeBalance,
            Call::RemoveStake { hotkey: accounts.bob, netuid: 1, amount: 1_000_000 },
            Call::NativeBalance,
            Call::NativeTransfer { to: accounts.bob, amount: 40 },
        ]
    );
    assert_eq!(market.otc.get_reserved_alpha(1), 1_000_000);
    let events = market.otc.take_events();
    assert!(matches!(events[1], Event::ExcessAlphaClaimed(e)
        if e.excess_alpha == 1_000_000 && e.tao_received == 40 && e.recipient == accounts.bob));
}

#[test]
fn non_owner_cannot_claim_excess_alpha() {
    let (mut market, accounts) = setup();
    register_mock(&mut market.env, 2_000_000);
    market
        .create_order(1, OrderSide::Sell, Collateral::Native, Collateral::Tusdt, 10_000, 1_000_000)
        .unwrap();

    set_caller(&mut market.env, accounts.bob);
    assert_eq!(market.claim_excess_alpha(1, accounts.bob), Err(Error::NotOwner));
}

#[test]
fn tests_claim_excess_alpha_noop_when_no_excess() {
    let (mut market, accounts) = setup();
    register_mock(&mut market.env, 1_000_000);
    market
        .create_order(1, OrderSide::Sell, Collateral::Native, Collateral::Tusdt, 10_000, 1_000_000)
        .unwrap();

    market.calls.clear();
    market.claim_excess_alpha(1, accounts.bob).unwrap();
    assert_eq!(market.calls.len(), 1);
}

#[test]
fn claim_reports_each_failure() {
    let (mut market, accounts) = setup();
    register_mock_no_stake(&mut market.env);
    assert_eq!(market.claim_excess_alpha(1, accounts.bob), Err(Error::NoAlphaStakeFound));
    register_mock_chain_fails(&mut market.env);
    assert_eq!(market.claim_excess_alpha(1, accounts.bob), Err(Error::ChainExtensionFailed));
    register_mock(&mut market.env, 10);
    market.native_fails = true;
    assert_eq!(market.claim_excess_alpha(1, accounts.bob), Err(Error::TransferFailed));
}

#[test]
fn claim_refuses_a_shrinking_balance() {
    let (mut market, accounts) = setup();
    register_mock(&mut market.env, 10);
    let ctx = market.ctx();
    let stake = market.env.reply(&Call::StakeInfo { hotkey: accounts.bob, coldkey: accounts.alice, netuid: 1 }).unwrap();
    let replies = vec![stake, Reply::Amount(9), Reply::Done, Reply::Amount(8)];
    assert_eq!(
        market.otc.claim_excess_alpha(&ctx, 1, accounts.bob, &replies),
        Step::Done(Err(Error::ArithmeticError))
    );
    // A locked part that exceeds the stake is an arithmetic error too.
    let mut info = match stake {
        Reply::Stake(Some(i)) => i,
        _ => unreachable!(),
    };
    info.locked = 11;
    assert_eq!(
        market.otc.claim_excess_alpha(&ctx, 1, accounts.bob, &vec![Reply::Stake(Some(info))]),
        Step::Done(Err(Error::ArithmeticError))
    );
}

#[test]
fn sell_order_is_settled_in_full() {
    let (mut market, accounts) = setup();
    register_mock(&mut market.env, 10_000_000);
    let id = market.sell(10_000_000);
    set_caller(&mut market.env, accounts.bob);
    market.calls.clear();
    market.fulfill_order(id).unwrap();
    let contract = AccountId([0x10; 32]);
    // At one TAO per alpha and the market price the alpha costs its own amount; 0.3% is the fee.
    assert_eq!(
        market.calls,
        vec![
            Call::AlphaPrice { netuid: 1 },
            Call::TokenTransferFrom { token: accounts.charlie, from: accounts.bob, to: contract, amount: 10_000_000 },
            Call::TransferStake {
                destination: accounts.bob,
                hotkey: accounts.bob,
                origin_netuid: 1,
                destination_netuid: 1,
                amount: 10_000_000,
            },
            Call::TokenTransfer { token: accounts.charlie, to: accounts.alice, amount: 9_970_000 },
            Call::TokenTransfer { token: accounts.charlie, to: accounts.alice, amount: 30_000 },
        ]
    );
    assert_eq!(market.order(id).status, OrderStatus::Fulfilled);
    assert_eq!(market.otc.get_reserved_alpha(1), 0);
    assert_eq!(market.fulfill_order(id), Err(Error::OrderNotActive));
}

#[test]
fn buy_order_is_backed_and_settled() {
    let (mut market, accounts) = setup();
    register_mock(&mut market.env, 0);
    // 5% above the market.
    market.value = 1_049;
    assert_eq!(
        market.create_order(1, OrderSide::Buy, Collateral::Native, Collateral::Native, 10_500, 1_000),
        Err(Error::InsufficientCollateral)
    );
    market.value = 1_050;
    let id = market
        .create_order(1, OrderSide::Buy, Collateral::Native, Collateral::Native, 10_500, 1_000)
        .unwrap();
    assert_eq!(market.otc.get_reserved_alpha(1), 0);
    set_caller(&mut market.env, accounts.eve);
    market.value = 0;
    market.calls.clear();
    market.fulfill_order(id).unwrap();
    let contract = AccountId([0x10; 32]);
    assert_eq!(
        market.calls,
        vec![
            Call::AlphaPrice { netuid: 1 },
            Call::CallerTransferStake {
                destination: contract,
                hotkey: accounts.bob,
                origin_netuid: 1,
                destination_netuid: 1,
                amount: 1_000,
            },
            Call::TransferStake {
                destination: accounts.alice,
                hotkey: accounts.bob,
                origin_netuid: 1,
                destination_netuid: 1,
                amount: 1_000,
            },
            Call::NativeTransfer { to: accounts.eve, amount: 1_047 },
            Call::NativeTransfer { to: accounts.alice, amount: 3 },
        ]
    );
}

#[test]
fn cancelled_buy_order_returns_collateral() {
    let (mut market, accounts) = setup();
    register_mock(&mut market.env, 0);
    let id = market
        .create_order(1, OrderSide::Buy, Collateral::Tusdt, Collateral::Native, 9_500, 2_000)
        .unwrap();
    assert_eq!(
        market.calls[1],
        Call::TokenTransferFrom {
            token: accounts.charlie,
            from: accounts.alice,
            to: AccountId([0x10; 32]),
            amount: 1_900,
        }
    );
    // A refused transfer leaves the order open and its collateral locked.
    market.tokens_fail = true;
    assert_eq!(market.cancel_order(id), Err(Error::TransferFailed));
    assert_eq!(market.order(id).status, OrderStatus::Active);
    market.tokens_fail = false;
    market.calls.clear();
    market.cancel_order(id).unwrap();
    assert_eq!(
        market.calls,
        vec![Call::TokenTransfer { token: accounts.charlie, to: accounts.alice, amount: 1_900 }]
    );
    assert_eq!(market.order(id).status, OrderStatus::Cancelled);
}

#[test]
fn cancelling_a_buy_order_ignores_the_price() {
    let (mut market, accounts) = setup();
    market.alpha_price = Some(1_000_000_000);
    let cheap = market
        .create_order(1, OrderSide::Buy, Collateral::Tusdt, Collateral::Native, 9_500, 2_000)
        .unwrap();
    market.alpha_price = Some(2_000_000_000);
    market.value = 5_000;
    let dear = market
        .create_order(1, OrderSide::Buy, Collateral::Native, Collateral::Native, 10_000, 2_000)
        .unwrap();
    for later in [0, 500_000_000, 3_000_000_000] {
        market.alpha_price = Some(later);
        let ctx = market.ctx();
        let step = market.otc.cancel_order(&ctx, cheap, &vec![]);
        assert_eq!(
            step,
            Step::Call(Call::TokenTransfer {
                token: accounts.charlie,
                to: accounts.alice,
                amount: 1_900,
            })
        );
    }
    market.calls.clear();
    market.cancel_order(dear).unwrap();
    market.cancel_order(cheap).unwrap();
    assert_eq!(
        market.calls,
        vec![
            Call::NativeTransfer { to: accounts.alice, amount: 4_000 },
            Call::TokenTransfer { token: accounts.charlie, to: accounts.alice, amount: 1_900 },
        ]
    );
    assert!(market.otc.locked.entries().is_empty());
}

#[test]
fn a_fulfilled_buy_order_holds_nothing() {
    let (mut market, accounts) = setup();
    market.alpha_price = Some(1_000_000_000);
    let id = market
        .create_order(1, OrderSide::Buy, Collateral::Tusdt, Collateral::Native, 10_000, 2_000)
        .unwrap();
    assert_eq!(market.otc.locked.get(&id), Some(&2_000));
    set_caller(&mut market.env, accounts.bob);
    market.fulfill_order(id).unwrap();
    assert_eq!(market.otc.locked.get(&id), None);
    set_caller(&mut market.env, accounts.alice);
    assert_eq!(market.cancel_order(id), Err(Error::OrderNotActive));
}

#[test]
fn failed_calls_leave_no_order() {
    let (mut market, _) = setup();
    register_mock_transfer_fails(&mut market.env, 1_000);
    assert_eq!(
        market.create_order(1, OrderSide::Sell, Collateral::Native, Collateral::Tusdt, 10_000, 1_000),
        Err(Error::ChainExtensionFailed)
    );
    register_mock_chain_fails(&mut market.env);
    assert_eq!(
        market.create_order(1, OrderSide::Buy, Collateral::Tusdt, Collateral::Tusdt, 10_000, 1_000),
        Err(Error::ChainExtensionFailed)
    );
    register_mock(&mut market.env, 1_000);
    market.tokens_fail = true;
    assert_eq!(
        market.create_order(1, OrderSide::Buy, Collateral::Tusdt, Collateral::Tusdt, 10_000, 1_000),
        Err(Error::TransferFailed)
    );
    assert_eq!(market.otc.get_next_order_id(), 0);
    assert_eq!(market.otc.get_reserved_alpha(1), 0);
    assert!(market.otc.get_order(0).is_none());
    assert!(market.otc.take_events().is_empty());
}

#[test]
fn overflowing_prices_are_refused() {
    let (mut market, _) = setup();
    let ctx = market.ctx();
    let step = market.otc.create_order(
        &ctx,
        1,
        OrderSide::Buy,
        Collateral::Native,
        Collateral::Native,
        u32::MAX,
        u64::MAX,
        &vec![Reply::Amount(u64::MAX)],
    );
    assert_eq!(step, Step::Done(Err(Error::ArithmeticError)));
}

#[test]
fn a_fee_above_everything_settles_nothing() {
    let (mut market, accounts) = setup();
    register_mock(&mut market.env, 1_000);
    let id = market.sell(1_000);
    let ctx = market.ctx();
    market.otc.update_fee_rate(&ctx, 20_000).unwrap();
    assert_eq!(market.otc.fee_rate_bps(), 20_000);
    set_caller(&mut market.env, accounts.bob);
    assert_eq!(market.fulfill_order(id), Err(Error::ArithmeticError));
    assert_eq!(market.order(id).status, OrderStatus::Active);
}

#[test]
fn owner_hands_over_and_sets_the_fee() {
    let (mut market, accounts) = setup();
    set_caller(&mut market.env, accounts.bob);
    let bob = market.ctx();
    assert_eq!(market.otc.update_owner(&bob, accounts.bob), Err(Error::NotOwner));
    assert_eq!(market.otc.update_fee_rate(&bob, 1), Err(Error::NotOwner));
    set_caller(&mut market.env, accounts.alice);
    let alice = market.ctx();
    market.otc.update_fee_rate(&alice, 50).unwrap();
    market.otc.update_owner(&alice, accounts.bob).unwrap();
    assert_eq!(market.otc.owner(), accounts.bob);
    assert_eq!(market.otc.update_fee_rate(&alice, 1), Err(Error::NotOwner));
    let events = market.otc.take_events();
    assert!(matches!(events[0], Event::FeeRateUpdated(e) if e.previous_bps == 30 && e.new_bps == 50));
    assert!(matches!(events[1], Event::OwnerUpdated(e) if e.previous == accounts.alice && e.new == accounts.bob));
}

#[test]
fn orders_are_numbered_and_described() {
    let (mut market, accounts) = setup();
    register_mock(&mut market.env, 1_000);
    assert_eq!(market.sell(10), 0);
    assert_eq!(market.sell(20), 1);
    assert_eq!(
        market.order(1),
        Order {
            id: 1,
            maker: accounts.alice,
            netuid: 1,
            side: OrderSide::Sell,
            collateral: Collateral::Native,
            counter_collateral: Collateral::Tusdt,
            price_bps: 10_000,
            alpha_amount: 20,
            status: OrderStatus::Active,
            created_at: 1_000,
        }
    );
    assert_eq!(market.otc.get_next_order_id(), 2);
    assert_eq!(market.otc.get_reserved_alpha(1), 30);
    market.cancel_order(0).unwrap();
    assert_eq!(market.otc.get_reserved_alpha(1), 20);
    assert_eq!(market.order(1).status, OrderStatus::Active);
}

#[test]
fn exhausted_counters_are_refused() {
    let (mut market, accounts) = setup();
    register_mock(&mut market.env, 1_000);
    market.otc.next_order_id = u64::MAX;
    assert_eq!(
        market.create_order(1, OrderSide::Sell, Collateral::Native, Collateral::Tusdt, 10_000, 5),
        Err(Error::ArithmeticError)
    );
    assert_eq!(market.otc.get_reserved_alpha(1), 0);

    market.otc.next_order_id = u64::MAX - 1;
    market.otc.netuid_total_reserved.insert(2, u64::MAX - 4);
    assert_eq!(
        market.create_order(2, OrderSide::Sell, Collateral::Native, Collateral::Tusdt, 10_000, 5),
        Err(Error::ArithmeticError)
    );
    assert_eq!(
        market.create_order(2, OrderSide::Sell, Collateral::Native, Collateral::Tusdt, 10_000, 4),
        Ok(u64::MAX - 1)
    );
    assert_eq!(market.otc.get_next_order_id(), u64::MAX);

    // A reservation that does not cover an order keeps it from closing.
    market.otc.netuid_total_reserved.insert(2, 3);
    assert_eq!(market.cancel_order(u64::MAX - 1), Err(Error::ArithmeticError));
    set_caller(&mut market.env, accounts.eve);
    assert_eq!(market.fulfill_order(u64::MAX - 1), Err(Error::ArithmeticError));
    let order = market.otc.get_order(u64::MAX - 1).unwrap();
    assert_eq!(order.status, OrderStatus::Active);
}
