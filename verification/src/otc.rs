//! The OTC marketplace: makers and takers swap subnet alpha for TUSDT or native tokens.
use vstd::prelude::*;
use crate::account::{AccountId, Balance};
use crate::fixed_point::mul_div_floor;
use crate::host::{
    amount_in, conclude, fail, reply_amount, reply_stake, run_to_end, stake_in, Call, Context, Reply,
    StakeInfo, Step, Write,
};
use crate::ratio::{Ratio, RATIO_BASIS_POINT, RATIO_ONE};
use crate::storage::Mapping;

verus! {

/// Prices are in basis points of the market price.
pub const PRICE_BPS_DENOMINATOR: u128 = 10_000;

/// Rao per alpha that stand for one TAO per alpha.
pub const RAO_PER_TAO: u128 = 1_000_000_000;

/// The highest fee that the constructor sets: 100%.
pub const MAX_INITIAL_FEE_BPS: u32 = 10_000;

/// Which side of the trade the maker is on.
#[derive(Debug, Clone, Copy, PartialEq, Eq, Structural)]
pub enum OrderSide {
    /// Maker provides collateral, wants alpha.
    Buy,
    /// Maker provides alpha, wants collateral.
    Sell,
}

/// The asset used as collateral in the trade.
#[derive(Debug, Clone, Copy, PartialEq, Eq, Structural)]
pub enum Collateral {
    /// TUSDT stablecoin.
    Tusdt,
    /// Native chain token (TAO).
    Native,
}

/// Lifecycle state of an order.
#[derive(Debug, Clone, Copy, PartialEq, Eq, Structural)]
pub enum OrderStatus {
    /// Order is open and can be fulfilled or cancelled.
    Active,
    /// Order has been fulfilled and is closed.
    Fulfilled,
    /// Order was cancelled by the maker before fulfillment.
    Cancelled,
}

/// A single order in the marketplace.
#[derive(Debug, Clone, Copy, PartialEq, Eq)]
pub struct Order {
    /// Sequential order ID, assigned at creation.
    pub id: u64,
    /// Account that created the order.
    pub maker: AccountId,
    /// Subnet of the alpha being traded.
    pub netuid: u16,
    /// Whether the maker is buying or selling alpha.
    pub side: OrderSide,
    /// The collateral asset the maker puts up.
    pub collateral: Collateral,
    /// The collateral asset the taker must provide.
    pub counter_collateral: Collateral,
    /// Price in basis points of the market price: `10_000` is market, `10_500` is 5% above.
    pub price_bps: u32,
    /// Amount of alpha (in rao) to trade.
    pub alpha_amount: Balance,
    /// Current lifecycle status.
    pub status: OrderStatus,
    /// Block time when the order was created.
    pub created_at: u64,
}

/// Emitted when a new order is created.
#[derive(Debug, Clone, Copy, PartialEq, Eq)]
pub struct OrderCreated {
    pub order_id: u64,
    pub maker: AccountId,
    pub side: OrderSide,
}

/// Emitted when an active order is fulfilled by a taker.
#[derive(Debug, Clone, Copy, PartialEq, Eq)]
pub struct OrderFulfilled {
    pub order_id: u64,
    pub maker: AccountId,
    pub taker: AccountId,
}

/// Emitted when a maker cancels their active order.
#[derive(Debug, Clone, Copy, PartialEq, Eq)]
pub struct OrderCancelled {
    pub order_id: u64,
    pub maker: AccountId,
}

/// Emitted when ownership is transferred to a new account.
#[derive(Debug, Clone, Copy, PartialEq, Eq)]
pub struct OwnerUpdated {
    pub previous: AccountId,
    pub new: AccountId,
}

/// Emitted when the fee rate is changed by the owner.
#[derive(Debug, Clone, Copy, PartialEq, Eq)]
pub struct FeeRateUpdated {
    pub previous_bps: u32,
    pub new_bps: u32,
}

/// Emitted when excess alpha is unstaked and native TAO is sent to a recipient.
#[derive(Debug, Clone, Copy, PartialEq, Eq)]
pub struct ExcessAlphaClaimed {
    pub netuid: u16,
    pub excess_alpha: Balance,
    pub tao_received: Balance,
    pub recipient: AccountId,
}

/// Emitted when the contract is paused by the owner.
#[derive(Debug, Clone, Copy, PartialEq, Eq)]
pub struct Paused {}

/// Emitted when the contract is unpaused by the owner.
#[derive(Debug, Clone, Copy, PartialEq, Eq)]
pub struct Unpaused {}

/// An event of the marketplace.
#[derive(Debug, Clone, Copy, PartialEq, Eq)]
pub enum Event {
    OrderCreated(OrderCreated),
    OrderFulfilled(OrderFulfilled),
    OrderCancelled(OrderCancelled),
    OwnerUpdated(OwnerUpdated),
    FeeRateUpdated(FeeRateUpdated),
    ExcessAlphaClaimed(ExcessAlphaClaimed),
    Paused(Paused),
    Unpaused(Unpaused),
}

/// Errors returned by the marketplace.
#[derive(Debug, Clone, Copy, PartialEq, Eq, Structural)]
pub enum Error {
    /// The caller is not the contract owner.
    NotOwner,
    /// The caller is not the order maker.
    NotMaker,
    /// The specified order ID does not exist.
    OrderNotFound,
    /// The order is not in Active status.
    OrderNotActive,
    /// A maker cannot fulfill their own order.
    CannotFulfillOwnOrder,
    /// The caller did not supply enough collateral.
    InsufficientCollateral,
    /// A chain call failed (stake transfer, price read, etc.).
    ChainExtensionFailed,
    /// No alpha stake exists for the contract on the subnet.
    NoAlphaStakeFound,
    /// A token or native transfer failed.
    TransferFailed,
    /// An arithmetic overflow or underflow occurred.
    ArithmeticError,
    /// The contract is paused and trading is disabled.
    ContractPaused,
    /// The price is zero, which is not allowed.
    InvalidPriceBps,
}

/// The marketplace's contents.
pub struct OtcState {
    pub owner: AccountId,
    pub hotkey: AccountId,
    pub token: AccountId,
    pub fee_rate: Ratio,
    pub paused: bool,
    pub orders: Map<u64, Order>,
    pub next_order_id: u64,
    pub reserved: Map<u16, Balance>,
    /// The collateral that each active Buy order has locked.
    pub locked: Map<u64, Balance>,
    pub events: Seq<Event>,
}

/// The contents of a fresh marketplace. The fee rate is capped at 100%.
pub open spec fn initial_otc_state(
    owner: AccountId,
    hotkey: AccountId,
    token: AccountId,
    fee_rate_bps: u32,
) -> OtcState {
    OtcState {
        owner,
        hotkey,
        token,
        fee_rate: Ratio {
            inner: ((if fee_rate_bps <= MAX_INITIAL_FEE_BPS {
                fee_rate_bps
            } else {
                MAX_INITIAL_FEE_BPS
            }) * RATIO_BASIS_POINT) as u128,
        },
        paused: false,
        orders: Map::empty(),
        next_order_id: 0,
        reserved: Map::empty(),
        locked: Map::empty(),
        events: Seq::empty(),
    }
}

/// Alpha reserved by active Sell orders on a subnet.
pub open spec fn reserved_on(s: OtcState, netuid: u16) -> Balance {
    if s.reserved.contains_key(netuid) {
        s.reserved[netuid]
    } else {
        0
    }
}

/// The collateral that an order has locked; none for a Sell order.
pub open spec fn locked_by(s: OtcState, order_id: u64) -> Balance {
    if s.locked.contains_key(order_id) {
        s.locked[order_id]
    } else {
        0
    }
}

/// What `alpha_amount` costs when alpha trades at `alpha_price_rao` and the order asks for
/// `price_bps` of that; absent when it does not fit a balance.
pub open spec fn quote(alpha_price_rao: u64, price_bps: u32, alpha_amount: Balance) -> Option<
    Balance,
> {
    let price_per_alpha = alpha_price_rao * price_bps / PRICE_BPS_DENOMINATOR as int;
    let amount = alpha_amount * price_per_alpha / RAO_PER_TAO as int;
    if amount <= Balance::MAX {
        Some(amount as Balance)
    } else {
        None
    }
}

/// The protocol's fee on `amount`; absent when it does not fit a balance.
pub open spec fn fee_on(rate: Ratio, amount: Balance) -> Option<Balance> {
    match mul_div_floor(rate.inner as int, amount as int, RATIO_ONE as int) {
        Some(fee) => if fee <= Balance::MAX {
            Some(fee as Balance)
        } else {
            None
        },
        None => None,
    }
}

/// A payment out of the contract.
pub open spec fn payment(s: OtcState, kind: Collateral, to: AccountId, amount: Balance) -> Write<
    Error,
> {
    Write {
        call: match kind {
            Collateral::Tusdt => Call::TokenTransfer { token: s.token, to, amount },
            Collateral::Native => Call::NativeTransfer { to, amount },
        },
        on_failure: Error::TransferFailed,
    }
}

/// Pulls `amount` from the caller. Native tokens came with the message, so nothing is called.
pub open spec fn pull_writes(
    s: OtcState,
    ctx: Context,
    kind: Collateral,
    amount: Balance,
) -> Seq<Write<Error>> {
    match kind {
        Collateral::Tusdt => seq![
            Write {
                call: Call::TokenTransferFrom {
                    token: s.token,
                    from: ctx.caller,
                    to: ctx.contract,
                    amount,
                },
                on_failure: Error::TransferFailed,
            },
        ],
        Collateral::Native => seq![],
    }
}

/// Whether the native tokens that a pull asks for came with the message.
pub open spec fn covers(ctx: Context, kind: Collateral, amount: Balance) -> bool {
    kind == Collateral::Tusdt || ctx.transferred_value >= amount
}

/// Hands alpha of the contract to `to`.
pub open spec fn alpha_transfer(s: OtcState, netuid: u16, to: AccountId, amount: Balance) -> Write<
    Error,
> {
    Write {
        call: Call::TransferStake {
            destination: to,
            hotkey: s.hotkey,
            origin_netuid: netuid,
            destination_netuid: netuid,
            amount,
        },
        on_failure: Error::ChainExtensionFailed,
    }
}

/// Pulls alpha of the caller into the contract.
pub open spec fn alpha_pull(s: OtcState, ctx: Context, netuid: u16, amount: Balance) -> Write<
    Error,
> {
    Write {
        call: Call::CallerTransferStake {
            destination: ctx.contract,
            hotkey: s.hotkey,
            origin_netuid: netuid,
            destination_netuid: netuid,
            amount,
        },
        on_failure: Error::ChainExtensionFailed,
    }
}

/// Pays `amount - fee` to the recipient and the fee to the owner, leaving out empty payments.
pub open spec fn send_writes(
    s: OtcState,
    kind: Collateral,
    recipient: AccountId,
    amount: Balance,
    fee: Balance,
) -> Seq<Write<Error>> {
    let net = (amount - fee) as Balance;
    (if net > 0 {
        seq![payment(s, kind, recipient, net)]
    } else {
        seq![]
    }) + (if fee > 0 {
        seq![payment(s, kind, s.owner, fee)]
    } else {
        seq![]
    })
}

/// The terms of a new order.
#[derive(Debug, Clone, Copy, PartialEq, Eq)]
pub struct Terms {
    pub netuid: u16,
    pub side: OrderSide,
    pub collateral: Collateral,
    pub counter_collateral: Collateral,
    pub price_bps: u32,
    pub alpha_amount: Balance,
}

/// How `create_order` ends once its calls have succeeded.
pub open spec fn create_outcome(s: OtcState, t: Terms) -> Result<u64, Error> {
    if t.side == OrderSide::Sell && reserved_on(s, t.netuid) + t.alpha_amount > Balance::MAX {
        Err(Error::ArithmeticError)
    } else if s.next_order_id == u64::MAX {
        Err(Error::ArithmeticError)
    } else {
        Ok(s.next_order_id)
    }
}

/// `create_order`, step by step.
pub open spec fn create_step(s: OtcState, ctx: Context, t: Terms, replies: Seq<Reply>) -> Step<
    u64,
    Error,
> {
    if s.paused {
        fail(Error::ContractPaused)
    } else if t.price_bps == 0 {
        fail(Error::InvalidPriceBps)
    } else if t.alpha_amount == 0 {
        fail(Error::InsufficientCollateral)
    } else if t.side == OrderSide::Sell {
        conclude(
            seq![alpha_pull(s, ctx, t.netuid, t.alpha_amount)],
            replies,
            0,
            create_outcome(s, t),
        )
    } else if replies.len() == 0 {
        Step::Call(Call::AlphaPrice { netuid: t.netuid })
    } else {
        match reply_amount(replies[0]) {
            None => fail(Error::ChainExtensionFailed),
            Some(price) => match quote(price, t.price_bps, t.alpha_amount) {
                None => fail(Error::ArithmeticError),
                Some(required) => if !covers(ctx, t.collateral, required) {
                    fail(Error::InsufficientCollateral)
                } else {
                    conclude(
                        pull_writes(s, ctx, t.collateral, required),
                        replies,
                        1,
                        create_outcome(s, t),
                    )
                },
            },
        }
    }
}

/// The order that `create_order` stores.
pub open spec fn created_order(s: OtcState, ctx: Context, t: Terms) -> Order {
    Order {
        id: s.next_order_id,
        maker: ctx.caller,
        netuid: t.netuid,
        side: t.side,
        collateral: t.collateral,
        counter_collateral: t.counter_collateral,
        price_bps: t.price_bps,
        alpha_amount: t.alpha_amount,
        status: OrderStatus::Active,
        created_at: ctx.now,
    }
}

/// The collateral that a new Buy order locks: what it costs at the price that was read.
pub open spec fn backing(t: Terms, replies: Seq<Reply>) -> Balance {
    quote(reply_amount(replies[0])->0, t.price_bps, t.alpha_amount)->0
}

/// The contents after `create_order` succeeded.
pub open spec fn create_next(s: OtcState, ctx: Context, t: Terms, replies: Seq<Reply>) -> OtcState {
    OtcState {
        orders: s.orders.insert(s.next_order_id, created_order(s, ctx, t)),
        next_order_id: (s.next_order_id + 1) as u64,
        reserved: if t.side == OrderSide::Sell {
            s.reserved.insert(t.netuid, (reserved_on(s, t.netuid) + t.alpha_amount) as Balance)
        } else {
            s.reserved
        },
        locked: if t.side == OrderSide::Buy {
            s.locked.insert(s.next_order_id, backing(t, replies))
        } else {
            s.locked
        },
        events: s.events.push(
            Event::OrderCreated(
                OrderCreated { order_id: s.next_order_id, maker: ctx.caller, side: t.side },
            ),
        ),
        ..s
    }
}

/// The calls of `fulfill_order` after the price is known.
pub open spec fn fulfill_writes(
    s: OtcState,
    ctx: Context,
    order: Order,
    amount: Balance,
    fee: Balance,
) -> Seq<Write<Error>> {
    match order.side {
        OrderSide::Sell => pull_writes(s, ctx, order.counter_collateral, amount) + seq![
            alpha_transfer(s, order.netuid, ctx.caller, order.alpha_amount),
        ] + (if fee > amount {
            seq![]
        } else {
            send_writes(s, order.counter_collateral, order.maker, amount, fee)
        }),
        OrderSide::Buy => seq![
            alpha_pull(s, ctx, order.netuid, order.alpha_amount),
            alpha_transfer(s, order.netuid, order.maker, order.alpha_amount),
        ] + (if fee > amount {
            seq![]
        } else {
            send_writes(s, order.collateral, ctx.caller, amount, fee)
        }),
    }
}

/// How `fulfill_order` ends once its calls have succeeded.
pub open spec fn fulfill_outcome(s: OtcState, order: Order, amount: Balance, fee: Balance) -> Result<
    (),
    Error,
> {
    if fee > amount {
        Err(Error::ArithmeticError)
    } else if order.side == OrderSide::Sell && reserved_on(s, order.netuid) < order.alpha_amount {
        Err(Error::ArithmeticError)
    } else {
        Ok(())
    }
}

/// `fulfill_order`, step by step.
pub open spec fn fulfill_step(
    s: OtcState,
    ctx: Context,
    order_id: u64,
    replies: Seq<Reply>,
) -> Step<(), Error> {
    let order = s.orders[order_id];
    if s.paused {
        fail(Error::ContractPaused)
    } else if !s.orders.contains_key(order_id) {
        fail(Error::OrderNotFound)
    } else if order.status != OrderStatus::Active {
        fail(Error::OrderNotActive)
    } else if ctx.caller == order.maker {
        fail(Error::CannotFulfillOwnOrder)
    } else if replies.len() == 0 {
        Step::Call(Call::AlphaPrice { netuid: order.netuid })
    } else {
        match reply_amount(replies[0]) {
            None => fail(Error::ChainExtensionFailed),
            Some(price) => match quote(price, order.price_bps, order.alpha_amount) {
                None => fail(Error::ArithmeticError),
                Some(amount) => match fee_on(s.fee_rate, amount) {
                    None => fail(Error::ArithmeticError),
                    Some(fee) => if order.side == OrderSide::Sell && !covers(
                        ctx,
                        order.counter_collateral,
                        amount,
                    ) {
                        fail(Error::InsufficientCollateral)
                    } else {
                        conclude(
                            fulfill_writes(s, ctx, order, amount, fee),
                            replies,
                            1,
                            fulfill_outcome(s, order, amount, fee),
                        )
                    },
                },
            },
        }
    }
}

/// The reservations after a Sell order's alpha left the contract.
pub open spec fn released(s: OtcState, order: Order) -> Map<u16, Balance> {
    if order.side == OrderSide::Sell {
        s.reserved.insert(
            order.netuid,
            (reserved_on(s, order.netuid) - order.alpha_amount) as Balance,
        )
    } else {
        s.reserved
    }
}

/// The contents after `fulfill_order` succeeded.
pub open spec fn fulfill_next(s: OtcState, ctx: Context, order_id: u64) -> OtcState {
    let order = s.orders[order_id];
    OtcState {
        orders: s.orders.insert(order_id, Order { status: OrderStatus::Fulfilled, ..order }),
        reserved: released(s, order),
        locked: s.locked.remove(order_id),
        events: s.events.push(
            Event::OrderFulfilled(
                OrderFulfilled { order_id, maker: order.maker, taker: ctx.caller },
            ),
        ),
        ..s
    }
}

/// `cancel_order`, step by step. What the order holds goes back to the maker: the alpha of a Sell
/// order, or the collateral that a Buy order locked when it was created.
pub open spec fn cancel_step(
    s: OtcState,
    ctx: Context,
    order_id: u64,
    replies: Seq<Reply>,
) -> Step<(), Error> {
    let order = s.orders[order_id];
    if !s.orders.contains_key(order_id) {
        fail(Error::OrderNotFound)
    } else if ctx.caller != order.maker {
        fail(Error::NotMaker)
    } else if order.status != OrderStatus::Active {
        fail(Error::OrderNotActive)
    } else if order.side == OrderSide::Sell {
        if reserved_on(s, order.netuid) < order.alpha_amount {
            fail(Error::ArithmeticError)
        } else {
            conclude(
                seq![alpha_transfer(s, order.netuid, order.maker, order.alpha_amount)],
                replies,
                0,
                Ok(()),
            )
        }
    } else {
        conclude(
            seq![payment(s, order.collateral, order.maker, locked_by(s, order_id))],
            replies,
            0,
            Ok(()),
        )
    }
}

/// The contents after `cancel_order` succeeded.
pub open spec fn cancel_next(s: OtcState, order_id: u64) -> OtcState {
    let order = s.orders[order_id];
    OtcState {
        orders: s.orders.insert(order_id, Order { status: OrderStatus::Cancelled, ..order }),
        reserved: released(s, order),
        locked: s.locked.remove(order_id),
        events: s.events.push(
            Event::OrderCancelled(OrderCancelled { order_id, maker: order.maker }),
        ),
        ..s
    }
}

/// The part of a stake that can be moved: the total minus what is locked.
pub open spec fn available_stake(info: Option<StakeInfo>) -> Result<Balance, Error> {
    match info {
        None => Err(Error::NoAlphaStakeFound),
        Some(i) => if i.stake < i.locked {
            Err(Error::ArithmeticError)
        } else {
            Ok((i.stake - i.locked) as Balance)
        },
    }
}

/// `claim_excess_alpha`, step by step: the stake is read, the excess over the reservations is
/// unstaked between two readings of the native balance, and the gain is sent to the recipient.
pub open spec fn claim_step(
    s: OtcState,
    ctx: Context,
    netuid: u16,
    recipient: AccountId,
    replies: Seq<Reply>,
) -> Step<(), Error> {
    if ctx.caller != s.owner {
        fail(Error::NotOwner)
    } else if replies.len() == 0 {
        Step::Call(Call::StakeInfo { hotkey: s.hotkey, coldkey: ctx.contract, netuid })
    } else {
        match reply_stake(replies[0]) {
            None => fail(Error::ChainExtensionFailed),
            Some(info) => match available_stake(info) {
                Err(e) => fail(e),
                Ok(stake) => {
                    let excess = stake - reserved_on(s, netuid);
                    if excess <= 0 {
                        Step::Done(Ok(()))
                    } else if replies.len() == 1 {
                        Step::Call(Call::NativeBalance)
                    } else if replies.len() == 2 {
                        Step::Call(
                            Call::RemoveStake {
                                hotkey: s.hotkey,
                                netuid,
                                amount: excess as Balance,
                            },
                        )
                    } else if replies[2] is Failed {
                        fail(Error::ChainExtensionFailed)
                    } else if replies.len() == 3 {
                        Step::Call(Call::NativeBalance)
                    } else {
                        let gain = replies[3]->Amount_0 - replies[1]->Amount_0;
                        if gain < 0 {
                            fail(Error::ArithmeticError)
                        } else {
                            conclude(
                                if gain > 0 {
                                    seq![
                                        Write {
                                            call: Call::NativeTransfer {
                                                to: recipient,
                                                amount: gain as Balance,
                                            },
                                            on_failure: Error::TransferFailed,
                                        },
                                    ]
                                } else {
                                    seq![]
                                },
                                replies,
                                4,
                                Ok(()),
                            )
                        }
                    }
                },
            },
        }
    }
}

/// The contents after `claim_excess_alpha` succeeded: a claim is recorded when there was excess.
pub open spec fn claim_next(
    s: OtcState,
    netuid: u16,
    recipient: AccountId,
    replies: Seq<Reply>,
) -> OtcState {
    let stake = available_stake(reply_stake(replies[0])->0)->Ok_0;
    let excess = stake - reserved_on(s, netuid);
    if excess <= 0 {
        s
    } else {
        OtcState {
            events: s.events.push(
                Event::ExcessAlphaClaimed(
                    ExcessAlphaClaimed {
                        netuid,
                        excess_alpha: excess as Balance,
                        tao_received: (replies[3]->Amount_0 - replies[1]->Amount_0) as Balance,
                        recipient,
                    },
                ),
            ),
            ..s
        }
    }
}

/// Whether the caller may act as the owner.
pub open spec fn owner_only(s: OtcState, ctx: Context) -> Result<(), Error> {
    if ctx.caller != s.owner {
        Err(Error::NotOwner)
    } else {
        Ok(())
    }
}

/// A ratio in basis points, zero where it has too many.
pub open spec fn bps_or_zero(rate: Ratio) -> u32 {
    if rate.inner / RATIO_BASIS_POINT <= u32::MAX {
        (rate.inner / RATIO_BASIS_POINT) as u32
    } else {
        0
    }
}

/// The marketplace: roles, fee, orders, the alpha that active Sell orders reserve and the
/// collateral that active Buy orders have locked.
pub struct TusdtOtc {
    pub owner: AccountId,
    pub hotkey: AccountId,
    pub token: AccountId,
    pub fee_rate: Ratio,
    pub paused: bool,
    pub orders: Mapping<u64, Order>,
    pub next_order_id: u64,
    pub netuid_total_reserved: Mapping<u16, Balance>,
    pub locked: Mapping<u64, Balance>,
    pub events: Vec<Event>,
}

impl View for TusdtOtc {
    type V = OtcState;

    open spec fn view(&self) -> OtcState {
        OtcState {
            owner: self.owner,
            hotkey: self.hotkey,
            token: self.token,
            fee_rate: self.fee_rate,
            paused: self.paused,
            orders: self.orders@,
            next_order_id: self.next_order_id,
            reserved: self.netuid_total_reserved@,
            locked: self.locked@,
            events: self.events@,
        }
    }
}

/// What `alpha_amount` costs; see [`quote`].
fn quote_amount(alpha_price_rao: u64, price_bps: u32, alpha_amount: Balance) -> (r: Option<Balance>)
    ensures
        r == quote(alpha_price_rao, price_bps, alpha_amount),
{
    assert(alpha_price_rao as u128 * price_bps as u128 <= 0xffff_ffff_ffff_ffff * 0xffff_ffff)
        by (nonlinear_arith)
        requires
            alpha_price_rao <= 0xffff_ffff_ffff_ffff,
            price_bps <= 0xffff_ffff,
    ;
    let price_per_alpha: u128 = alpha_price_rao as u128 * price_bps as u128
        / PRICE_BPS_DENOMINATOR;
    match (alpha_amount as u128).checked_mul(price_per_alpha) {
        Some(product) => {
            let amount: u128 = product / RAO_PER_TAO;
            if amount <= Balance::MAX as u128 {
                Some(amount as Balance)
            } else {
                None
            }
        },
        None => None,
    }
}

/// The fee on `amount`; see [`fee_on`].
fn fee_amount(rate: Ratio, amount: Balance) -> (r: Option<Balance>)
    ensures
        r == fee_on(rate, amount),
{
    match rate.checked_mul_value(amount as u128) {
        Some(fee) => if fee <= Balance::MAX as u128 {
            Some(fee as Balance)
        } else {
            None
        },
        None => None,
    }
}

impl TusdtOtc {
    /// An unpaused marketplace without orders. The fee rate is capped at 100%.
    pub fn new(owner: AccountId, hotkey: AccountId, token_address: AccountId, fee_rate_bps: u32)
        -> (otc: TusdtOtc)
        ensures
            otc@ == initial_otc_state(owner, hotkey, token_address, fee_rate_bps),
    {
        let capped: u32 = if fee_rate_bps <= MAX_INITIAL_FEE_BPS {
            fee_rate_bps
        } else {
            MAX_INITIAL_FEE_BPS
        };
        TusdtOtc {
            owner,
            hotkey,
            token: token_address,
            fee_rate: Ratio::from_basis_points(capped),
            paused: false,
            orders: Mapping::new(),
            next_order_id: 0,
            netuid_total_reserved: Mapping::new(),
            locked: Mapping::new(),
            events: Vec::new(),
        }
    }

    fn payment_write(&self, kind: Collateral, to: AccountId, amount: Balance) -> (w: Write<Error>)
        ensures
            w == payment(self@, kind, to, amount),
    {
        let call = match kind {
            Collateral::Tusdt => Call::TokenTransfer { token: self.token, to, amount },
            Collateral::Native => Call::NativeTransfer { to, amount },
        };
        Write { call, on_failure: Error::TransferFailed }
    }

    fn alpha_pull_write(&self, ctx: &Context, netuid: u16, amount: Balance) -> (w: Write<Error>)
        ensures
            w == alpha_pull(self@, *ctx, netuid, amount),
    {
        Write {
            call: Call::CallerTransferStake {
                destination: ctx.contract,
                hotkey: self.hotkey,
                origin_netuid: netuid,
                destination_netuid: netuid,
                amount,
            },
            on_failure: Error::ChainExtensionFailed,
        }
    }

    /// Hands alpha of the contract to `to`.
    fn transfer_alpha_to(&self, netuid: u16, to: AccountId, amount: Balance) -> (w: Write<Error>)
        ensures
            w == alpha_transfer(self@, netuid, to, amount),
    {
        Write {
            call: Call::TransferStake {
                destination: to,
                hotkey: self.hotkey,
                origin_netuid: netuid,
                destination_netuid: netuid,
                amount,
            },
            on_failure: Error::ChainExtensionFailed,
        }
    }

    /// The calls that pull collateral from the caller, or the error for native tokens that did
    /// not come with the message.
    fn pull_counter_collateral(&self, ctx: &Context, kind: Collateral, amount: Balance) -> (r: Result<
        Vec<Write<Error>>,
        Error,
    >)
        ensures
            match r {
                Ok(writes) => covers(*ctx, kind, amount) && writes@ == pull_writes(
                    self@,
                    *ctx,
                    kind,
                    amount,
                ),
                Err(e) => !covers(*ctx, kind, amount) && e == Error::InsufficientCollateral,
            },
    {
        let mut writes: Vec<Write<Error>> = Vec::new();
        match kind {
            Collateral::Tusdt => {
                writes.push(
                    Write {
                        call: Call::TokenTransferFrom {
                            token: self.token,
                            from: ctx.caller,
                            to: ctx.contract,
                            amount,
                        },
                        on_failure: Error::TransferFailed,
                    },
                );
            },
            Collateral::Native => {
                if ctx.transferred_value < amount {
                    return Err(Error::InsufficientCollateral);
                }
            },
        }
        assert(writes@ =~= pull_writes(self@, *ctx, kind, amount));
        Ok(writes)
    }

    /// The collateral that a new Buy order costs at `price`, and the calls that pull it in.
    fn pull_collateral(&self, ctx: &Context, t: &Terms, price: u64) -> (r: Result<
        (Balance, Vec<Write<Error>>),
        Error,
    >)
        ensures
            match quote(price, t.price_bps, t.alpha_amount) {
                None => r matches Err(e) && e == Error::ArithmeticError,
                Some(required) => match r {
                    Ok((locked, writes)) => locked == required && covers(
                        *ctx,
                        t.collateral,
                        required,
                    ) && writes@ == pull_writes(self@, *ctx, t.collateral, required),
                    Err(e) => !covers(*ctx, t.collateral, required) && e
                        == Error::InsufficientCollateral,
                },
            },
    {
        match quote_amount(price, t.price_bps, t.alpha_amount) {
            Some(required) => match self.pull_counter_collateral(ctx, t.collateral, required) {
                Ok(writes) => Ok((required, writes)),
                Err(e) => Err(e),
            },
            None => Err(Error::ArithmeticError),
        }
    }

    /// Adds the payments to the recipient and, for the fee, to the owner.
    fn send_counter_collateral(
        &self,
        writes: &mut Vec<Write<Error>>,
        kind: Collateral,
        recipient: AccountId,
        amount: Balance,
        fee: Balance,
    )
        requires
            fee <= amount,
        ensures
            final(writes)@ == old(writes)@ + send_writes(self@, kind, recipient, amount, fee),
    {
        let net: Balance = amount - fee;
        if net > 0 {
            let w = self.payment_write(kind, recipient, net);
            writes.push(w);
        }
        if fee > 0 {
            let w = self.payment_write(kind, self.owner, fee);
            writes.push(w);
        }
        assert(writes@ =~= old(writes)@ + send_writes(self@, kind, recipient, amount, fee));
    }

    /// Creates an order. A Sell order pulls the caller's alpha into the contract; a Buy order
    /// pulls the collateral that the order costs at the current price and keeps it locked. On
    /// success the result is the order's ID.
    pub fn create_order(
        &mut self,
        ctx: &Context,
        netuid: u16,
        side: OrderSide,
        collateral: Collateral,
        counter_collateral: Collateral,
        price_bps: u32,
        alpha_amount: Balance,
        replies: &Vec<Reply>,
    ) -> (step: Step<u64, Error>)
        ensures
            ({
                let t = Terms {
                    netuid,
                    side,
                    collateral,
                    counter_collateral,
                    price_bps,
                    alpha_amount,
                };
                &&& step == create_step(old(self)@, *ctx, t, replies@)
                &&& final(self)@ == (if step matches Step::Done(Ok(_)) {
                    create_next(old(self)@, *ctx, t, replies@)
                } else {
                    old(self)@
                })
            }),
    {
        let t = Terms { netuid, side, collateral, counter_collateral, price_bps, alpha_amount };
        if self.paused {
            return Step::Done(Err(Error::ContractPaused));
        }
        if price_bps == 0 {
            return Step::Done(Err(Error::InvalidPriceBps));
        }
        if alpha_amount == 0 {
            return Step::Done(Err(Error::InsufficientCollateral));
        }
        let outcome = self.created_id(&t);
        let mut required: Balance = 0;
        let step = match side {
            OrderSide::Sell => {
                let mut writes: Vec<Write<Error>> = Vec::new();
                let w = self.alpha_pull_write(ctx, netuid, alpha_amount);
                writes.push(w);
                assert(writes@ =~= seq![alpha_pull(self@, *ctx, netuid, alpha_amount)]);
                run_to_end(&writes, replies, 0, outcome)
            },
            OrderSide::Buy => {
                if replies.len() == 0 {
                    return Step::Call(Call::AlphaPrice { netuid });
                }
                let price: u64 = match amount_in(&replies[0]) {
                    Some(p) => p,
                    None => {
                        return Step::Done(Err(Error::ChainExtensionFailed));
                    },
                };
                match self.pull_collateral(ctx, &t, price) {
                    Ok((amount, writes)) => {
                        required = amount;
                        run_to_end(&writes, replies, 1, outcome)
                    },
                    Err(e) => {
                        return Step::Done(Err(e));
                    },
                }
            },
        };
        if let Step::Done(Ok(order_id)) = &step {
            let order_id: u64 = *order_id;
            match side {
                OrderSide::Sell => {
                    let held: Balance = self.get_reserved_alpha(netuid);
                    self.netuid_total_reserved.insert(netuid, held + alpha_amount);
                },
                OrderSide::Buy => {
                    self.locked.insert(order_id, required);
                },
            }
            self.orders.insert(
                order_id,
                Order {
                    id: order_id,
                    maker: ctx.caller,
                    netuid,
                    side,
                    collateral,
                    counter_collateral,
                    price_bps,
                    alpha_amount,
                    status: OrderStatus::Active,
                    created_at: ctx.now,
                },
            );
            self.next_order_id = order_id + 1;
            self.events.push(
                Event::OrderCreated(OrderCreated { order_id, maker: ctx.caller, side }),
            );
        }
        step
    }

    /// The ID of a new order with these terms, or the error for a counter that would overflow.
    fn created_id(&self, t: &Terms) -> (r: Result<u64, Error>)
        ensures
            r == create_outcome(self@, *t),
    {
        if let OrderSide::Sell = t.side {
            if self.get_reserved_alpha(t.netuid).checked_add(t.alpha_amount).is_none() {
                return Err(Error::ArithmeticError);
            }
        }
        if self.next_order_id == u64::MAX {
            return Err(Error::ArithmeticError);
        }
        Ok(self.next_order_id)
    }

    /// Total alpha (in rao) reserved by active Sell orders on a subnet.
    pub fn get_reserved_alpha(&self, netuid: u16) -> (amount: Balance)
        ensures
            amount == reserved_on(self@, netuid),
    {
        match self.netuid_total_reserved.get(&netuid) {
            Some(v) => *v,
            None => 0,
        }
    }

    /// Whether the reservation covers a Sell order's alpha. A Buy order reserves none.
    fn ensure_reserved(&self, order: &Order) -> (r: Result<(), Error>)
        ensures
            r == (if order.side == OrderSide::Sell && reserved_on(self@, order.netuid)
                < order.alpha_amount {
                Err::<(), Error>(Error::ArithmeticError)
            } else {
                Ok(())
            }),
    {
        if let OrderSide::Sell = order.side {
            if self.get_reserved_alpha(order.netuid) < order.alpha_amount {
                return Err(Error::ArithmeticError);
            }
        }
        Ok(())
    }

    /// The collateral that an order has locked; see [`locked_by`].
    fn locked_collateral(&self, order_id: u64) -> (amount: Balance)
        ensures
            amount == locked_by(self@, order_id),
    {
        match self.locked.get(&order_id) {
            Some(v) => *v,
            None => 0,
        }
    }

    /// Closes an order: it no longer holds anything and its status is final.
    fn close_order(&mut self, order_id: u64, order: &Order, status: OrderStatus)
        requires
            order.side == OrderSide::Sell ==> reserved_on(old(self)@, order.netuid)
                >= order.alpha_amount,
        ensures
            final(self)@ == (OtcState {
                orders: old(self)@.orders.insert(order_id, Order { status, ..*order }),
                reserved: released(old(self)@, *order),
                locked: old(self)@.locked.remove(order_id),
                ..old(self)@
            }),
    {
        if let OrderSide::Sell = order.side {
            let held: Balance = self.get_reserved_alpha(order.netuid);
            self.netuid_total_reserved.insert(order.netuid, held - order.alpha_amount);
        }
        let mut closed: Order = *order;
        closed.status = status;
        self.orders.insert(order_id, closed);
        let _ = self.locked.remove(&order_id);
    }

    /// The calls of a fulfillment after the price is known.
    fn fulfillment(&self, ctx: &Context, order: &Order, amount: Balance, fee: Balance) -> (r: Result<
        Vec<Write<Error>>,
        Error,
    >)
        ensures
            match r {
                Ok(writes) => (order.side == OrderSide::Sell ==> covers(
                    *ctx,
                    order.counter_collateral,
                    amount,
                )) && writes@ == fulfill_writes(self@, *ctx, *order, amount, fee),
                Err(e) => order.side == OrderSide::Sell && !covers(
                    *ctx,
                    order.counter_collateral,
                    amount,
                ) && e == Error::InsufficientCollateral,
            },
    {
        match order.side {
            OrderSide::Sell => {
                let mut writes: Vec<Write<Error>> = match self.pull_counter_collateral(
                    ctx,
                    order.counter_collateral,
                    amount,
                ) {
                    Ok(w) => w,
                    Err(e) => {
                        return Err(e);
                    },
                };
                let w = self.transfer_alpha_to(order.netuid, ctx.caller, order.alpha_amount);
                writes.push(w);
                if fee <= amount {
                    self.send_counter_collateral(
                        &mut writes,
                        order.counter_collateral,
                        order.maker,
                        amount,
                        fee,
                    );
                }
                assert(writes@ =~= fulfill_writes(self@, *ctx, *order, amount, fee));
                Ok(writes)
            },
            OrderSide::Buy => {
                let mut writes: Vec<Write<Error>> = Vec::new();
                let pull = self.alpha_pull_write(ctx, order.netuid, order.alpha_amount);
                writes.push(pull);
                let w = self.transfer_alpha_to(order.netuid, order.maker, order.alpha_amount);
                writes.push(w);
                if fee <= amount {
                    self.send_counter_collateral(
                        &mut writes,
                        order.collateral,
                        ctx.caller,
                        amount,
                        fee,
                    );
                }
                assert(writes@ =~= fulfill_writes(self@, *ctx, *order, amount, fee));
                Ok(writes)
            },
        }
    }

    /// Fulfills an active order. Anyone but the maker can; the maker's asset is swapped for the
    /// caller's at the current price, and the fee goes to the owner.
    pub fn fulfill_order(&mut self, ctx: &Context, order_id: u64, replies: &Vec<Reply>) -> (step: Step<
        (),
        Error,
    >)
        ensures
            step == fulfill_step(old(self)@, *ctx, order_id, replies@),
            final(self)@ == (if step matches Step::Done(Ok(_)) {
                fulfill_next(old(self)@, *ctx, order_id)
            } else {
                old(self)@
            }),
    {
        if self.paused {
            return Step::Done(Err(Error::ContractPaused));
        }
        let order: Order = match self.orders.get(&order_id) {
            Some(o) => *o,
            None => {
                return Step::Done(Err(Error::OrderNotFound));
            },
        };
        if order.status != OrderStatus::Active {
            return Step::Done(Err(Error::OrderNotActive));
        }
        if ctx.caller == order.maker {
            return Step::Done(Err(Error::CannotFulfillOwnOrder));
        }
        if replies.len() == 0 {
            return Step::Call(Call::AlphaPrice { netuid: order.netuid });
        }
        let price: u64 = match amount_in(&replies[0]) {
            Some(p) => p,
            None => {
                return Step::Done(Err(Error::ChainExtensionFailed));
            },
        };
        let amount: Balance = match quote_amount(price, order.price_bps, order.alpha_amount) {
            Some(v) => v,
            None => {
                return Step::Done(Err(Error::ArithmeticError));
            },
        };
        let fee: Balance = match fee_amount(self.fee_rate, amount) {
            Some(v) => v,
            None => {
                return Step::Done(Err(Error::ArithmeticError));
            },
        };
        let writes: Vec<Write<Error>> = match self.fulfillment(ctx, &order, amount, fee) {
            Ok(w) => w,
            Err(e) => {
                return Step::Done(Err(e));
            },
        };
        let outcome: Result<(), Error> = if fee > amount {
            Err(Error::ArithmeticError)
        } else {
            self.ensure_reserved(&order)
        };
        let step = run_to_end(&writes, replies, 1, outcome);
        if let Step::Done(Ok(_)) = &step {
            self.close_order(order_id, &order, OrderStatus::Fulfilled);
            self.events.push(
                Event::OrderFulfilled(
                    OrderFulfilled { order_id, maker: order.maker, taker: ctx.caller },
                ),
            );
        }
        step
    }

    /// The call that gives a Buy order's locked collateral back.
    fn return_collateral(&self, recipient: AccountId, kind: Collateral, amount: Balance) -> (writes:
        Vec<Write<Error>>)
        ensures
            writes@ == seq![payment(self@, kind, recipient, amount)],
    {
        let mut writes: Vec<Write<Error>> = Vec::new();
        let w = self.payment_write(kind, recipient, amount);
        writes.push(w);
        assert(writes@ =~= seq![payment(self@, kind, recipient, amount)]);
        writes
    }

    /// Cancels an active order of the caller and returns what it holds: the reserved alpha of a
    /// Sell order, or the collateral that a Buy order locked. A pause does not prevent it.
    pub fn cancel_order(&mut self, ctx: &Context, order_id: u64, replies: &Vec<Reply>) -> (step: Step<
        (),
        Error,
    >)
        ensures
            step == cancel_step(old(self)@, *ctx, order_id, replies@),
            final(self)@ == (if step matches Step::Done(Ok(_)) {
                cancel_next(old(self)@, order_id)
            } else {
                old(self)@
            }),
    {
        let order: Order = match self.orders.get(&order_id) {
            Some(o) => *o,
            None => {
                return Step::Done(Err(Error::OrderNotFound));
            },
        };
        if ctx.caller != order.maker {
            return Step::Done(Err(Error::NotMaker));
        }
        if order.status != OrderStatus::Active {
            return Step::Done(Err(Error::OrderNotActive));
        }
        let step = match order.side {
            OrderSide::Buy => {
                let locked: Balance = self.locked_collateral(order_id);
                let writes = self.return_collateral(order.maker, order.collateral, locked);
                run_to_end(&writes, replies, 0, Ok(()))
            },
            OrderSide::Sell => {
                match self.ensure_reserved(&order) {
                    Ok(_) => {},
                    Err(e) => {
                        return Step::Done(Err(e));
                    },
                }
                let mut writes: Vec<Write<Error>> = Vec::new();
                let w = self.transfer_alpha_to(order.netuid, order.maker, order.alpha_amount);
                writes.push(w);
                assert(writes@ =~= seq![
                    alpha_transfer(self@, order.netuid, order.maker, order.alpha_amount),
                ]);
                run_to_end(&writes, replies, 0, Ok(()))
            },
        };
        if let Step::Done(Ok(_)) = &step {
            self.close_order(order_id, &order, OrderStatus::Cancelled);
            self.events.push(
                Event::OrderCancelled(OrderCancelled { order_id, maker: order.maker }),
            );
        }
        step
    }

    /// Transfers ownership. Owner only.
    pub fn update_owner(&mut self, ctx: &Context, new_owner: AccountId) -> (r: Result<(), Error>)
        ensures
            r == owner_only(old(self)@, *ctx),
            final(self)@ == (if r is Ok {
                OtcState {
                    owner: new_owner,
                    events: old(self)@.events.push(
                        Event::OwnerUpdated(
                            OwnerUpdated { previous: old(self)@.owner, new: new_owner },
                        ),
                    ),
                    ..old(self)@
                }
            } else {
                old(self)@
            }),
    {
        match self.ensure_owner(ctx) {
            Ok(_) => {},
            Err(e) => {
                return Err(e);
            },
        }
        let previous = self.owner;
        self.owner = new_owner;
        self.events.push(Event::OwnerUpdated(OwnerUpdated { previous, new: new_owner }));
        Ok(())
    }

    /// Sets the fee rate in basis points. Owner only.
    pub fn update_fee_rate(&mut self, ctx: &Context, fee_rate_bps: u32) -> (r: Result<(), Error>)
        ensures
            r == owner_only(old(self)@, *ctx),
            final(self)@ == (if r is Ok {
                OtcState {
                    fee_rate: Ratio { inner: (fee_rate_bps * RATIO_BASIS_POINT) as u128 },
                    events: old(self)@.events.push(
                        Event::FeeRateUpdated(
                            FeeRateUpdated {
                                previous_bps: bps_or_zero(old(self)@.fee_rate),
                                new_bps: fee_rate_bps,
                            },
                        ),
                    ),
                    ..old(self)@
                }
            } else {
                old(self)@
            }),
    {
        match self.ensure_owner(ctx) {
            Ok(_) => {},
            Err(e) => {
                return Err(e);
            },
        }
        let previous_bps: u32 = self.fee_rate_bps();
        self.fee_rate = Ratio::from_basis_points(fee_rate_bps);
        self.events.push(
            Event::FeeRateUpdated(FeeRateUpdated { previous_bps, new_bps: fee_rate_bps }),
        );
        Ok(())
    }

    /// Blocks trading. Owner only.
    pub fn pause(&mut self, ctx: &Context) -> (r: Result<(), Error>)
        ensures
            r == owner_only(old(self)@, *ctx),
            final(self)@ == (if r is Ok {
                OtcState {
                    paused: true,
                    events: old(self)@.events.push(Event::Paused(Paused {  })),
                    ..old(self)@
                }
            } else {
                old(self)@
            }),
    {
        match self.ensure_owner(ctx) {
            Ok(_) => {},
            Err(e) => {
                return Err(e);
            },
        }
        self.paused = true;
        self.events.push(Event::Paused(Paused {  }));
        Ok(())
    }

    /// Allows trading again. Owner only.
    pub fn unpause(&mut self, ctx: &Context) -> (r: Result<(), Error>)
        ensures
            r == owner_only(old(self)@, *ctx),
            final(self)@ == (if r is Ok {
                OtcState {
                    paused: false,
                    events: old(self)@.events.push(Event::Unpaused(Unpaused {  })),
                    ..old(self)@
                }
            } else {
                old(self)@
            }),
    {
        match self.ensure_owner(ctx) {
            Ok(_) => {},
            Err(e) => {
                return Err(e);
            },
        }
        self.paused = false;
        self.events.push(Event::Unpaused(Unpaused {  }));
        Ok(())
    }

    /// Unstakes the alpha that exceeds the reservations on a subnet and sends the native tokens
    /// that came of it to `recipient`. Owner only; without excess nothing happens.
    ///
    /// The native balance cannot fail to be read, so its two replies are amounts.
    pub fn claim_excess_alpha(
        &mut self,
        ctx: &Context,
        netuid: u16,
        recipient: AccountId,
        replies: &Vec<Reply>,
    ) -> (step: Step<(), Error>)
        requires
            replies@.len() > 1 ==> replies@[1] is Amount,
            replies@.len() > 3 ==> replies@[3] is Amount,
        ensures
            step == claim_step(old(self)@, *ctx, netuid, recipient, replies@),
            final(self)@ == (if step matches Step::Done(Ok(_)) {
                claim_next(old(self)@, netuid, recipient, replies@)
            } else {
                old(self)@
            }),
    {
        match self.ensure_owner(ctx) {
            Ok(_) => {},
            Err(e) => {
                return Step::Done(Err(e));
            },
        }
        if replies.len() == 0 {
            return Step::Call(
                Call::StakeInfo { hotkey: self.hotkey, coldkey: ctx.contract, netuid },
            );
        }
        let current_stake: Balance = match self.get_contract_stake(&replies[0]) {
            Ok(v) => v,
            Err(e) => {
                return Step::Done(Err(e));
            },
        };
        let total_reserved: Balance = self.get_reserved_alpha(netuid);
        if current_stake <= total_reserved {
            return Step::Done(Ok(()));
        }
        let excess: Balance = current_stake - total_reserved;
        if replies.len() == 1 {
            return Step::Call(Call::NativeBalance);
        }
        if replies.len() == 2 {
            return Step::Call(Call::RemoveStake { hotkey: self.hotkey, netuid, amount: excess });
        }
        if matches!(replies[2], Reply::Failed) {
            return Step::Done(Err(Error::ChainExtensionFailed));
        }
        if replies.len() == 3 {
            return Step::Call(Call::NativeBalance);
        }
        let (before, after): (u64, u64) = match (amount_in(&replies[1]), amount_in(&replies[3])) {
            (Some(b), Some(a)) => (b, a),
            _ => {
                assert(false);
                (0, 0)
            },
        };
        if after < before {
            return Step::Done(Err(Error::ArithmeticError));
        }
        let tao_received: Balance = after - before;
        let mut writes: Vec<Write<Error>> = Vec::new();
        if tao_received > 0 {
            writes.push(
                Write {
                    call: Call::NativeTransfer { to: recipient, amount: tao_received },
                    on_failure: Error::TransferFailed,
                },
            );
        }
        assert(writes@ =~= (if tao_received > 0 {
            seq![
                Write {
                    call: Call::NativeTransfer { to: recipient, amount: tao_received },
                    on_failure: Error::TransferFailed,
                },
            ]
        } else {
            seq![]
        }));
        let step = run_to_end(&writes, replies, 4, Ok(()));
        if let Step::Done(Ok(_)) = &step {
            self.events.push(
                Event::ExcessAlphaClaimed(
                    ExcessAlphaClaimed { netuid, excess_alpha: excess, tao_received, recipient },
                ),
            );
        }
        step
    }

    /// The available stake in the chain's reply.
    fn get_contract_stake(&self, reply: &Reply) -> (r: Result<Balance, Error>)
        ensures
            r == (match reply_stake(*reply) {
                None => Err(Error::ChainExtensionFailed),
                Some(info) => available_stake(info),
            }),
    {
        match stake_in(reply) {
            None => Err(Error::ChainExtensionFailed),
            Some(None) => Err(Error::NoAlphaStakeFound),
            Some(Some(info)) => if info.stake < info.locked {
                Err(Error::ArithmeticError)
            } else {
                Ok(info.stake - info.locked)
            },
        }
    }

    fn ensure_owner(&self, ctx: &Context) -> (r: Result<(), Error>)
        ensures
            r == owner_only(self@, *ctx),
    {
        if ctx.caller != self.owner {
            return Err(Error::NotOwner);
        }
        Ok(())
    }

    /// The order with this ID.
    pub fn get_order(&self, order_id: u64) -> (order: Option<Order>)
        ensures
            order == (if self@.orders.contains_key(order_id) {
                Some(self@.orders[order_id])
            } else {
                None
            }),
    {
        match self.orders.get(&order_id) {
            Some(o) => Some(*o),
            None => None,
        }
    }

    /// The ID that the next order gets.
    pub fn get_next_order_id(&self) -> (id: u64)
        ensures
            id == self@.next_order_id,
    {
        self.next_order_id
    }

    pub fn owner(&self) -> (owner: AccountId)
        ensures
            owner == self@.owner,
    {
        self.owner
    }

    /// The hotkey under which the contract's alpha is staked.
    pub fn hotkey(&self) -> (hotkey: AccountId)
        ensures
            hotkey == self@.hotkey,
    {
        self.hotkey
    }

    pub fn is_paused(&self) -> (paused: bool)
        ensures
            paused == self@.paused,
    {
        self.paused
    }

    /// The fee rate in basis points.
    pub fn fee_rate_bps(&self) -> (bps: u32)
        ensures
            bps == bps_or_zero(self@.fee_rate),
    {
        match self.fee_rate.to_basis_points() {
            Some(bps) => bps,
            None => 0,
        }
    }

    /// Hands over the events so far and starts a new log.
    pub fn take_events(&mut self) -> (events: Vec<Event>)
        ensures
            events@ == old(self)@.events,
            final(self)@ == (OtcState { events: Seq::empty(), ..old(self)@ }),
    {
        let mut events: Vec<Event> = Vec::new();
        std::mem::swap(&mut events, &mut self.events);
        events
    }
}

} // verus!
