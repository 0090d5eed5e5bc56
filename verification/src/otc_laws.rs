//! What holds of the marketplace as a whole.
use vstd::prelude::*;
use crate::account::{AccountId, Balance};
use crate::host::{
    conclude, law_progress_complete, progress, reply_amount, reply_stake, Call, Context, Reply, Step,
    Write,
};
use crate::otc::{
    alpha_pull, alpha_transfer, available_stake, backing, cancel_next, cancel_step, claim_step,
    covers, create_next, create_step, fee_on, fulfill_next, fulfill_step, fulfill_writes,
    initial_otc_state, locked_by, payment, pull_writes, quote, released, reserved_on, send_writes,
    Collateral, Error, Event, Order, OrderSide, OrderStatus, OtcState, Terms,
};
use crate::ratio::{Ratio, RATIO_ONE};

verus! {

/// The alpha that one order keeps reserved on a subnet.
pub open spec fn reserved_by(orders: Map<u64, Order>, id: u64, netuid: u16) -> int {
    if orders.contains_key(id) && orders[id].status == OrderStatus::Active && orders[id].side
        == OrderSide::Sell && orders[id].netuid == netuid {
        orders[id].alpha_amount as int
    } else {
        0
    }
}

/// The alpha that the orders below `n` keep reserved on a subnet.
pub open spec fn reserved_below(orders: Map<u64, Order>, n: nat, netuid: u16) -> int
    decreases n,
{
    if n == 0 {
        0
    } else {
        reserved_below(orders, (n - 1) as nat, netuid) + reserved_by(orders, (n - 1) as u64, netuid)
    }
}

/// Whether an order is an open Buy order.
pub open spec fn open_buy(orders: Map<u64, Order>, id: u64) -> bool {
    orders.contains_key(id) && orders[id].status == OrderStatus::Active && orders[id].side
        == OrderSide::Buy
}

/// Every stored order carries its own ID, was given out, and trades something; the alpha booked
/// as reserved on each subnet is what the active Sell orders hold there; and collateral is locked
/// for exactly the active Buy orders.
pub open spec fn otc_inv(s: OtcState) -> bool {
    &&& forall|id: u64|
        #[trigger] s.orders.contains_key(id) ==> id < s.next_order_id && s.orders[id].id == id
            && s.orders[id].alpha_amount > 0 && s.orders[id].price_bps > 0
    &&& forall|netuid: u16|
        #[trigger] reserved_on(s, netuid) == reserved_below(
            s.orders,
            s.next_order_id as nat,
            netuid,
        )
    &&& forall|id: u64| #[trigger] s.locked.contains_key(id) <==> open_buy(s.orders, id)
}

proof fn lemma_below_nonnegative(orders: Map<u64, Order>, n: nat, netuid: u16)
    ensures
        reserved_below(orders, n, netuid) >= 0,
    decreases n,
{
    if n > 0 {
        lemma_below_nonnegative(orders, (n - 1) as nat, netuid);
    }
}

proof fn lemma_below_update(orders: Map<u64, Order>, id: u64, order: Order, n: nat, netuid: u16)
    requires
        n <= u64::MAX,
    ensures
        reserved_below(orders.insert(id, order), n, netuid) == reserved_below(orders, n, netuid) + (
        if id < n {
            reserved_by(orders.insert(id, order), id, netuid) - reserved_by(orders, id, netuid)
        } else {
            0
        }),
    decreases n,
{
    if n > 0 {
        lemma_below_update(orders, id, order, (n - 1) as nat, netuid);
        let last = (n - 1) as u64;
        if id != last {
            assert(reserved_by(orders.insert(id, order), last, netuid) == reserved_by(
                orders,
                last,
                netuid,
            ));
        }
    }
}

proof fn lemma_one_below(orders: Map<u64, Order>, id: u64, n: nat, netuid: u16)
    requires
        id < n <= u64::MAX,
    ensures
        reserved_by(orders, id, netuid) <= reserved_below(orders, n, netuid),
    decreases n,
{
    lemma_below_nonnegative(orders, (n - 1) as nat, netuid);
    if id < n - 1 {
        lemma_one_below(orders, id, (n - 1) as nat, netuid);
    }
}

/// A fresh marketplace is consistent.
pub proof fn law_new_is_consistent(
    owner: AccountId,
    hotkey: AccountId,
    token: AccountId,
    fee_rate_bps: u32,
)
    ensures
        otc_inv(initial_otc_state(owner, hotkey, token, fee_rate_bps)),
        initial_otc_state(owner, hotkey, token, fee_rate_bps).fee_rate.inner <= RATIO_ONE,
{
    let s = initial_otc_state(owner, hotkey, token, fee_rate_bps);
    assert forall|netuid: u16| #[trigger] reserved_on(s, netuid) == reserved_below(
        s.orders,
        s.next_order_id as nat,
        netuid,
    ) by {
        assert(reserved_below(s.orders, 0, netuid) == 0);
    }
}

/// Creating an order keeps the marketplace consistent.
pub proof fn law_create_keeps_consistency(
    s: OtcState,
    ctx: Context,
    t: Terms,
    replies: Seq<Reply>,
)
    requires
        otc_inv(s),
        create_step(s, ctx, t, replies) matches Step::Done(Ok(_)),
    ensures
        otc_inv(create_next(s, ctx, t, replies)),
{
    let s2 = create_next(s, ctx, t, replies);
    let id = s.next_order_id;
    assert(!s.orders.contains_key(id));
    assert(t.side == OrderSide::Sell ==> reserved_on(s, t.netuid) + t.alpha_amount <= Balance::MAX);
    assert forall|netuid: u16| #[trigger] reserved_on(s2, netuid) == reserved_below(
        s2.orders,
        s2.next_order_id as nat,
        netuid,
    ) by {
        lemma_below_update(s.orders, id, s2.orders[id], id as nat, netuid);
        assert(reserved_below(s2.orders, (id + 1) as nat, netuid) == reserved_below(
            s2.orders,
            id as nat,
            netuid,
        ) + reserved_by(s2.orders, id, netuid));
        assert(reserved_on(s, netuid) == reserved_below(s.orders, id as nat, netuid));
    }
}

proof fn lemma_close_keeps(s: OtcState, s2: OtcState, id: u64, status: OrderStatus)
    requires
        otc_inv(s),
        s.orders.contains_key(id),
        s.orders[id].status == OrderStatus::Active,
        status != OrderStatus::Active,
        s2.orders == s.orders.insert(id, Order { status, ..s.orders[id] }),
        s2.reserved == released(s, s.orders[id]),
        s2.locked == s.locked.remove(id),
        s2.next_order_id == s.next_order_id,
    ensures
        otc_inv(s2),
{
    let order = s.orders[id];
    if order.side == OrderSide::Sell {
        law_reservation_covers_order(s, id);
    }
    assert forall|netuid: u16| #[trigger] reserved_on(s2, netuid) == reserved_below(
        s2.orders,
        s2.next_order_id as nat,
        netuid,
    ) by {
        lemma_below_update(s.orders, id, s2.orders[id], s.next_order_id as nat, netuid);
        assert(reserved_on(s, netuid) == reserved_below(s.orders, s.next_order_id as nat, netuid));
    }
}

/// Fulfilling an order keeps the marketplace consistent.
pub proof fn law_fulfill_keeps_consistency(
    s: OtcState,
    ctx: Context,
    order_id: u64,
    replies: Seq<Reply>,
)
    requires
        otc_inv(s),
        fulfill_step(s, ctx, order_id, replies) matches Step::Done(Ok(_)),
    ensures
        otc_inv(fulfill_next(s, ctx, order_id)),
{
    lemma_close_keeps(s, fulfill_next(s, ctx, order_id), order_id, OrderStatus::Fulfilled);
}

/// Cancelling an order keeps the marketplace consistent.
pub proof fn law_cancel_keeps_consistency(
    s: OtcState,
    ctx: Context,
    order_id: u64,
    replies: Seq<Reply>,
)
    requires
        otc_inv(s),
        cancel_step(s, ctx, order_id, replies) matches Step::Done(Ok(_)),
    ensures
        otc_inv(cancel_next(s, order_id)),
{
    lemma_close_keeps(s, cancel_next(s, order_id), order_id, OrderStatus::Cancelled);
}

/// The alpha of an active Sell order is always covered by the reservation on its subnet, so
/// releasing it cannot underflow.
pub proof fn law_reservation_covers_order(s: OtcState, order_id: u64)
    requires
        otc_inv(s),
        s.orders.contains_key(order_id),
        s.orders[order_id].status == OrderStatus::Active,
        s.orders[order_id].side == OrderSide::Sell,
    ensures
        reserved_on(s, s.orders[order_id].netuid) >= s.orders[order_id].alpha_amount,
{
    let netuid = s.orders[order_id].netuid;
    lemma_one_below(s.orders, order_id, s.next_order_id as nat, netuid);
    assert(reserved_on(s, netuid) == reserved_below(s.orders, s.next_order_id as nat, netuid));
}

/// What a later state owes to an earlier one: an order that was given out keeps its terms; while
/// it is open it keeps the collateral that it locked, and once closed it keeps its status. The
/// token stays the same.
pub open spec fn follows(s: OtcState, t: OtcState) -> bool {
    &&& s.next_order_id <= t.next_order_id
    &&& s.token == t.token
    &&& forall|id: u64| #[trigger]
        s.locked.contains_key(id) && open_buy(t.orders, id) ==> t.locked.contains_key(id)
            && t.locked[id] == s.locked[id]
    &&& forall|id: u64| #[trigger]
        s.orders.contains_key(id) ==> t.orders.contains_key(id) && t.orders[id] == (Order {
            status: t.orders[id].status,
            ..s.orders[id]
        }) && (s.orders[id].status == OrderStatus::Active || t.orders[id].status
            == s.orders[id].status)
}

/// The relation between earlier and later states composes.
pub proof fn law_follows_composes(s: OtcState, t: OtcState, u: OtcState)
    requires
        otc_inv(s),
        follows(s, t),
        follows(t, u),
    ensures
        follows(s, s),
        follows(s, u),
{
    assert forall|id: u64| #[trigger] s.orders.contains_key(id) implies u.orders.contains_key(id)
        && u.orders[id] == (Order { status: u.orders[id].status, ..s.orders[id] }) && (
    s.orders[id].status == OrderStatus::Active || u.orders[id].status == s.orders[id].status) by {
        assert(t.orders.contains_key(id));
    }
    assert forall|id: u64| #[trigger] s.locked.contains_key(id) && open_buy(
        u.orders,
        id,
    ) implies u.locked.contains_key(id) && u.locked[id] == s.locked[id] by {
        assert(open_buy(s.orders, id));
        assert(t.orders.contains_key(id));
        assert(open_buy(t.orders, id));
    }
}

/// Every message leads to a state that follows the one before. What the owner sets touches no
/// order.
pub proof fn law_operations_follow(
    s: OtcState,
    ctx: Context,
    t: Terms,
    order_id: u64,
    replies: Seq<Reply>,
    owner: AccountId,
    fee_rate: Ratio,
    paused: bool,
    events: Seq<Event>,
)
    requires
        otc_inv(s),
    ensures
        follows(s, (OtcState { owner, fee_rate, paused, events, ..s })),
        create_step(s, ctx, t, replies) matches Step::Done(Ok(_)) ==> follows(
            s,
            create_next(s, ctx, t, replies),
        ),
        fulfill_step(s, ctx, order_id, replies) matches Step::Done(Ok(_)) ==> follows(
            s,
            fulfill_next(s, ctx, order_id),
        ),
        cancel_step(s, ctx, order_id, replies) matches Step::Done(Ok(_)) ==> follows(
            s,
            cancel_next(s, order_id),
        ),
{
    assert(!s.orders.contains_key(s.next_order_id));
}

/// An order is fulfilled only when every transfer of the swap succeeded; until then it stays as
/// it is.
pub proof fn law_fulfilled_means_transferred(
    s: OtcState,
    ctx: Context,
    order_id: u64,
    replies: Seq<Reply>,
)
    requires
        fulfill_step(s, ctx, order_id, replies) matches Step::Done(Ok(_)),
    ensures
        ({
            let order = s.orders[order_id];
            &&& reply_amount(replies[0]) matches Some(price) && quote(
                price,
                order.price_bps,
                order.alpha_amount,
            ) matches Some(amount) && fee_on(s.fee_rate, amount) matches Some(fee) && {
                let writes = fulfill_writes(s, ctx, order, amount, fee);
                forall|j: nat|
                    j < writes.len() ==> 1 + j < replies.len() && !(#[trigger] replies[(1
                        + j) as int] is Failed)
            }
        }),
{
    let order = s.orders[order_id];
    let amount = quote(
        reply_amount(replies[0])->0,
        order.price_bps,
        order.alpha_amount,
    )->0;
    let fee = fee_on(s.fee_rate, amount)->0;
    law_progress_complete(fulfill_writes(s, ctx, order, amount, fee), replies, 1, 0);
}

/// A closed order stays closed: no message on it succeeds or makes an outside call.
pub proof fn law_closed_orders_are_final(
    s: OtcState,
    ctx: Context,
    order_id: u64,
    replies: Seq<Reply>,
)
    requires
        s.orders.contains_key(order_id),
        s.orders[order_id].status != OrderStatus::Active,
    ensures
        fulfill_step(s, ctx, order_id, replies) matches Step::Done(Err(_)),
        cancel_step(s, ctx, order_id, replies) matches Step::Done(Err(_)),
{
}

/// Only the maker cancels an order, and the maker never fulfills it.
pub proof fn law_roles(s: OtcState, ctx: Context, order_id: u64, replies: Seq<Reply>)
    ensures
        cancel_step(s, ctx, order_id, replies) matches Step::Done(Ok(_)) ==> ctx.caller
            == s.orders[order_id].maker,
        fulfill_step(s, ctx, order_id, replies) matches Step::Done(Ok(_)) ==> ctx.caller
            != s.orders[order_id].maker,
{
}

/// While the contract is paused no order is created or fulfilled, and no outside call is made
/// to that end.
pub proof fn law_pause_blocks_trading(
    s: OtcState,
    ctx: Context,
    t: Terms,
    order_id: u64,
    replies: Seq<Reply>,
)
    requires
        s.paused,
    ensures
        create_step(s, ctx, t, replies) == Step::<u64, Error>::Done(Err(Error::ContractPaused)),
        fulfill_step(s, ctx, order_id, replies) == Step::<(), Error>::Done(
            Err(Error::ContractPaused),
        ),
{
}

/// A message on one order leaves every other order, and what it locked, as it was.
pub proof fn law_other_orders_untouched(
    s: OtcState,
    ctx: Context,
    t: Terms,
    replies: Seq<Reply>,
    order_id: u64,
    other: u64,
)
    requires
        other != order_id,
        s.orders.contains_key(other),
    ensures
        fulfill_next(s, ctx, order_id).orders[other] == s.orders[other],
        cancel_next(s, order_id).orders[other] == s.orders[other],
        other != s.next_order_id ==> create_next(s, ctx, t, replies).orders[other]
            == s.orders[other],
        locked_by(fulfill_next(s, ctx, order_id), other) == locked_by(s, other),
        locked_by(cancel_next(s, order_id), other) == locked_by(s, other),
        other != s.next_order_id ==> locked_by(create_next(s, ctx, t, replies), other) == locked_by(
            s,
            other,
        ),
{
}

/// Cancelling an order right after creating it leaves the reservations and the locked collateral
/// as they were.
pub proof fn law_cancel_undoes_create(
    s: OtcState,
    ctx: Context,
    t: Terms,
    replies: Seq<Reply>,
    netuid: u16,
)
    requires
        otc_inv(s),
        create_step(s, ctx, t, replies) matches Step::Done(Ok(_)),
    ensures
        ({
            let after = cancel_next(create_next(s, ctx, t, replies), s.next_order_id);
            &&& reserved_on(after, netuid) == reserved_on(s, netuid)
            &&& after.locked == s.locked
        }),
{
    let after = cancel_next(create_next(s, ctx, t, replies), s.next_order_id);
    assert(t.side == OrderSide::Sell ==> reserved_on(s, t.netuid) + t.alpha_amount <= Balance::MAX);
    assert(!s.orders.contains_key(s.next_order_id));
    assert(!s.locked.contains_key(s.next_order_id));
    assert(after.locked =~= s.locked);
}

/// A Buy order that pulled collateral in when it was created gives back exactly that collateral
/// when its maker cancels it, however long after and whatever alpha costs by then: creating and
/// cancelling neither gains nor loses.
pub proof fn law_cancel_returns_what_was_locked(
    s: OtcState,
    ctx: Context,
    t: Terms,
    replies: Seq<Reply>,
    later: OtcState,
    again: Context,
    reply: Reply,
)
    requires
        t.side == OrderSide::Buy,
        create_step(s, ctx, t, replies) matches Step::Done(Ok(_)),
        follows(create_next(s, ctx, t, replies), later),
        later.orders[s.next_order_id].status == OrderStatus::Active,
        again.caller == ctx.caller,
        !(reply is Failed),
    ensures
        ({
            let locked = backing(t, replies);
            &&& create_step(s, ctx, t, replies) == conclude(
                pull_writes(s, ctx, t.collateral, locked),
                replies,
                1,
                Ok(s.next_order_id),
            )
            &&& covers(ctx, t.collateral, locked)
            &&& cancel_step(later, again, s.next_order_id, seq![]) == Step::<(), Error>::Call(
                payment(s, t.collateral, ctx.caller, locked).call,
            )
            &&& cancel_step(later, again, s.next_order_id, seq![reply]) == Step::<(), Error>::Done(
                Ok(()),
            )
        }),
{
    let created = create_next(s, ctx, t, replies);
    let id = s.next_order_id;
    assert(created.orders.contains_key(id));
    assert(created.locked.contains_key(id));
    assert(open_buy(later.orders, id));
    reveal_with_fuel(progress, 3);
}

/// What a list of calls pays out of the contract.
pub open spec fn total_paid(writes: Seq<Write<Error>>) -> int
    decreases writes.len(),
{
    if writes.len() == 0 {
        0
    } else {
        total_paid(writes.drop_last()) + (match writes.last().call {
            Call::TokenTransfer { amount, .. } => amount as int,
            Call::NativeTransfer { amount, .. } => amount as int,
            _ => 0,
        })
    }
}

/// The recipient's payment and the owner's fee together are what the taker owed.
pub proof fn law_settlement_conserves(
    s: OtcState,
    kind: Collateral,
    recipient: AccountId,
    amount: Balance,
    fee: Balance,
)
    requires
        fee <= amount,
    ensures
        total_paid(send_writes(s, kind, recipient, amount, fee)) == amount,
{
    let writes = send_writes(s, kind, recipient, amount, fee);
    let net = (amount - fee) as Balance;
    reveal_with_fuel(total_paid, 3);
    if net > 0 && fee > 0 {
        assert(writes =~= seq![payment(s, kind, recipient, net), payment(s, kind, s.owner, fee)]);
        assert(writes.drop_last() =~= seq![payment(s, kind, recipient, net)]);
        assert(writes.drop_last().drop_last() =~= seq![]);
    } else if net > 0 {
        assert(writes =~= seq![payment(s, kind, recipient, net)]);
        assert(writes.drop_last() =~= seq![]);
    } else if fee > 0 {
        assert(writes =~= seq![payment(s, kind, s.owner, fee)]);
        assert(writes.drop_last() =~= seq![]);
    }
}

/// Alpha of the contract that a list of calls hands out.
pub open spec fn alpha_paid(writes: Seq<Write<Error>>) -> int
    decreases writes.len(),
{
    if writes.len() == 0 {
        0
    } else {
        alpha_paid(writes.drop_last()) + (match writes.last().call {
            Call::TransferStake { amount, .. } => amount as int,
            _ => 0,
        })
    }
}

proof fn lemma_paid_adds(a: Seq<Write<Error>>, b: Seq<Write<Error>>)
    ensures
        total_paid(a + b) == total_paid(a) + total_paid(b),
        alpha_paid(a + b) == alpha_paid(a) + alpha_paid(b),
    decreases b.len(),
{
    if b.len() == 0 {
        assert(a + b =~= a);
    } else {
        lemma_paid_adds(a, b.drop_last());
        assert((a + b).drop_last() =~= a + b.drop_last());
    }
}

proof fn lemma_send_pays_no_alpha(
    s: OtcState,
    kind: Collateral,
    recipient: AccountId,
    amount: Balance,
    fee: Balance,
)
    requires
        fee <= amount,
    ensures
        alpha_paid(send_writes(s, kind, recipient, amount, fee)) == 0,
{
    let net = (amount - fee) as Balance;
    let a = if net > 0 {
        seq![payment(s, kind, recipient, net)]
    } else {
        seq![]
    };
    let b = if fee > 0 {
        seq![payment(s, kind, s.owner, fee)]
    } else {
        seq![]
    };
    lemma_paid_adds(a, b);
    reveal_with_fuel(alpha_paid, 2);
    assert(a.len() > 0 ==> a.drop_last() =~= seq![]);
    assert(b.len() > 0 ==> b.drop_last() =~= seq![]);
}

/// A fulfilled order swaps exactly its alpha for exactly its price: the contract hands out the
/// order's alpha and the quoted amount, fee included.
pub proof fn law_swap_conserves(
    s: OtcState,
    ctx: Context,
    order: Order,
    amount: Balance,
    fee: Balance,
)
    requires
        fee <= amount,
    ensures
        total_paid(fulfill_writes(s, ctx, order, amount, fee)) == amount,
        alpha_paid(fulfill_writes(s, ctx, order, amount, fee)) == order.alpha_amount,
{
    reveal_with_fuel(total_paid, 3);
    reveal_with_fuel(alpha_paid, 3);
    match order.side {
        OrderSide::Sell => {
            let pull = pull_writes(s, ctx, order.counter_collateral, amount);
            let hand = seq![alpha_transfer(s, order.netuid, ctx.caller, order.alpha_amount)];
            let send = send_writes(s, order.counter_collateral, order.maker, amount, fee);
            lemma_paid_adds(pull, hand);
            lemma_paid_adds(pull + hand, send);
            law_settlement_conserves(s, order.counter_collateral, order.maker, amount, fee);
            lemma_send_pays_no_alpha(s, order.counter_collateral, order.maker, amount, fee);
            assert(pull.len() > 0 ==> pull.drop_last() =~= seq![]);
            assert(hand.drop_last() =~= seq![]);
        },
        OrderSide::Buy => {
            let pull = alpha_pull(s, ctx, order.netuid, order.alpha_amount);
            let hand = alpha_transfer(s, order.netuid, order.maker, order.alpha_amount);
            let send = send_writes(s, order.collateral, ctx.caller, amount, fee);
            lemma_paid_adds(seq![pull, hand], send);
            law_settlement_conserves(s, order.collateral, ctx.caller, amount, fee);
            lemma_send_pays_no_alpha(s, order.collateral, ctx.caller, amount, fee);
            assert(seq![pull, hand].drop_last() =~= seq![pull]);
            assert(seq![pull].drop_last() =~= seq![]);
        },
    }
}

/// At a rate of at most 100% there is always a fee, and it never exceeds the amount.
pub proof fn law_fee_within_amount(rate: Ratio, amount: Balance)
    requires
        rate.inner <= RATIO_ONE,
    ensures
        fee_on(rate, amount) matches Some(fee) && fee <= amount,
{
    assert(rate.inner * amount <= RATIO_ONE * amount) by (nonlinear_arith)
        requires
            rate.inner <= RATIO_ONE,
            amount >= 0,
    ;
    assert(rate.inner * amount / RATIO_ONE as int <= amount);
    assert(rate.inner * amount / RATIO_ONE as int >= 0) by (nonlinear_arith)
        requires
            rate.inner >= 0,
            amount >= 0,
            RATIO_ONE == 1_000_000_000_000_000_000,
    ;
}

/// A claim unstakes exactly what is available beyond the reservations, so what stays staked
/// still covers every active Sell order.
pub proof fn law_claim_leaves_reservations(
    s: OtcState,
    ctx: Context,
    netuid: u16,
    recipient: AccountId,
    replies: Seq<Reply>,
)
    ensures
        claim_step(s, ctx, netuid, recipient, replies) matches Step::Call(
            Call::RemoveStake { hotkey, netuid: n, amount },
        ) ==> hotkey == s.hotkey && n == netuid && ctx.caller == s.owner && available_stake(
            reply_stake(replies[0])->0,
        )->Ok_0 - amount == reserved_on(s, netuid),
{
    reveal_with_fuel(progress, 2);
}

} // verus!
