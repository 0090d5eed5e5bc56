//! What the marketplace's messages bring about: what an order costs, who is paid, whose alpha
//! moves, and what is on record afterwards.
use vstd::prelude::*;
use crate::account::{AccountId, Balance};
use crate::fixed_point::{is_floor, lemma_division_rounds_down};
use crate::host::{conclude, fail, progress, Call, Context, Reply, StakeInfo, Step};
use crate::otc::{
    alpha_pull, alpha_transfer, bps_or_zero, cancel_next, cancel_step, claim_next, claim_step,
    create_next, create_outcome, create_step, fee_on, fulfill_next, fulfill_outcome, fulfill_step,
    fulfill_writes, initial_otc_state, locked_by, owner_only, payment, pull_writes, quote,
    Collateral, Error, Event, ExcessAlphaClaimed, Order, OrderCancelled, OrderCreated,
    OrderFulfilled, OrderSide, OrderStatus, OtcState, Terms,
};
use crate::ratio::Ratio;
use crate::trace::{
    alpha_pulled, alpha_to, alpha_unstaked, calls_in, calls_of, lemma_calls_of_writes,
    lemma_failed_write, lemma_total_adds, lemma_total_of_five, lemma_total_of_one,
    lemma_total_only_if, moved, native_to, only_if, tokens_pulled, tokens_to, total,
};

verus! {

/// `cost` is what `alpha` alpha cost when one alpha trades at `price_rao` rao and `price_bps`
/// basis points of that are asked. A unit price is in rao for `10^9` of alpha's smallest unit.
pub open spec fn costs(price_rao: int, price_bps: int, alpha: int, cost: int) -> bool {
    exists|unit: int| #[trigger]
        is_floor(unit, price_rao * price_bps, 10_000) && is_floor(
            cost,
            alpha * unit,
            1_000_000_000,
        )
}

/// A quote is the asked share of the market price for the order's alpha. It never asks for more
/// than the exact price, falls short of it by less than one rao per alpha and one rao in all, and
/// is absent only where the price exceeds every balance.
pub proof fn law_quote_is_the_price_asked(
    alpha_price_rao: u64,
    price_bps: u32,
    alpha_amount: Balance,
)
    ensures
        match quote(alpha_price_rao, price_bps, alpha_amount) {
            Some(q) => {
                let exact = alpha_amount * alpha_price_rao * price_bps;
                &&& costs(alpha_price_rao as int, price_bps as int, alpha_amount as int, q as int)
                &&& q * 10_000 * 1_000_000_000 <= exact
                &&& exact - q * 10_000 * 1_000_000_000 < alpha_amount * 10_000 + 10_000
                    * 1_000_000_000
            },
            None => exists|q: int| #[trigger]
                costs(alpha_price_rao as int, price_bps as int, alpha_amount as int, q) && q
                    > 0xffff_ffff_ffff_ffff,
        },
{
    let a = alpha_amount as int;
    let p = alpha_price_rao as int;
    let b = price_bps as int;
    let unit = p * b / 10_000;
    let q = a * unit / 1_000_000_000;
    lemma_division_rounds_down(p * b, 10_000);
    lemma_division_rounds_down(a * unit, 1_000_000_000);
    assert(p * b >= 0) by (nonlinear_arith)
        requires
            p >= 0,
            b >= 0,
    ;
    assert(a * unit >= 0) by (nonlinear_arith)
        requires
            a >= 0,
            unit >= 0,
    ;
    assert(is_floor(unit, p * b, 10_000));
    assert(costs(p, b, a, q));
    let slack = p * b - unit * 10_000;
    assert(a * p * b == a * unit * 10_000 + a * slack) by (nonlinear_arith)
        requires
            slack == p * b - unit * 10_000,
    ;
    assert(0 <= a * slack <= a * 10_000) by (nonlinear_arith)
        requires
            0 <= slack < 10_000,
            a >= 0,
    ;
}

/// The price of an order is unique, and it grows with the market price, with the asked share and
/// with the amount.
pub proof fn law_price_is_monotone(
    price_rao: int,
    price_bps: int,
    alpha: int,
    cost: int,
    price_rao2: int,
    price_bps2: int,
    alpha2: int,
    cost2: int,
)
    requires
        costs(price_rao, price_bps, alpha, cost),
        costs(price_rao2, price_bps2, alpha2, cost2),
        0 <= price_rao <= price_rao2,
        0 <= price_bps <= price_bps2,
        0 <= alpha <= alpha2,
    ensures
        cost <= cost2,
        price_rao == price_rao2 && price_bps == price_bps2 && alpha == alpha2 ==> cost == cost2,
{
    let u = choose|unit: int| #[trigger]
        is_floor(unit, price_rao * price_bps, 10_000) && is_floor(
            cost,
            alpha * unit,
            1_000_000_000,
        );
    let v = choose|unit: int| #[trigger]
        is_floor(unit, price_rao2 * price_bps2, 10_000) && is_floor(
            cost2,
            alpha2 * unit,
            1_000_000_000,
        );
    assert(0 <= price_rao * price_bps <= price_rao2 * price_bps2) by (nonlinear_arith)
        requires
            0 <= price_rao <= price_rao2,
            0 <= price_bps <= price_bps2,
    ;
    lemma_division_rounds_down(price_rao * price_bps, 10_000);
    lemma_division_rounds_down(price_rao2 * price_bps2, 10_000);
    assert(0 <= u <= v);
    assert(alpha * u <= alpha2 * v) by (nonlinear_arith)
        requires
            0 <= alpha <= alpha2,
            0 <= u <= v,
    ;
    lemma_division_rounds_down(alpha * u, 1_000_000_000);
    lemma_division_rounds_down(alpha2 * v, 1_000_000_000);
}

/// The fee on an amount is the rate's share of it, rounded down; it is absent only where the
/// share exceeds every balance.
pub proof fn law_fee_is_the_share(rate: Ratio, amount: Balance)
    ensures
        match fee_on(rate, amount) {
            Some(fee) => is_floor(fee as int, rate.inner * amount, 1_000_000_000_000_000_000),
            None => rate.inner * amount >= 0x1_0000_0000_0000_0000int * 1_000_000_000_000_000_000,
        },
{
    let product = rate.inner * amount;
    assert(product >= 0) by (nonlinear_arith)
        requires
            product == rate.inner * amount,
            rate.inner >= 0,
            amount >= 0,
    ;
    lemma_division_rounds_down(product, 1_000_000_000_000_000_000);
}

/// `fulfill_order` on an order, by the replies so far.
pub open spec fn fulfilling(s: OtcState, ctx: Context, order_id: u64) -> spec_fn(
    Seq<Reply>,
) -> Step<(), Error> {
    |replies: Seq<Reply>| fulfill_step(s, ctx, order_id, replies)
}

/// `create_order` with given terms, by the replies so far.
pub open spec fn creating(s: OtcState, ctx: Context, t: Terms) -> spec_fn(Seq<Reply>) -> Step<
    u64,
    Error,
> {
    |replies: Seq<Reply>| create_step(s, ctx, t, replies)
}

/// `cancel_order` on an order, by the replies so far.
pub open spec fn cancelling(s: OtcState, ctx: Context, order_id: u64) -> spec_fn(
    Seq<Reply>,
) -> Step<(), Error> {
    |replies: Seq<Reply>| cancel_step(s, ctx, order_id, replies)
}

/// `claim_excess_alpha`, by the replies so far.
pub open spec fn claiming(
    s: OtcState,
    ctx: Context,
    netuid: u16,
    recipient: AccountId,
) -> spec_fn(Seq<Reply>) -> Step<(), Error> {
    |replies: Seq<Reply>| claim_step(s, ctx, netuid, recipient, replies)
}

/// What `who` gets of a settlement of `amount`: the recipient gets it less the fee, the owner
/// gets the fee.
pub open spec fn share_of_settlement(
    who: AccountId,
    recipient: AccountId,
    owner: AccountId,
    amount: int,
    fee: int,
) -> int {
    (if who == recipient {
        amount - fee
    } else {
        0
    }) + (if who == owner {
        fee
    } else {
        0
    })
}

proof fn lemma_fulfilled_calls(
    s: OtcState,
    ctx: Context,
    order_id: u64,
    replies: Seq<Reply>,
) -> (r: (Balance, Balance))
    requires
        fulfill_step(s, ctx, order_id, replies) == Step::<(), Error>::Done(Ok(())),
    ensures
        replies.len() > 0,
        replies[0] is Amount,
        quote(
            replies[0]->Amount_0,
            s.orders[order_id].price_bps,
            s.orders[order_id].alpha_amount,
        ) == Some(r.0),
        fee_on(s.fee_rate, r.0) == Some(r.1),
        r.1 <= r.0,
        calls_of(fulfilling(s, ctx, order_id), replies) == seq![
            Call::AlphaPrice { netuid: s.orders[order_id].netuid },
        ] + calls_in(fulfill_writes(s, ctx, s.orders[order_id], r.0, r.1)),
        s.orders[order_id].side == OrderSide::Sell && s.orders[order_id].counter_collateral
            == Collateral::Native ==> ctx.transferred_value >= r.0,
{
    let order = s.orders[order_id];
    let price = replies[0]->Amount_0;
    let amount = quote(price, order.price_bps, order.alpha_amount)->0;
    let fee = fee_on(s.fee_rate, amount)->0;
    let step = fulfilling(s, ctx, order_id);
    let writes = fulfill_writes(s, ctx, order, amount, fee);
    let outcome = fulfill_outcome(s, order, amount, fee);
    assert forall|k: int| 1 <= k <= replies.len() implies step(#[trigger] replies.take(k))
        == conclude(writes, replies.take(k), 1, outcome) by {
        assert(replies.take(k)[0] == replies[0]);
    }
    assert(replies.take(replies.len() as int) =~= replies);
    lemma_calls_of_writes(step, writes, replies, 1, outcome);
    assert(replies.take(1).drop_last() =~= Seq::<Reply>::empty());
    assert(calls_of(step, Seq::<Reply>::empty()) =~= seq![]);
    assert(calls_of(step, replies.take(1)) =~= seq![Call::AlphaPrice { netuid: order.netuid }]);
    (amount, fee)
}

/// A fulfilled Sell order: the taker gives the price in the asked collateral, the maker gets it
/// less the fee, the owner gets the fee, the order's alpha goes to the taker, and nothing else
/// moves. The price is the order's share of the market price that was read.
pub proof fn law_fulfilled_sell_pays_the_maker(
    s: OtcState,
    ctx: Context,
    order_id: u64,
    replies: Seq<Reply>,
    who: AccountId,
) -> (settled: (int, int))
    requires
        fulfill_step(s, ctx, order_id, replies) == Step::<(), Error>::Done(Ok(())),
        s.orders[order_id].side == OrderSide::Sell,
    ensures
        ({
            let order = s.orders[order_id];
            let (amount, fee) = settled;
            let calls = calls_of(fulfilling(s, ctx, order_id), replies);
            let share = share_of_settlement(who, order.maker, s.owner, amount, fee);
            &&& replies[0] is Amount
            &&& costs(
                replies[0]->Amount_0 as int,
                order.price_bps as int,
                order.alpha_amount as int,
                amount,
            )
            &&& is_floor(fee, s.fee_rate.inner * amount, 1_000_000_000_000_000_000)
            &&& 0 <= fee <= amount
            &&& order.counter_collateral == Collateral::Tusdt ==> {
                &&& total(calls, tokens_to(s.token, who)) == share
                &&& total(calls, native_to(who)) == 0
                &&& total(calls, tokens_pulled(s.token, ctx.caller, ctx.contract)) == amount
                &&& total(calls, moved()) == 2 * amount + order.alpha_amount
            }
            &&& order.counter_collateral == Collateral::Native ==> {
                &&& total(calls, native_to(who)) == share
                &&& total(calls, tokens_to(s.token, who)) == 0
                &&& ctx.transferred_value >= amount
                &&& total(calls, moved()) == amount + order.alpha_amount
            }
            &&& total(calls, alpha_to(s.hotkey, order.netuid, who)) == if who == ctx.caller {
                order.alpha_amount as int
            } else {
                0
            }
            &&& calls[0] == Call::AlphaPrice { netuid: order.netuid }
        }),
{
    let order = s.orders[order_id];
    let (amount, fee) = lemma_fulfilled_calls(s, ctx, order_id, replies);
    law_quote_is_the_price_asked(replies[0]->Amount_0, order.price_bps, order.alpha_amount);
    law_fee_is_the_share(s.fee_rate, amount);
    let calls = calls_of(fulfilling(s, ctx, order_id), replies);
    let kind = order.counter_collateral;
    let net = (amount - fee) as Balance;
    let first = Call::AlphaPrice { netuid: order.netuid };
    let made = (kind == Collateral::Tusdt, true, net > 0, fee > 0);
    let rest = (
        Call::TokenTransferFrom { token: s.token, from: ctx.caller, to: ctx.contract, amount },
        Call::TransferStake {
            destination: ctx.caller,
            hotkey: s.hotkey,
            origin_netuid: order.netuid,
            destination_netuid: order.netuid,
            amount: order.alpha_amount,
        },
        match kind {
            Collateral::Tusdt => Call::TokenTransfer { token: s.token, to: order.maker, amount: net },
            Collateral::Native => Call::NativeTransfer { to: order.maker, amount: net },
        },
        match kind {
            Collateral::Tusdt => Call::TokenTransfer { token: s.token, to: s.owner, amount: fee },
            Collateral::Native => Call::NativeTransfer { to: s.owner, amount: fee },
        },
    );
    let parts = seq![first] + only_if(made.0, rest.0) + only_if(made.1, rest.1) + only_if(
        made.2,
        rest.2,
    ) + only_if(made.3, rest.3);
    assert(calls =~= parts);
    lemma_total_of_five(calls, first, made, rest, tokens_to(s.token, who));
    lemma_total_of_five(calls, first, made, rest, native_to(who));
    lemma_total_of_five(calls, first, made, rest, tokens_pulled(s.token, ctx.caller, ctx.contract));
    lemma_total_of_five(calls, first, made, rest, alpha_to(s.hotkey, order.netuid, who));
    lemma_total_of_five(calls, first, made, rest, moved());
    (amount as int, fee as int)
}

/// In every fulfilled Sell order a maker other than the owner is paid the price less the fee, and
/// the owner is paid the fee, in the collateral that the order asks for.
pub proof fn law_fulfilled_sell_pays_price_less_fee(
    s: OtcState,
    ctx: Context,
    order_id: u64,
    replies: Seq<Reply>,
) -> (settled: (int, int))
    requires
        fulfill_step(s, ctx, order_id, replies) == Step::<(), Error>::Done(Ok(())),
        s.orders[order_id].side == OrderSide::Sell,
        s.orders[order_id].maker != s.owner,
    ensures
        ({
            let order = s.orders[order_id];
            let (amount, fee) = settled;
            let calls = calls_of(fulfilling(s, ctx, order_id), replies);
            let exact = order.alpha_amount * replies[0]->Amount_0 * order.price_bps;
            &&& 0 <= fee <= amount
            &&& fee * 1_000_000_000_000_000_000 <= s.fee_rate.inner * amount < (fee + 1)
                * 1_000_000_000_000_000_000
            &&& amount * 10_000 * 1_000_000_000 <= exact
            &&& exact - amount * 10_000 * 1_000_000_000 < order.alpha_amount * 10_000 + 10_000
                * 1_000_000_000
            &&& order.counter_collateral == Collateral::Tusdt ==> {
                &&& total(calls, tokens_to(s.token, order.maker)) == amount - fee
                &&& total(calls, tokens_to(s.token, s.owner)) == fee
            }
            &&& order.counter_collateral == Collateral::Native ==> {
                &&& total(calls, native_to(order.maker)) == amount - fee
                &&& total(calls, native_to(s.owner)) == fee
            }
        }),
{
    let order = s.orders[order_id];
    let settled = law_fulfilled_sell_pays_the_maker(s, ctx, order_id, replies, order.maker);
    let again = law_fulfilled_sell_pays_the_maker(s, ctx, order_id, replies, s.owner);
    let p = replies[0]->Amount_0 as int;
    let b = order.price_bps as int;
    let a = order.alpha_amount as int;
    law_price_is_monotone(p, b, a, settled.0, p, b, a, again.0);
    lemma_division_rounds_down(s.fee_rate.inner * settled.0, 1_000_000_000_000_000_000);
    let (amount, fee) = lemma_fulfilled_calls(s, ctx, order_id, replies);
    law_quote_is_the_price_asked(replies[0]->Amount_0, order.price_bps, order.alpha_amount);
    law_price_is_monotone(p, b, a, settled.0, p, b, a, amount as int);
    settled
}

/// A fulfilled Buy order: the taker gives the order's alpha, which goes to the maker; the taker
/// gets the price in the order's collateral less the fee, the owner gets the fee, and nothing
/// else moves.
pub proof fn law_fulfilled_buy_pays_the_taker(
    s: OtcState,
    ctx: Context,
    order_id: u64,
    replies: Seq<Reply>,
    who: AccountId,
) -> (settled: (int, int))
    requires
        fulfill_step(s, ctx, order_id, replies) == Step::<(), Error>::Done(Ok(())),
        s.orders[order_id].side == OrderSide::Buy,
    ensures
        ({
            let order = s.orders[order_id];
            let (amount, fee) = settled;
            let calls = calls_of(fulfilling(s, ctx, order_id), replies);
            let share = share_of_settlement(who, ctx.caller, s.owner, amount, fee);
            &&& replies[0] is Amount
            &&& costs(
                replies[0]->Amount_0 as int,
                order.price_bps as int,
                order.alpha_amount as int,
                amount,
            )
            &&& is_floor(fee, s.fee_rate.inner * amount, 1_000_000_000_000_000_000)
            &&& 0 <= fee <= amount
            &&& order.collateral == Collateral::Tusdt ==> {
                &&& total(calls, tokens_to(s.token, who)) == share
                &&& total(calls, native_to(who)) == 0
            }
            &&& order.collateral == Collateral::Native ==> {
                &&& total(calls, native_to(who)) == share
                &&& total(calls, tokens_to(s.token, who)) == 0
            }
            &&& total(calls, alpha_pulled(s.hotkey, order.netuid, ctx.contract))
                == order.alpha_amount
            &&& total(calls, alpha_to(s.hotkey, order.netuid, who)) == if who == order.maker {
                order.alpha_amount as int
            } else {
                0
            }
            &&& total(calls, moved()) == amount + 2 * order.alpha_amount
            &&& calls[0] == Call::AlphaPrice { netuid: order.netuid }
        }),
{
    let order = s.orders[order_id];
    let (amount, fee) = lemma_fulfilled_calls(s, ctx, order_id, replies);
    law_quote_is_the_price_asked(replies[0]->Amount_0, order.price_bps, order.alpha_amount);
    law_fee_is_the_share(s.fee_rate, amount);
    let calls = calls_of(fulfilling(s, ctx, order_id), replies);
    let kind = order.collateral;
    let net = (amount - fee) as Balance;
    let first = Call::AlphaPrice { netuid: order.netuid };
    let made = (true, true, net > 0, fee > 0);
    let rest = (
        Call::CallerTransferStake {
            destination: ctx.contract,
            hotkey: s.hotkey,
            origin_netuid: order.netuid,
            destination_netuid: order.netuid,
            amount: order.alpha_amount,
        },
        Call::TransferStake {
            destination: order.maker,
            hotkey: s.hotkey,
            origin_netuid: order.netuid,
            destination_netuid: order.netuid,
            amount: order.alpha_amount,
        },
        match kind {
            Collateral::Tusdt => Call::TokenTransfer { token: s.token, to: ctx.caller, amount: net },
            Collateral::Native => Call::NativeTransfer { to: ctx.caller, amount: net },
        },
        match kind {
            Collateral::Tusdt => Call::TokenTransfer { token: s.token, to: s.owner, amount: fee },
            Collateral::Native => Call::NativeTransfer { to: s.owner, amount: fee },
        },
    );
    let parts = seq![first] + only_if(made.0, rest.0) + only_if(made.1, rest.1) + only_if(
        made.2,
        rest.2,
    ) + only_if(made.3, rest.3);
    assert(calls =~= parts);
    lemma_total_of_five(calls, first, made, rest, tokens_to(s.token, who));
    lemma_total_of_five(calls, first, made, rest, native_to(who));
    lemma_total_of_five(
        calls,
        first,
        made,
        rest,
        alpha_pulled(s.hotkey, order.netuid, ctx.contract),
    );
    lemma_total_of_five(calls, first, made, rest, alpha_to(s.hotkey, order.netuid, who));
    lemma_total_of_five(calls, first, made, rest, moved());
    (amount as int, fee as int)
}

/// A new Sell order takes its alpha from the caller into the contract, and nothing else moves.
pub proof fn law_created_sell_takes_the_alpha(
    s: OtcState,
    ctx: Context,
    t: Terms,
    replies: Seq<Reply>,
)
    requires
        create_step(s, ctx, t, replies) is Done,
        create_step(s, ctx, t, replies)->Done_0 is Ok,
        t.side == OrderSide::Sell,
    ensures
        ({
            let calls = calls_of(creating(s, ctx, t), replies);
            &&& create_step(s, ctx, t, replies)->Done_0->Ok_0 == s.next_order_id
            &&& total(calls, alpha_pulled(s.hotkey, t.netuid, ctx.contract)) == t.alpha_amount
            &&& total(calls, moved()) == t.alpha_amount
        }),
{
    let step = creating(s, ctx, t);
    let pull = alpha_pull(s, ctx, t.netuid, t.alpha_amount);
    let writes = seq![pull];
    let outcome = create_outcome(s, t);
    assert forall|k: int| 0 <= k <= replies.len() implies step(#[trigger] replies.take(k))
        == conclude(writes, replies.take(k), 0, outcome) by {}
    assert(replies.take(replies.len() as int) =~= replies);
    lemma_calls_of_writes(step, writes, replies, 0, outcome);
    assert(replies.take(0) =~= Seq::<Reply>::empty());
    assert(calls_of(step, replies.take(0)) =~= seq![]);
    assert(calls_of(step, replies) =~= seq![pull.call]);
    lemma_total_of_one(pull.call, alpha_pulled(s.hotkey, t.netuid, ctx.contract));
    lemma_total_of_one(pull.call, moved());
}

/// A new Buy order takes its price at the market price that was read, in the collateral that the
/// maker offers, and puts exactly that on record as locked. Nothing else moves.
pub proof fn law_created_buy_takes_the_price(
    s: OtcState,
    ctx: Context,
    t: Terms,
    replies: Seq<Reply>,
) -> (amount: int)
    requires
        create_step(s, ctx, t, replies) is Done,
        create_step(s, ctx, t, replies)->Done_0 is Ok,
        t.side == OrderSide::Buy,
    ensures
        ({
            let calls = calls_of(creating(s, ctx, t), replies);
            let next = create_next(s, ctx, t, replies);
            &&& create_step(s, ctx, t, replies)->Done_0->Ok_0 == s.next_order_id
            &&& replies[0] is Amount
            &&& costs(
                replies[0]->Amount_0 as int,
                t.price_bps as int,
                t.alpha_amount as int,
                amount,
            )
            &&& calls[0] == Call::AlphaPrice { netuid: t.netuid }
            &&& t.collateral == Collateral::Tusdt ==> {
                &&& total(calls, tokens_pulled(s.token, ctx.caller, ctx.contract)) == amount
                &&& total(calls, moved()) == amount
            }
            &&& t.collateral == Collateral::Native ==> {
                &&& ctx.transferred_value >= amount
                &&& total(calls, moved()) == 0
            }
            &&& next.locked.contains_key(s.next_order_id)
            &&& next.locked[s.next_order_id] == amount
        }),
{
    let step = creating(s, ctx, t);
    let price = replies[0]->Amount_0;
    let amount = quote(price, t.price_bps, t.alpha_amount)->0;
    law_quote_is_the_price_asked(price, t.price_bps, t.alpha_amount);
    let writes = pull_writes(s, ctx, t.collateral, amount);
    let outcome = create_outcome(s, t);
    assert forall|k: int| 1 <= k <= replies.len() implies step(#[trigger] replies.take(k))
        == conclude(writes, replies.take(k), 1, outcome) by {
        assert(replies.take(k)[0] == replies[0]);
    }
    assert(replies.take(replies.len() as int) =~= replies);
    lemma_calls_of_writes(step, writes, replies, 1, outcome);
    assert(replies.take(1).drop_last() =~= Seq::<Reply>::empty());
    assert(calls_of(step, Seq::<Reply>::empty()) =~= seq![]);
    let first = Call::AlphaPrice { netuid: t.netuid };
    assert(calls_of(step, replies.take(1)) =~= seq![first]);
    let pull = Call::TokenTransferFrom {
        token: s.token,
        from: ctx.caller,
        to: ctx.contract,
        amount,
    };
    let pulls = t.collateral == Collateral::Tusdt;
    let of = tokens_pulled(s.token, ctx.caller, ctx.contract);
    assert(calls_of(step, replies) =~= seq![first] + only_if(pulls, pull));
    lemma_total_adds(seq![first], only_if(pulls, pull), of);
    lemma_total_of_one(first, of);
    lemma_total_only_if(pulls, pull, of);
    lemma_total_adds(seq![first], only_if(pulls, pull), moved());
    lemma_total_of_one(first, moved());
    lemma_total_only_if(pulls, pull, moved());
    amount as int
}

/// A cancelled order gives back what it held, to its maker: a Sell order its alpha, a Buy order
/// what was locked for it. Nothing else moves.
pub proof fn law_cancelled_gives_back(
    s: OtcState,
    ctx: Context,
    order_id: u64,
    replies: Seq<Reply>,
    who: AccountId,
)
    requires
        cancel_step(s, ctx, order_id, replies) == Step::<(), Error>::Done(Ok(())),
    ensures
        ({
            let order = s.orders[order_id];
            let calls = calls_of(cancelling(s, ctx, order_id), replies);
            let held = if s.locked.contains_key(order_id) {
                s.locked[order_id] as int
            } else {
                0
            };
            &&& ctx.caller == order.maker
            &&& order.side == OrderSide::Sell ==> {
                &&& total(calls, alpha_to(s.hotkey, order.netuid, who)) == if who == order.maker {
                    order.alpha_amount as int
                } else {
                    0
                }
                &&& total(calls, moved()) == order.alpha_amount
            }
            &&& order.side == OrderSide::Buy ==> {
                &&& total(calls, moved()) == held
                &&& order.collateral == Collateral::Tusdt ==> total(
                    calls,
                    tokens_to(s.token, who),
                ) == if who == order.maker {
                    held
                } else {
                    0
                }
                &&& order.collateral == Collateral::Native ==> total(calls, native_to(who))
                    == if who == order.maker {
                    held
                } else {
                    0
                }
            }
        }),
{
    let order = s.orders[order_id];
    let step = cancelling(s, ctx, order_id);
    let write = if order.side == OrderSide::Sell {
        alpha_transfer(s, order.netuid, order.maker, order.alpha_amount)
    } else {
        payment(s, order.collateral, order.maker, locked_by(s, order_id))
    };
    let writes = seq![write];
    assert forall|k: int| 0 <= k <= replies.len() implies step(#[trigger] replies.take(k))
        == conclude(writes, replies.take(k), 0, Ok::<(), Error>(())) by {}
    assert(replies.take(replies.len() as int) =~= replies);
    lemma_calls_of_writes(step, writes, replies, 0, Ok::<(), Error>(()));
    assert(replies.take(0) =~= Seq::<Reply>::empty());
    assert(calls_of(step, replies.take(0)) =~= seq![]);
    assert(calls_of(step, replies) =~= seq![write.call]);
    lemma_total_of_one(write.call, alpha_to(s.hotkey, order.netuid, who));
    lemma_total_of_one(write.call, tokens_to(s.token, who));
    lemma_total_of_one(write.call, native_to(who));
    lemma_total_of_one(write.call, moved());
}

/// A claim by the owner unstakes what the contract can move beyond the reserved alpha, and sends
/// what its native balance gained by that to the recipient. Nothing else moves, and where there is
/// no excess nothing moves at all.
pub proof fn law_claim_sends_the_gain(
    s: OtcState,
    ctx: Context,
    netuid: u16,
    recipient: AccountId,
    replies: Seq<Reply>,
    info: StakeInfo,
    who: AccountId,
)
    requires
        claim_step(s, ctx, netuid, recipient, replies) == Step::<(), Error>::Done(Ok(())),
        replies[0] == Reply::Stake(Some(info)),
    ensures
        ({
            let calls = calls_of(claiming(s, ctx, netuid, recipient), replies);
            let reserved = if s.reserved.contains_key(netuid) {
                s.reserved[netuid] as int
            } else {
                0
            };
            let excess = info.stake - info.locked - reserved;
            let gain = replies[3]->Amount_0 - replies[1]->Amount_0;
            let event = Event::ExcessAlphaClaimed(
                ExcessAlphaClaimed {
                    netuid,
                    excess_alpha: excess as Balance,
                    tao_received: gain as Balance,
                    recipient,
                },
            );
            let next = claim_next(s, netuid, recipient, replies);
            &&& ctx.caller == s.owner
            &&& calls[0] == (Call::StakeInfo { hotkey: s.hotkey, coldkey: ctx.contract, netuid })
            &&& excess <= 0 ==> total(calls, moved()) == 0 && next == s
            &&& excess > 0 ==> {
                &&& calls[1] is NativeBalance
                &&& calls[3] is NativeBalance
                &&& gain >= 0
                &&& total(calls, alpha_unstaked(s.hotkey, netuid)) == excess
                &&& total(calls, native_to(who)) == if who == recipient {
                    gain
                } else {
                    0
                }
                &&& total(calls, moved()) == excess + gain
                &&& next == OtcState { events: s.events.push(event), ..s }
            }
        }),
{
    reveal_with_fuel(progress, 2);
    let step = claiming(s, ctx, netuid, recipient);
    let reserved = if s.reserved.contains_key(netuid) {
        s.reserved[netuid] as int
    } else {
        0
    };
    let excess = info.stake - info.locked - reserved;
    let gain = replies[3]->Amount_0 - replies[1]->Amount_0;
    let read = Call::StakeInfo { hotkey: s.hotkey, coldkey: ctx.contract, netuid };
    let unstake = Call::RemoveStake { hotkey: s.hotkey, netuid, amount: excess as Balance };
    let send = Call::NativeTransfer { to: recipient, amount: gain as Balance };
    let calls = calls_of(step, replies);
    assert(calls_of(step, Seq::<Reply>::empty()) =~= seq![]);
    assert(replies.take(1).drop_last() =~= Seq::<Reply>::empty());
    assert(replies.take(0) =~= Seq::<Reply>::empty());
    assert(calls_of(step, replies.take(1)) =~= seq![read]);
    assert(replies.take(replies.len() as int) =~= replies);
    if excess <= 0 {
        let none = Seq::<crate::host::Write<Error>>::empty();
        assert forall|k: int| 1 <= k <= replies.len() implies step(#[trigger] replies.take(k))
            == conclude(none, replies.take(k), 1, Ok::<(), Error>(())) by {
            assert(replies.take(k)[0] == replies[0]);
        }
        lemma_calls_of_writes(step, none, replies, 1, Ok::<(), Error>(()));
        assert(calls =~= seq![read]);
        lemma_total_of_one(read, moved());
    } else {
        assert(replies.take(2).drop_last() =~= replies.take(1));
        assert(replies.take(3).drop_last() =~= replies.take(2));
        assert(replies.take(4).drop_last() =~= replies.take(3));
        assert(replies.take(1)[0] == replies[0]);
        assert(replies.take(2)[0] == replies[0]);
        assert(replies.take(3)[0] == replies[0]);
        assert(replies.take(3)[2] == replies[2]);
        assert(calls_of(step, replies.take(2)) =~= seq![read, Call::NativeBalance]);
        assert(calls_of(step, replies.take(3)) =~= seq![read, Call::NativeBalance, unstake]);
        let lead = seq![read, Call::NativeBalance, unstake, Call::NativeBalance];
        assert(calls_of(step, replies.take(4)) =~= lead);
        let writes = if gain > 0 {
            seq![crate::host::Write { call: send, on_failure: Error::TransferFailed }]
        } else {
            seq![]
        };
        assert forall|k: int| 4 <= k <= replies.len() implies step(#[trigger] replies.take(k))
            == conclude(writes, replies.take(k), 4, Ok::<(), Error>(())) by {
            assert(replies.take(k)[0] == replies[0]);
            assert(replies.take(k)[1] == replies[1]);
            assert(replies.take(k)[2] == replies[2]);
            assert(replies.take(k)[3] == replies[3]);
        }
        lemma_calls_of_writes(step, writes, replies, 4, Ok::<(), Error>(()));
        let made = (true, true, true, gain > 0);
        let rest = (Call::NativeBalance, unstake, Call::NativeBalance, send);
        assert(calls =~= seq![read] + only_if(made.0, rest.0) + only_if(made.1, rest.1) + only_if(
            made.2,
            rest.2,
        ) + only_if(made.3, rest.3));
        lemma_total_of_five(calls, read, made, rest, alpha_unstaked(s.hotkey, netuid));
        lemma_total_of_five(calls, read, made, rest, native_to(who));
        lemma_total_of_five(calls, read, made, rest, moved());
    }
}

/// What the marketplace reports when a call fails: a failed payment is a failed transfer, any
/// other failure is one of the chain.
pub open spec fn failure_of(call: Call) -> Error {
    match call {
        Call::TokenTransfer { .. } => Error::TransferFailed,
        Call::TokenTransferFrom { .. } => Error::TransferFailed,
        Call::NativeTransfer { .. } => Error::TransferFailed,
        _ => Error::ChainExtensionFailed,
    }
}

/// A message whose call fails ends with that failure: no later call is made.
pub proof fn law_failed_call_ends_the_trade(
    s: OtcState,
    ctx: Context,
    t: Terms,
    order_id: u64,
    replies: Seq<Reply>,
    call: Call,
)
    ensures
        create_step(s, ctx, t, replies) == Step::<u64, Error>::Call(call) ==> create_step(
            s,
            ctx,
            t,
            replies.push(Reply::Failed),
        ) == fail::<u64, Error>(failure_of(call)),
        fulfill_step(s, ctx, order_id, replies) == Step::<(), Error>::Call(call) ==> fulfill_step(
            s,
            ctx,
            order_id,
            replies.push(Reply::Failed),
        ) == fail::<(), Error>(failure_of(call)),
        cancel_step(s, ctx, order_id, replies) == Step::<(), Error>::Call(call) ==> cancel_step(
            s,
            ctx,
            order_id,
            replies.push(Reply::Failed),
        ) == fail::<(), Error>(failure_of(call)),
{
    let longer = replies.push(Reply::Failed);
    assert(replies.len() > 0 ==> longer[0] == replies[0]);
    if create_step(s, ctx, t, replies) == Step::<u64, Error>::Call(call) {
        if t.side == OrderSide::Sell {
            let writes = seq![alpha_pull(s, ctx, t.netuid, t.alpha_amount)];
            let i = lemma_failed_write(writes, replies, 0, create_outcome(s, t), call);
        } else if replies.len() > 0 {
            let q = quote(replies[0]->Amount_0, t.price_bps, t.alpha_amount)->0;
            let writes = pull_writes(s, ctx, t.collateral, q);
            let i = lemma_failed_write(writes, replies, 1, create_outcome(s, t), call);
        }
    }
    let order = s.orders[order_id];
    if fulfill_step(s, ctx, order_id, replies) == Step::<(), Error>::Call(call) {
        if replies.len() > 0 {
            let q = quote(replies[0]->Amount_0, order.price_bps, order.alpha_amount)->0;
            let fee = fee_on(s.fee_rate, q)->0;
            let writes = fulfill_writes(s, ctx, order, q, fee);
            let i = lemma_failed_write(
                writes,
                replies,
                1,
                fulfill_outcome(s, order, q, fee),
                call,
            );
        }
    }
    if cancel_step(s, ctx, order_id, replies) == Step::<(), Error>::Call(call) {
        let write = if order.side == OrderSide::Sell {
            alpha_transfer(s, order.netuid, order.maker, order.alpha_amount)
        } else {
            payment(s, order.collateral, order.maker, locked_by(s, order_id))
        };
        let i = lemma_failed_write(seq![write], replies, 0, Ok::<(), Error>(()), call);
    }
}

/// Who can create an order: while trading is on, anyone with a price above zero, some alpha and,
/// for a Buy order, the collateral. With every call answered, nothing else stands in the way but
/// the limits of the counters.
pub proof fn law_create_is_open_to_all(s: OtcState, ctx: Context, t: Terms, price: u64)
    ensures
        ({
            let reserved = if s.reserved.contains_key(t.netuid) {
                s.reserved[t.netuid] as int
            } else {
                0
            };
            let open = !s.paused && t.price_bps > 0 && t.alpha_amount > 0 && s.next_order_id
                < 0xffff_ffff_ffff_ffff;
            &&& t.side == OrderSide::Sell ==> (create_step(s, ctx, t, seq![Reply::Done])
                == Step::<u64, Error>::Done(Ok(s.next_order_id)) <==> open && reserved
                + t.alpha_amount <= 0xffff_ffff_ffff_ffff)
            &&& t.side == OrderSide::Buy ==> (create_step(
                s,
                ctx,
                t,
                seq![Reply::Amount(price), Reply::Done],
            ) == Step::<u64, Error>::Done(Ok(s.next_order_id)) <==> open && exists|q: int|
                #[trigger] costs(price as int, t.price_bps as int, t.alpha_amount as int, q) && q
                    <= 0xffff_ffff_ffff_ffff && (t.collateral == Collateral::Tusdt || q
                    <= ctx.transferred_value))
        }),
{
    reveal_with_fuel(progress, 3);
    let p = price as int;
    let b = t.price_bps as int;
    let a = t.alpha_amount as int;
    law_quote_is_the_price_asked(price, t.price_bps, t.alpha_amount);
    let replies = seq![Reply::Amount(price), Reply::Done];
    assert(replies[0] == Reply::Amount(price));
    assert forall|q: int, r: int| #[trigger] costs(p, b, a, q) && #[trigger] costs(p, b, a, r) implies q
        == r by {
        law_price_is_monotone(p, b, a, q, p, b, a, r);
    }
    match quote(price, t.price_bps, t.alpha_amount) {
        Some(q) => {
            assert(costs(p, b, a, q as int));
        },
        None => {},
    }
}

/// Who can fulfill an order: while trading is on, anyone but the maker, once, if the taker brings
/// the asked collateral. With every call answered, nothing else stands in the way but a fee
/// above the amount and, for a Sell order, a missing reservation.
pub proof fn law_fulfill_is_open_to_takers(
    s: OtcState,
    ctx: Context,
    order_id: u64,
    price: u64,
    amount: int,
    fee: int,
)
    requires
        costs(
            price as int,
            s.orders[order_id].price_bps as int,
            s.orders[order_id].alpha_amount as int,
            amount,
        ),
        is_floor(fee, s.fee_rate.inner * amount, 1_000_000_000_000_000_000),
    ensures
        ({
            let order = s.orders[order_id];
            let reserved = if s.reserved.contains_key(order.netuid) {
                s.reserved[order.netuid] as int
            } else {
                0
            };
            let replies = seq![
                Reply::Amount(price),
                Reply::Done,
                Reply::Done,
                Reply::Done,
                Reply::Done,
            ];
            fulfill_step(s, ctx, order_id, replies) == Step::<(), Error>::Done(Ok(())) <==> {
                &&& !s.paused
                &&& s.orders.contains_key(order_id)
                &&& order.status == OrderStatus::Active
                &&& ctx.caller != order.maker
                &&& amount <= 0xffff_ffff_ffff_ffff
                &&& fee <= amount
                &&& order.side == OrderSide::Sell ==> {
                    &&& reserved >= order.alpha_amount
                    &&& order.counter_collateral == Collateral::Native ==> ctx.transferred_value
                        >= amount
                }
            }
        }),
{
    let order = s.orders[order_id];
    let p = price as int;
    let b = order.price_bps as int;
    let a = order.alpha_amount as int;
    law_quote_is_the_price_asked(price, order.price_bps, order.alpha_amount);
    let replies = seq![
        Reply::Amount(price),
        Reply::Done,
        Reply::Done,
        Reply::Done,
        Reply::Done,
    ];
    assert(replies[0] == Reply::Amount(price));
    assert forall|q: int| #[trigger] costs(p, b, a, q) implies q == amount by {
        law_price_is_monotone(p, b, a, q, p, b, a, amount);
    }
    match quote(price, order.price_bps, order.alpha_amount) {
        Some(q) => {
            law_fee_is_the_share(s.fee_rate, q);
            assert(amount == q);
            lemma_division_rounds_down(s.fee_rate.inner * amount, 1_000_000_000_000_000_000);
            match fee_on(s.fee_rate, q) {
                Some(f) => {
                    assert(fee == f);
                    let writes = fulfill_writes(s, ctx, order, q, f);
                    assert(writes.len() <= 4);
                    reveal_with_fuel(progress, 6);
                    assert(progress(writes, replies, 1, 0) is Complete);
                },
                None => {},
            }
        },
        None => {},
    }
}

/// Why a trade is refused, the first reason that holds.
pub proof fn law_refusals(s: OtcState, ctx: Context, t: Terms, order_id: u64, replies: Seq<Reply>)
    ensures
        s.paused ==> {
            &&& create_step(s, ctx, t, replies) == fail::<u64, Error>(Error::ContractPaused)
            &&& fulfill_step(s, ctx, order_id, replies) == fail::<(), Error>(Error::ContractPaused)
        },
        !s.paused && t.price_bps == 0 ==> create_step(s, ctx, t, replies) == fail::<u64, Error>(
            Error::InvalidPriceBps,
        ),
        !s.paused && t.price_bps > 0 && t.alpha_amount == 0 ==> create_step(s, ctx, t, replies)
            == fail::<u64, Error>(Error::InsufficientCollateral),
        !s.orders.contains_key(order_id) ==> {
            &&& !s.paused ==> fulfill_step(s, ctx, order_id, replies) == fail::<(), Error>(
                Error::OrderNotFound,
            )
            &&& cancel_step(s, ctx, order_id, replies) == fail::<(), Error>(Error::OrderNotFound)
        },
        s.orders.contains_key(order_id) ==> {
            let order = s.orders[order_id];
            &&& ctx.caller != order.maker ==> cancel_step(s, ctx, order_id, replies) == fail::<
                (),
                Error,
            >(Error::NotMaker)
            &&& ctx.caller == order.maker && order.status != OrderStatus::Active ==> cancel_step(
                s,
                ctx,
                order_id,
                replies,
            ) == fail::<(), Error>(Error::OrderNotActive)
            &&& !s.paused && order.status != OrderStatus::Active ==> fulfill_step(
                s,
                ctx,
                order_id,
                replies,
            ) == fail::<(), Error>(Error::OrderNotActive)
            &&& !s.paused && order.status == OrderStatus::Active && ctx.caller == order.maker
                ==> fulfill_step(s, ctx, order_id, replies) == fail::<(), Error>(
                Error::CannotFulfillOwnOrder,
            )
        },
{
}

/// What is on record after a new order: the order as its maker asked for it, under the next
/// identifier, and for a Sell order its alpha as reserved. Everything else stays.
pub proof fn law_created_order_is_recorded(
    s: OtcState,
    ctx: Context,
    t: Terms,
    replies: Seq<Reply>,
    id: u64,
    netuid: u16,
)
    requires
        s.next_order_id < u64::MAX,
        t.side == OrderSide::Sell && s.reserved.contains_key(t.netuid) ==> s.reserved[t.netuid]
            + t.alpha_amount <= u64::MAX,
    ensures
        ({
            let next = create_next(s, ctx, t, replies);
            let order = next.orders[s.next_order_id];
            let before = if s.reserved.contains_key(netuid) {
                s.reserved[netuid] as int
            } else {
                0
            };
            let after = if next.reserved.contains_key(netuid) {
                next.reserved[netuid] as int
            } else {
                0
            };
            &&& next.orders.contains_key(s.next_order_id)
            &&& order.id == s.next_order_id
            &&& order.maker == ctx.caller
            &&& order.netuid == t.netuid
            &&& order.side == t.side
            &&& order.collateral == t.collateral
            &&& order.counter_collateral == t.counter_collateral
            &&& order.price_bps == t.price_bps
            &&& order.alpha_amount == t.alpha_amount
            &&& order.status == OrderStatus::Active
            &&& order.created_at == ctx.now
            &&& id != s.next_order_id ==> next.orders.contains_key(id) == s.orders.contains_key(id)
                && next.orders[id] == s.orders[id] && next.locked.contains_key(id)
                == s.locked.contains_key(id) && next.locked[id] == s.locked[id]
            &&& next.next_order_id == s.next_order_id + 1
            &&& after == before + if t.side == OrderSide::Sell && netuid == t.netuid {
                t.alpha_amount as int
            } else {
                0
            }
            &&& t.side == OrderSide::Sell ==> next.locked == s.locked
            &&& next.events == s.events.push(
                Event::OrderCreated(
                    OrderCreated { order_id: s.next_order_id, maker: ctx.caller, side: t.side },
                ),
            )
            &&& next.owner == s.owner && next.hotkey == s.hotkey && next.token == s.token
            &&& next.fee_rate == s.fee_rate && next.paused == s.paused
        }),
{
}

/// What is on record after an order was fulfilled or cancelled: its new status, what it reserved
/// or locked is free again, and everything else stays.
pub proof fn law_closed_order_is_recorded(
    s: OtcState,
    ctx: Context,
    order_id: u64,
    id: u64,
    netuid: u16,
)
    requires
        s.orders[order_id].side == OrderSide::Sell ==> s.reserved.contains_key(
            s.orders[order_id].netuid,
        ) && s.reserved[s.orders[order_id].netuid] >= s.orders[order_id].alpha_amount,
    ensures
        ({
            let order = s.orders[order_id];
            let done = fulfill_next(s, ctx, order_id);
            let undone = cancel_next(s, order_id);
            let before = if s.reserved.contains_key(netuid) {
                s.reserved[netuid] as int
            } else {
                0
            };
            let after = if done.reserved.contains_key(netuid) {
                done.reserved[netuid] as int
            } else {
                0
            };
            &&& done.orders.contains_key(order_id) && undone.orders.contains_key(order_id)
            &&& done.orders[order_id].status == OrderStatus::Fulfilled
            &&& undone.orders[order_id].status == OrderStatus::Cancelled
            &&& done.orders[order_id] == Order { status: OrderStatus::Fulfilled, ..order }
            &&& undone.orders[order_id] == Order { status: OrderStatus::Cancelled, ..order }
            &&& id != order_id ==> done.orders.contains_key(id) == s.orders.contains_key(id)
                && done.orders[id] == s.orders[id] && done.locked.contains_key(id)
                == s.locked.contains_key(id) && done.locked[id] == s.locked[id]
            &&& id != order_id ==> undone.orders.contains_key(id) == s.orders.contains_key(id)
                && undone.orders[id] == s.orders[id] && undone.locked.contains_key(id)
                == s.locked.contains_key(id) && undone.locked[id] == s.locked[id]
            &&& !done.locked.contains_key(order_id) && !undone.locked.contains_key(order_id)
            &&& after == before - if order.side == OrderSide::Sell && netuid == order.netuid {
                order.alpha_amount as int
            } else {
                0
            }
            &&& undone.reserved == done.reserved
            &&& done.events == s.events.push(
                Event::OrderFulfilled(
                    OrderFulfilled { order_id, maker: order.maker, taker: ctx.caller },
                ),
            )
            &&& undone.events == s.events.push(
                Event::OrderCancelled(OrderCancelled { order_id, maker: order.maker }),
            )
            &&& done.owner == s.owner && done.hotkey == s.hotkey && done.token == s.token
            &&& done.fee_rate == s.fee_rate && done.paused == s.paused
            &&& done.next_order_id == s.next_order_id
            &&& undone.owner == s.owner && undone.hotkey == s.hotkey && undone.token == s.token
            &&& undone.fee_rate == s.fee_rate && undone.paused == s.paused
            &&& undone.next_order_id == s.next_order_id
        }),
{
}

/// A new marketplace trades at once, without orders, under the given roles, and takes the given
/// fee up to all of the amount.
pub proof fn law_new_marketplace(
    owner: AccountId,
    hotkey: AccountId,
    token: AccountId,
    fee_rate_bps: u32,
    amount: Balance,
)
    ensures
        ({
            let s = initial_otc_state(owner, hotkey, token, fee_rate_bps);
            let bps = if fee_rate_bps <= 10_000 {
                fee_rate_bps as int
            } else {
                10_000
            };
            &&& s.owner == owner && s.hotkey == hotkey && s.token == token
            &&& !s.paused && s.next_order_id == 0
            &&& s.orders == Map::<u64, Order>::empty() && s.events == Seq::<Event>::empty()
            &&& s.reserved == Map::<u16, Balance>::empty()
            &&& s.locked == Map::<u64, Balance>::empty()
            &&& fee_on(s.fee_rate, amount) is Some
            &&& is_floor(fee_on(s.fee_rate, amount)->0 as int, bps * amount, 10_000)
        }),
{
    let s = initial_otc_state(owner, hotkey, token, fee_rate_bps);
    let bps = if fee_rate_bps <= 10_000 {
        fee_rate_bps as int
    } else {
        10_000
    };
    assert(s.fee_rate.inner == bps * 100_000_000_000_000);
    law_fee_is_the_share(s.fee_rate, amount);
    assert(s.fee_rate.inner * amount == bps * amount * 100_000_000_000_000) by (nonlinear_arith)
        requires
            s.fee_rate.inner == bps * 100_000_000_000_000,
    ;
    assert(bps * amount <= 10_000 * amount) by (nonlinear_arith)
        requires
            bps <= 10_000,
            amount >= 0,
    ;
}

/// A claim is refused to all but the owner, without a stake record, and where more is locked than
/// staked; it starts with a read of the contract's own stake.
pub proof fn law_claim_refusals(
    s: OtcState,
    ctx: Context,
    netuid: u16,
    recipient: AccountId,
    replies: Seq<Reply>,
    info: StakeInfo,
)
    ensures
        ({
            let r = claim_step(s, ctx, netuid, recipient, replies);
            &&& ctx.caller != s.owner ==> r == fail::<(), Error>(Error::NotOwner)
            &&& ctx.caller == s.owner && replies.len() == 0 ==> r == Step::<(), Error>::Call(
                Call::StakeInfo { hotkey: s.hotkey, coldkey: ctx.contract, netuid },
            )
            &&& ctx.caller == s.owner && replies.len() > 0 ==> {
                &&& !(replies[0] is Stake) ==> r == fail::<(), Error>(Error::ChainExtensionFailed)
                &&& replies[0] == Reply::Stake(None) ==> r == fail::<(), Error>(
                    Error::NoAlphaStakeFound,
                )
                &&& replies[0] == Reply::Stake(Some(info)) && info.stake < info.locked ==> r
                    == fail::<(), Error>(Error::ArithmeticError)
                &&& replies[0] == Reply::Stake(Some(info)) && info.stake >= info.locked
                    && info.stake - info.locked > (if s.reserved.contains_key(netuid) {
                    s.reserved[netuid] as int
                } else {
                    0
                }) && replies.len() > 2 && replies[2] is Failed ==> r == fail::<(), Error>(
                    Error::ChainExtensionFailed,
                )
            }
        }),
{
}

/// A fee rate is read in whole basis points, rounded down; one of more basis points than can be
/// reported is read as zero. Only the owner may act as the owner.
pub proof fn law_fee_rate_in_basis_points(s: OtcState, ctx: Context, rate: Ratio)
    ensures
        ({
            let bps = bps_or_zero(rate);
            &&& rate.inner < 0x1_0000_0000int * 100_000_000_000_000 ==> is_floor(
                bps as int,
                rate.inner as int,
                100_000_000_000_000,
            )
            &&& rate.inner >= 0x1_0000_0000int * 100_000_000_000_000 ==> bps == 0
        }),
        owner_only(s, ctx) == if ctx.caller == s.owner {
            Ok::<(), Error>(())
        } else {
            Err(Error::NotOwner)
        },
{
    lemma_division_rounds_down(rate.inner as int, 100_000_000_000_000);
}

/// A maker can cancel an active order at any time, also while trading is off: with the call
/// answered, only a missing reservation of a Sell order stands in the way.
pub proof fn law_cancel_is_open_to_the_maker(
    s: OtcState,
    ctx: Context,
    order_id: u64,
    replies: Seq<Reply>,
)
    requires
        replies.len() > 0,
        !(replies[0] is Failed),
    ensures
        ({
            let order = s.orders[order_id];
            let reserved = if s.reserved.contains_key(order.netuid) {
                s.reserved[order.netuid] as int
            } else {
                0
            };
            cancel_step(s, ctx, order_id, replies) == Step::<(), Error>::Done(Ok(())) <==> {
                &&& s.orders.contains_key(order_id)
                &&& ctx.caller == order.maker
                &&& order.status == OrderStatus::Active
                &&& order.side == OrderSide::Sell ==> reserved >= order.alpha_amount
            }
        }),
{
    reveal_with_fuel(progress, 2);
}

/// A claim of the owner succeeds whenever its calls do and the balance did not shrink.
pub proof fn law_claim_is_open_to_the_owner(
    s: OtcState,
    ctx: Context,
    netuid: u16,
    recipient: AccountId,
    replies: Seq<Reply>,
    info: StakeInfo,
)
    requires
        ctx.caller == s.owner,
        replies.len() >= 5,
        replies[0] == Reply::Stake(Some(info)),
        info.stake >= info.locked,
        replies[1] is Amount,
        !(replies[2] is Failed),
        replies[3] is Amount,
        !(replies[4] is Failed),
    ensures
        replies[3]->Amount_0 >= replies[1]->Amount_0 ==> claim_step(
            s,
            ctx,
            netuid,
            recipient,
            replies,
        ) == Step::<(), Error>::Done(Ok(())),
        replies[3]->Amount_0 < replies[1]->Amount_0 && info.stake - info.locked > (
        if s.reserved.contains_key(netuid) {
            s.reserved[netuid] as int
        } else {
            0
        }) ==> claim_step(s, ctx, netuid, recipient, replies) == fail::<(), Error>(
            Error::ArithmeticError,
        ),
{
    reveal_with_fuel(progress, 2);
}

} // verus!
