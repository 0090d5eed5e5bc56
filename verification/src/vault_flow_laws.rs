//! What holds of the alpha vault's messages and of the money that they move.
use vstd::prelude::*;
use crate::account::{AccountId, Balance};
use crate::host::{progress, Call, Context, Reply, Step, Write};
use crate::lending::{
    debt_limit_of, law_accrual_within_time, law_payment_conserves, law_stricter_ratio_bears_less,
    law_weighted_time_between, payment_split, MILLISECONDS_PER_HOUR,
};
use crate::peers::AuctionRecord;
use crate::ratio::{Ratio, RATIO_ONE};
use crate::vault_alpha::{
    Error, Vault, VaultContractParams, VaultContractParamsConfig, VaultGlobalParamsConfig,
    CONTRACT_PARAMS_TIMELOCK_MS,
};
use crate::vault_alpha_model::{
    accrue_next, accrue_result, add_next, add_step, borrow_next, borrow_step, borrow_writes,
    caller_vault, claim_excess_next, claim_excess_step, collateral_on, config_of, create_next,
    create_step, deposit_result, execute_params_result, fee_of, global_config_of, globals_of,
    liquidatable, movable_stake, paid, params_cancelled, params_executed, params_of, params_on,
    params_scheduled, price_step, release_next, release_step, repay_next, repay_step, repay_writes,
    schedule_result, settle_next, settle_writes, trigger_next, trigger_step, with_interest,
    AlphaState,
};
use crate::vault_laws::{ratios_valid, same_books};

verus! {

// ── Money ───────────────────────────────────────────────────────────

/// TUSDT that a list of calls mints.
pub open spec fn minted(writes: Seq<Write<Error>>) -> int
    decreases writes.len(),
{
    if writes.len() == 0 {
        0
    } else {
        minted(writes.drop_last()) + match writes.last().call {
            Call::TokenMint { amount, .. } => amount as int,
            _ => 0,
        }
    }
}

/// TUSDT that a list of calls burns.
pub open spec fn burned(writes: Seq<Write<Error>>) -> int
    decreases writes.len(),
{
    if writes.len() == 0 {
        0
    } else {
        burned(writes.drop_last()) + match writes.last().call {
            Call::TokenBurn { amount, .. } => amount as int,
            _ => 0,
        }
    }
}

/// TUSDT of the contract that a list of calls sends out.
pub open spec fn tokens_sent(writes: Seq<Write<Error>>) -> int
    decreases writes.len(),
{
    if writes.len() == 0 {
        0
    } else {
        tokens_sent(writes.drop_last()) + match writes.last().call {
            Call::TokenTransfer { amount, .. } => amount as int,
            _ => 0,
        }
    }
}

/// Native tokens of the contract that a list of calls sends out.
pub open spec fn native_sent(writes: Seq<Write<Error>>) -> int
    decreases writes.len(),
{
    if writes.len() == 0 {
        0
    } else {
        native_sent(writes.drop_last()) + match writes.last().call {
            Call::NativeTransfer { amount, .. } => amount as int,
            _ => 0,
        }
    }
}

proof fn lemma_flows_add(a: Seq<Write<Error>>, b: Seq<Write<Error>>)
    ensures
        minted(a + b) == minted(a) + minted(b),
        burned(a + b) == burned(a) + burned(b),
        tokens_sent(a + b) == tokens_sent(a) + tokens_sent(b),
        native_sent(a + b) == native_sent(a) + native_sent(b),
    decreases b.len(),
{
    if b.len() == 0 {
        assert(a + b =~= a);
    } else {
        lemma_flows_add(a, b.drop_last());
        assert((a + b).drop_last() =~= a + b.drop_last());
        assert((a + b).last() == b.last());
    }
}

proof fn lemma_flow_of_one(w: Write<Error>)
    ensures
        minted(seq![w]) == (match w.call {
            Call::TokenMint { amount, .. } => amount as int,
            _ => 0,
        }),
        burned(seq![w]) == (match w.call {
            Call::TokenBurn { amount, .. } => amount as int,
            _ => 0,
        }),
        tokens_sent(seq![w]) == (match w.call {
            Call::TokenTransfer { amount, .. } => amount as int,
            _ => 0,
        }),
        native_sent(seq![w]) == (match w.call {
            Call::NativeTransfer { amount, .. } => amount as int,
            _ => 0,
        }),
{
    assert(seq![w].drop_last() =~= Seq::<Write<Error>>::empty());
    reveal_with_fuel(minted, 2);
    reveal_with_fuel(burned, 2);
    reveal_with_fuel(tokens_sent, 2);
    reveal_with_fuel(native_sent, 2);
}

proof fn lemma_flow_when_positive(amount: Balance, w: Write<Error>)
    requires
        match w.call {
            Call::TokenMint { amount: x, .. } => x == amount,
            Call::TokenTransfer { amount: x, .. } => x == amount,
            Call::NativeTransfer { amount: x, .. } => x == amount,
            _ => false,
        },
    ensures
        ({
            let ws = crate::vault_alpha_model::when_positive(amount, w);
            &&& burned(ws) == 0
            &&& minted(ws) == (if w.call is TokenMint {
                amount as int
            } else {
                0
            })
            &&& tokens_sent(ws) == (if w.call is TokenTransfer {
                amount as int
            } else {
                0
            })
            &&& native_sent(ws) == (if w.call is NativeTransfer {
                amount as int
            } else {
                0
            })
        }),
{
    lemma_flow_of_one(w);
}

/// A fee of at most 100% never exceeds the amount that it is taken from.
pub proof fn law_fee_within_amount(s: AlphaState, amount: Balance)
    requires
        s.global_params.transaction_fee.inner <= RATIO_ONE,
    ensures
        fee_of(s, amount) matches Some(fee) && fee <= amount,
{
    let rate = s.global_params.transaction_fee.inner;
    assert(0 <= rate * amount <= RATIO_ONE * amount) by (nonlinear_arith)
        requires
            0 <= rate <= RATIO_ONE,
            0 <= amount,
    ;
    assert(rate * amount / RATIO_ONE as int <= amount);
}

/// Borrowing mints exactly the amount that the debt grows by: the fee to the treasury, the rest
/// to the borrower.
pub proof fn law_borrow_mints_the_amount(
    s: AlphaState,
    borrower: AccountId,
    amount: Balance,
    fee: Balance,
)
    requires
        fee <= amount,
    ensures
        minted(borrow_writes(s, borrower, amount, fee)) == amount,
        burned(borrow_writes(s, borrower, amount, fee)) == 0,
{
    let net = (amount - fee) as Balance;
    let a = crate::vault_alpha_model::token_mint(s, borrower, net);
    let b = crate::vault_alpha_model::token_mint(s, s.treasury, fee);
    lemma_flow_when_positive(net, a);
    lemma_flow_when_positive(fee, b);
    lemma_flows_add(
        crate::vault_alpha_model::when_positive(net, a),
        crate::vault_alpha_model::when_positive(fee, b),
    );
}

/// Repaying takes exactly the principal in the payment out of circulation: the interest and the
/// fee are burned from the payer and minted to the treasury.
pub proof fn law_repay_burns_principal(
    s: AlphaState,
    payer: AccountId,
    v: Vault,
    amount: Balance,
    fee: Balance,
)
    requires
        v.borrowed_token_balance <= v.debt_balance,
        amount <= v.debt_balance,
        amount + fee <= Balance::MAX,
    ensures
        ({
            let p = payment_split(v.debt_balance, v.borrowed_token_balance, amount);
            let writes = repay_writes(s, payer, amount, fee, p.interest_payment);
            &&& burned(writes) == amount + fee
            &&& burned(writes) - minted(writes) == p.principal_payment
        }),
{
    let p = payment_split(v.debt_balance, v.borrowed_token_balance, amount);
    law_payment_conserves(v.debt_balance, v.borrowed_token_balance, amount);
    let mint = (p.interest_payment + fee) as Balance;
    let a = crate::vault_alpha_model::token_burn(s, payer, (amount + fee) as Balance);
    let b = crate::vault_alpha_model::token_mint(s, s.treasury, mint);
    lemma_flow_of_one(a);
    lemma_flow_when_positive(mint, b);
    lemma_flows_add(seq![a], crate::vault_alpha_model::when_positive(mint, b));
}

/// A settlement hands out exactly the collateral that was sold, and accounts for exactly the debt
/// that it clears: principal is burned and interest goes to the treasury.
pub proof fn law_settlement_conserves(
    s: AlphaState,
    ctx: Context,
    auction_id: u32,
    winner: AccountId,
    v: Vault,
    a: AuctionRecord,
    fee: Balance,
)
    requires
        v.borrowed_token_balance <= v.debt_balance,
        a.debt_balance <= v.debt_balance,
        fee <= a.collateral_balance,
    ensures
        ({
            let p = payment_split(v.debt_balance, v.borrowed_token_balance, a.debt_balance);
            let writes = settle_writes(
                s,
                ctx,
                auction_id,
                winner,
                a.collateral_balance,
                fee,
                p,
            );
            &&& native_sent(writes) == a.collateral_balance
            &&& burned(writes) == p.principal_payment
            &&& tokens_sent(writes) == p.interest_payment
            &&& burned(writes) + tokens_sent(writes) == a.debt_balance
            &&& minted(writes) == 0
        }),
{
    let p = payment_split(v.debt_balance, v.borrowed_token_balance, a.debt_balance);
    law_payment_conserves(v.debt_balance, v.borrowed_token_balance, a.debt_balance);
    let collect = Write {
        call: Call::AuctionTransferWinningBid { auction: s.auction, auction_id, to: ctx.contract },
        on_failure: Error::AuctionContractCallFailed,
    };
    let to_winner = (a.collateral_balance - fee) as Balance;
    let w1 = crate::vault_alpha_model::native_transfer(s.treasury, fee);
    let w2 = crate::vault_alpha_model::native_transfer(winner, to_winner);
    let w3 = crate::vault_alpha_model::token_burn(s, ctx.contract, p.principal_payment);
    let w4 = crate::vault_alpha_model::token_transfer(s, s.treasury, p.interest_payment);
    let s1 = crate::vault_alpha_model::when_positive(fee, w1);
    let s2 = crate::vault_alpha_model::when_positive(to_winner, w2);
    let s4 = crate::vault_alpha_model::when_positive(p.interest_payment, w4);
    lemma_flow_of_one(collect);
    lemma_flow_when_positive(fee, w1);
    lemma_flow_when_positive(to_winner, w2);
    lemma_flow_of_one(w3);
    lemma_flow_when_positive(p.interest_payment, w4);
    lemma_flows_add(seq![collect], s1);
    lemma_flows_add(seq![collect] + s1, s2);
    lemma_flows_add(seq![collect] + s1 + s2, seq![w3]);
    lemma_flows_add(seq![collect] + s1 + s2 + seq![w3], s4);
}

// ── Safety of debt ──────────────────────────────────────────────────

/// After a borrow the debt is within what the collateral bears at that price, and the vault
/// cannot be liquidated at that price.
pub proof fn law_borrow_is_safe(
    s: AlphaState,
    ctx: Context,
    vault_id: u32,
    amount: Balance,
    replies: Seq<Reply>,
    price: Ratio,
)
    requires
        amount > 0,
        s.vaults.contains_key((ctx.caller, vault_id)),
        ratios_valid(params_on(s, s.vaults[(ctx.caller, vault_id)].netuid)),
        borrow_step(s, ctx, vault_id, amount, replies) matches Step::Done(Ok(_)),
        price_step(s, ctx, s.vaults[(ctx.caller, vault_id)].netuid, replies, 0) == Step::<
            Ratio,
            Error,
        >::Done(Ok(price)),
    ensures
        ({
            let t = borrow_next(s, ctx, vault_id, amount);
            let v = t.vaults[(ctx.caller, vault_id)];
            &&& debt_limit_of(
                params_on(t, v.netuid).collateral_ratio,
                price,
                v.collateral_balance,
            ) matches Some(max) && v.debt_balance <= max
            &&& liquidatable(t, price, v) != Ok::<bool, Error>(true)
        }),
{
    let t = borrow_next(s, ctx, vault_id, amount);
    let v = t.vaults[(ctx.caller, vault_id)];
    let p = params_on(s, v.netuid);
    if debt_limit_of(p.liquidation_ratio, price, v.collateral_balance) is Some {
        law_stricter_ratio_bears_less(
            p.collateral_ratio,
            p.liquidation_ratio,
            price,
            v.collateral_balance,
        );
    }
}

/// After a release a vault with debt is still within what its collateral bears at that price,
/// and cannot be liquidated at that price.
pub proof fn law_release_is_safe(
    s: AlphaState,
    ctx: Context,
    vault_id: u32,
    amount: Balance,
    dest_coldkey: AccountId,
    replies: Seq<Reply>,
    price: Ratio,
)
    requires
        s.vaults.contains_key((ctx.caller, vault_id)),
        ratios_valid(params_on(s, s.vaults[(ctx.caller, vault_id)].netuid)),
        with_interest(s, ctx, s.vaults[(ctx.caller, vault_id)]) matches Ok(w) && w.debt_balance > 0,
        release_step(s, ctx, vault_id, amount, dest_coldkey, replies) matches Step::Done(Ok(_)),
        price_step(s, ctx, s.vaults[(ctx.caller, vault_id)].netuid, replies, 0) == Step::<
            Ratio,
            Error,
        >::Done(Ok(price)),
    ensures
        ({
            let t = release_next(s, ctx, vault_id, amount, dest_coldkey);
            let v = t.vaults[(ctx.caller, vault_id)];
            &&& debt_limit_of(
                params_on(t, v.netuid).collateral_ratio,
                price,
                v.collateral_balance,
            ) matches Some(max) && v.debt_balance <= max
            &&& liquidatable(t, price, v) != Ok::<bool, Error>(true)
        }),
{
    let t = release_next(s, ctx, vault_id, amount, dest_coldkey);
    let v = t.vaults[(ctx.caller, vault_id)];
    let p = params_on(s, v.netuid);
    if debt_limit_of(p.liquidation_ratio, price, v.collateral_balance) is Some {
        law_stricter_ratio_bears_less(
            p.collateral_ratio,
            p.liquidation_ratio,
            price,
            v.collateral_balance,
        );
    }
}

/// Only a vault whose debt exceeds its liquidation limit is ever unstaked or auctioned.
pub proof fn law_only_unsafe_vaults_are_liquidated(
    s: AlphaState,
    ctx: Context,
    owner: AccountId,
    vault_id: u32,
    replies: Seq<Reply>,
)
    requires
        trigger_step(s, ctx, owner, vault_id, replies) matches Step::Done(Ok(_)) || trigger_step(
            s,
            ctx,
            owner,
            vault_id,
            replies,
        ) matches Step::Call(Call::RemoveStake { .. }) || trigger_step(
            s,
            ctx,
            owner,
            vault_id,
            replies,
        ) matches Step::Call(Call::AuctionCreate { .. }),
    ensures
        s.vaults.contains_key((owner, vault_id)),
        with_interest(s, ctx, s.vaults[(owner, vault_id)]) matches Ok(v) && price_step(
            s,
            ctx,
            v.netuid,
            replies,
            0,
        ) matches Step::Done(Ok(price)) && liquidatable(s, price, v) == Ok::<bool, Error>(true),
{
}

/// A liquidation auction sells exactly the TAO that was recovered: the gain of the contract's
/// native balance between a reading right before the vault's collateral is unstaked and one right
/// after.
pub proof fn law_auction_sells_what_was_recovered(
    s: AlphaState,
    ctx: Context,
    owner: AccountId,
    vault_id: u32,
    replies: Seq<Reply>,
)
    requires
        trigger_step(s, ctx, owner, vault_id, replies) matches Step::Call(
            Call::AuctionCreate { .. },
        ),
    ensures
        replies.len() == 5,
        trigger_step(s, ctx, owner, vault_id, replies) matches Step::Call(
            Call::AuctionCreate { collateral, .. },
        ) && replies[4]->Amount_0 - replies[2]->Amount_0 == collateral,
        trigger_step(s, ctx, owner, vault_id, replies.take(2)) == Step::<u32, Error>::Call(
            Call::NativeBalance,
        ),
        trigger_step(s, ctx, owner, vault_id, replies.take(3)) == Step::<u32, Error>::Call(
            Call::RemoveStake {
                hotkey: s.vault_hotkey,
                netuid: s.vaults[(owner, vault_id)].netuid,
                amount: s.vaults[(owner, vault_id)].collateral_balance,
            },
        ),
        !(replies[3] is Failed),
        trigger_step(s, ctx, owner, vault_id, replies.take(4)) == Step::<u32, Error>::Call(
            Call::NativeBalance,
        ),
{
    let v = with_interest(s, ctx, s.vaults[(owner, vault_id)])->Ok_0;
    let price = price_step(s, ctx, v.netuid, replies, 0);
    assert(price_step(s, ctx, v.netuid, replies.take(2), 0) == price);
    assert(price_step(s, ctx, v.netuid, replies.take(3), 0) == price);
    assert(price_step(s, ctx, v.netuid, replies.take(4), 0) == price);
}

// ── Interest ────────────────────────────────────────────────────────

/// A vault whose accrual lies in the past keeps it there, whatever interest is charged; within an
/// hour of the last accrual no interest is charged.
pub proof fn law_interest_follows_time(s: AlphaState, ctx: Context, v: Vault)
    requires
        v.last_interest_accrued_at <= ctx.now,
    ensures
        with_interest(s, ctx, v) matches Ok(w) ==> {
            &&& v.last_interest_accrued_at <= w.last_interest_accrued_at <= ctx.now
            &&& w.debt_balance >= v.debt_balance
            &&& w.debt_balance - v.debt_balance == w.total_interest_accrued
                - v.total_interest_accrued
            &&& ctx.now - v.last_interest_accrued_at < MILLISECONDS_PER_HOUR ==> w.debt_balance
                == v.debt_balance
        },
{
    law_accrual_within_time(
        v.debt_balance,
        v.total_interest_accrued,
        v.last_interest_accrued_at,
        params_on(s, v.netuid).interest_rate,
        ctx.now,
    );
}

/// Repaying at once what was borrowed restores the principal and the debt of a vault that owed no
/// interest.
pub proof fn law_repay_undoes_borrow(s: AlphaState, ctx: Context, vault_id: u32, amount: Balance)
    requires
        amount > 0,
        s.vaults.contains_key((ctx.caller, vault_id)),
        s.vaults[(ctx.caller, vault_id)].last_interest_accrued_at <= ctx.now,
        with_interest(s, ctx, s.vaults[(ctx.caller, vault_id)]) matches Ok(v) && v.debt_balance
            == v.borrowed_token_balance && v.debt_balance + amount <= Balance::MAX,
    ensures
        ({
            let key = (ctx.caller, vault_id);
            let v = with_interest(s, ctx, s.vaults[key])->Ok_0;
            let t = borrow_next(s, ctx, vault_id, amount);
            let u = repay_next(t, ctx, vault_id, amount);
            &&& u.vaults[key].debt_balance == v.debt_balance
            &&& u.vaults[key].borrowed_token_balance == v.borrowed_token_balance
            &&& u.vaults[key].collateral_balance == v.collateral_balance
        }),
{
    let key = (ctx.caller, vault_id);
    let stored = s.vaults[key];
    let v = with_interest(s, ctx, stored)->Ok_0;
    let t = borrow_next(s, ctx, vault_id, amount);
    let b = t.vaults[key];
    let rate = params_on(s, v.netuid).interest_rate;
    law_accrual_within_time(
        stored.debt_balance,
        stored.total_interest_accrued,
        stored.last_interest_accrued_at,
        rate,
        ctx.now,
    );
    law_weighted_time_between(v.last_interest_accrued_at, v.debt_balance, ctx.now, amount);
    assert(params_on(t, b.netuid).interest_rate == rate);
    if rate.inner > 0 && v.debt_balance > 0 {
        assert(stored.debt_balance > 0 || v.debt_balance == 0);
        assert(ctx.now - b.last_interest_accrued_at < MILLISECONDS_PER_HOUR);
    }
    law_accrual_within_time(
        b.debt_balance,
        b.total_interest_accrued,
        b.last_interest_accrued_at,
        rate,
        ctx.now,
    );
    assert(with_interest(t, ctx, b)->Ok_0.debt_balance == b.debt_balance);
}

// ── What blocks what ────────────────────────────────────────────────

/// While the vault is paused no deposit, opening, top-up, borrow, repayment, accrual, release or
/// liquidation happens, and none of them calls out.
pub proof fn law_pause_blocks(
    s: AlphaState,
    ctx: Context,
    owner: AccountId,
    vault_id: u32,
    netuid: u16,
    amount: Balance,
    replies: Seq<Reply>,
)
    requires
        s.paused,
    ensures
        deposit_result(s, ctx, amount, netuid) == Err::<(), Error>(Error::ContractPaused),
        create_step(s, ctx, netuid, replies) == Step::<u32, Error>::Done(
            Err(Error::ContractPaused),
        ),
        add_step(s, ctx, vault_id, replies) == Step::<(), Error>::Done(Err(Error::ContractPaused)),
        borrow_step(s, ctx, vault_id, amount, replies) == Step::<(), Error>::Done(
            Err(Error::ContractPaused),
        ),
        repay_step(s, ctx, vault_id, amount, replies) == Step::<(), Error>::Done(
            Err(Error::ContractPaused),
        ),
        accrue_result(s, ctx, owner, vault_id) == Err::<Balance, Error>(Error::ContractPaused),
        release_step(s, ctx, vault_id, amount, owner, replies) == Step::<(), Error>::Done(
            Err(Error::ContractPaused),
        ),
        trigger_step(s, ctx, owner, vault_id, replies) == Step::<u32, Error>::Done(
            Err(Error::ContractPaused),
        ),
{
}

/// While a vault is being liquidated its owner can neither top it up, borrow, repay nor release,
/// nobody can accrue its interest, and no second auction opens.
pub proof fn law_liquidation_blocks(
    s: AlphaState,
    ctx: Context,
    owner: AccountId,
    vault_id: u32,
    amount: Balance,
    dest_coldkey: AccountId,
    replies: Seq<Reply>,
)
    requires
        !s.paused,
        s.vaults.contains_key((owner, vault_id)),
        s.liquidation_auctions.contains_key((owner, vault_id)),
    ensures
        ctx.caller == owner ==> {
            let refused = Step::<(), Error>::Done(Err(Error::VaultInLiquidation));
            &&& add_step(s, ctx, vault_id, replies) == refused
            &&& borrow_step(s, ctx, vault_id, amount, replies) == refused
            &&& repay_step(s, ctx, vault_id, amount, replies) == refused
            &&& release_step(s, ctx, vault_id, amount, dest_coldkey, replies) == refused
        },
        accrue_result(s, ctx, owner, vault_id) == Err::<Balance, Error>(Error::VaultInLiquidation),
        trigger_step(s, ctx, owner, vault_id, replies) == Step::<u32, Error>::Done(
            Err(Error::LiquidationAuctionExists),
        ),
{
}

/// Opening an auction empties the vault, keeps its debt, and blocks it until it is settled;
/// settling lowers the debt by what the auction cleared and frees the vault again.
pub proof fn law_liquidation_cycle(
    s: AlphaState,
    ctx: Context,
    owner: AccountId,
    vault_id: u32,
    auction_id: u32,
    a: AuctionRecord,
    later: Context,
)
    requires
        s.vaults.contains_key((owner, vault_id)),
        with_interest(s, ctx, s.vaults[(owner, vault_id)]) matches Ok(v) && paid(
            (Vault { collateral_balance: 0, ..v }),
            a.debt_balance,
        ) is Ok,
        later.caller == owner,
    ensures
        ({
            let key = (owner, vault_id);
            let v = with_interest(s, ctx, s.vaults[key])->Ok_0;
            let t = trigger_next(s, ctx, owner, vault_id, auction_id);
            let u = settle_next(t, owner, vault_id, a);
            &&& t.vaults[key].collateral_balance == 0
            &&& t.vaults[key].debt_balance == v.debt_balance
            &&& caller_vault(t, later, vault_id) == Err::<Vault, Error>(Error::VaultInLiquidation)
            &&& u.vaults[key].debt_balance == v.debt_balance - a.debt_balance
            &&& caller_vault(u, later, vault_id) == Ok::<Vault, Error>(u.vaults[key])
        }),
{
}

// ── Collateral ──────────────────────────────────────────────────────

/// Collateral is only booked where the contract holds the stake for it: after an opening or a
/// top-up the subnet's collateral is within the stake that was read.
pub proof fn law_collateral_is_backed(
    s: AlphaState,
    ctx: Context,
    netuid: u16,
    vault_id: u32,
    replies: Seq<Reply>,
)
    ensures
        create_step(s, ctx, netuid, replies) matches Step::Done(Ok(_)) ==> (movable_stake(
            replies[0],
        ) matches Ok(stake) && collateral_on(create_next(s, ctx, netuid), netuid) <= stake),
        add_step(s, ctx, vault_id, replies) matches Step::Done(Ok(_)) ==> (movable_stake(
            replies[0],
        ) matches Ok(stake) && collateral_on(
            add_next(s, ctx, vault_id, replies),
            s.vaults[(ctx.caller, vault_id)].netuid,
        ) == stake),
{
}

/// Claiming rewards unstakes exactly the stake beyond the collateral of a subnet, and leaves all
/// vaults and books as they are.
pub proof fn law_claim_leaves_collateral(
    s: AlphaState,
    ctx: Context,
    netuid: u16,
    replies: Seq<Reply>,
)
    ensures
        claim_excess_step(s, ctx, netuid, replies) matches Step::Call(
            Call::RemoveStake { amount, hotkey, netuid: on },
        ) ==> (movable_stake(replies[0]) matches Ok(stake) && stake - amount == collateral_on(
            s,
            netuid,
        ) && amount > 0 && hotkey == s.vault_hotkey && on == netuid),
        same_books(s, claim_excess_next(s, netuid, replies)),
{
    reveal_with_fuel(progress, 3);
}

/// An intent to deposit is registered once, and opening a vault uses it up.
pub proof fn law_deposit_is_used_once(
    s: AlphaState,
    ctx: Context,
    again: Context,
    amount: Balance,
    other: Balance,
    netuid: u16,
    replies: Seq<Reply>,
)
    requires
        deposit_result(s, ctx, amount, netuid) is Ok,
        again.caller == ctx.caller,
    ensures
        ({
            let t = AlphaState {
                pending_deposits: s.pending_deposits.insert((ctx.caller, netuid), amount),
                ..s
            };
            &&& deposit_result(t, again, other, netuid) == Err::<(), Error>(
                Error::InsufficientCollateral,
            )
            &&& create_step(create_next(t, ctx, netuid), again, netuid, replies) == Step::<
                u32,
                Error,
            >::Done(Err(Error::NotDepositor))
        }),
{
}

/// Releasing from a vault without debt what was just added restores the vault's collateral and
/// the books of collateral.
pub proof fn law_release_undoes_add(
    s: AlphaState,
    ctx: Context,
    vault_id: u32,
    replies: Seq<Reply>,
    dest_coldkey: AccountId,
)
    requires
        add_step(s, ctx, vault_id, replies) matches Step::Done(Ok(_)),
        s.vaults[(ctx.caller, vault_id)].debt_balance == 0,
    ensures
        ({
            let key = (ctx.caller, vault_id);
            let n = s.vaults[key].netuid;
            let t = add_next(s, ctx, vault_id, replies);
            let added = (t.vaults[key].collateral_balance
                - s.vaults[key].collateral_balance) as Balance;
            let u = release_next(t, ctx, vault_id, added, dest_coldkey);
            &&& u.vaults[key].collateral_balance == s.vaults[key].collateral_balance
            &&& u.total_collateral_balance == s.total_collateral_balance
            &&& collateral_on(u, n) == collateral_on(s, n)
        }),
{
}

/// A message about one vault leaves every other vault as it is.
pub proof fn law_other_vaults_untouched(
    s: AlphaState,
    ctx: Context,
    owner: AccountId,
    vault_id: u32,
    amount: Balance,
    dest_coldkey: AccountId,
    auction_id: u32,
    a: AuctionRecord,
    replies: Seq<Reply>,
    other: (AccountId, u32),
)
    ensures
        other != (ctx.caller, vault_id) ==> {
            &&& add_next(s, ctx, vault_id, replies).vaults[other] == s.vaults[other]
            &&& borrow_next(s, ctx, vault_id, amount).vaults[other] == s.vaults[other]
            &&& repay_next(s, ctx, vault_id, amount).vaults[other] == s.vaults[other]
            &&& release_next(s, ctx, vault_id, amount, dest_coldkey).vaults[other]
                == s.vaults[other]
        },
        other != (owner, vault_id) ==> {
            &&& accrue_next(s, ctx, owner, vault_id).vaults[other] == s.vaults[other]
            &&& trigger_next(s, ctx, owner, vault_id, auction_id).vaults[other] == s.vaults[other]
            &&& settle_next(s, owner, vault_id, a).vaults[other] == s.vaults[other]
        },
{
}

// ── Parameters ──────────────────────────────────────────────────────

/// A scheduled update waits for the timelock: before it has elapsed the update is refused,
/// afterwards anyone can execute it, and it changes the parameters of its subnet alone.
pub proof fn law_timelock(
    s: AlphaState,
    ctx: Context,
    netuid: u16,
    config: VaultContractParamsConfig,
    later: Context,
    other: u16,
)
    requires
        schedule_result(s, ctx, params_of(config)) is Ok,
        other != netuid,
    ensures
        ({
            let due = schedule_result(s, ctx, params_of(config))->Ok_0;
            let t = params_scheduled(s, netuid, config, due);
            &&& due == ctx.now + CONTRACT_PARAMS_TIMELOCK_MS
            &&& params_on(t, netuid) == params_on(s, netuid)
            &&& later.now < due ==> execute_params_result(t, later, netuid) == Err::<VaultContractParams, Error>(
                Error::ContractParamsUpdateTimelockActive,
            )
            &&& later.now >= due ==> execute_params_result(t, later, netuid) == params_of(config)
            &&& params_on(params_executed(t, netuid, params_of(config)->Ok_0), netuid) == params_of(
                config,
            )->Ok_0
            &&& params_on(params_executed(t, netuid, params_of(config)->Ok_0), other) == params_on(
                s,
                other,
            )
        }),
{
}

/// A cancelled update leaves the parameters as they were, and nothing to execute.
pub proof fn law_cancel_undoes_schedule(
    s: AlphaState,
    ctx: Context,
    netuid: u16,
    config: VaultContractParamsConfig,
    later: Context,
)
    requires
        schedule_result(s, ctx, params_of(config)) is Ok,
        !s.pending_contract_params_updates.contains_key(netuid),
    ensures
        ({
            let due = schedule_result(s, ctx, params_of(config))->Ok_0;
            let t = params_cancelled(params_scheduled(s, netuid, config, due), netuid);
            &&& t.pending_contract_params_updates == s.pending_contract_params_updates
            &&& t.netuid_params == s.netuid_params
            &&& execute_params_result(t, later, netuid) == Err::<VaultContractParams, Error>(
                Error::NoPendingContractParamsUpdate,
            )
        }),
{
    let due = schedule_result(s, ctx, params_of(config))->Ok_0;
    let t = params_cancelled(params_scheduled(s, netuid, config, due), netuid);
    assert(t.pending_contract_params_updates =~= s.pending_contract_params_updates);
}

/// A configuration that takes effect reads back as it was given.
pub proof fn law_config_reads_back(
    config: VaultContractParamsConfig,
    globals: VaultGlobalParamsConfig,
)
    ensures
        params_of(config) matches Ok(p) ==> config_of(p) == config,
        globals_of(globals) matches Ok(p) ==> global_config_of(p) == globals,
{
}

} // verus!
