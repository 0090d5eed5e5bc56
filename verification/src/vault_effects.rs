//! What the alpha vault's messages bring about: what is minted, burned, paid and unstaked, and
//! what is on record afterwards.
use vstd::prelude::*;
use crate::account::{AccountId, Balance};
use crate::fixed_point::is_floor;
use crate::host::{conclude, fail, progress, Call, Context, Reply, StakeInfo, Step, Write};
use crate::lending::min_bid_of;
use crate::lending_laws::{
    law_interest_is_paid_first, law_least_bid_is_exact, law_weighted_time_is_the_average,
};
use crate::otc_effects::share_of_settlement;
use crate::peers::AuctionRecord;
use crate::ratio::Ratio;
use crate::trace::{
    alpha_to, alpha_unstaked, burned_from, calls_in, calls_of, lemma_calls_of_writes,
    lemma_next_call, lemma_no_more_calls, lemma_one_lead, lemma_total_adds, lemma_total_of_five,
    lemma_total_of_one, lemma_total_only_if, minted_to, moved, native_to, only_if, tokens_to, total,
};
use crate::vault_alpha::{
    CollateralAdded, CollateralReleased, Error, Event, ExcessAlphaClaimed, InterestAccrued,
    LiquidationAuctionCreated, TokensBorrowed, TokensRepaid, Vault, VaultContractParams,
    VaultCreated, VaultGovernanceUpdated, VaultLiquidated,
};
use crate::vault_alpha_model::{
    accrue_next, accrue_result, add_next, add_step, borrow_next, borrow_step, borrow_writes,
    can_save, can_take_out, child_governance_writes, claim_excess_next, claim_excess_step,
    claim_surplus_step, create_next, create_step, deposit_result, fee_of, governance_updated, paid,
    params_on, release_next, release_step, repay_next, repay_step, repay_writes, settle_next,
    settle_step, settle_writes, trigger_next, trigger_step, update_governance_step, with_interest,
    AlphaState,
};
use crate::vault_rules::{
    booked, in_force, law_fee_is_the_share_in_force, law_price_is_read, owed, priced,
};

verus! {

/// `borrow_token`, by the replies so far.
pub open spec fn borrowing(s: AlphaState, ctx: Context, vault_id: u32, amount: Balance) -> spec_fn(
    Seq<Reply>,
) -> Step<(), Error> {
    |replies: Seq<Reply>| borrow_step(s, ctx, vault_id, amount, replies)
}

/// `repay_token`, by the replies so far.
pub open spec fn repaying(s: AlphaState, ctx: Context, vault_id: u32, amount: Balance) -> spec_fn(
    Seq<Reply>,
) -> Step<(), Error> {
    |replies: Seq<Reply>| repay_step(s, ctx, vault_id, amount, replies)
}

/// `release_alpha_collateral`, by the replies so far.
pub open spec fn releasing(
    s: AlphaState,
    ctx: Context,
    vault_id: u32,
    amount: Balance,
    dest_coldkey: AccountId,
) -> spec_fn(Seq<Reply>) -> Step<(), Error> {
    |replies: Seq<Reply>| release_step(s, ctx, vault_id, amount, dest_coldkey, replies)
}

/// `trigger_liquidation_auction`, by the replies so far.
pub open spec fn triggering(
    s: AlphaState,
    ctx: Context,
    owner: AccountId,
    vault_id: u32,
) -> spec_fn(Seq<Reply>) -> Step<u32, Error> {
    |replies: Seq<Reply>| trigger_step(s, ctx, owner, vault_id, replies)
}

/// `settle_liquidation_auction`, by the replies so far.
pub open spec fn settling(
    s: AlphaState,
    ctx: Context,
    owner: AccountId,
    vault_id: u32,
) -> spec_fn(Seq<Reply>) -> Step<(), Error> {
    |replies: Seq<Reply>| settle_step(s, ctx, owner, vault_id, replies)
}

/// `claim_excess_alpha`, by the replies so far.
pub open spec fn claiming(s: AlphaState, ctx: Context, netuid: u16) -> spec_fn(Seq<Reply>) -> Step<
    (),
    Error,
> {
    |replies: Seq<Reply>| claim_excess_step(s, ctx, netuid, replies)
}

/// `claim_surplus_tusdt`, by the replies so far.
pub open spec fn surrendering(s: AlphaState, ctx: Context, amount: Balance) -> spec_fn(
    Seq<Reply>,
) -> Step<(), Error> {
    |replies: Seq<Reply>| claim_surplus_step(s, ctx, amount, replies)
}

/// `update_governance`, by the replies so far.
pub open spec fn handing_over(s: AlphaState, ctx: Context, governance: AccountId) -> spec_fn(
    Seq<Reply>,
) -> Step<(), Error> {
    |replies: Seq<Reply>| update_governance_step(s, ctx, governance, replies)
}

/// A borrow mints what was borrowed: the borrower gets it less the fee, the treasury gets the fee,
/// and nothing else moves. The price is read for the vault's subnet first.
pub proof fn law_borrow_mints_to_the_borrower(
    s: AlphaState,
    ctx: Context,
    vault_id: u32,
    amount: Balance,
    replies: Seq<Reply>,
    price: Ratio,
    who: AccountId,
) -> (fee: int)
    requires
        borrow_step(s, ctx, vault_id, amount, replies) == Step::<(), Error>::Done(Ok(())),
        amount > 0,
        priced(s, ctx, replies, price),
    ensures
        ({
            let calls = calls_of(borrowing(s, ctx, vault_id, amount), replies);
            &&& is_floor(
                fee,
                s.global_params.transaction_fee.inner * amount,
                1_000_000_000_000_000_000,
            )
            &&& 0 <= fee <= amount
            &&& calls[0] == (Call::OracleLatestPrice { oracle: s.oracle })
            &&& calls[1] == (Call::AlphaPrice { netuid: s.vaults[(ctx.caller, vault_id)].netuid })
            &&& total(calls, minted_to(s.token, who)) == share_of_settlement(
                who,
                ctx.caller,
                s.treasury,
                amount as int,
                fee,
            )
            &&& total(calls, moved()) == amount
        }),
{
    let key = (ctx.caller, vault_id);
    let step = borrowing(s, ctx, vault_id, amount);
    let v = with_interest(s, ctx, s.vaults[key])->Ok_0;
    let fee = fee_of(s, amount)->0;
    law_fee_is_the_share_in_force(s, amount);
    let net = (amount - fee) as Balance;
    let writes = borrow_writes(s, ctx.caller, amount, fee);
    let outcome = if can_save(s, key, (v.debt_balance + amount) as Balance) {
        Ok::<(), Error>(())
    } else {
        Err(Error::ArithmeticError)
    };
    law_price_is_read(s, ctx, v.netuid, replies, price);
    law_price_is_read(s, ctx, v.netuid, Seq::empty(), price);
    assert forall|k: int| 2 <= k <= replies.len() implies step(#[trigger] replies.take(k))
        == conclude(writes, replies.take(k), 2, outcome) by {
        assert(replies.take(k)[0] == replies[0]);
        assert(replies.take(k)[1] == replies[1]);
        law_price_is_read(s, ctx, v.netuid, replies.take(k), price);
    }
    assert(replies.take(replies.len() as int) =~= replies);
    let first = Call::OracleLatestPrice { oracle: s.oracle };
    let second = Call::AlphaPrice { netuid: v.netuid };
    lemma_one_lead(step, replies, first);
    lemma_next_call(step, replies, 1, second);
    lemma_calls_of_writes(step, writes, replies, 2, outcome);
    let made = (true, net > 0, fee > 0, false);
    let rest = (
        second,
        Call::TokenMint { token: s.token, to: ctx.caller, amount: net },
        Call::TokenMint { token: s.token, to: s.treasury, amount: fee },
        first,
    );
    let calls = calls_of(step, replies);
    assert(calls =~= seq![first] + only_if(made.0, rest.0) + only_if(made.1, rest.1) + only_if(
        made.2,
        rest.2,
    ) + only_if(made.3, rest.3));
    lemma_total_of_five(calls, first, made, rest, minted_to(s.token, who));
    lemma_total_of_five(calls, first, made, rest, moved());
    fee as int
}

/// A repayment burns the payment and the fee from the payer, and mints the fee and what was paid of
/// the interest to the treasury. Interest is paid before principal, and nothing else moves.
pub proof fn law_repayment_burns_from_the_payer(
    s: AlphaState,
    ctx: Context,
    vault_id: u32,
    amount: Balance,
    replies: Seq<Reply>,
    v: Vault,
    who: AccountId,
) -> (split: (int, int))
    requires
        repay_step(s, ctx, vault_id, amount, replies) == Step::<(), Error>::Done(Ok(())),
        amount > 0,
        with_interest(s, ctx, s.vaults[(ctx.caller, vault_id)]) == Ok::<Vault, Error>(v),
    ensures
        ({
            let (fee, interest) = split;
            let calls = calls_of(repaying(s, ctx, vault_id, amount), replies);
            let outstanding = v.debt_balance - v.borrowed_token_balance;
            &&& is_floor(
                fee,
                s.global_params.transaction_fee.inner * amount,
                1_000_000_000_000_000_000,
            )
            &&& 0 <= fee
            &&& 0 <= interest <= amount <= v.debt_balance
            &&& interest <= outstanding
            &&& interest == amount || interest == outstanding
            &&& calls[0] == (Call::TokenBalanceOf { token: s.token, owner: ctx.caller })
            &&& total(calls, burned_from(s.token, who)) == if who == ctx.caller {
                amount + fee
            } else {
                0
            }
            &&& total(calls, minted_to(s.token, who)) == if who == s.treasury {
                interest + fee
            } else {
                0
            }
            &&& total(calls, moved()) == amount + 2 * fee + interest
        }),
{
    let key = (ctx.caller, vault_id);
    let step = repaying(s, ctx, vault_id, amount);
    let fee = fee_of(s, amount)->0;
    law_fee_is_the_share_in_force(s, amount);
    let after = paid(v, amount)->Ok_0.0;
    let interest = paid(v, amount)->Ok_0.1.interest_payment;
    law_interest_is_paid_first(v.debt_balance, v.borrowed_token_balance, amount);
    let writes = repay_writes(s, ctx.caller, amount, fee, interest);
    let outcome = if can_save(s, key, after.debt_balance) {
        Ok::<(), Error>(())
    } else {
        Err(Error::ArithmeticError)
    };
    assert forall|k: int| 1 <= k <= replies.len() implies step(#[trigger] replies.take(k))
        == conclude(writes, replies.take(k), 1, outcome) by {
        assert(replies.take(k)[0] == replies[0]);
    }
    assert(replies.take(replies.len() as int) =~= replies);
    let first = Call::TokenBalanceOf { token: s.token, owner: ctx.caller };
    lemma_one_lead(step, replies, first);
    lemma_calls_of_writes(step, writes, replies, 1, outcome);
    let made = (true, interest + fee > 0, false, false);
    let burn = Call::TokenBurn {
        token: s.token,
        from: ctx.caller,
        amount: (amount + fee) as Balance,
    };
    let mint = Call::TokenMint {
        token: s.token,
        to: s.treasury,
        amount: (interest + fee) as Balance,
    };
    let rest = (burn, mint, first, first);
    let calls = calls_of(step, replies);
    assert(calls =~= seq![first] + only_if(made.0, rest.0) + only_if(made.1, rest.1) + only_if(
        made.2,
        rest.2,
    ) + only_if(made.3, rest.3));
    lemma_total_of_five(calls, first, made, rest, burned_from(s.token, who));
    lemma_total_of_five(calls, first, made, rest, minted_to(s.token, who));
    lemma_total_of_five(calls, first, made, rest, moved());
    (fee as int, interest as int)
}

/// A release hands the released alpha, on the vault's subnet, to the named account, and nothing
/// else moves. Only for a vault in debt the price is read before.
pub proof fn law_release_hands_out_the_alpha(
    s: AlphaState,
    ctx: Context,
    vault_id: u32,
    amount: Balance,
    dest_coldkey: AccountId,
    replies: Seq<Reply>,
    v: Vault,
    price: Ratio,
    who: AccountId,
)
    requires
        release_step(s, ctx, vault_id, amount, dest_coldkey, replies) == Step::<(), Error>::Done(
            Ok(()),
        ),
        with_interest(s, ctx, s.vaults[(ctx.caller, vault_id)]) == Ok::<Vault, Error>(v),
        v.debt_balance > 0 ==> priced(s, ctx, replies, price),
    ensures
        ({
            let calls = calls_of(releasing(s, ctx, vault_id, amount, dest_coldkey), replies);
            &&& total(calls, alpha_to(s.vault_hotkey, v.netuid, who)) == if who == dest_coldkey {
                amount as int
            } else {
                0
            }
            &&& total(calls, moved()) == amount
            &&& v.debt_balance > 0 ==> {
                &&& calls[0] == (Call::OracleLatestPrice { oracle: s.oracle })
                &&& calls[1] == (Call::AlphaPrice { netuid: v.netuid })
            }
            &&& amount <= s.vaults[(ctx.caller, vault_id)].collateral_balance
        }),
{
    let key = (ctx.caller, vault_id);
    let step = releasing(s, ctx, vault_id, amount, dest_coldkey);
    let send = Call::TransferStake {
        destination: dest_coldkey,
        hotkey: s.vault_hotkey,
        origin_netuid: v.netuid,
        destination_netuid: v.netuid,
        amount,
    };
    let writes = seq![Write { call: send, on_failure: Error::ChainExtensionFailed }];
    let outcome = if can_take_out(s, key, v.netuid, amount, v.debt_balance) {
        Ok::<(), Error>(())
    } else {
        Err(Error::ArithmeticError)
    };
    assert(replies.take(replies.len() as int) =~= replies);
    let of = alpha_to(s.vault_hotkey, v.netuid, who);
    let calls = calls_of(step, replies);
    if v.debt_balance == 0 {
        assert forall|k: int| 0 <= k <= replies.len() implies step(#[trigger] replies.take(k))
            == conclude(writes, replies.take(k), 0, outcome) by {}
        lemma_calls_of_writes(step, writes, replies, 0, outcome);
        assert(replies.take(0) =~= Seq::<Reply>::empty());
        assert(calls_of(step, replies.take(0)) =~= seq![]);
        assert(calls =~= seq![send]);
        lemma_total_of_one(send, of);
        lemma_total_of_one(send, moved());
    } else {
        law_price_is_read(s, ctx, v.netuid, replies, price);
        law_price_is_read(s, ctx, v.netuid, Seq::empty(), price);
        assert forall|k: int| 2 <= k <= replies.len() implies step(#[trigger] replies.take(k))
            == conclude(writes, replies.take(k), 2, outcome) by {
            assert(replies.take(k)[0] == replies[0]);
            assert(replies.take(k)[1] == replies[1]);
            law_price_is_read(s, ctx, v.netuid, replies.take(k), price);
        }
        let first = Call::OracleLatestPrice { oracle: s.oracle };
        let second = Call::AlphaPrice { netuid: v.netuid };
        lemma_one_lead(step, replies, first);
        lemma_next_call(step, replies, 1, second);
        lemma_calls_of_writes(step, writes, replies, 2, outcome);
        let made = (true, true, false, false);
        let rest = (second, send, first, first);
        assert(calls =~= seq![first] + only_if(made.0, rest.0) + only_if(made.1, rest.1) + only_if(
            made.2,
            rest.2,
        ) + only_if(made.3, rest.3));
        lemma_total_of_five(calls, first, made, rest, of);
        lemma_total_of_five(calls, first, made, rest, moved());
    }
}

/// A liquidation makes these calls and no others: it reads the two prices, unstakes all of the
/// vault's collateral between two readings of the native balance, and opens an auction of exactly
/// the gain for the vault's debt. The least bid is the debt and the liquidation fee in force on
/// it, and the auction runs for the duration in force.
pub proof fn law_liquidation_auctions_the_gain(
    s: AlphaState,
    ctx: Context,
    owner: AccountId,
    vault_id: u32,
    replies: Seq<Reply>,
    v: Vault,
    p: VaultContractParams,
    price: Ratio,
    auction_id: u32,
) -> (bid: Balance)
    requires
        trigger_step(s, ctx, owner, vault_id, replies) == Step::<u32, Error>::Done(Ok(auction_id)),
        with_interest(s, ctx, s.vaults[(owner, vault_id)]) == Ok::<Vault, Error>(v),
        priced(s, ctx, replies, price),
        in_force(s, v.netuid, p),
    ensures
        replies.len() >= 6,
        replies[5] == Reply::AuctionId(auction_id),
        replies[4]->Amount_0 >= replies[2]->Amount_0,
        is_floor(
            bid - v.debt_balance,
            p.liquidation_fee.inner * v.debt_balance,
            1_000_000_000_000_000_000,
        ),
        calls_of(triggering(s, ctx, owner, vault_id), replies) == seq![
            Call::OracleLatestPrice { oracle: s.oracle },
            Call::AlphaPrice { netuid: v.netuid },
            Call::NativeBalance,
            Call::RemoveStake {
                hotkey: s.vault_hotkey,
                netuid: v.netuid,
                amount: v.collateral_balance,
            },
            Call::NativeBalance,
            Call::AuctionCreate {
                auction: s.auction,
                owner,
                vault_id,
                collateral: (replies[4]->Amount_0 - replies[2]->Amount_0) as Balance,
                debt: v.debt_balance,
                min_bid: bid,
                price,
                duration_ms: Some(s.global_params.auction_duration_ms),
            },
        ],
{
    let key = (owner, vault_id);
    let step = triggering(s, ctx, owner, vault_id);
    assert(p == params_on(s, v.netuid));
    law_price_is_read(s, ctx, v.netuid, replies, price);
    law_price_is_read(s, ctx, v.netuid, Seq::empty(), price);
    assert forall|k: int| 2 <= k <= replies.len() implies priced(
        s,
        ctx,
        #[trigger] replies.take(k),
        price,
    ) by {
        assert(replies.take(k)[0] == replies[0]);
        assert(replies.take(k)[1] == replies[1]);
    }
    law_least_bid_is_exact(p.liquidation_fee, v.debt_balance);
    let bid = min_bid_of(p.liquidation_fee, v.debt_balance)->0;
    let open = Call::AuctionCreate {
        auction: s.auction,
        owner,
        vault_id,
        collateral: (replies[4]->Amount_0 - replies[2]->Amount_0) as Balance,
        debt: v.debt_balance,
        min_bid: bid,
        price,
        duration_ms: Some(s.global_params.auction_duration_ms),
    };
    let unstake = Call::RemoveStake {
        hotkey: s.vault_hotkey,
        netuid: v.netuid,
        amount: v.collateral_balance,
    };
    assert(replies.len() >= 6);
    lemma_one_lead(step, replies, Call::OracleLatestPrice { oracle: s.oracle });
    lemma_next_call(step, replies, 1, Call::AlphaPrice { netuid: v.netuid });
    law_price_is_read(s, ctx, v.netuid, replies.take(2), price);
    lemma_next_call(step, replies, 2, Call::NativeBalance);
    law_price_is_read(s, ctx, v.netuid, replies.take(3), price);
    lemma_next_call(step, replies, 3, unstake);
    law_price_is_read(s, ctx, v.netuid, replies.take(4), price);
    assert(replies.take(4)[3] == replies[3]);
    lemma_next_call(step, replies, 4, Call::NativeBalance);
    law_price_is_read(s, ctx, v.netuid, replies.take(5), price);
    assert(replies.take(5)[2] == replies[2]);
    assert(replies.take(5)[3] == replies[3]);
    assert(replies.take(5)[4] == replies[4]);
    lemma_next_call(step, replies, 5, open);
    assert forall|k: int| 6 <= k < replies.len() implies step(#[trigger] replies.take(k))
        is Done by {
        law_price_is_read(s, ctx, v.netuid, replies.take(k), price);
        assert(replies.take(k)[2] == replies[2]);
        assert(replies.take(k)[3] == replies[3]);
        assert(replies.take(k)[4] == replies[4]);
        assert(replies.take(k)[5] == replies[5]);
    }
    lemma_no_more_calls(step, replies, 6);
    assert(calls_of(step, replies) =~= seq![
        Call::OracleLatestPrice { oracle: s.oracle },
        Call::AlphaPrice { netuid: v.netuid },
        Call::NativeBalance,
        unstake,
        Call::NativeBalance,
        open,
    ]);
    bid
}

/// A settlement collects the winning bid, pays the winner what was sold less the fee and the
/// treasury the fee, burns the principal that the bid pays and pays the treasury the interest.
/// Together the two make up the auction's debt, interest first. Nothing else moves.
pub proof fn law_settlement_pays_the_winner(
    s: AlphaState,
    ctx: Context,
    owner: AccountId,
    vault_id: u32,
    replies: Seq<Reply>,
    a: AuctionRecord,
    who: AccountId,
) -> (split: (int, int))
    requires
        settle_step(s, ctx, owner, vault_id, replies) == Step::<(), Error>::Done(Ok(())),
        replies[0] == Reply::Auction(Some(a)),
    ensures
        ({
            let (fee, interest) = split;
            let key = (owner, vault_id);
            let v = s.vaults[key];
            let outstanding = v.debt_balance - v.borrowed_token_balance;
            let calls = calls_of(settling(s, ctx, owner, vault_id), replies);
            &&& a.is_finalized && a.highest_bidder is Some
            &&& is_floor(
                fee,
                s.global_params.transaction_fee.inner * a.collateral_balance,
                1_000_000_000_000_000_000,
            )
            &&& 0 <= fee <= a.collateral_balance
            &&& 0 <= interest <= a.debt_balance <= v.debt_balance
            &&& interest <= outstanding
            &&& interest == a.debt_balance || interest == outstanding
            &&& calls[0] == (Call::AuctionGet {
                auction: s.auction,
                auction_id: s.liquidation_auctions[key],
            })
            &&& calls[1] == (Call::AuctionTransferWinningBid {
                auction: s.auction,
                auction_id: s.liquidation_auctions[key],
                to: ctx.contract,
            })
            &&& total(calls, native_to(who)) == share_of_settlement(
                who,
                a.highest_bidder->0,
                s.treasury,
                a.collateral_balance as int,
                fee,
            )
            &&& total(calls, burned_from(s.token, who)) == if who == ctx.contract {
                a.debt_balance - interest
            } else {
                0
            }
            &&& total(calls, tokens_to(s.token, who)) == if who == s.treasury {
                interest
            } else {
                0
            }
            &&& total(calls, moved()) == a.collateral_balance + a.debt_balance
        }),
{
    let key = (owner, vault_id);
    let step = settling(s, ctx, owner, vault_id);
    let v = s.vaults[key];
    let auction_id = s.liquidation_auctions[key];
    let winner = a.highest_bidder->0;
    let sold = a.collateral_balance;
    let fee = fee_of(s, sold)->0;
    law_fee_is_the_share_in_force(s, sold);
    law_interest_is_paid_first(v.debt_balance, v.borrowed_token_balance, a.debt_balance);
    let p = paid(v, a.debt_balance)->Ok_0.1;
    let writes = settle_writes(s, ctx, auction_id, winner, sold, fee, p);
    let outcome = if fee > sold {
        Err(Error::ArithmeticError)
    } else {
        Ok::<(), Error>(())
    };
    assert forall|k: int| 1 <= k <= replies.len() implies step(#[trigger] replies.take(k))
        == conclude(writes, replies.take(k), 1, outcome) by {
        assert(replies.take(k)[0] == replies[0]);
    }
    assert(replies.take(replies.len() as int) =~= replies);
    let first = Call::AuctionGet { auction: s.auction, auction_id };
    lemma_one_lead(step, replies, first);
    lemma_calls_of_writes(step, writes, replies, 1, outcome);
    let collect = Call::AuctionTransferWinningBid {
        auction: s.auction,
        auction_id,
        to: ctx.contract,
    };
    let net = (sold - fee) as Balance;
    let made = (true, fee > 0, net > 0, true);
    let rest = (
        collect,
        Call::NativeTransfer { to: s.treasury, amount: fee },
        Call::NativeTransfer { to: winner, amount: net },
        Call::TokenBurn { token: s.token, from: ctx.contract, amount: p.principal_payment },
    );
    let lead = seq![first] + only_if(made.0, rest.0) + only_if(made.1, rest.1) + only_if(
        made.2,
        rest.2,
    ) + only_if(made.3, rest.3);
    let pay = Call::TokenTransfer { token: s.token, to: s.treasury, amount: p.interest_payment };
    let last = only_if(p.interest_payment > 0, pay);
    let calls = calls_of(step, replies);
    assert(calls =~= lead + last);
    lemma_total_of_five(lead, first, made, rest, native_to(who));
    lemma_total_of_five(lead, first, made, rest, burned_from(s.token, who));
    lemma_total_of_five(lead, first, made, rest, tokens_to(s.token, who));
    lemma_total_of_five(lead, first, made, rest, moved());
    lemma_total_adds(lead, last, native_to(who));
    lemma_total_adds(lead, last, burned_from(s.token, who));
    lemma_total_adds(lead, last, tokens_to(s.token, who));
    lemma_total_adds(lead, last, moved());
    lemma_total_only_if(p.interest_payment > 0, pay, native_to(who));
    lemma_total_only_if(p.interest_payment > 0, pay, burned_from(s.token, who));
    lemma_total_only_if(p.interest_payment > 0, pay, tokens_to(s.token, who));
    lemma_total_only_if(p.interest_payment > 0, pay, moved());
    (fee as int, p.interest_payment as int)
}

/// A claim by governance unstakes what the contract can move beyond the collateral of a subnet, and
/// sends what its native balance gained by that to the treasury. Nothing else moves, and without
/// excess nothing moves at all.
pub proof fn law_claim_sends_the_gain(
    s: AlphaState,
    ctx: Context,
    netuid: u16,
    replies: Seq<Reply>,
    info: StakeInfo,
    who: AccountId,
)
    requires
        claim_excess_step(s, ctx, netuid, replies) == Step::<(), Error>::Done(Ok(())),
        replies[0] == Reply::Stake(Some(info)),
    ensures
        ({
            let calls = calls_of(claiming(s, ctx, netuid), replies);
            let excess = info.stake - info.locked - booked(s, netuid);
            let gain = replies[3]->Amount_0 - replies[1]->Amount_0;
            let event = Event::ExcessAlphaClaimed(
                ExcessAlphaClaimed {
                    netuid,
                    excess_alpha: excess as Balance,
                    tao_received: gain as Balance,
                },
            );
            let next = claim_excess_next(s, netuid, replies);
            &&& ctx.caller == s.governance
            &&& calls[0] == (Call::StakeInfo {
                hotkey: s.vault_hotkey,
                coldkey: ctx.contract,
                netuid,
            })
            &&& excess <= 0 ==> total(calls, moved()) == 0 && next == s
            &&& excess > 0 ==> {
                &&& calls[1] is NativeBalance
                &&& calls[3] is NativeBalance
                &&& gain >= 0
                &&& total(calls, alpha_unstaked(s.vault_hotkey, netuid)) == excess
                &&& total(calls, native_to(who)) == if who == s.treasury {
                    gain
                } else {
                    0
                }
                &&& total(calls, moved()) == excess + gain
                &&& next == AlphaState { events: s.events.push(event), ..s }
            }
        }),
{
    reveal_with_fuel(progress, 2);
    let step = claiming(s, ctx, netuid);
    let excess = info.stake - info.locked - booked(s, netuid);
    let gain = replies[3]->Amount_0 - replies[1]->Amount_0;
    let read = Call::StakeInfo { hotkey: s.vault_hotkey, coldkey: ctx.contract, netuid };
    let unstake = Call::RemoveStake { hotkey: s.vault_hotkey, netuid, amount: excess as Balance };
    let send = Call::NativeTransfer { to: s.treasury, amount: gain as Balance };
    let calls = calls_of(step, replies);
    assert(replies.take(replies.len() as int) =~= replies);
    assert(replies.len() >= 1);
    lemma_one_lead(step, replies, read);
    if excess <= 0 {
        assert forall|k: int| 1 <= k < replies.len() implies step(#[trigger] replies.take(k))
            is Done by {
            assert(replies.take(k)[0] == replies[0]);
        }
        lemma_no_more_calls(step, replies, 1);
        lemma_total_of_one(read, moved());
    } else {
        assert(replies.take(1)[0] == replies[0]);
        assert(replies.take(2)[0] == replies[0]);
        assert(replies.take(3)[0] == replies[0]);
        assert(replies.take(3)[2] == replies[2]);
        lemma_next_call(step, replies, 1, Call::NativeBalance);
        lemma_next_call(step, replies, 2, unstake);
        lemma_next_call(step, replies, 3, Call::NativeBalance);
        let writes = if gain > 0 {
            seq![Write { call: send, on_failure: Error::TransferFailed }]
        } else {
            seq![]
        };
        assert forall|k: int| 4 <= k <= replies.len() implies step(#[trigger] replies.take(k))
            == conclude(writes, replies.take(k), 4, Ok::<(), Error>(())) by {
            assert(replies.take(k)[0] == replies[0]);
            assert(replies.take(k)[1] == replies[1]);
            assert(replies.take(k)[2] == replies[2]);
            assert(replies.take(k)[3] == replies[3]);
        }
        lemma_calls_of_writes(step, writes, replies, 4, Ok::<(), Error>(()));
        let made = (true, true, true, gain > 0);
        let rest = (Call::NativeBalance, unstake, Call::NativeBalance, send);
        assert(calls =~= seq![read] + only_if(made.0, rest.0) + only_if(made.1, rest.1) + only_if(
            made.2,
            rest.2,
        ) + only_if(made.3, rest.3));
        lemma_total_of_five(calls, read, made, rest, alpha_unstaked(s.vault_hotkey, netuid));
        lemma_total_of_five(calls, read, made, rest, native_to(who));
        lemma_total_of_five(calls, read, made, rest, moved());
    }
}

/// Governance or the platform can send surplus tokens to the treasury, and nowhere else.
pub proof fn law_surplus_goes_to_the_treasury(
    s: AlphaState,
    ctx: Context,
    amount: Balance,
    replies: Seq<Reply>,
)
    ensures
        claim_surplus_step(s, ctx, amount, replies) == Step::<(), Error>::Done(Ok(())) ==> {
            &&& ctx.caller == s.governance || ctx.caller == s.platform
            &&& calls_of(surrendering(s, ctx, amount), replies) == seq![
                Call::TokenTransfer { token: s.token, to: s.treasury, amount },
            ]
        },
        ctx.caller != s.governance && ctx.caller != s.platform ==> claim_surplus_step(
            s,
            ctx,
            amount,
            replies,
        ) == fail::<(), Error>(Error::NotGovernanceOrPlatform),
        (ctx.caller == s.governance || ctx.caller == s.platform) && replies.len() > 0
            && !(replies[0] is Failed) ==> claim_surplus_step(s, ctx, amount, replies) == Step::<
            (),
            Error,
        >::Done(Ok(())),
{
    reveal_with_fuel(progress, 2);
    if claim_surplus_step(s, ctx, amount, replies) == Step::<(), Error>::Done(Ok(())) {
        let step = surrendering(s, ctx, amount);
        let send = Call::TokenTransfer { token: s.token, to: s.treasury, amount };
        lemma_one_lead(step, replies, send);
        assert forall|k: int| 1 <= k < replies.len() implies step(#[trigger] replies.take(k))
            is Done by {
            assert(replies.take(k)[0] == replies[0]);
        }
        lemma_no_more_calls(step, replies, 1);
    }
}

/// Governance is handed on as a whole: the auction and the oracle are told the new governance
/// before it takes over here. Only governance can do so.
pub proof fn law_governance_is_handed_on(
    s: AlphaState,
    ctx: Context,
    governance: AccountId,
    replies: Seq<Reply>,
)
    ensures
        ctx.caller != s.governance ==> update_governance_step(s, ctx, governance, replies) == fail::<
            (),
            Error,
        >(Error::NotGovernance),
        update_governance_step(s, ctx, governance, replies) == Step::<(), Error>::Done(Ok(()))
            ==> calls_of(handing_over(s, ctx, governance), replies) == seq![
            Call::AuctionUpdateGovernance { auction: s.auction, governance },
            Call::OracleUpdateGovernance { oracle: s.oracle, governance },
        ],
        ctx.caller == s.governance && replies.len() >= 2 && !(replies[0] is Failed)
            && !(replies[1] is Failed) ==> update_governance_step(s, ctx, governance, replies)
            == Step::<(), Error>::Done(Ok(())),
        governance_updated(s, governance) == (AlphaState {
            governance,
            events: s.events.push(
                Event::VaultGovernanceUpdated(
                    VaultGovernanceUpdated {
                        previous_governance: s.governance,
                        new_governance: governance,
                    },
                ),
            ),
            ..s
        }),
{
    reveal_with_fuel(progress, 3);
    if update_governance_step(s, ctx, governance, replies) == Step::<(), Error>::Done(Ok(())) {
        let step = handing_over(s, ctx, governance);
        let writes = child_governance_writes(s, governance);
        assert forall|k: int| 0 <= k <= replies.len() implies step(#[trigger] replies.take(k))
            == conclude(writes, replies.take(k), 0, Ok::<(), Error>(())) by {}
        assert(replies.take(replies.len() as int) =~= replies);
        lemma_calls_of_writes(step, writes, replies, 0, Ok::<(), Error>(()));
        assert(replies.take(0) =~= Seq::<Reply>::empty());
        assert(calls_of(step, replies.take(0)) =~= seq![]);
        assert(calls_of(step, replies) =~= calls_in(writes));
    }
}

/// An intent to deposit is accepted exactly when the contract is open, the subnet is approved,
/// there is an amount, and the caller has no other intent for the subnet.
pub proof fn law_deposit_is_accepted_exactly_when(
    s: AlphaState,
    ctx: Context,
    amount: Balance,
    netuid: u16,
)
    ensures
        deposit_result(s, ctx, amount, netuid) is Ok <==> !s.paused && s.approved_netuids.contains(
            netuid,
        ) && amount > 0 && !s.pending_deposits.contains_key((ctx.caller, netuid)),
        s.paused ==> deposit_result(s, ctx, amount, netuid) == Err::<(), Error>(
            Error::ContractPaused,
        ),
        !s.paused && !s.approved_netuids.contains(netuid) ==> deposit_result(
            s,
            ctx,
            amount,
            netuid,
        ) == Err::<(), Error>(Error::UnapprovedNetuid),
        !s.paused && s.approved_netuids.contains(netuid) && (amount == 0
            || s.pending_deposits.contains_key((ctx.caller, netuid))) ==> deposit_result(
            s,
            ctx,
            amount,
            netuid,
        ) == Err::<(), Error>(Error::InsufficientCollateral),
{
}

/// How many vaults an owner has opened, as the books have it.
pub open spec fn opened(s: AlphaState, owner: AccountId) -> int {
    if s.vault_count.contains_key(owner) {
        s.vault_count[owner] as int
    } else {
        0
    }
}

/// A vault is opened exactly when the contract is open, the subnet is approved, the caller
/// registered an intent, and the contract can move, beyond the collateral of the subnet's vaults,
/// what was registered. The counters' limits aside, nothing else stands in the way.
pub proof fn law_vault_is_opened_exactly_when(
    s: AlphaState,
    ctx: Context,
    netuid: u16,
    info: StakeInfo,
)
    requires
        s.pending_deposits.contains_key((ctx.caller, netuid)) ==> {
            let amount = s.pending_deposits[(ctx.caller, netuid)];
            &&& amount > 0
            &&& booked(s, netuid) + amount <= u64::MAX
            &&& s.total_collateral_balance + amount <= u64::MAX
        },
        opened(s, ctx.caller) < u32::MAX,
        !s.vaults.contains_key((ctx.caller, opened(s, ctx.caller) as u32)),
    ensures
        ({
            let amount = s.pending_deposits[(ctx.caller, netuid)];
            &&& create_step(s, ctx, netuid, seq![Reply::Stake(Some(info))]) == Step::<
                u32,
                Error,
            >::Done(Ok(opened(s, ctx.caller) as u32)) <==> {
                &&& !s.paused
                &&& s.approved_netuids.contains(netuid)
                &&& s.pending_deposits.contains_key((ctx.caller, netuid))
                &&& info.stake - info.locked >= booked(s, netuid) + amount
            }
            &&& create_step(s, ctx, netuid, seq![]) == Step::<u32, Error>::Call(
                Call::StakeInfo { hotkey: s.vault_hotkey, coldkey: ctx.contract, netuid },
            ) <==> !s.paused && s.approved_netuids.contains(netuid)
                && s.pending_deposits.contains_key((ctx.caller, netuid))
        }),
{
    let replies = seq![Reply::Stake(Some(info))];
    assert(replies[0] == Reply::Stake(Some(info)));
}

/// What is on record after a vault was opened: the caller's next vault with the registered
/// collateral and no debt, the books with that collateral, and the intent used up. Everything else
/// stays.
pub proof fn law_opened_vault_is_recorded(
    s: AlphaState,
    ctx: Context,
    netuid: u16,
    other: (AccountId, u32),
    subnet: u16,
)
    requires
        s.pending_deposits.contains_key((ctx.caller, netuid)),
        booked(s, netuid) + s.pending_deposits[(ctx.caller, netuid)] <= u64::MAX,
        s.total_collateral_balance + s.pending_deposits[(ctx.caller, netuid)] <= u64::MAX,
        opened(s, ctx.caller) < u32::MAX,
        !s.vaults.contains_key((ctx.caller, opened(s, ctx.caller) as u32)),
    ensures
        ({
            let amount = s.pending_deposits[(ctx.caller, netuid)];
            let id = opened(s, ctx.caller) as u32;
            let key = (ctx.caller, id);
            let next = create_next(s, ctx, netuid);
            let v = next.vaults[key];
            &&& next.vaults.contains_key(key)
            &&& v.id == id
            &&& v.owner == ctx.caller
            &&& v.netuid == netuid
            &&& v.collateral_balance == amount
            &&& v.borrowed_token_balance == 0 && v.debt_balance == 0
            &&& v.total_interest_accrued == 0
            &&& v.created_at == ctx.now
            &&& v.last_interest_accrued_at == ctx.now
            &&& other != key ==> next.vaults[other] == s.vaults[other]
                && next.vaults.contains_key(other) == s.vaults.contains_key(other)
            &&& opened(next, ctx.caller) == id + 1
            &&& next.vault_keys == s.vault_keys.push(key)
            &&& next.total_collateral_balance == s.total_collateral_balance + amount
            &&& booked(next, subnet) == booked(s, subnet) + if subnet == netuid {
                amount as int
            } else {
                0
            }
            &&& owed(next, other.0) == owed(s, other.0)
            &&& next.pending_deposits == s.pending_deposits.remove((ctx.caller, netuid))
            &&& next.events == s.events.push(
                Event::VaultCreated(VaultCreated { owner: ctx.caller, vault_id: id, amount }),
            )
            &&& next == AlphaState {
                vaults: next.vaults,
                vault_keys: next.vault_keys,
                vault_count: next.vault_count,
                total_collateral_balance: next.total_collateral_balance,
                netuid_total_collateral: next.netuid_total_collateral,
                owner_total_debt: next.owner_total_debt,
                pending_deposits: next.pending_deposits,
                events: next.events,
                ..s
            }
        }),
{
}

/// A top-up gives the caller's vault all stake that the contract can move on its subnet and that
/// no vault had, and books it. Everything else stays.
pub proof fn law_top_up_takes_the_unclaimed_stake(
    s: AlphaState,
    ctx: Context,
    vault_id: u32,
    replies: Seq<Reply>,
    info: StakeInfo,
    other: (AccountId, u32),
    subnet: u16,
)
    requires
        add_step(s, ctx, vault_id, replies) == Step::<(), Error>::Done(Ok(())),
        replies[0] == Reply::Stake(Some(info)),
    ensures
        ({
            let key = (ctx.caller, vault_id);
            let v = s.vaults[key];
            let added = info.stake - info.locked - booked(s, v.netuid);
            let next = add_next(s, ctx, vault_id, replies);
            &&& !s.paused
            &&& s.vaults.contains_key(key) && !s.liquidation_auctions.contains_key(key)
            &&& added > 0
            &&& next.vaults.contains_key(key)
            &&& next.vaults[key].collateral_balance == v.collateral_balance + added
            &&& next.vaults[key] == Vault {
                collateral_balance: next.vaults[key].collateral_balance,
                ..v
            }
            &&& other != key ==> next.vaults[other] == s.vaults[other]
                && next.vaults.contains_key(other) == s.vaults.contains_key(other)
            &&& next.total_collateral_balance == s.total_collateral_balance + added
            &&& booked(next, subnet) == booked(s, subnet) + if subnet == v.netuid {
                added
            } else {
                0
            }
            &&& owed(next, other.0) == owed(s, other.0)
            &&& next.events == s.events.push(
                Event::CollateralAdded(
                    CollateralAdded { owner: ctx.caller, vault_id, amount: added as Balance },
                ),
            )
            &&& next == AlphaState {
                vaults: next.vaults,
                total_collateral_balance: next.total_collateral_balance,
                netuid_total_collateral: next.netuid_total_collateral,
                owner_total_debt: next.owner_total_debt,
                events: next.events,
                ..s
            }
        }),
{
}

/// The read of a top-up, and when it is made.
pub proof fn law_top_up_reads_the_stake(s: AlphaState, ctx: Context, vault_id: u32)
    ensures
        ({
            let key = (ctx.caller, vault_id);
            let r = add_step(s, ctx, vault_id, seq![]);
            &&& s.paused ==> r == fail::<(), Error>(Error::ContractPaused)
            &&& !s.paused && !s.vaults.contains_key(key) ==> r == fail::<(), Error>(
                Error::VaultNotFound,
            )
            &&& !s.paused && s.vaults.contains_key(key) && s.liquidation_auctions.contains_key(key)
                ==> r == fail::<(), Error>(Error::VaultInLiquidation)
            &&& !s.paused && s.vaults.contains_key(key) && !s.liquidation_auctions.contains_key(key)
                ==> r == Step::<(), Error>::Call(
                Call::StakeInfo {
                    hotkey: s.vault_hotkey,
                    coldkey: ctx.contract,
                    netuid: s.vaults[key].netuid,
                },
            )
        }),
{
}

/// What is on record after a borrow: principal and debt of the vault have grown by the amount, the
/// owner's debt with them, and interest runs from the average of the vault's clock and now,
/// weighted by the old debt and the new. Everything else stays.
pub proof fn law_borrow_is_recorded(
    s: AlphaState,
    ctx: Context,
    vault_id: u32,
    amount: Balance,
    replies: Seq<Reply>,
    v: Vault,
    other: (AccountId, u32),
)
    requires
        borrow_step(s, ctx, vault_id, amount, replies) == Step::<(), Error>::Done(Ok(())),
        with_interest(s, ctx, s.vaults[(ctx.caller, vault_id)]) == Ok::<Vault, Error>(v),
        amount > 0,
    ensures
        ({
            let key = (ctx.caller, vault_id);
            let next = borrow_next(s, ctx, vault_id, amount);
            let w = next.vaults[key];
            &&& next.vaults.contains_key(key)
            &&& w.debt_balance == v.debt_balance + amount
            &&& w.borrowed_token_balance == v.borrowed_token_balance + amount
            &&& v.debt_balance == 0 ==> w.last_interest_accrued_at == v.last_interest_accrued_at
            &&& v.debt_balance > 0 ==> is_floor(
                w.last_interest_accrued_at as int,
                v.last_interest_accrued_at * v.debt_balance + ctx.now * amount,
                v.debt_balance + amount,
            )
            &&& w == Vault {
                debt_balance: w.debt_balance,
                borrowed_token_balance: w.borrowed_token_balance,
                last_interest_accrued_at: w.last_interest_accrued_at,
                ..v
            }
            &&& other != key ==> next.vaults[other] == s.vaults[other]
                && next.vaults.contains_key(other) == s.vaults.contains_key(other)
            &&& owed(next, other.0) == owed(s, other.0) + if other.0 == ctx.caller {
                w.debt_balance - s.vaults[key].debt_balance
            } else {
                0
            }
            &&& next.events.len() == s.events.len() + 1
            &&& next.events.drop_last() == s.events
            &&& next.events.last() matches Event::TokensBorrowed(e) && {
                &&& e.owner == ctx.caller && e.vault_id == vault_id && e.amount == amount
                &&& is_floor(
                    e.transaction_fee as int,
                    s.global_params.transaction_fee.inner * amount,
                    1_000_000_000_000_000_000,
                )
            }
            &&& next == AlphaState {
                vaults: next.vaults,
                owner_total_debt: next.owner_total_debt,
                events: next.events,
                ..s
            }
        }),
{
    law_weighted_time_is_the_average(
        v.last_interest_accrued_at,
        v.debt_balance,
        ctx.now,
        amount,
    );
    law_fee_is_the_share_in_force(s, amount);
    let next = borrow_next(s, ctx, vault_id, amount);
    assert(next.events.drop_last() =~= s.events);
}

/// What is on record after a repayment: the debt has shrunk by the amount, the principal by what
/// was not interest, and the owner's debt with the vault's. Everything else stays.
pub proof fn law_repayment_is_recorded(
    s: AlphaState,
    ctx: Context,
    vault_id: u32,
    amount: Balance,
    replies: Seq<Reply>,
    v: Vault,
    other: (AccountId, u32),
)
    requires
        repay_step(s, ctx, vault_id, amount, replies) == Step::<(), Error>::Done(Ok(())),
        with_interest(s, ctx, s.vaults[(ctx.caller, vault_id)]) == Ok::<Vault, Error>(v),
        amount > 0,
    ensures
        ({
            let key = (ctx.caller, vault_id);
            let next = repay_next(s, ctx, vault_id, amount);
            let w = next.vaults[key];
            let outstanding = v.debt_balance - v.borrowed_token_balance;
            &&& next.vaults.contains_key(key)
            &&& w.debt_balance == v.debt_balance - amount
            &&& amount <= outstanding ==> w.borrowed_token_balance == v.borrowed_token_balance
            &&& amount > outstanding ==> w.borrowed_token_balance == w.debt_balance
            &&& w == Vault {
                debt_balance: w.debt_balance,
                borrowed_token_balance: w.borrowed_token_balance,
                ..v
            }
            &&& other != key ==> next.vaults[other] == s.vaults[other]
                && next.vaults.contains_key(other) == s.vaults.contains_key(other)
            &&& owed(next, other.0) == owed(s, other.0) + if other.0 == ctx.caller {
                w.debt_balance - s.vaults[key].debt_balance
            } else {
                0
            }
            &&& next.events.len() == s.events.len() + 1
            &&& next.events.drop_last() == s.events
            &&& next.events.last() matches Event::TokensRepaid(e) && {
                &&& e.owner == ctx.caller && e.vault_id == vault_id && e.amount == amount
                &&& is_floor(
                    e.transaction_fee as int,
                    s.global_params.transaction_fee.inner * amount,
                    1_000_000_000_000_000_000,
                )
            }
            &&& next == AlphaState {
                vaults: next.vaults,
                owner_total_debt: next.owner_total_debt,
                events: next.events,
                ..s
            }
        }),
{
    law_fee_is_the_share_in_force(s, amount);
    let next = repay_next(s, ctx, vault_id, amount);
    assert(next.events.drop_last() =~= s.events);
}

/// A borrow or a repayment of nothing, and an accrual, only bring the interest up to date.
pub proof fn law_accrual_is_recorded(
    s: AlphaState,
    ctx: Context,
    owner: AccountId,
    vault_id: u32,
    v: Vault,
    other: (AccountId, u32),
)
    requires
        accrue_result(s, ctx, owner, vault_id) is Ok,
        with_interest(s, ctx, s.vaults[(owner, vault_id)]) == Ok::<Vault, Error>(v),
    ensures
        ({
            let key = (owner, vault_id);
            let next = accrue_next(s, ctx, owner, vault_id);
            &&& !s.paused && s.vaults.contains_key(key)
            &&& !s.liquidation_auctions.contains_key(key)
            &&& accrue_result(s, ctx, owner, vault_id)->Ok_0 == v.debt_balance
            &&& next.vaults.contains_key(key)
            &&& next.vaults[key] == v
            &&& other != key ==> next.vaults[other] == s.vaults[other]
                && next.vaults.contains_key(other) == s.vaults.contains_key(other)
            &&& owed(next, other.0) == owed(s, other.0) + if other.0 == owner {
                v.debt_balance - s.vaults[key].debt_balance
            } else {
                0
            }
            &&& next.events == s.events.push(
                Event::InterestAccrued(
                    InterestAccrued {
                        owner,
                        vault_id,
                        previous_debt_balance: s.vaults[key].debt_balance,
                        debt_balance: v.debt_balance,
                        accrued_at: v.last_interest_accrued_at,
                    },
                ),
            )
            &&& next == AlphaState {
                vaults: next.vaults,
                owner_total_debt: next.owner_total_debt,
                events: next.events,
                ..s
            }
            &&& ctx.caller == owner ==> {
                &&& borrow_next(s, ctx, vault_id, 0) == AlphaState { events: s.events, ..next }
                &&& repay_next(s, ctx, vault_id, 0) == AlphaState { events: s.events, ..next }
                &&& borrow_step(s, ctx, vault_id, 0, seq![]) == Step::<(), Error>::Done(Ok(()))
                &&& repay_step(s, ctx, vault_id, 0, seq![]) == Step::<(), Error>::Done(Ok(()))
            }
        }),
{
}

/// What is on record after a release: the collateral has left the vault and the books. Everything
/// else stays but the interest, which is brought up to date.
pub proof fn law_release_is_recorded(
    s: AlphaState,
    ctx: Context,
    vault_id: u32,
    amount: Balance,
    dest_coldkey: AccountId,
    replies: Seq<Reply>,
    v: Vault,
    other: (AccountId, u32),
    subnet: u16,
)
    requires
        release_step(s, ctx, vault_id, amount, dest_coldkey, replies) == Step::<(), Error>::Done(
            Ok(()),
        ),
        with_interest(s, ctx, s.vaults[(ctx.caller, vault_id)]) == Ok::<Vault, Error>(v),
    ensures
        ({
            let key = (ctx.caller, vault_id);
            let next = release_next(s, ctx, vault_id, amount, dest_coldkey);
            let w = next.vaults[key];
            &&& next.vaults.contains_key(key)
            &&& w.collateral_balance == v.collateral_balance - amount
            &&& w == Vault { collateral_balance: w.collateral_balance, ..v }
            &&& other != key ==> next.vaults[other] == s.vaults[other]
                && next.vaults.contains_key(other) == s.vaults.contains_key(other)
            &&& next.total_collateral_balance == s.total_collateral_balance - amount
            &&& booked(next, subnet) == booked(s, subnet) - if subnet == v.netuid {
                amount as int
            } else {
                0
            }
            &&& owed(next, other.0) == owed(s, other.0) + if other.0 == ctx.caller {
                v.debt_balance - s.vaults[key].debt_balance
            } else {
                0
            }
            &&& next.events == s.events.push(
                Event::CollateralReleased(
                    CollateralReleased { owner: ctx.caller, vault_id, amount, dest_coldkey },
                ),
            )
            &&& next == AlphaState {
                vaults: next.vaults,
                total_collateral_balance: next.total_collateral_balance,
                netuid_total_collateral: next.netuid_total_collateral,
                owner_total_debt: next.owner_total_debt,
                events: next.events,
                ..s
            }
        }),
{
    reveal_with_fuel(progress, 2);
}

/// What is on record after a liquidation was opened: the auction under the vault's key, and all of
/// the vault's collateral gone from the vault and the books. The debt stays.
pub proof fn law_liquidation_is_recorded(
    s: AlphaState,
    ctx: Context,
    owner: AccountId,
    vault_id: u32,
    replies: Seq<Reply>,
    v: Vault,
    auction_id: u32,
    other: (AccountId, u32),
    subnet: u16,
)
    requires
        trigger_step(s, ctx, owner, vault_id, replies) == Step::<u32, Error>::Done(Ok(auction_id)),
        with_interest(s, ctx, s.vaults[(owner, vault_id)]) == Ok::<Vault, Error>(v),
    ensures
        ({
            let key = (owner, vault_id);
            let next = trigger_next(s, ctx, owner, vault_id, auction_id);
            let w = next.vaults[key];
            &&& next.vaults.contains_key(key)
            &&& w.collateral_balance == 0
            &&& w == Vault { collateral_balance: 0, ..v }
            &&& other != key ==> next.vaults[other] == s.vaults[other]
                && next.vaults.contains_key(other) == s.vaults.contains_key(other)
                && next.liquidation_auctions[other] == s.liquidation_auctions[other]
                && next.liquidation_auctions.contains_key(other)
                == s.liquidation_auctions.contains_key(other)
            &&& next.liquidation_auctions.contains_key(key)
            &&& next.liquidation_auctions[key] == auction_id
            &&& next.total_collateral_balance == s.total_collateral_balance - v.collateral_balance
            &&& booked(next, subnet) == booked(s, subnet) - if subnet == v.netuid {
                v.collateral_balance as int
            } else {
                0
            }
            &&& owed(next, other.0) == owed(s, other.0) + if other.0 == owner {
                v.debt_balance - s.vaults[key].debt_balance
            } else {
                0
            }
            &&& next.events == s.events.push(
                Event::LiquidationAuctionCreated(
                    LiquidationAuctionCreated { owner, vault_id, auction_id },
                ),
            )
            &&& next == AlphaState {
                vaults: next.vaults,
                liquidation_auctions: next.liquidation_auctions,
                total_collateral_balance: next.total_collateral_balance,
                netuid_total_collateral: next.netuid_total_collateral,
                owner_total_debt: next.owner_total_debt,
                events: next.events,
                ..s
            }
        }),
{
}

/// What is on record after a settlement: the auction's debt is off the vault, interest first, and
/// off the owner's debt, and the vault is out of liquidation. Everything else stays.
pub proof fn law_settlement_is_recorded(
    s: AlphaState,
    ctx: Context,
    owner: AccountId,
    vault_id: u32,
    replies: Seq<Reply>,
    a: AuctionRecord,
    other: (AccountId, u32),
)
    requires
        settle_step(s, ctx, owner, vault_id, replies) == Step::<(), Error>::Done(Ok(())),
        replies[0] == Reply::Auction(Some(a)),
    ensures
        ({
            let key = (owner, vault_id);
            let v = s.vaults[key];
            let next = settle_next(s, owner, vault_id, a);
            let w = next.vaults[key];
            let outstanding = v.debt_balance - v.borrowed_token_balance;
            &&& s.liquidation_auctions.contains_key(key)
            &&& next.vaults.contains_key(key)
            &&& w.debt_balance == v.debt_balance - a.debt_balance
            &&& a.debt_balance <= outstanding ==> w.borrowed_token_balance
                == v.borrowed_token_balance
            &&& a.debt_balance > outstanding ==> w.borrowed_token_balance == w.debt_balance
            &&& w == Vault {
                debt_balance: w.debt_balance,
                borrowed_token_balance: w.borrowed_token_balance,
                ..v
            }
            &&& other != key ==> next.vaults[other] == s.vaults[other]
                && next.vaults.contains_key(other) == s.vaults.contains_key(other)
            &&& next.liquidation_auctions == s.liquidation_auctions.remove(key)
            &&& owed(next, other.0) == owed(s, other.0) - if other.0 == owner {
                a.debt_balance as int
            } else {
                0
            }
            &&& next.events.len() == s.events.len() + 1
            &&& next.events.drop_last() == s.events
            &&& next.events.last() matches Event::VaultLiquidated(e) && {
                &&& e.owner == owner && e.vault_id == vault_id
                &&& e.auction_id == s.liquidation_auctions[key]
                &&& e.winner == a.highest_bidder && e.winning_bid == a.highest_bid
                &&& e.collateral_sold == a.collateral_balance && e.debt_cleared == a.debt_balance
                &&& is_floor(
                    e.transaction_fee as int,
                    s.global_params.transaction_fee.inner * a.collateral_balance,
                    1_000_000_000_000_000_000,
                )
            }
            &&& next == AlphaState {
                vaults: next.vaults,
                liquidation_auctions: next.liquidation_auctions,
                owner_total_debt: next.owner_total_debt,
                events: next.events,
                ..s
            }
        }),
{
    law_fee_is_the_share_in_force(s, a.collateral_balance);
    let next = settle_next(s, owner, vault_id, a);
    assert(next.events.drop_last() =~= s.events);
}

/// Why a settlement is refused, the first reason that holds.
pub proof fn law_settlement_refusals(
    s: AlphaState,
    ctx: Context,
    owner: AccountId,
    vault_id: u32,
    replies: Seq<Reply>,
    a: AuctionRecord,
)
    ensures
        ({
            let key = (owner, vault_id);
            let r = settle_step(s, ctx, owner, vault_id, replies);
            let known = s.liquidation_auctions.contains_key(key);
            let done = a.is_finalized && a.highest_bidder is Some;
            &&& !known ==> r == fail::<(), Error>(Error::AuctionNotFound)
            &&& known && replies.len() == 0 ==> r == Step::<(), Error>::Call(
                Call::AuctionGet { auction: s.auction, auction_id: s.liquidation_auctions[key] },
            )
            &&& known && replies.len() > 0 && replies[0] == Reply::Auction(None) ==> r == fail::<
                (),
                Error,
            >(Error::AuctionNotFound)
            &&& known && replies.len() > 0 && replies[0] == Reply::Auction(Some(a)) ==> {
                &&& !done ==> r == fail::<(), Error>(Error::AuctionNotFinalized)
                &&& done && !s.vaults.contains_key(key) ==> r == fail::<(), Error>(
                    Error::VaultNotFound,
                )
            }
        }),
{
}

} // verus!
