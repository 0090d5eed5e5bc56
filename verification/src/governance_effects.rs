//! What governance's messages bring about: how much must vote, what passes, what a vote counts,
//! who may propose, and what an executed proposal releases.
use vstd::prelude::*;
use crate::account::{AccountId, Balance};
use crate::calendar::{day_number, is_date, law_civil_day_of_date};
use crate::fixed_point::{is_floor, lemma_division_rounds_down};
use crate::governance::{
    commit_round_step, council_only, execute_next, execute_step, finalize_next, finalize_result,
    forwarded, initial_state, maintainer_only, quorum_of, release_writes, set_council_result,
    snapshot_next, snapshot_result, starting_params, submit_next, submit_step, update_params_result,
    vote_next, vote_result, Ballot, Error, Event, GovernanceParams, GovernanceState, Proposal,
    ProposalExecuted, ProposalFinalized, ProposalKind, ProposalStatus, ProposalSubmitted, Snapshot,
    SnapshotSubmitted, Voted,
};
use crate::host::{conclude, fail, progress, Call, Context, Reply, StakeInfo, Step};
use crate::merkle::{blake2_256, fold_proof, leaf_bytes};
use crate::peers::{Fund, PriceData, TokenKind};
use crate::ratio::Ratio;
use crate::trace::{calls_in, calls_of, lemma_calls_of_writes};
use crate::voting::law_power_is_scaled_root;

verus! {

/// The quorum of a committed snapshot is the share of its circulating supply that the parameters
/// in force ask for, rounded down; a product above every number counts as the largest. Without a
/// snapshot there is no quorum.
pub proof fn law_quorum_is_the_share_in_force(s: GovernanceState, epoch: u64)
    ensures
        ({
            let asked = s.snapshots[epoch].circulating_supply * s.params.quorum_bps;
            let largest = 0xffff_ffff_ffff_ffff_ffff_ffff_ffff_ffffint;
            let q = quorum_of(s, epoch);
            &&& s.snapshots.contains_key(epoch) && asked <= largest ==> q * 10_000 <= asked < (q + 1)
                * 10_000
            &&& s.snapshots.contains_key(epoch) && asked > largest ==> q * 10_000 <= largest < (q
                + 1) * 10_000
            &&& !s.snapshots.contains_key(epoch) ==> q == 0
        }),
{
    let asked = s.snapshots[epoch].circulating_supply * s.params.quorum_bps;
    assert(asked >= 0) by (nonlinear_arith)
        requires
            asked == s.snapshots[epoch].circulating_supply * s.params.quorum_bps,
            s.snapshots[epoch].circulating_supply >= 0,
            s.params.quorum_bps >= 0,
    ;
    lemma_division_rounds_down(asked, 10_000);
    lemma_division_rounds_down(0xffff_ffff_ffff_ffff_ffff_ffff_ffff_ffff, 10_000);
}

/// Whether a proposal's votes carry it, by the supply of its snapshot: the balance that voted
/// makes up the quorum's share of the supply, up to rounding, and the yes side makes up the
/// approval's share of the voting power.
pub open spec fn carried(p: Proposal, supply: int, params: GovernanceParams) -> bool {
    &&& (p.voted_balance + 1) * 10_000 > supply * params.quorum_bps
    &&& p.yes + p.no > 0
    &&& p.yes * 10_000 >= params.approval_bps * (p.yes + p.no)
}

/// A proposal is decided once its vote has closed, and it passes exactly when its votes carry it
/// under the parameters in force: in particular only with `voted_balance * 10_000 >
/// circulating_supply * quorum_bps - 10_000`. The only other end is an overflow of the tally.
pub proof fn law_passes_exactly_when_carried(s: GovernanceState, ctx: Context, id: u64)
    requires
        s.proposals.contains_key(id),
        s.snapshots.contains_key(s.proposals[id].snapshot_epoch),
        s.snapshots[s.proposals[id].snapshot_epoch].circulating_supply * s.params.quorum_bps
            <= u128::MAX,
    ensures
        ({
            let p = s.proposals[id];
            let supply = s.snapshots[p.snapshot_epoch].circulating_supply as int;
            let due = p.status == ProposalStatus::Active && ctx.now >= p.voting_ends_at;
            let r = finalize_result(s, ctx, id);
            let fits = p.yes + p.no <= u128::MAX && p.yes * 10_000 <= u128::MAX;
            &&& p.status != ProposalStatus::Active ==> r == Err::<ProposalStatus, Error>(
                Error::ProposalNotActive,
            )
            &&& p.status == ProposalStatus::Active && ctx.now < p.voting_ends_at ==> r == Err::<
                ProposalStatus,
                Error,
            >(Error::VotingStillOpen)
            &&& r == Ok::<ProposalStatus, Error>(ProposalStatus::Passed) ==> {
                &&& due
                &&& carried(p, supply, s.params)
                &&& p.voted_balance * 10_000 > supply * s.params.quorum_bps - 10_000
                &&& p.yes + p.no > 0
                &&& p.yes * 10_000 >= s.params.approval_bps * (p.yes + p.no)
            }
            &&& r == Ok::<ProposalStatus, Error>(ProposalStatus::Rejected) ==> due && !carried(
                p,
                supply,
                s.params,
            )
            &&& due && fits && carried(p, supply, s.params) ==> r == Ok::<ProposalStatus, Error>(
                ProposalStatus::Passed,
            )
            &&& due && fits && !carried(p, supply, s.params) ==> r == Ok::<ProposalStatus, Error>(
                ProposalStatus::Rejected,
            )
            &&& due && !fits && r is Err ==> r == Err::<ProposalStatus, Error>(
                Error::ArithmeticError,
            )
        }),
{
    let p = s.proposals[id];
    let supply = s.snapshots[p.snapshot_epoch].circulating_supply as int;
    law_quorum_is_the_share_in_force(s, p.snapshot_epoch);
    let q = quorum_of(s, p.snapshot_epoch) as int;
    let asked = supply * s.params.quorum_bps;
    assert(p.voted_balance >= q <==> (p.voted_balance + 1) * 10_000 > asked);
    let all = p.yes + p.no;
    if all > 0 {
        let y = p.yes * 10_000;
        let a = s.params.approval_bps as int;
        lemma_division_rounds_down(y, all);
        let d = y / all;
        assert(d >= a <==> y >= a * all) by (nonlinear_arith)
            requires
                d * all <= y < (d + 1) * all,
                all > 0,
        ;
    }
}

/// A proposal whose snapshot is missing needs no quorum; nothing is decided for a proposal that
/// does not exist.
pub proof fn law_passes_without_snapshot(s: GovernanceState, ctx: Context, id: u64)
    ensures
        !s.proposals.contains_key(id) ==> finalize_result(s, ctx, id) == Err::<
            ProposalStatus,
            Error,
        >(Error::ProposalNotFound),
        ({
            let p = s.proposals[id];
            let due = s.proposals.contains_key(id) && p.status == ProposalStatus::Active && ctx.now
                >= p.voting_ends_at;
            due && !s.snapshots.contains_key(p.snapshot_epoch) && p.yes + p.no <= u128::MAX && p.yes
                * 10_000 <= u128::MAX ==> (finalize_result(s, ctx, id) == Ok::<
                ProposalStatus,
                Error,
            >(ProposalStatus::Passed) <==> p.yes + p.no > 0 && p.yes * 10_000
                >= s.params.approval_bps * (p.yes + p.no))
        }),
{
    let p = s.proposals[id];
    let all = p.yes + p.no;
    if all > 0 {
        let y = p.yes * 10_000;
        let a = s.params.approval_bps as int;
        lemma_division_rounds_down(y, all);
        let d = y / all;
        assert(d >= a <==> y >= a * all) by (nonlinear_arith)
            requires
                d * all <= y < (d + 1) * all,
                all > 0,
        ;
    }
}

/// A decision marks its proposal and nothing else.
pub proof fn law_decision_is_recorded(
    s: GovernanceState,
    id: u64,
    status: ProposalStatus,
    other: u64,
)
    ensures
        ({
            let p = s.proposals[id];
            let next = finalize_next(s, id, status);
            let q = next.proposals[id];
            &&& next.proposals.contains_key(id)
            &&& q.status == status
            &&& q.id == p.id && q.proposer == p.proposer && q.cid == p.cid && q.kind == p.kind
            &&& q.created_at == p.created_at && q.voting_ends_at == p.voting_ends_at
            &&& q.snapshot_epoch == p.snapshot_epoch && q.voted_balance == p.voted_balance
            &&& q.yes == p.yes && q.no == p.no
            &&& other != id ==> next.proposals[other] == s.proposals[other]
                && next.proposals.contains_key(other) == s.proposals.contains_key(other)
            &&& next.events == s.events.push(
                Event::ProposalFinalized(
                    ProposalFinalized { proposal_id: id, status, yes: p.yes, no: p.no },
                ),
            )
            &&& next == GovernanceState { proposals: next.proposals, events: next.events, ..s }
        }),
{
}

/// A vote is taken exactly when its proposal is active and its vote is open, the caller has not
/// voted with that hotkey, the caller's own leaf is proven against the root of the proposal's
/// snapshot, and the leaf has voting power. The counters' limits aside, nothing else stands in
/// the way.
pub proof fn law_vote_is_taken_exactly_when(
    s: GovernanceState,
    ctx: Context,
    b: Ballot,
    root: int,
    weight: int,
)
    requires
        0 <= root,
        root * root <= b.balance < (root + 1) * (root + 1),
        is_floor(weight, root * b.multiplier_bps, 10_000),
    ensures
        ({
            let p = s.proposals[b.proposal_id];
            let siblings = Seq::new(b.proof.len(), |i: int| b.proof[i]@);
            let leaf = blake2_256(leaf_bytes(ctx.caller, b.hotkey, b.balance, b.multiplier_bps));
            vote_result(s, ctx, b) is Ok <==> {
                &&& s.proposals.contains_key(b.proposal_id)
                &&& p.status == ProposalStatus::Active
                &&& ctx.now < p.voting_ends_at
                &&& !s.voted.contains((b.proposal_id, ctx.caller, b.hotkey))
                &&& s.snapshots.contains_key(p.snapshot_epoch)
                &&& fold_proof(leaf, siblings) == s.snapshots[p.snapshot_epoch].root@
                &&& weight > 0
                &&& b.support ==> p.yes + weight <= u128::MAX
                &&& !b.support ==> p.no + weight <= u128::MAX
                &&& p.voted_balance + b.balance <= u128::MAX
            }
        }),
{
    law_power_is_scaled_root(b.balance, b.multiplier_bps, root);
    lemma_division_rounds_down(root * b.multiplier_bps, 10_000);
    assert(Seq::new(b.proof.len(), |i: int| b.proof[i]@) =~= crate::merkle::nodes(b.proof));
}

/// Why a vote is refused, the first reason that holds.
pub proof fn law_vote_refusals(s: GovernanceState, ctx: Context, b: Ballot)
    ensures
        ({
            let p = s.proposals[b.proposal_id];
            let r = vote_result(s, ctx, b);
            let found = s.proposals.contains_key(b.proposal_id);
            let active = found && p.status == ProposalStatus::Active;
            let open = active && ctx.now < p.voting_ends_at;
            let fresh = open && !s.voted.contains((b.proposal_id, ctx.caller, b.hotkey));
            let known = fresh && s.snapshots.contains_key(p.snapshot_epoch);
            let leaf = blake2_256(leaf_bytes(ctx.caller, b.hotkey, b.balance, b.multiplier_bps));
            let proven = known && fold_proof(leaf, crate::merkle::nodes(b.proof))
                == s.snapshots[p.snapshot_epoch].root@;
            &&& !found ==> r == Err::<(), Error>(Error::ProposalNotFound)
            &&& found && !active ==> r == Err::<(), Error>(Error::ProposalNotActive)
            &&& active && !open ==> r == Err::<(), Error>(Error::VotingClosed)
            &&& open && !fresh ==> r == Err::<(), Error>(Error::AlreadyVoted)
            &&& fresh && !known ==> r == Err::<(), Error>(Error::NoSnapshot)
            &&& known && !proven ==> r == Err::<(), Error>(Error::InvalidProof)
            &&& proven && r is Err ==> r == Err::<(), Error>(Error::NoStake) || r == Err::<
                (),
                Error,
            >(Error::ArithmeticError)
        }),
{
}

/// A vote that was taken adds the leaf's voting power to the side it supports and the leaf's
/// balance to the participation, marks the voter, and changes nothing else.
pub proof fn law_vote_counts_its_power(
    s: GovernanceState,
    ctx: Context,
    b: Ballot,
    root: int,
    weight: int,
    other: u64,
)
    requires
        vote_result(s, ctx, b) is Ok,
        0 <= root,
        root * root <= b.balance < (root + 1) * (root + 1),
        is_floor(weight, root * b.multiplier_bps, 10_000),
    ensures
        ({
            let p = s.proposals[b.proposal_id];
            let next = vote_next(s, ctx, b);
            let q = next.proposals[b.proposal_id];
            &&& next.proposals.contains_key(b.proposal_id)
            &&& q.yes == p.yes + (if b.support {
                weight
            } else {
                0
            })
            &&& q.no == p.no + (if b.support {
                0
            } else {
                weight
            })
            &&& q.voted_balance == p.voted_balance + b.balance
            &&& q.status == p.status
            &&& q.id == p.id && q.proposer == p.proposer && q.cid == p.cid && q.kind == p.kind
            &&& q.created_at == p.created_at && q.voting_ends_at == p.voting_ends_at
            &&& q.snapshot_epoch == p.snapshot_epoch
            &&& other != b.proposal_id ==> next.proposals[other] == s.proposals[other]
                && next.proposals.contains_key(other) == s.proposals.contains_key(other)
            &&& next.voted == s.voted.insert((b.proposal_id, ctx.caller, b.hotkey))
            &&& next.events == s.events.push(
                Event::Voted(
                    Voted {
                        proposal_id: b.proposal_id,
                        coldkey: ctx.caller,
                        hotkey: b.hotkey,
                        support: b.support,
                        weight: weight as u128,
                    },
                ),
            )
            &&& next == GovernanceState {
                proposals: next.proposals,
                voted: next.voted,
                events: next.events,
                ..s
            }
        }),
{
    law_power_is_scaled_root(b.balance, b.multiplier_bps, root);
    lemma_division_rounds_down(root * b.multiplier_bps, 10_000);
}

/// Who may propose, and when: on a day of the month within the window, once there is a snapshot,
/// with a CID of 1 to 96 bytes and, for a funding proposal, an amount, anyone whose stake behind
/// the hotkey on the governed subnet exceeds the minimum. The counters' limits aside, nothing else
/// stands in the way, and the proposal gets the next identifier.
pub proof fn law_proposal_is_accepted_exactly_when(
    s: GovernanceState,
    ctx: Context,
    cid: Seq<char>,
    kind: ProposalKind,
    hotkey: AccountId,
    info: StakeInfo,
    year: int,
    month: int,
    day: int,
)
    requires
        is_date(year, month, day),
        day_number(year, month, day) == (ctx.now / 86_400_000) as int,
    ensures
        ({
            let bytes = vstd::utf8::encode_utf8(cid).len();
            let eligible = {
                &&& 1 <= bytes <= 96
                &&& kind is Funding ==> kind->amount > 0
                &&& s.params.submission_open_day <= day <= s.params.submission_close_day
                &&& s.current_epoch > 0
            };
            &&& submit_step(s, ctx, cid, kind, hotkey, seq![]) == Step::<u64, Error>::Call(
                Call::StakeInfo { hotkey, coldkey: ctx.caller, netuid: s.params.netuid },
            ) <==> eligible
            &&& submit_step(s, ctx, cid, kind, hotkey, seq![Reply::Stake(Some(info))]) == Step::<
                u64,
                Error,
            >::Done(Ok((s.proposal_count + 1) as u64)) <==> eligible && info.stake
                > s.params.min_proposer_stake && s.proposal_count < u64::MAX && ctx.now
                + s.params.voting_period_ms <= u64::MAX
        }),
{
    law_civil_day_of_date(year, month, day);
    let replies = seq![Reply::Stake(Some(info))];
    assert(replies[0] == Reply::Stake(Some(info)));
}

/// Why a proposal is refused, the first reason that holds.
pub proof fn law_proposal_refusals(
    s: GovernanceState,
    ctx: Context,
    cid: Seq<char>,
    kind: ProposalKind,
    hotkey: AccountId,
    replies: Seq<Reply>,
    year: int,
    month: int,
    day: int,
)
    requires
        is_date(year, month, day),
        day_number(year, month, day) == (ctx.now / 86_400_000) as int,
    ensures
        ({
            let r = submit_step(s, ctx, cid, kind, hotkey, replies);
            let bytes = vstd::utf8::encode_utf8(cid).len();
            let named = 1 <= bytes <= 96;
            let moves = named && (kind is Funding ==> kind->amount > 0);
            let timely = moves && s.params.submission_open_day <= day
                <= s.params.submission_close_day;
            let ready = timely && s.current_epoch > 0 && replies.len() > 0;
            &&& !named ==> r == fail::<u64, Error>(Error::InvalidCid)
            &&& named && !moves ==> r == fail::<u64, Error>(Error::InvalidAmount)
            &&& moves && !timely ==> r == fail::<u64, Error>(Error::OutsideSubmissionWindow)
            &&& timely && s.current_epoch == 0 ==> r == fail::<u64, Error>(Error::NoSnapshot)
            &&& ready && !(replies[0] is Stake) ==> r == fail::<u64, Error>(
                Error::StakeQueryFailed,
            )
            &&& ready && replies[0] == Reply::Stake(None) ==> r == fail::<u64, Error>(
                Error::NoStake,
            )
            &&& ready && replies[0] is Stake && replies[0]->Stake_0 is Some
                && replies[0]->Stake_0->0.stake <= s.params.min_proposer_stake ==> r == fail::<
                u64,
                Error,
            >(Error::InsufficientStake)
        }),
{
    law_civil_day_of_date(year, month, day);
}

/// An accepted proposal is on record as it was made: open for the voting period in force, bound to
/// the current snapshot, without votes. Everything else stays.
pub proof fn law_proposal_is_recorded(
    s: GovernanceState,
    ctx: Context,
    cid: String,
    kind: ProposalKind,
    other: u64,
)
    requires
        s.proposal_count < u64::MAX,
        ctx.now + s.params.voting_period_ms <= u64::MAX,
    ensures
        ({
            let id = (s.proposal_count + 1) as u64;
            let next = submit_next(s, ctx, cid, kind);
            let p = next.proposals[id];
            &&& next.proposals.contains_key(id)
            &&& next.proposal_count == s.proposal_count + 1
            &&& p.id == s.proposal_count + 1
            &&& p.proposer == ctx.caller
            &&& p.cid == cid
            &&& p.kind == kind
            &&& p.created_at == ctx.now
            &&& p.voting_ends_at == ctx.now + s.params.voting_period_ms
            &&& p.snapshot_epoch == s.current_epoch
            &&& p.yes == 0 && p.no == 0 && p.voted_balance == 0
            &&& p.status == ProposalStatus::Active
            &&& other != id ==> next.proposals[other] == s.proposals[other]
                && next.proposals.contains_key(other) == s.proposals.contains_key(other)
            &&& next.events == s.events.push(
                Event::ProposalSubmitted(
                    ProposalSubmitted {
                        proposal_id: id,
                        proposer: ctx.caller,
                        voting_ends_at: p.voting_ends_at,
                    },
                ),
            )
            &&& next == GovernanceState {
                proposal_count: next.proposal_count,
                proposals: next.proposals,
                events: next.events,
                ..s
            }
        }),
{
}

/// `execute` on a proposal, by the replies so far.
pub open spec fn executing(s: GovernanceState, id: u64) -> spec_fn(Seq<Reply>) -> Step<(), Error> {
    |replies: Seq<Reply>| execute_step(s, id, replies)
}

/// Executing a funding proposal makes one call: the treasury releases the amount that was voted
/// on, of the kind of token and from the fund that were voted on, to the recipient that was voted
/// on. A proposal without funding makes no call. Only passed proposals are executed.
pub proof fn law_execution_releases_what_was_voted(
    s: GovernanceState,
    id: u64,
    replies: Seq<Reply>,
    fund: Fund,
    token_kind: TokenKind,
    amount: Balance,
    recipient: AccountId,
)
    requires
        execute_step(s, id, replies) == Step::<(), Error>::Done(Ok(())),
    ensures
        s.proposals.contains_key(id),
        s.proposals[id].status == ProposalStatus::Passed,
        s.proposals[id].kind == ProposalKind::NonFunding ==> calls_of(executing(s, id), replies)
            == Seq::<Call>::empty(),
        s.proposals[id].kind == (ProposalKind::Funding { fund, token_kind, amount, recipient })
            ==> calls_of(executing(s, id), replies) == seq![
            Call::TreasuryRelease { treasury: s.treasury, fund, token_kind, amount, recipient },
        ] && !(replies[0] is Failed),
{
    let p = s.proposals[id];
    let step = executing(s, id);
    let writes = release_writes(s, p.kind);
    assert forall|k: int| 0 <= k <= replies.len() implies step(#[trigger] replies.take(k))
        == conclude(writes, replies.take(k), 0, Ok::<(), Error>(())) by {}
    assert(replies.take(replies.len() as int) =~= replies);
    lemma_calls_of_writes(step, writes, replies, 0, Ok::<(), Error>(()));
    assert(replies.take(0) =~= Seq::<Reply>::empty());
    assert(calls_of(step, replies.take(0)) =~= seq![]);
    assert(calls_of(step, replies) =~= calls_in(writes));
    reveal_with_fuel(progress, 2);
}

/// Which proposals can be executed: those that passed, once, if the treasury pays.
pub proof fn law_execution_refusals(s: GovernanceState, id: u64, replies: Seq<Reply>)
    ensures
        ({
            let p = s.proposals[id];
            let r = execute_step(s, id, replies);
            &&& !s.proposals.contains_key(id) ==> r == fail::<(), Error>(Error::ProposalNotFound)
            &&& s.proposals.contains_key(id) ==> {
                &&& p.status == ProposalStatus::Executed ==> r == fail::<(), Error>(
                    Error::AlreadyExecuted,
                )
                &&& p.status == ProposalStatus::Active || p.status == ProposalStatus::Rejected
                    ==> r == fail::<(), Error>(Error::NotPassed)
                &&& p.status == ProposalStatus::Passed && p.kind == ProposalKind::NonFunding ==> r
                    == Step::<(), Error>::Done(Ok(()))
                &&& p.status == ProposalStatus::Passed && p.kind is Funding && replies.len() > 0
                    && replies[0] is Failed ==> r == fail::<(), Error>(Error::TreasuryCallFailed)
                &&& p.status == ProposalStatus::Passed && p.kind is Funding && replies.len() > 0
                    && !(replies[0] is Failed) ==> r == Step::<(), Error>::Done(Ok(()))
            }
        }),
{
    reveal_with_fuel(progress, 2);
}

/// An executed proposal is marked as such, and everything else stays.
pub proof fn law_execution_is_recorded(s: GovernanceState, id: u64, other: u64)
    ensures
        ({
            let p = s.proposals[id];
            let next = execute_next(s, id);
            &&& next.proposals.contains_key(id)
            &&& next.proposals[id] == Proposal { status: ProposalStatus::Executed, ..p }
            &&& other != id ==> next.proposals[other] == s.proposals[other]
                && next.proposals.contains_key(other) == s.proposals.contains_key(other)
            &&& next.events == s.events.push(
                Event::ProposalExecuted(ProposalExecuted { proposal_id: id }),
            )
            &&& next == GovernanceState { proposals: next.proposals, events: next.events, ..s }
        }),
{
}

/// Who may change what: the maintainer sets a council of five different accounts and parameters
/// with an approval of 1 to 10,000 basis points, a quorum of at most 10,000, a voting period, and
/// a window of days between the 1st and the 28th. A member of the council commits the next
/// snapshot.
pub proof fn law_roles_and_limits(
    s: GovernanceState,
    ctx: Context,
    members: Seq<AccountId>,
    params: GovernanceParams,
)
    ensures
        maintainer_only(s, ctx) == if ctx.caller == s.maintainer {
            Ok::<(), Error>(())
        } else {
            Err(Error::NotMaintainer)
        },
        council_only(s, ctx) == if exists|i: int|
            0 <= i < s.council.len() && s.council[i] == ctx.caller {
            Ok::<(), Error>(())
        } else {
            Err(Error::NotCouncil)
        },
        ctx.caller != s.maintainer ==> {
            &&& set_council_result(s, ctx, members) == Err::<(), Error>(Error::NotMaintainer)
            &&& update_params_result(s, ctx, params) == Err::<(), Error>(Error::NotMaintainer)
        },
        ctx.caller == s.maintainer ==> {
            &&& set_council_result(s, ctx, members) == if members.len() == 5 && forall|
                i: int,
                j: int,
            |
                0 <= i < j < 5 ==> members[i] != members[j] {
                Ok::<(), Error>(())
            } else {
                Err(Error::InvalidCouncil)
            }
            &&& update_params_result(s, ctx, params) == if 1 <= params.approval_bps <= 10_000
                && params.quorum_bps <= 10_000 && params.voting_period_ms > 0 && 1
                <= params.submission_open_day <= params.submission_close_day <= 28 {
                Ok::<(), Error>(())
            } else {
                Err(Error::InvalidParams)
            }
        },
        snapshot_result(s, ctx) is Ok <==> s.council.contains(ctx.caller) && s.current_epoch
            < u64::MAX,
        snapshot_result(s, ctx) is Ok ==> snapshot_result(s, ctx)->Ok_0 == s.current_epoch + 1,
        !s.council.contains(ctx.caller) ==> snapshot_result(s, ctx) == Err::<u64, Error>(
            Error::NotCouncil,
        ),
{
    if members.len() == 5 {
        if forall|i: int, j: int| 0 <= i < j < 5 ==> members[i] != members[j] {
            assert(members.no_duplicates());
        }
    }
}

/// A committed snapshot is on record under the next epoch, which becomes the current one; earlier
/// snapshots and everything else stay.
pub proof fn law_snapshot_is_recorded(s: GovernanceState, snapshot: Snapshot, other: u64)
    requires
        s.current_epoch < u64::MAX,
    ensures
        ({
            let epoch = (s.current_epoch + 1) as u64;
            let next = snapshot_next(s, snapshot);
            &&& next.current_epoch == s.current_epoch + 1
            &&& next.snapshots.contains_key(epoch)
            &&& next.snapshots[epoch] == snapshot
            &&& other != epoch ==> next.snapshots[other] == s.snapshots[other]
                && next.snapshots.contains_key(other) == s.snapshots.contains_key(other)
            &&& next.events == s.events.push(
                Event::SnapshotSubmitted(
                    SnapshotSubmitted {
                        epoch,
                        root: snapshot.root,
                        circulating_supply: snapshot.circulating_supply,
                        snapshot_block: snapshot.snapshot_block,
                    },
                ),
            )
            &&& next == GovernanceState {
                current_epoch: next.current_epoch,
                snapshots: next.snapshots,
                events: next.events,
                ..s
            }
        }),
{
}

/// Governance starts under the given roles, without council, snapshot or proposal, with votes of
/// 48 hours, an approval of 50.01%, a quorum of 20%, a minimum stake of 1,000 alpha on subnet 113
/// and a window from the 5th to the 25th.
pub proof fn law_new_governance(
    treasury: AccountId,
    vault: AccountId,
    auction: AccountId,
    oracle: AccountId,
    maintainer: AccountId,
)
    ensures
        ({
            let s = initial_state(treasury, vault, auction, oracle, maintainer);
            &&& s.treasury == treasury && s.vault == vault && s.auction == auction
            &&& s.oracle == oracle && s.maintainer == maintainer
            &&& s.council.len() == 0 && s.current_epoch == 0 && s.proposal_count == 0
            &&& s.snapshots == Map::<u64, Snapshot>::empty()
            &&& s.proposals == Map::<u64, Proposal>::empty()
            &&& s.voted == Set::<(u64, AccountId, AccountId)>::empty()
            &&& s.events.len() == 0
            &&& s.params == starting_params()
        }),
        starting_params() == (GovernanceParams {
            netuid: 113,
            voting_period_ms: 172_800_000,
            quorum_bps: 2_000,
            approval_bps: 5_001,
            min_proposer_stake: 1_000_000_000_000,
            submission_open_day: 5,
            submission_close_day: 25,
        }),
{
}

/// A forwarded call is made exactly when the role allows it, once, and its failure is reported as
/// the given error.
pub proof fn law_forwarded_call(
    permission: Result<(), Error>,
    call: Call,
    on_failure: Error,
    replies: Seq<Reply>,
)
    ensures
        permission is Err ==> forwarded(permission, call, on_failure, replies) == fail::<(), Error>(
            permission->Err_0,
        ),
        permission is Ok && replies.len() == 0 ==> forwarded(permission, call, on_failure, replies)
            == Step::<(), Error>::Call(call),
        permission is Ok && replies.len() > 0 && replies[0] is Failed ==> forwarded(
            permission,
            call,
            on_failure,
            replies,
        ) == fail::<(), Error>(on_failure),
        permission is Ok && replies.len() > 0 && !(replies[0] is Failed) ==> forwarded(
            permission,
            call,
            on_failure,
            replies,
        ) == Step::<(), Error>::Done(Ok(())),
{
    reveal_with_fuel(progress, 2);
}

/// The maintainer commits a round at the oracle and gets back what the oracle committed.
pub proof fn law_committed_round(
    s: GovernanceState,
    ctx: Context,
    price: Ratio,
    replies: Seq<Reply>,
    data: PriceData,
)
    ensures
        ctx.caller != s.maintainer ==> commit_round_step(s, ctx, price, replies) == fail::<
            PriceData,
            Error,
        >(Error::NotMaintainer),
        ctx.caller == s.maintainer ==> {
            &&& commit_round_step(s, ctx, price, seq![]) == Step::<PriceData, Error>::Call(
                Call::OracleCommitRound { oracle: s.oracle, price },
            )
            &&& replies.len() > 0 && replies[0] == Reply::Committed(data) ==> commit_round_step(
                s,
                ctx,
                price,
                replies,
            ) == Step::<PriceData, Error>::Done(Ok(data))
            &&& replies.len() > 0 && !(replies[0] is Committed) ==> commit_round_step(
                s,
                ctx,
                price,
                replies,
            ) == fail::<PriceData, Error>(Error::OracleCallFailed)
        },
{
}

} // verus!
