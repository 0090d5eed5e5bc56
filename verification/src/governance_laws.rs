//! What holds of governance as a whole.
use vstd::prelude::*;
use crate::account::AccountId;
use crate::calendar::is_date;
use crate::governance::{
    council_only, council_valid, execute_next, execute_step, finalize_next, finalize_result,
    initial_state, maintainer_only, params_valid, quorum_of, release_writes, set_council_result,
    snapshot_next, snapshot_result, submit_next, submit_step, update_params_result, vote_next,
    vote_result, Ballot, Error, GovernanceParams, GovernanceState, Proposal, ProposalKind,
    ProposalStatus, Snapshot,
};
use crate::host::{progress, Call, Context, Reply, Step};
use crate::voting::power;

verus! {

/// Proposals and snapshots are numbered from one without gaps; every proposal carries its own id,
/// is bound to a committed snapshot and has a voting period; the parameters are valid; the
/// council is empty or complete; and only existing proposals were voted on.
pub open spec fn gov_inv(s: GovernanceState) -> bool {
    &&& params_valid(s.params)
    &&& s.council.len() == 0 || council_valid(s.council)
    &&& forall|epoch: u64| #[trigger]
        s.snapshots.contains_key(epoch) <==> 1 <= epoch <= s.current_epoch
    &&& forall|id: u64| #[trigger] s.proposals.contains_key(id) <==> 1 <= id <= s.proposal_count
    &&& forall|id: u64| #[trigger]
        s.proposals.contains_key(id) ==> {
            let p = s.proposals[id];
            &&& p.id == id
            &&& 1 <= p.snapshot_epoch <= s.current_epoch
            &&& p.created_at < p.voting_ends_at
        }
    &&& forall|key: (u64, AccountId, AccountId)| #[trigger]
        s.voted.contains(key) ==> s.proposals.contains_key(key.0)
}

/// Fresh governance is consistent.
pub proof fn law_new_is_consistent(
    treasury: AccountId,
    vault: AccountId,
    auction: AccountId,
    oracle: AccountId,
    maintainer: AccountId,
)
    ensures
        gov_inv(initial_state(treasury, vault, auction, oracle, maintainer)),
{
}

/// Handing the maintainer's role on, and seating a council, keep governance consistent.
pub proof fn law_roles_keep_consistency(
    s: GovernanceState,
    ctx: Context,
    maintainer: AccountId,
    members: Seq<AccountId>,
)
    requires
        gov_inv(s),
    ensures
        gov_inv(GovernanceState { maintainer, ..s }),
        set_council_result(s, ctx, members) is Ok ==> gov_inv(
            GovernanceState { council: members, ..s },
        ),
{
}

/// Accepted parameters keep governance consistent.
pub proof fn law_update_params_keeps_consistency(
    s: GovernanceState,
    ctx: Context,
    params: GovernanceParams,
)
    requires
        gov_inv(s),
        update_params_result(s, ctx, params) is Ok,
    ensures
        gov_inv(GovernanceState { params, ..s }),
{
}

/// A committed snapshot keeps governance consistent.
pub proof fn law_snapshot_keeps_consistency(s: GovernanceState, ctx: Context, snapshot: Snapshot)
    requires
        gov_inv(s),
        snapshot_result(s, ctx) is Ok,
    ensures
        gov_inv(snapshot_next(s, snapshot)),
{
}

/// A submitted proposal keeps governance consistent.
pub proof fn law_submit_keeps_consistency(
    s: GovernanceState,
    ctx: Context,
    cid: String,
    kind: ProposalKind,
    hotkey: AccountId,
    replies: Seq<Reply>,
)
    requires
        gov_inv(s),
        submit_step(s, ctx, cid@, kind, hotkey, replies) matches Step::Done(Ok(_)),
    ensures
        gov_inv(submit_next(s, ctx, cid, kind)),
{
}

/// A counted vote keeps governance consistent.
pub proof fn law_vote_keeps_consistency(s: GovernanceState, ctx: Context, b: Ballot)
    requires
        gov_inv(s),
        vote_result(s, ctx, b) is Ok,
    ensures
        gov_inv(vote_next(s, ctx, b)),
{
}

/// Deciding an outcome and executing a proposal keep governance consistent.
pub proof fn law_closing_keeps_consistency(
    s: GovernanceState,
    ctx: Context,
    id: u64,
    replies: Seq<Reply>,
)
    requires
        gov_inv(s),
    ensures
        finalize_result(s, ctx, id) matches Ok(status) ==> gov_inv(finalize_next(s, id, status)),
        execute_step(s, id, replies) matches Step::Done(Ok(_)) ==> gov_inv(execute_next(s, id)),
{
}

/// How a proposal's status may move: an active proposal is decided, a passed one is executed.
pub open spec fn status_moves(from: ProposalStatus, to: ProposalStatus) -> bool {
    ||| from == to
    ||| from == ProposalStatus::Active
    ||| from == ProposalStatus::Passed && to == ProposalStatus::Executed
}

/// What a later state owes to an earlier one: snapshots stay as committed, nobody's vote is
/// forgotten, and a proposal keeps its terms, its deadline and its snapshot, moves forward in its
/// lifecycle, and changes its tallies only upward and only while it is active.
pub open spec fn follows(s: GovernanceState, t: GovernanceState) -> bool {
    &&& s.current_epoch <= t.current_epoch
    &&& s.proposal_count <= t.proposal_count
    &&& forall|epoch: u64| #[trigger]
        s.snapshots.contains_key(epoch) ==> t.snapshots.contains_key(epoch) && t.snapshots[epoch]
            == s.snapshots[epoch]
    &&& s.voted.subset_of(t.voted)
    &&& forall|id: u64| #[trigger]
        s.proposals.contains_key(id) ==> t.proposals.contains_key(id) && proposal_follows(
            s.proposals[id],
            t.proposals[id],
        )
}

/// What a later record of a proposal owes to an earlier one; see [`follows`].
pub open spec fn proposal_follows(p: Proposal, q: Proposal) -> bool {
    &&& q.id == p.id
    &&& q.proposer == p.proposer
    &&& q.cid == p.cid
    &&& q.kind == p.kind
    &&& q.created_at == p.created_at
    &&& q.voting_ends_at == p.voting_ends_at
    &&& q.snapshot_epoch == p.snapshot_epoch
    &&& status_moves(p.status, q.status)
    &&& p.yes <= q.yes && p.no <= q.no && p.voted_balance <= q.voted_balance
    &&& p.status != ProposalStatus::Active ==> q.yes == p.yes && q.no == p.no && q.voted_balance
        == p.voted_balance
}

/// The relation between earlier and later states composes.
pub proof fn law_follows_composes(s: GovernanceState, t: GovernanceState, u: GovernanceState)
    requires
        follows(s, t),
        follows(t, u),
    ensures
        follows(s, s),
        follows(s, u),
{
}

/// Every operation leads to a state that follows the one before.
pub proof fn law_operations_follow(
    s: GovernanceState,
    ctx: Context,
    maintainer: AccountId,
    members: Seq<AccountId>,
    params: GovernanceParams,
    snapshot: Snapshot,
    cid: String,
    kind: ProposalKind,
    hotkey: AccountId,
    b: Ballot,
    id: u64,
    replies: Seq<Reply>,
)
    requires
        gov_inv(s),
    ensures
        follows(s, GovernanceState { maintainer, ..s }),
        follows(s, GovernanceState { council: members, ..s }),
        follows(s, GovernanceState { params, ..s }),
        snapshot_result(s, ctx) is Ok ==> follows(s, snapshot_next(s, snapshot)),
        submit_step(s, ctx, cid@, kind, hotkey, replies) matches Step::Done(Ok(_)) ==> follows(
            s,
            submit_next(s, ctx, cid, kind),
        ),
        vote_result(s, ctx, b) is Ok ==> follows(s, vote_next(s, ctx, b)),
        finalize_result(s, ctx, id) matches Ok(status) ==> follows(
            s,
            finalize_next(s, id, status),
        ),
        execute_step(s, id, replies) matches Step::Done(Ok(_)) ==> follows(s, execute_next(s, id)),
{
    if vote_result(s, ctx, b) is Ok {
        lemma_power_bounds(b.balance, b.multiplier_bps);
    }
}

pub proof fn lemma_power_bounds(balance: u128, multiplier_bps: u32)
    ensures
        0 <= power(balance, multiplier_bps),
{
    crate::voting::law_power_monotone(0, 0, balance, multiplier_bps);
}

/// A pair that has voted on a proposal cannot vote on it again, in any later state.
pub proof fn law_no_double_vote(
    s: GovernanceState,
    ctx: Context,
    b: Ballot,
    later: GovernanceState,
    ctx2: Context,
    b2: Ballot,
)
    requires
        vote_result(s, ctx, b) is Ok,
        follows(vote_next(s, ctx, b), later),
        ctx2.caller == ctx.caller,
        b2.hotkey == b.hotkey,
        b2.proposal_id == b.proposal_id,
    ensures
        vote_result(later, ctx2, b2) is Err,
        later.proposals[b.proposal_id].status == ProposalStatus::Active && ctx2.now
            < later.proposals[b.proposal_id].voting_ends_at ==> vote_result(later, ctx2, b2) == Err::<
            (),
            Error,
        >(Error::AlreadyVoted),
{
    let t = vote_next(s, ctx, b);
    assert(t.voted.contains((b.proposal_id, ctx.caller, b.hotkey)));
    assert(t.proposals.contains_key(b.proposal_id));
}

/// A vote adds its power to one side and its balance to the participation of its proposal, and
/// touches nothing else of any proposal.
pub proof fn law_vote_touches_one_tally(s: GovernanceState, ctx: Context, b: Ballot)
    requires
        vote_result(s, ctx, b) is Ok,
    ensures
        ({
            let before = s.proposals[b.proposal_id];
            let after = vote_next(s, ctx, b).proposals[b.proposal_id];
            let weight = power(b.balance, b.multiplier_bps);
            &&& weight > 0
            &&& after.yes + after.no == before.yes + before.no + weight
            &&& b.support ==> after.no == before.no
            &&& !b.support ==> after.yes == before.yes
            &&& after.voted_balance == before.voted_balance + b.balance
            &&& after.status == before.status
        }),
        forall|id: u64|
            id != b.proposal_id && s.proposals.contains_key(id) ==> (#[trigger] vote_next(
                s,
                ctx,
                b,
            ).proposals[id]) == s.proposals[id],
{
    lemma_power_bounds(b.balance, b.multiplier_bps);
}

/// Voting and deciding never overlap: a vote is taken only before the deadline, and an outcome
/// is decided only at or after it.
pub proof fn law_voting_closes_before_decision(
    s: GovernanceState,
    early: Context,
    late: Context,
    b: Ballot,
)
    ensures
        vote_result(s, early, b) is Ok ==> early.now < s.proposals[b.proposal_id].voting_ends_at,
        finalize_result(s, late, b.proposal_id) is Ok ==> late.now
            >= s.proposals[b.proposal_id].voting_ends_at,
        finalize_result(s, late, b.proposal_id) is Ok && early.now >= late.now ==> vote_result(
            s,
            early,
            b,
        ) is Err,
{
}

/// An outcome is decided once: a decided proposal takes no vote and no second decision.
pub proof fn law_decision_is_final(
    s: GovernanceState,
    later: GovernanceState,
    ctx: Context,
    id: u64,
    b: Ballot,
)
    requires
        s.proposals.contains_key(id),
        s.proposals[id].status != ProposalStatus::Active,
        follows(s, later),
        b.proposal_id == id,
    ensures
        vote_result(later, ctx, b) == Err::<(), Error>(Error::ProposalNotActive),
        finalize_result(later, ctx, id) == Err::<ProposalStatus, Error>(Error::ProposalNotActive),
{
}

/// A proposal passes exactly when the voted balance reached the quorum, somebody's power counted,
/// and the share of yes reaches the approval; the tallies of a passed proposal say so.
pub proof fn law_passed_means_approved(s: GovernanceState, ctx: Context, id: u64)
    requires
        finalize_result(s, ctx, id) is Ok,
    ensures
        finalize_result(s, ctx, id) == Ok::<ProposalStatus, Error>(ProposalStatus::Passed) <==> ({
            let p = s.proposals[id];
            &&& p.voted_balance >= quorum_of(s, p.snapshot_epoch)
            &&& p.yes + p.no > 0
            &&& p.yes * 10_000 / (p.yes + p.no) >= s.params.approval_bps
        }),
        finalize_result(s, ctx, id) != Ok::<ProposalStatus, Error>(ProposalStatus::Passed) ==>
            finalize_result(s, ctx, id) == Ok::<ProposalStatus, Error>(ProposalStatus::Rejected),
{
}

/// The treasury is only ever asked for the stored terms of a passed Funding proposal.
pub proof fn law_release_only_for_passed(
    s: GovernanceState,
    id: u64,
    replies: Seq<Reply>,
    call: Call,
)
    requires
        execute_step(s, id, replies) == Step::<(), Error>::Call(call),
    ensures
        s.proposals.contains_key(id),
        s.proposals[id].status == ProposalStatus::Passed,
        s.proposals[id].kind matches ProposalKind::Funding { fund, token_kind, amount, recipient }
            && call == (Call::TreasuryRelease {
            treasury: s.treasury,
            fund,
            token_kind,
            amount,
            recipient,
        }),
        replies.len() == 0,
{
    let p = s.proposals[id];
    assert(progress(release_writes(s, p.kind), replies, 0, 0) is Pending);
    reveal_with_fuel(progress, 3);
}

/// A proposal is executed once: afterwards no reply leads to another call or success.
pub proof fn law_executed_once(
    s: GovernanceState,
    id: u64,
    replies: Seq<Reply>,
    later: GovernanceState,
    again: Seq<Reply>,
)
    requires
        execute_step(s, id, replies) matches Step::Done(Ok(_)),
        follows(execute_next(s, id), later),
    ensures
        execute_step(later, id, again) == Step::<(), Error>::Done(Err(Error::AlreadyExecuted)),
{
    assert(execute_next(s, id).proposals.contains_key(id));
}

/// When the treasury refuses, the proposal stays as it is and can be executed later.
pub proof fn law_failed_release_can_be_retried(s: GovernanceState, id: u64)
    requires
        s.proposals.contains_key(id),
        s.proposals[id].status == ProposalStatus::Passed,
    ensures
        s.proposals[id].kind is Funding ==> execute_step(s, id, seq![Reply::Failed]) == Step::<
            (),
            Error,
        >::Done(Err(Error::TreasuryCallFailed)),
        s.proposals[id].kind is Funding ==> execute_step(s, id, seq![Reply::Done]) == Step::<
            (),
            Error,
        >::Done(Ok(())),
        s.proposals[id].kind is NonFunding ==> execute_step(s, id, seq![]) == Step::<
            (),
            Error,
        >::Done(Ok(())),
{
    reveal_with_fuel(progress, 3);
}

/// A snapshot that lands during voting changes neither the root that a proposal's votes are
/// proven against nor its quorum.
pub proof fn law_new_snapshot_leaves_proposals(
    s: GovernanceState,
    ctx: Context,
    snapshot: Snapshot,
    voter: Context,
    b: Ballot,
)
    requires
        gov_inv(s),
        snapshot_result(s, ctx) is Ok,
        s.proposals.contains_key(b.proposal_id),
    ensures
        vote_result(snapshot_next(s, snapshot), voter, b) == vote_result(s, voter, b),
        quorum_of(snapshot_next(s, snapshot), s.proposals[b.proposal_id].snapshot_epoch)
            == quorum_of(s, s.proposals[b.proposal_id].snapshot_epoch),
        finalize_result(snapshot_next(s, snapshot), voter, b.proposal_id) == finalize_result(
            s,
            voter,
            b.proposal_id,
        ),
{
    let t = snapshot_next(s, snapshot);
    let e = s.proposals[b.proposal_id].snapshot_epoch;
    assert(s.snapshots.contains_key(e));
    assert(t.snapshots[e] == s.snapshots[e]);
}

/// With valid parameters the quorum never exceeds the circulating supply.
pub proof fn law_quorum_within_supply(s: GovernanceState, epoch: u64)
    requires
        params_valid(s.params),
        s.snapshots.contains_key(epoch),
    ensures
        quorum_of(s, epoch) <= s.snapshots[epoch].circulating_supply,
{
    let supply = s.snapshots[epoch].circulating_supply;
    let bps = s.params.quorum_bps;
    assert(0 <= supply * bps <= supply * 10_000) by (nonlinear_arith)
        requires
            0 <= bps <= 10_000,
            supply >= 0,
    ;
    let product = supply * bps;
    if product > u128::MAX {
        assert(quorum_of(s, epoch) == u128::MAX / 10_000);
    } else {
        assert(product / 10_000 <= supply);
        assert(quorum_of(s, epoch) == product / 10_000);
    }
}

/// With valid parameters the submission window opens in every month.
pub proof fn law_window_opens_every_month(params: GovernanceParams, year: int, month: int, day: int)
    requires
        params_valid(params),
        1 <= month <= 12,
        params.submission_open_day <= day <= params.submission_close_day,
    ensures
        is_date(year, month, day),
{
}

/// The maintainer's role moves as a whole: the new maintainer may act and anyone else may not.
pub proof fn law_maintainer_role_moves(s: GovernanceState, ctx: Context, maintainer: AccountId)
    ensures
        maintainer_only(GovernanceState { maintainer, ..s }, ctx) is Ok <==> ctx.caller
            == maintainer,
{
}

/// A new council replaces the old one: exactly its members may act.
pub proof fn law_council_is_replaced(
    s: GovernanceState,
    ctx: Context,
    members: Seq<AccountId>,
    member: Context,
)
    requires
        set_council_result(s, ctx, members) is Ok,
    ensures
        council_only(GovernanceState { council: members, ..s }, member) is Ok <==> members.contains(
            member.caller,
        ),
{
}

} // verus!
