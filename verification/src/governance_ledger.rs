//! Whose votes a proposal's tallies are made of, over any run of messages.
use vstd::prelude::*;
use crate::account::AccountId;
use crate::governance::{
    execute_next, execute_step, finalize_next, finalize_result, initial_state, maintainer_only,
    set_council_result, snapshot_next, snapshot_result, submit_next, submit_step,
    update_params_result, vote_next, vote_result, Ballot, GovernanceParams, GovernanceState,
    ProposalKind, Snapshot,
};
use crate::governance_laws::{
    follows, gov_inv, law_closing_keeps_consistency, law_new_is_consistent,
    law_roles_keep_consistency, law_snapshot_keeps_consistency, law_submit_keeps_consistency,
    law_update_params_keeps_consistency, law_vote_keeps_consistency, lemma_power_bounds,
};
use crate::host::{Context, Reply, Step};
use crate::voting::power;

verus! {

/// A message to governance that may change its state. The others only read, or only call another
/// contract.
pub enum Message {
    SetMaintainer { ctx: Context, maintainer: AccountId },
    SetCouncil { ctx: Context, members: Seq<AccountId> },
    UpdateParams { ctx: Context, params: GovernanceParams },
    SubmitSnapshot { ctx: Context, snapshot: Snapshot },
    SubmitProposal {
        ctx: Context,
        cid: String,
        kind: ProposalKind,
        hotkey: AccountId,
        replies: Seq<Reply>,
    },
    Vote { ctx: Context, ballot: Ballot },
    Finalize { ctx: Context, id: u64 },
    Execute { id: u64, replies: Seq<Reply> },
    TakeEvents,
}

/// The contents after a message, whether it succeeded or not: one that fails, or that still waits
/// for a reply, changes nothing.
pub open spec fn after(s: GovernanceState, m: Message) -> GovernanceState {
    match m {
        Message::SetMaintainer { ctx, maintainer } => if maintainer_only(s, ctx) is Ok {
            GovernanceState { maintainer, ..s }
        } else {
            s
        },
        Message::SetCouncil { ctx, members } => if set_council_result(s, ctx, members) is Ok {
            GovernanceState { council: members, ..s }
        } else {
            s
        },
        Message::UpdateParams { ctx, params } => if update_params_result(s, ctx, params) is Ok {
            GovernanceState { params, ..s }
        } else {
            s
        },
        Message::SubmitSnapshot { ctx, snapshot } => if snapshot_result(s, ctx) is Ok {
            snapshot_next(s, snapshot)
        } else {
            s
        },
        Message::SubmitProposal { ctx, cid, kind, hotkey, replies } => match submit_step(
            s,
            ctx,
            cid@,
            kind,
            hotkey,
            replies,
        ) {
            Step::Done(Ok(_)) => submit_next(s, ctx, cid, kind),
            _ => s,
        },
        Message::Vote { ctx, ballot } => if vote_result(s, ctx, ballot) is Ok {
            vote_next(s, ctx, ballot)
        } else {
            s
        },
        Message::Finalize { ctx, id } => match finalize_result(s, ctx, id) {
            Ok(status) => finalize_next(s, id, status),
            Err(_) => s,
        },
        Message::Execute { id, replies } => match execute_step(s, id, replies) {
            Step::Done(Ok(_)) => execute_next(s, id),
            _ => s,
        },
        Message::TakeEvents => GovernanceState { events: Seq::empty(), ..s },
    }
}

/// The contents after a run of messages.
pub open spec fn after_all(s: GovernanceState, messages: Seq<Message>) -> GovernanceState
    decreases messages.len(),
{
    if messages.len() == 0 {
        s
    } else {
        after(after_all(s, messages.drop_last()), messages.last())
    }
}

/// A vote that was counted.
pub struct CountedVote {
    pub proposal_id: u64,
    pub coldkey: AccountId,
    pub hotkey: AccountId,
    pub support: bool,
    pub balance: u128,
    pub multiplier_bps: u32,
}

/// What may vote once: a pair of a coldkey and a hotkey, on a proposal.
pub open spec fn voter(v: CountedVote) -> (u64, AccountId, AccountId) {
    (v.proposal_id, v.coldkey, v.hotkey)
}

/// The ledger after a message: a vote that was accepted is entered, and nothing else is.
pub open spec fn entered(ledger: Seq<CountedVote>, s: GovernanceState, m: Message) -> Seq<
    CountedVote,
> {
    match m {
        Message::Vote { ctx, ballot } => if vote_result(s, ctx, ballot) is Ok {
            ledger.push(
                CountedVote {
                    proposal_id: ballot.proposal_id,
                    coldkey: ctx.caller,
                    hotkey: ballot.hotkey,
                    support: ballot.support,
                    balance: ballot.balance,
                    multiplier_bps: ballot.multiplier_bps,
                },
            )
        } else {
            ledger
        },
        _ => ledger,
    }
}

/// The votes that a run of messages had accepted, in their order.
pub open spec fn accepted_votes(s: GovernanceState, messages: Seq<Message>) -> Seq<CountedVote>
    decreases messages.len(),
{
    if messages.len() == 0 {
        Seq::empty()
    } else {
        entered(
            accepted_votes(s, messages.drop_last()),
            after_all(s, messages.drop_last()),
            messages.last(),
        )
    }
}

/// The voting power that a ledger holds for one side of a proposal.
pub open spec fn power_sum(ledger: Seq<CountedVote>, id: u64, support: bool) -> int
    decreases ledger.len(),
{
    if ledger.len() == 0 {
        0
    } else {
        let v = ledger.last();
        power_sum(ledger.drop_last(), id, support) + (if v.proposal_id == id && v.support
            == support {
            power(v.balance, v.multiplier_bps)
        } else {
            0
        })
    }
}

/// The raw balance that a ledger holds for a proposal.
pub open spec fn balance_sum(ledger: Seq<CountedVote>, id: u64) -> int
    decreases ledger.len(),
{
    if ledger.len() == 0 {
        0
    } else {
        let v = ledger.last();
        balance_sum(ledger.drop_last(), id) + (if v.proposal_id == id {
            v.balance as int
        } else {
            0
        })
    }
}

/// Whether a voter stands in a ledger.
pub open spec fn listed(ledger: Seq<CountedVote>, k: (u64, AccountId, AccountId)) -> bool {
    exists|i: int| 0 <= i < ledger.len() && voter(#[trigger] ledger[i]) == k
}

/// A ledger accounts for governance: it lists exactly those who have voted, each of them once,
/// and every proposal's tallies and participation are the sums over its votes.
pub open spec fn accounts_for(ledger: Seq<CountedVote>, s: GovernanceState) -> bool {
    &&& forall|i: int, j: int|
        0 <= i < j < ledger.len() ==> voter(#[trigger] ledger[i]) != voter(#[trigger] ledger[j])
    &&& forall|k: (u64, AccountId, AccountId)| #[trigger] s.voted.contains(k) <==> listed(ledger, k)
    &&& forall|id: u64| #[trigger]
        s.proposals.contains_key(id) ==> {
            &&& s.proposals[id].yes == power_sum(ledger, id, true)
            &&& s.proposals[id].no == power_sum(ledger, id, false)
            &&& s.proposals[id].voted_balance == balance_sum(ledger, id)
        }
}

proof fn lemma_nobody_voted(ledger: Seq<CountedVote>, id: u64, support: bool)
    requires
        forall|i: int| 0 <= i < ledger.len() ==> (#[trigger] ledger[i]).proposal_id != id,
    ensures
        power_sum(ledger, id, support) == 0,
        balance_sum(ledger, id) == 0,
    decreases ledger.len(),
{
    if ledger.len() > 0 {
        assert(ledger.last() == ledger[ledger.len() - 1]);
        assert forall|i: int| 0 <= i < ledger.drop_last().len() implies (
        #[trigger] ledger.drop_last()[i]).proposal_id != id by {
            assert(ledger.drop_last()[i] == ledger[i]);
        }
        lemma_nobody_voted(ledger.drop_last(), id, support);
    }
}

proof fn lemma_submission_accounted(
    ledger: Seq<CountedVote>,
    s: GovernanceState,
    ctx: Context,
    cid: String,
    kind: ProposalKind,
)
    requires
        gov_inv(s),
        accounts_for(ledger, s),
        s.proposal_count < u64::MAX,
    ensures
        accounts_for(ledger, submit_next(s, ctx, cid, kind)),
{
    let id = (s.proposal_count + 1) as u64;
    assert forall|i: int| 0 <= i < ledger.len() implies (#[trigger] ledger[i]).proposal_id
        != id by {
        assert(listed(ledger, voter(ledger[i])));
        assert(s.voted.contains(voter(ledger[i])));
        assert(s.proposals.contains_key(ledger[i].proposal_id));
    }
    lemma_nobody_voted(ledger, id, true);
    lemma_nobody_voted(ledger, id, false);
}

proof fn lemma_vote_accounted(
    ledger: Seq<CountedVote>,
    s: GovernanceState,
    ctx: Context,
    b: Ballot,
)
    requires
        accounts_for(ledger, s),
        vote_result(s, ctx, b) is Ok,
    ensures
        accounts_for(
            entered(ledger, s, Message::Vote { ctx, ballot: b }),
            vote_next(s, ctx, b),
        ),
{
    let t = vote_next(s, ctx, b);
    let l = entered(ledger, s, Message::Vote { ctx, ballot: b });
    let v = l.last();
    let k = voter(v);
    lemma_power_bounds(b.balance, b.multiplier_bps);
    assert(l.drop_last() =~= ledger);
    assert(!listed(ledger, k));
    assert forall|i: int, j: int| 0 <= i < j < l.len() implies voter(#[trigger] l[i]) != voter(
        #[trigger] l[j],
    ) by {
        assert(l[i] == ledger[i]);
        if j < ledger.len() {
            assert(l[j] == ledger[j]);
        } else {
            assert(l[j] == v);
        }
    }
    assert forall|x: (u64, AccountId, AccountId)| #[trigger] t.voted.contains(x) <==> listed(
        l,
        x,
    ) by {
        if x == k {
            assert(l[ledger.len() as int] == v);
        } else {
            assert(t.voted.contains(x) == s.voted.contains(x));
            if listed(ledger, x) {
                let i = choose|i: int| 0 <= i < ledger.len() && voter(#[trigger] ledger[i]) == x;
                assert(l[i] == ledger[i]);
            }
            if listed(l, x) {
                let i = choose|i: int| 0 <= i < l.len() && voter(#[trigger] l[i]) == x;
                assert(i < ledger.len());
                assert(l[i] == ledger[i]);
            }
        }
    }
    assert forall|id: u64| #[trigger] t.proposals.contains_key(id) implies {
        &&& t.proposals[id].yes == power_sum(l, id, true)
        &&& t.proposals[id].no == power_sum(l, id, false)
        &&& t.proposals[id].voted_balance == balance_sum(l, id)
    } by {
        assert(s.proposals.contains_key(id));
    }
}

/// Every message keeps governance consistent and its tallies accounted for by the ledger of the
/// accepted votes.
pub proof fn law_message_keeps_ledger(ledger: Seq<CountedVote>, s: GovernanceState, m: Message)
    requires
        gov_inv(s),
        accounts_for(ledger, s),
    ensures
        gov_inv(after(s, m)),
        accounts_for(entered(ledger, s, m), after(s, m)),
{
    match m {
        Message::SetMaintainer { ctx, maintainer } => {
            law_roles_keep_consistency(s, ctx, maintainer, s.council);
        },
        Message::SetCouncil { ctx, members } => {
            law_roles_keep_consistency(s, ctx, s.maintainer, members);
        },
        Message::UpdateParams { ctx, params } => {
            if update_params_result(s, ctx, params) is Ok {
                law_update_params_keeps_consistency(s, ctx, params);
            }
        },
        Message::SubmitSnapshot { ctx, snapshot } => {
            if snapshot_result(s, ctx) is Ok {
                law_snapshot_keeps_consistency(s, ctx, snapshot);
            }
        },
        Message::SubmitProposal { ctx, cid, kind, hotkey, replies } => {
            if submit_step(s, ctx, cid@, kind, hotkey, replies) matches Step::Done(Ok(_)) {
                law_submit_keeps_consistency(s, ctx, cid, kind, hotkey, replies);
                lemma_submission_accounted(ledger, s, ctx, cid, kind);
            }
        },
        Message::Vote { ctx, ballot } => {
            if vote_result(s, ctx, ballot) is Ok {
                law_vote_keeps_consistency(s, ctx, ballot);
                lemma_vote_accounted(ledger, s, ctx, ballot);
            }
        },
        Message::Finalize { ctx, id } => {
            law_closing_keeps_consistency(s, ctx, id, Seq::empty());
        },
        Message::Execute { .. } => {},
        Message::TakeEvents => {},
    }
}

/// After any run of messages on fresh governance, a proposal's yes, no and participation are the
/// sums of the power and the balances of the votes that were accepted on it, and each pair of a
/// coldkey and a hotkey is counted at most once on a proposal.
pub proof fn law_tally_is_sum_of_votes(
    treasury: AccountId,
    vault: AccountId,
    auction: AccountId,
    oracle: AccountId,
    maintainer: AccountId,
    messages: Seq<Message>,
)
    ensures
        ({
            let start = initial_state(treasury, vault, auction, oracle, maintainer);
            &&& gov_inv(after_all(start, messages))
            &&& accounts_for(accepted_votes(start, messages), after_all(start, messages))
        }),
    decreases messages.len(),
{
    let start = initial_state(treasury, vault, auction, oracle, maintainer);
    if messages.len() == 0 {
        law_new_is_consistent(treasury, vault, auction, oracle, maintainer);
    } else {
        let rest = messages.drop_last();
        law_tally_is_sum_of_votes(treasury, vault, auction, oracle, maintainer, rest);
        law_message_keeps_ledger(
            accepted_votes(start, rest),
            after_all(start, rest),
            messages.last(),
        );
    }
}

proof fn lemma_message_follows(s: GovernanceState, m: Message)
    requires
        gov_inv(s),
    ensures
        gov_inv(after(s, m)),
        follows(s, after(s, m)),
{
    if let Message::Vote { ballot, .. } = m {
        lemma_power_bounds(ballot.balance, ballot.multiplier_bps);
    }
}

/// Any run of messages leads to a state that follows the one before it: terms, snapshots, votes
/// and decisions stay.
pub proof fn law_runs_follow(s: GovernanceState, messages: Seq<Message>)
    requires
        gov_inv(s),
    ensures
        gov_inv(after_all(s, messages)),
        follows(s, after_all(s, messages)),
    decreases messages.len(),
{
    if messages.len() > 0 {
        let rest = messages.drop_last();
        law_runs_follow(s, rest);
        lemma_message_follows(after_all(s, rest), messages.last());
    }
}

/// A vote that is refused changes nothing, and is not entered.
pub proof fn law_refused_vote_changes_nothing(
    ledger: Seq<CountedVote>,
    s: GovernanceState,
    ctx: Context,
    b: Ballot,
)
    requires
        vote_result(s, ctx, b) is Err,
    ensures
        after(s, Message::Vote { ctx, ballot: b }) == s,
        entered(ledger, s, Message::Vote { ctx, ballot: b }) == ledger,
{
}

} // verus!
