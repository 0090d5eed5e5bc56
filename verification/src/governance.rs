//! Governance: token-holder proposals over off-chain snapshots, a maintainer and a council.
use vstd::prelude::*;
use crate::account::{AccountId, Balance, Timestamp};
use crate::calendar::{civil_day, day_of_month, MS_PER_DAY};
use crate::host::{
    conclude, fail, reply_stake, run_to_end, stake_in, Call, Context, Reply, Step, Write,
};
use crate::merkle::{
    blake2_256, fold_proof, leaf_bytes, leaf_hash, nodes, verify_merkle_proof, MerkleHash,
};
use crate::peers::{Fund, PriceData, TokenKind};
use crate::ratio::Ratio;
use crate::storage::Mapping;
use crate::vault_alpha::VaultContractParamsConfig;
use crate::voting::{power, voting_power};

verus! {

/// Maximum CID byte length that `submit_proposal` accepts (CIDv1 base32 is ~62 chars).
pub const MAX_CID_LEN: usize = 96;

/// One hundred percent, in basis points.
pub const BPS_DENOMINATOR: u32 = 10_000;

pub const DEFAULT_NETUID: u16 = 113;

/// Forty-eight hours.
pub const DEFAULT_VOTING_PERIOD_MS: u64 = 172_800_000;

pub const DEFAULT_APPROVAL_BPS: u32 = 5_001;

/// Default quorum as a fraction of the alpha circulating supply, in basis points (20%).
pub const DEFAULT_QUORUM_BPS: u32 = 2_000;

pub const DEFAULT_MIN_PROPOSER_STAKE: u128 = 1_000_000_000_000;

/// Proposals may only be submitted on these days of the month (inclusive), in UTC.
pub const DEFAULT_SUBMISSION_OPEN_DAY: u8 = 5;

pub const DEFAULT_SUBMISSION_CLOSE_DAY: u8 = 25;

/// The last day that every month has, February included.
pub const LAST_SUBMISSION_DAY: u8 = 28;

/// The council has exactly this many members.
pub const COUNCIL_SIZE: usize = 5;

/// Tunable governance parameters. Updatable by the maintainer.
#[derive(Debug, Copy, Clone)]
pub struct GovernanceParams {
    pub netuid: u16,
    pub voting_period_ms: u64,
    /// Quorum as a fraction of the alpha circulating supply, in basis points.
    pub quorum_bps: u32,
    pub approval_bps: u32,
    pub min_proposer_stake: u128,
    /// First day-of-month (UTC, inclusive) on which proposals may be submitted.
    pub submission_open_day: u8,
    /// Last day-of-month (UTC, inclusive) on which proposals may be submitted.
    pub submission_close_day: u8,
}

impl GovernanceParams {
    /// The parameters that governance starts with.
    pub fn default_params() -> (params: Self)
        ensures
            params == starting_params(),
    {
        GovernanceParams {
            netuid: DEFAULT_NETUID,
            voting_period_ms: DEFAULT_VOTING_PERIOD_MS,
            quorum_bps: DEFAULT_QUORUM_BPS,
            approval_bps: DEFAULT_APPROVAL_BPS,
            min_proposer_stake: DEFAULT_MIN_PROPOSER_STAKE,
            submission_open_day: DEFAULT_SUBMISSION_OPEN_DAY,
            submission_close_day: DEFAULT_SUBMISSION_CLOSE_DAY,
        }
    }
}

/// The parameters that governance starts with.
pub open spec fn starting_params() -> GovernanceParams {
    GovernanceParams {
        netuid: DEFAULT_NETUID,
        voting_period_ms: DEFAULT_VOTING_PERIOD_MS,
        quorum_bps: DEFAULT_QUORUM_BPS,
        approval_bps: DEFAULT_APPROVAL_BPS,
        min_proposer_stake: DEFAULT_MIN_PROPOSER_STAKE,
        submission_open_day: DEFAULT_SUBMISSION_OPEN_DAY,
        submission_close_day: DEFAULT_SUBMISSION_CLOSE_DAY,
    }
}

/// Whether parameters may be set: an approval of at most 100% and more than none, a quorum of at
/// most 100%, a voting period, and a submission window that opens in every month.
pub open spec fn params_valid(p: GovernanceParams) -> bool {
    &&& 1 <= p.approval_bps <= BPS_DENOMINATOR
    &&& p.quorum_bps <= BPS_DENOMINATOR
    &&& p.voting_period_ms > 0
    &&& 1 <= p.submission_open_day <= p.submission_close_day <= LAST_SUBMISSION_DAY
}

/// Funding proposals release `amount` of `token_kind` from `fund` to `recipient` on execution.
/// NonFunding proposals are signal-only.
#[derive(Debug, Copy, Clone, PartialEq, Eq)]
pub enum ProposalKind {
    Funding { fund: Fund, token_kind: TokenKind, amount: Balance, recipient: AccountId },
    NonFunding,
}

/// Lifecycle stage of a proposal.
#[derive(Debug, Copy, Clone, PartialEq, Eq, Structural)]
pub enum ProposalStatus {
    Active,
    Passed,
    Rejected,
    Executed,
}

/// Proposal record. `cid` points to the off-chain proposal document.
#[derive(Debug)]
pub struct Proposal {
    pub id: u64,
    pub proposer: AccountId,
    pub cid: String,
    pub kind: ProposalKind,
    pub created_at: Timestamp,
    pub voting_ends_at: Timestamp,
    /// Snapshot epoch this proposal is bound to; votes prove membership against its root.
    pub snapshot_epoch: u64,
    /// Accumulated voting power in favor.
    pub yes: u128,
    /// Accumulated voting power against.
    pub no: u128,
    /// Sum of raw (snapshot-frozen) alpha balance that has voted; measured against the quorum.
    pub voted_balance: u128,
    pub status: ProposalStatus,
}

impl Clone for Proposal {
    fn clone(&self) -> (copy: Self)
        ensures
            copy == *self,
    {
        Proposal {
            id: self.id,
            proposer: self.proposer,
            cid: self.cid.clone(),
            kind: self.kind,
            created_at: self.created_at,
            voting_ends_at: self.voting_ends_at,
            snapshot_epoch: self.snapshot_epoch,
            yes: self.yes,
            no: self.no,
            voted_balance: self.voted_balance,
            status: self.status,
        }
    }
}

/// An off-chain snapshot. Its Merkle tree's leaves are digests of `(coldkey, hotkey, balance,
/// multiplier_bps)`; inner nodes hash the sorted pair of children. The balance is frozen here, so
/// stake that arrives later adds no voting power.
#[derive(Debug, Copy, Clone, PartialEq, Eq)]
pub struct Snapshot {
    /// Merkle root over all eligible leaves.
    pub root: MerkleHash,
    /// Alpha circulating supply at the snapshot block; the base for the quorum.
    pub circulating_supply: u128,
    /// Subnet block height the snapshot was taken at (for off-chain auditing).
    pub snapshot_block: u32,
}

/// Emitted when a proposal is created.
#[derive(Debug, Copy, Clone, PartialEq, Eq)]
pub struct ProposalSubmitted {
    pub proposal_id: u64,
    pub proposer: AccountId,
    pub voting_ends_at: Timestamp,
}

/// Emitted on each cast vote with the voting power contributed.
#[derive(Debug, Copy, Clone, PartialEq, Eq)]
pub struct Voted {
    pub proposal_id: u64,
    pub coldkey: AccountId,
    pub hotkey: AccountId,
    pub support: bool,
    /// Voting power added to the tally.
    pub weight: u128,
}

/// Emitted when voting closes and the outcome is decided.
#[derive(Debug, Copy, Clone, PartialEq, Eq)]
pub struct ProposalFinalized {
    pub proposal_id: u64,
    pub status: ProposalStatus,
    pub yes: u128,
    pub no: u128,
}

/// Emitted when a passed proposal is executed; for NonFunding the treasury call is skipped.
#[derive(Debug, Copy, Clone, PartialEq, Eq)]
pub struct ProposalExecuted {
    pub proposal_id: u64,
}

/// Emitted when a new off-chain snapshot is committed.
#[derive(Debug, Copy, Clone, PartialEq, Eq)]
pub struct SnapshotSubmitted {
    pub epoch: u64,
    pub root: MerkleHash,
    pub circulating_supply: u128,
    pub snapshot_block: u32,
}

/// An event of governance.
#[derive(Debug, Copy, Clone, PartialEq, Eq)]
pub enum Event {
    ProposalSubmitted(ProposalSubmitted),
    Voted(Voted),
    ProposalFinalized(ProposalFinalized),
    ProposalExecuted(ProposalExecuted),
    SnapshotSubmitted(SnapshotSubmitted),
}

/// Errors returned by the governance contract.
#[derive(Debug, Copy, Clone, PartialEq, Eq, Structural)]
pub enum Error {
    NotMaintainer,
    NotCouncil,
    InvalidCouncil,
    ProposalNotFound,
    ProposalNotActive,
    VotingClosed,
    VotingStillOpen,
    AlreadyVoted,
    AlreadyExecuted,
    NoStake,
    InsufficientStake,
    OutsideSubmissionWindow,
    NoSnapshot,
    InvalidProof,
    StakeQueryFailed,
    InvalidCid,
    InvalidAmount,
    InvalidParams,
    NotPassed,
    TreasuryCallFailed,
    VaultCallFailed,
    OracleCallFailed,
    AuctionCallFailed,
    ArithmeticError,
}

/// The governance contract's contents.
#[verifier::ext_equal]
pub struct GovernanceState {
    pub maintainer: AccountId,
    pub council: Seq<AccountId>,
    pub treasury: AccountId,
    pub vault: AccountId,
    pub auction: AccountId,
    pub oracle: AccountId,
    pub params: GovernanceParams,
    /// Latest committed snapshot epoch; 0 means no snapshot has been submitted yet.
    pub current_epoch: u64,
    pub snapshots: Map<u64, Snapshot>,
    pub proposal_count: u64,
    pub proposals: Map<u64, Proposal>,
    /// The `(proposal, coldkey, hotkey)` triples that have voted.
    pub voted: Set<(u64, AccountId, AccountId)>,
    pub events: Seq<Event>,
}

/// The contents of fresh governance: no council, no snapshot, no proposal.
pub open spec fn initial_state(
    treasury: AccountId,
    vault: AccountId,
    auction: AccountId,
    oracle: AccountId,
    maintainer: AccountId,
) -> GovernanceState {
    GovernanceState {
        maintainer,
        council: Seq::empty(),
        treasury,
        vault,
        auction,
        oracle,
        params: starting_params(),
        current_epoch: 0,
        snapshots: Map::empty(),
        proposal_count: 0,
        proposals: Map::empty(),
        voted: Set::empty(),
        events: Seq::empty(),
    }
}

/// Whether accounts may form the council: exactly five, and no one twice.
pub open spec fn council_valid(members: Seq<AccountId>) -> bool {
    members.len() == COUNCIL_SIZE && members.no_duplicates()
}

/// Whether the caller is the maintainer.
pub open spec fn maintainer_only(s: GovernanceState, ctx: Context) -> Result<(), Error> {
    if ctx.caller == s.maintainer {
        Ok(())
    } else {
        Err(Error::NotMaintainer)
    }
}

/// Whether the caller sits on the council.
pub open spec fn council_only(s: GovernanceState, ctx: Context) -> Result<(), Error> {
    if s.council.contains(ctx.caller) {
        Ok(())
    } else {
        Err(Error::NotCouncil)
    }
}

/// How `set_council` ends.
pub open spec fn set_council_result(
    s: GovernanceState,
    ctx: Context,
    members: Seq<AccountId>,
) -> Result<(), Error> {
    if ctx.caller != s.maintainer {
        Err(Error::NotMaintainer)
    } else if !council_valid(members) {
        Err(Error::InvalidCouncil)
    } else {
        Ok(())
    }
}

/// How `submit_snapshot` ends: the next epoch.
pub open spec fn snapshot_result(s: GovernanceState, ctx: Context) -> Result<u64, Error> {
    if !s.council.contains(ctx.caller) {
        Err(Error::NotCouncil)
    } else if s.current_epoch == u64::MAX {
        Err(Error::ArithmeticError)
    } else {
        Ok((s.current_epoch + 1) as u64)
    }
}

/// The contents after `submit_snapshot` succeeded.
pub open spec fn snapshot_next(s: GovernanceState, snapshot: Snapshot) -> GovernanceState {
    let epoch = (s.current_epoch + 1) as u64;
    GovernanceState {
        current_epoch: epoch,
        snapshots: s.snapshots.insert(epoch, snapshot),
        events: s.events.push(
            Event::SnapshotSubmitted(
                SnapshotSubmitted {
                    epoch,
                    root: snapshot.root,
                    circulating_supply: snapshot.circulating_supply,
                    snapshot_block: snapshot.snapshot_block,
                },
            ),
        ),
        ..s
    }
}

/// The raw balance that must vote on a proposal of `epoch`: `circulating_supply * quorum_bps /
/// 10_000`, the product held at the largest number; none without a snapshot.
pub open spec fn quorum_of(s: GovernanceState, epoch: u64) -> u128 {
    if s.snapshots.contains_key(epoch) {
        let product = s.snapshots[epoch].circulating_supply * s.params.quorum_bps;
        if product > u128::MAX {
            (u128::MAX / BPS_DENOMINATOR as u128) as u128
        } else {
            (product / BPS_DENOMINATOR as int) as u128
        }
    } else {
        0
    }
}

/// How `update_params` ends.
pub open spec fn update_params_result(
    s: GovernanceState,
    ctx: Context,
    params: GovernanceParams,
) -> Result<(), Error> {
    if ctx.caller != s.maintainer {
        Err(Error::NotMaintainer)
    } else if !params_valid(params) {
        Err(Error::InvalidParams)
    } else {
        Ok(())
    }
}

/// Whether a CID has an acceptable length in bytes.
pub open spec fn cid_valid(cid: Seq<char>) -> bool {
    1 <= vstd::utf8::encode_utf8(cid).len() <= MAX_CID_LEN
}

/// Whether a proposal of this kind moves a zero amount.
pub open spec fn moves_nothing(kind: ProposalKind) -> bool {
    kind matches ProposalKind::Funding { amount, .. } && amount == 0
}

/// The alpha stake that a reply reports.
pub open spec fn stake_weight(reply: Reply) -> Result<u128, Error> {
    match reply_stake(reply) {
        None => Err(Error::StakeQueryFailed),
        Some(None) => Err(Error::NoStake),
        Some(Some(info)) => Ok(info.stake as u128),
    }
}

/// Whether the block's day lies in the submission window.
pub open spec fn in_window(s: GovernanceState, ctx: Context) -> bool {
    s.params.submission_open_day <= civil_day((ctx.now / MS_PER_DAY) as int)
        <= s.params.submission_close_day
}

/// `submit_proposal`, step by step.
pub open spec fn submit_step(
    s: GovernanceState,
    ctx: Context,
    cid: Seq<char>,
    kind: ProposalKind,
    hotkey: AccountId,
    replies: Seq<Reply>,
) -> Step<u64, Error> {
    if !cid_valid(cid) {
        fail(Error::InvalidCid)
    } else if moves_nothing(kind) {
        fail(Error::InvalidAmount)
    } else if !in_window(s, ctx) {
        fail(Error::OutsideSubmissionWindow)
    } else if s.current_epoch == 0 {
        fail(Error::NoSnapshot)
    } else if replies.len() == 0 {
        Step::Call(Call::StakeInfo { hotkey, coldkey: ctx.caller, netuid: s.params.netuid })
    } else {
        match stake_weight(replies[0]) {
            Err(e) => fail(e),
            Ok(stake) => if stake <= s.params.min_proposer_stake {
                fail(Error::InsufficientStake)
            } else if s.proposal_count == u64::MAX {
                fail(Error::ArithmeticError)
            } else if ctx.now + s.params.voting_period_ms > u64::MAX {
                fail(Error::ArithmeticError)
            } else {
                Step::Done(Ok((s.proposal_count + 1) as u64))
            },
        }
    }
}

/// The proposal that `submit_proposal` stores.
pub open spec fn submitted(s: GovernanceState, ctx: Context, cid: String, kind: ProposalKind) ->
    Proposal {
    Proposal {
        id: (s.proposal_count + 1) as u64,
        proposer: ctx.caller,
        cid,
        kind,
        created_at: ctx.now,
        voting_ends_at: (ctx.now + s.params.voting_period_ms) as u64,
        snapshot_epoch: s.current_epoch,
        yes: 0,
        no: 0,
        voted_balance: 0,
        status: ProposalStatus::Active,
    }
}

/// The contents after `submit_proposal` succeeded.
pub open spec fn submit_next(s: GovernanceState, ctx: Context, cid: String, kind: ProposalKind) ->
    GovernanceState {
    let id = (s.proposal_count + 1) as u64;
    let proposal = submitted(s, ctx, cid, kind);
    GovernanceState {
        proposal_count: id,
        proposals: s.proposals.insert(id, proposal),
        events: s.events.push(
            Event::ProposalSubmitted(
                ProposalSubmitted {
                    proposal_id: id,
                    proposer: ctx.caller,
                    voting_ends_at: proposal.voting_ends_at,
                },
            ),
        ),
        ..s
    }
}

/// A vote: the caller's leaf in the proposal's snapshot and the proof of it.
pub struct Ballot {
    pub proposal_id: u64,
    pub hotkey: AccountId,
    pub support: bool,
    pub balance: u128,
    pub multiplier_bps: u32,
    pub proof: Seq<MerkleHash>,
}

/// Whether a ballot's leaf is proven against a root.
pub open spec fn proven(ctx: Context, b: Ballot, root: MerkleHash) -> bool {
    fold_proof(
        blake2_256(leaf_bytes(ctx.caller, b.hotkey, b.balance, b.multiplier_bps)),
        nodes(b.proof),
    ) == root@
}

/// How `vote` ends.
pub open spec fn vote_result(s: GovernanceState, ctx: Context, b: Ballot) -> Result<(), Error> {
    let p = s.proposals[b.proposal_id];
    let weight = power(b.balance, b.multiplier_bps);
    if !s.proposals.contains_key(b.proposal_id) {
        Err(Error::ProposalNotFound)
    } else if p.status != ProposalStatus::Active {
        Err(Error::ProposalNotActive)
    } else if ctx.now >= p.voting_ends_at {
        Err(Error::VotingClosed)
    } else if s.voted.contains((b.proposal_id, ctx.caller, b.hotkey)) {
        Err(Error::AlreadyVoted)
    } else if !s.snapshots.contains_key(p.snapshot_epoch) {
        Err(Error::NoSnapshot)
    } else if !proven(ctx, b, s.snapshots[p.snapshot_epoch].root) {
        Err(Error::InvalidProof)
    } else if weight == 0 {
        Err(Error::NoStake)
    } else if (if b.support {
        p.yes
    } else {
        p.no
    }) + weight > u128::MAX {
        Err(Error::ArithmeticError)
    } else if p.voted_balance + b.balance > u128::MAX {
        Err(Error::ArithmeticError)
    } else {
        Ok(())
    }
}

/// A proposal after a vote was counted.
pub open spec fn counted(p: Proposal, b: Ballot) -> Proposal {
    let weight = power(b.balance, b.multiplier_bps);
    Proposal {
        yes: if b.support {
            (p.yes + weight) as u128
        } else {
            p.yes
        },
        no: if b.support {
            p.no
        } else {
            (p.no + weight) as u128
        },
        voted_balance: (p.voted_balance + b.balance) as u128,
        ..p
    }
}

/// The contents after `vote` succeeded.
pub open spec fn vote_next(s: GovernanceState, ctx: Context, b: Ballot) -> GovernanceState {
    GovernanceState {
        proposals: s.proposals.insert(b.proposal_id, counted(s.proposals[b.proposal_id], b)),
        voted: s.voted.insert((b.proposal_id, ctx.caller, b.hotkey)),
        events: s.events.push(
            Event::Voted(
                Voted {
                    proposal_id: b.proposal_id,
                    coldkey: ctx.caller,
                    hotkey: b.hotkey,
                    support: b.support,
                    weight: power(b.balance, b.multiplier_bps) as u128,
                },
            ),
        ),
        ..s
    }
}

/// The outcome of a vote: it passes when the voted balance reaches the quorum and the share of
/// yes, by voting power, reaches the approval.
pub open spec fn outcome(s: GovernanceState, p: Proposal) -> Result<ProposalStatus, Error> {
    let total = p.yes + p.no;
    if total > u128::MAX {
        Err(Error::ArithmeticError)
    } else if p.voted_balance < quorum_of(s, p.snapshot_epoch) || total == 0 {
        Ok(ProposalStatus::Rejected)
    } else if p.yes * BPS_DENOMINATOR > u128::MAX {
        Err(Error::ArithmeticError)
    } else if p.yes * BPS_DENOMINATOR / total >= s.params.approval_bps {
        Ok(ProposalStatus::Passed)
    } else {
        Ok(ProposalStatus::Rejected)
    }
}

/// How `finalize` ends: the status that it decides on.
pub open spec fn finalize_result(s: GovernanceState, ctx: Context, proposal_id: u64) -> Result<
    ProposalStatus,
    Error,
> {
    let p = s.proposals[proposal_id];
    if !s.proposals.contains_key(proposal_id) {
        Err(Error::ProposalNotFound)
    } else if p.status != ProposalStatus::Active {
        Err(Error::ProposalNotActive)
    } else if ctx.now < p.voting_ends_at {
        Err(Error::VotingStillOpen)
    } else {
        outcome(s, p)
    }
}

/// The contents after `finalize` decided on `status`.
pub open spec fn finalize_next(s: GovernanceState, proposal_id: u64, status: ProposalStatus) ->
    GovernanceState {
    let p = s.proposals[proposal_id];
    GovernanceState {
        proposals: s.proposals.insert(proposal_id, Proposal { status, ..p }),
        events: s.events.push(
            Event::ProposalFinalized(
                ProposalFinalized { proposal_id, status, yes: p.yes, no: p.no },
            ),
        ),
        ..s
    }
}

/// The treasury calls that carry a proposal out.
pub open spec fn release_writes(s: GovernanceState, kind: ProposalKind) -> Seq<Write<Error>> {
    match kind {
        ProposalKind::Funding { fund, token_kind, amount, recipient } => seq![
            Write {
                call: Call::TreasuryRelease {
                    treasury: s.treasury,
                    fund,
                    token_kind,
                    amount,
                    recipient,
                },
                on_failure: Error::TreasuryCallFailed,
            },
        ],
        ProposalKind::NonFunding => seq![],
    }
}

/// `execute`, step by step.
pub open spec fn execute_step(s: GovernanceState, proposal_id: u64, replies: Seq<Reply>) -> Step<
    (),
    Error,
> {
    let p = s.proposals[proposal_id];
    if !s.proposals.contains_key(proposal_id) {
        fail(Error::ProposalNotFound)
    } else if p.status == ProposalStatus::Executed {
        fail(Error::AlreadyExecuted)
    } else if p.status != ProposalStatus::Passed {
        fail(Error::NotPassed)
    } else {
        conclude(release_writes(s, p.kind), replies, 0, Ok(()))
    }
}

/// The contents after `execute` succeeded.
pub open spec fn execute_next(s: GovernanceState, proposal_id: u64) -> GovernanceState {
    let p = s.proposals[proposal_id];
    GovernanceState {
        proposals: s.proposals.insert(
            proposal_id,
            Proposal { status: ProposalStatus::Executed, ..p },
        ),
        events: s.events.push(Event::ProposalExecuted(ProposalExecuted { proposal_id })),
        ..s
    }
}

/// A call that governance makes on another contract for a role.
pub open spec fn forwarded(
    permission: Result<(), Error>,
    call: Call,
    on_failure: Error,
    replies: Seq<Reply>,
) -> Step<(), Error> {
    match permission {
        Err(e) => fail(e),
        Ok(()) => conclude(seq![Write { call, on_failure }], replies, 0, Ok(())),
    }
}

/// `forward_oracle_commit_round`, step by step.
pub open spec fn commit_round_step(
    s: GovernanceState,
    ctx: Context,
    price: Ratio,
    replies: Seq<Reply>,
) -> Step<PriceData, Error> {
    match maintainer_only(s, ctx) {
        Err(e) => fail(e),
        Ok(()) => if replies.len() == 0 {
            Step::Call(Call::OracleCommitRound { oracle: s.oracle, price })
        } else {
            match replies[0] {
                Reply::Committed(data) => Step::Done(Ok(data)),
                _ => fail(Error::OracleCallFailed),
            }
        },
    }
}

/// The alpha stake that a reply reports; see [`stake_weight`].
pub fn read_stake_weight(reply: &Reply) -> (r: Result<u128, Error>)
    ensures
        r == stake_weight(*reply),
{
    match stake_in(reply) {
        None => Err(Error::StakeQueryFailed),
        Some(None) => Err(Error::NoStake),
        Some(Some(info)) => Ok(info.stake as u128),
    }
}

/// Whether an account is among the members.
fn is_member(members: &Vec<AccountId>, account: AccountId) -> (r: bool)
    ensures
        r == members@.contains(account),
{
    let mut i: usize = 0;
    while i < members.len()
        invariant
            i <= members@.len(),
            forall|j: int| 0 <= j < i ==> members@[j] != account,
        decreases members@.len() - i,
    {
        if members[i] == account {
            assert(members@[i as int] == account);
            return true;
        }
        i = i + 1;
    }
    false
}

/// Whether no account occurs twice.
fn all_distinct(members: &Vec<AccountId>) -> (r: bool)
    ensures
        r == members@.no_duplicates(),
{
    let mut i: usize = 0;
    while i < members.len()
        invariant
            i <= members@.len(),
            forall|a: int, b: int| 0 <= a < b < i ==> members@[a] != members@[b],
        decreases members@.len() - i,
    {
        let mut j: usize = 0;
        while j < i
            invariant
                i < members@.len(),
                j <= i,
                forall|a: int, b: int| 0 <= a < b < i ==> members@[a] != members@[b],
                forall|a: int| 0 <= a < j ==> members@[a] != members@[i as int],
            decreases i - j,
        {
            if members[j] == members[i] {
                assert(members@[j as int] == members@[i as int]);
                return false;
            }
            j = j + 1;
        }
        i = i + 1;
    }
    true
}

/// Governance storage.
pub struct TusdtGovernance {
    pub maintainer: AccountId,
    pub council: Vec<AccountId>,
    pub treasury: AccountId,
    pub vault: AccountId,
    pub auction: AccountId,
    pub oracle: AccountId,
    pub params: GovernanceParams,
    pub current_epoch: u64,
    pub snapshots: Mapping<u64, Snapshot>,
    pub proposal_count: u64,
    pub proposals: Mapping<u64, Proposal>,
    pub has_voted: Mapping<(u64, AccountId, AccountId), ()>,
    pub events: Vec<Event>,
}

impl View for TusdtGovernance {
    type V = GovernanceState;

    open spec fn view(&self) -> GovernanceState {
        GovernanceState {
            maintainer: self.maintainer,
            council: self.council@,
            treasury: self.treasury,
            vault: self.vault,
            auction: self.auction,
            oracle: self.oracle,
            params: self.params,
            current_epoch: self.current_epoch,
            snapshots: self.snapshots@,
            proposal_count: self.proposal_count,
            proposals: self.proposals@,
            voted: self.has_voted@.dom(),
            events: self.events@,
        }
    }
}

impl TusdtGovernance {
    /// Governance with a maintainer, an empty council and the default parameters.
    pub fn new(
        treasury_address: AccountId,
        vault_address: AccountId,
        auction_address: AccountId,
        oracle_address: AccountId,
        maintainer: AccountId,
    ) -> (gov: TusdtGovernance)
        ensures
            gov@ == initial_state(
                treasury_address,
                vault_address,
                auction_address,
                oracle_address,
                maintainer,
            ),
    {
        let gov = TusdtGovernance {
            maintainer,
            council: Vec::new(),
            treasury: treasury_address,
            vault: vault_address,
            auction: auction_address,
            oracle: oracle_address,
            params: GovernanceParams::default_params(),
            current_epoch: 0,
            snapshots: Mapping::new(),
            proposal_count: 0,
            proposals: Mapping::new(),
            has_voted: Mapping::new(),
            events: Vec::new(),
        };
        assert(gov@ =~= initial_state(
            treasury_address,
            vault_address,
            auction_address,
            oracle_address,
            maintainer,
        ));
        gov
    }

    fn ensure_maintainer(&self, ctx: &Context) -> (r: Result<(), Error>)
        ensures
            r == maintainer_only(self@, *ctx),
    {
        if ctx.caller != self.maintainer {
            return Err(Error::NotMaintainer);
        }
        Ok(())
    }

    fn ensure_council(&self, ctx: &Context) -> (r: Result<(), Error>)
        ensures
            r == council_only(self@, *ctx),
    {
        if !is_member(&self.council, ctx.caller) {
            return Err(Error::NotCouncil);
        }
        Ok(())
    }

    /// Hands the maintainer's role on; maintainer-only.
    pub fn set_maintainer(&mut self, ctx: &Context, new_maintainer: AccountId) -> (r: Result<
        (),
        Error,
    >)
        ensures
            r == maintainer_only(old(self)@, *ctx),
            final(self)@ == (if r is Ok {
                GovernanceState { maintainer: new_maintainer, ..old(self)@ }
            } else {
                old(self)@
            }),
    {
        match self.ensure_maintainer(ctx) {
            Ok(()) => {
                self.maintainer = new_maintainer;
                Ok(())
            },
            Err(e) => Err(e),
        }
    }

    /// Seats a council of exactly five distinct members; maintainer-only.
    pub fn set_council(&mut self, ctx: &Context, members: Vec<AccountId>) -> (r: Result<(), Error>)
        ensures
            r == set_council_result(old(self)@, *ctx, members@),
            final(self)@ == (if r is Ok {
                GovernanceState { council: members@, ..old(self)@ }
            } else {
                old(self)@
            }),
    {
        if ctx.caller != self.maintainer {
            return Err(Error::NotMaintainer);
        }
        if members.len() != COUNCIL_SIZE || !all_distinct(&members) {
            return Err(Error::InvalidCouncil);
        }
        self.council = members;
        Ok(())
    }

    /// Commits a new off-chain snapshot and returns its epoch; council-only. Each call advances
    /// the epoch by one; proposals submitted afterward bind to the new epoch.
    pub fn submit_snapshot(
        &mut self,
        ctx: &Context,
        root: MerkleHash,
        circulating_supply: u128,
        snapshot_block: u32,
    ) -> (r: Result<u64, Error>)
        ensures
            r == snapshot_result(old(self)@, *ctx),
            final(self)@ == (if r is Ok {
                snapshot_next(old(self)@, Snapshot { root, circulating_supply, snapshot_block })
            } else {
                old(self)@
            }),
    {
        if !is_member(&self.council, ctx.caller) {
            return Err(Error::NotCouncil);
        }
        if self.current_epoch == u64::MAX {
            return Err(Error::ArithmeticError);
        }
        let epoch: u64 = self.current_epoch + 1;
        self.snapshots.insert(epoch, Snapshot { root, circulating_supply, snapshot_block });
        self.current_epoch = epoch;
        self.events.push(
            Event::SnapshotSubmitted(
                SnapshotSubmitted { epoch, root, circulating_supply, snapshot_block },
            ),
        );
        assert(self@ =~= snapshot_next(
            old(self)@,
            Snapshot { root, circulating_supply, snapshot_block },
        ));
        Ok(epoch)
    }

    /// The raw balance that must vote on a proposal of `epoch` for it to be eligible to pass;
    /// zero if the epoch has no snapshot.
    pub fn quorum(&self, epoch: u64) -> (q: u128)
        ensures
            q == quorum_of(self@, epoch),
    {
        match self.snapshots.get(&epoch) {
            Some(s) => {
                let product: u128 = match s.circulating_supply.checked_mul(
                    self.params.quorum_bps as u128,
                ) {
                    Some(p) => p,
                    None => u128::MAX,
                };
                product / BPS_DENOMINATOR as u128
            },
            None => 0,
        }
    }

    /// Updates the governance parameters; maintainer-only.
    pub fn update_params(&mut self, ctx: &Context, new_params: GovernanceParams) -> (r: Result<
        (),
        Error,
    >)
        ensures
            r == update_params_result(old(self)@, *ctx, new_params),
            final(self)@ == (if r is Ok {
                GovernanceState { params: new_params, ..old(self)@ }
            } else {
                old(self)@
            }),
    {
        if ctx.caller != self.maintainer {
            return Err(Error::NotMaintainer);
        }
        if new_params.approval_bps == 0 || new_params.approval_bps > BPS_DENOMINATOR {
            return Err(Error::InvalidParams);
        }
        if new_params.quorum_bps > BPS_DENOMINATOR {
            return Err(Error::InvalidParams);
        }
        if new_params.voting_period_ms == 0 {
            return Err(Error::InvalidParams);
        }
        if new_params.submission_open_day < 1 || new_params.submission_open_day
            > new_params.submission_close_day || new_params.submission_close_day
            > LAST_SUBMISSION_DAY {
            return Err(Error::InvalidParams);
        }
        self.params = new_params;
        Ok(())
    }

    /// Submits a new proposal. The caller is treated as the coldkey; the alpha stake of the
    /// `(hotkey, caller)` pair on the governed subnet must exceed the proposer's floor. On
    /// success the result is the proposal's id.
    pub fn submit_proposal(
        &mut self,
        ctx: &Context,
        cid: String,
        kind: ProposalKind,
        hotkey: AccountId,
        replies: &Vec<Reply>,
    ) -> (step: Step<u64, Error>)
        ensures
            step == submit_step(old(self)@, *ctx, cid@, kind, hotkey, replies@),
            final(self)@ == (if step matches Step::Done(Ok(_)) {
                submit_next(old(self)@, *ctx, cid, kind)
            } else {
                old(self)@
            }),
    {
        let cid_len: usize = cid.as_str().as_bytes().len();
        if cid_len == 0 || cid_len > MAX_CID_LEN {
            return Step::Done(Err(Error::InvalidCid));
        }
        if let ProposalKind::Funding { amount, .. } = kind {
            if amount == 0 {
                return Step::Done(Err(Error::InvalidAmount));
            }
        }
        let day: u8 = day_of_month(ctx.now);
        if day < self.params.submission_open_day || day > self.params.submission_close_day {
            return Step::Done(Err(Error::OutsideSubmissionWindow));
        }
        let snapshot_epoch: u64 = self.current_epoch;
        if snapshot_epoch == 0 {
            return Step::Done(Err(Error::NoSnapshot));
        }
        if replies.len() == 0 {
            return Step::Call(
                Call::StakeInfo { hotkey, coldkey: ctx.caller, netuid: self.params.netuid },
            );
        }
        let stake: u128 = match read_stake_weight(&replies[0]) {
            Ok(stake) => stake,
            Err(e) => {
                return Step::Done(Err(e));
            },
        };
        if stake <= self.params.min_proposer_stake {
            return Step::Done(Err(Error::InsufficientStake));
        }
        if self.proposal_count == u64::MAX {
            return Step::Done(Err(Error::ArithmeticError));
        }
        let id: u64 = self.proposal_count + 1;
        let voting_ends_at: u64 = match ctx.now.checked_add(self.params.voting_period_ms) {
            Some(t) => t,
            None => {
                return Step::Done(Err(Error::ArithmeticError));
            },
        };
        let proposal = Proposal {
            id,
            proposer: ctx.caller,
            cid,
            kind,
            created_at: ctx.now,
            voting_ends_at,
            snapshot_epoch,
            yes: 0,
            no: 0,
            voted_balance: 0,
            status: ProposalStatus::Active,
        };
        self.proposals.insert(id, proposal);
        self.proposal_count = id;
        self.events.push(
            Event::ProposalSubmitted(
                ProposalSubmitted { proposal_id: id, proposer: ctx.caller, voting_ends_at },
            ),
        );
        assert(self@ =~= submit_next(old(self)@, *ctx, cid, kind));
        Step::Done(Ok(id))
    }

    /// Casts a vote on `proposal_id`. The caller is the coldkey; `hotkey`, `balance` and
    /// `multiplier_bps` are the caller's leaf in the proposal's snapshot, proven by `proof`. The
    /// voting power is `sqrt(balance) * multiplier_bps / 10_000`.
    pub fn vote(
        &mut self,
        ctx: &Context,
        proposal_id: u64,
        hotkey: AccountId,
        support: bool,
        balance: u128,
        multiplier_bps: u32,
        proof: Vec<MerkleHash>,
    ) -> (r: Result<(), Error>)
        ensures
            ({
                let b = Ballot {
                    proposal_id,
                    hotkey,
                    support,
                    balance,
                    multiplier_bps,
                    proof: proof@,
                };
                &&& r == vote_result(old(self)@, *ctx, b)
                &&& final(self)@ == (if r is Ok {
                    vote_next(old(self)@, *ctx, b)
                } else {
                    old(self)@
                })
            }),
    {
        let ghost b = Ballot {
            proposal_id,
            hotkey,
            support,
            balance,
            multiplier_bps,
            proof: proof@,
        };
        let mut proposal: Proposal = match self.proposals.get(&proposal_id) {
            Some(p) => p.clone(),
            None => {
                return Err(Error::ProposalNotFound);
            },
        };
        if proposal.status != ProposalStatus::Active {
            return Err(Error::ProposalNotActive);
        }
        if ctx.now >= proposal.voting_ends_at {
            return Err(Error::VotingClosed);
        }
        let key: (u64, AccountId, AccountId) = (proposal_id, ctx.caller, hotkey);
        if self.has_voted.contains(&key) {
            return Err(Error::AlreadyVoted);
        }
        let root: MerkleHash = match self.snapshots.get(&proposal.snapshot_epoch) {
            Some(s) => s.root,
            None => {
                return Err(Error::NoSnapshot);
            },
        };
        let leaf: MerkleHash = leaf_hash(ctx.caller, hotkey, balance, multiplier_bps);
        if !verify_merkle_proof(proof.as_slice(), root, leaf) {
            return Err(Error::InvalidProof);
        }
        let weight: u128 = match voting_power(balance, multiplier_bps) {
            Ok(w) => w,
            Err(e) => {
                return Err(e);
            },
        };
        if weight == 0 {
            return Err(Error::NoStake);
        }
        if support {
            match proposal.yes.checked_add(weight) {
                Some(yes) => {
                    proposal.yes = yes;
                },
                None => {
                    return Err(Error::ArithmeticError);
                },
            }
        } else {
            match proposal.no.checked_add(weight) {
                Some(no) => {
                    proposal.no = no;
                },
                None => {
                    return Err(Error::ArithmeticError);
                },
            }
        }
        match proposal.voted_balance.checked_add(balance) {
            Some(voted) => {
                proposal.voted_balance = voted;
            },
            None => {
                return Err(Error::ArithmeticError);
            },
        }
        self.proposals.insert(proposal_id, proposal);
        self.has_voted.insert(key, ());
        self.events.push(
            Event::Voted(
                Voted { proposal_id, coldkey: ctx.caller, hotkey, support, weight },
            ),
        );
        assert(self@ =~= vote_next(old(self)@, *ctx, b));
        Ok(())
    }

    /// Closes voting and decides the outcome. Anyone may call it once voting has ended.
    pub fn finalize(&mut self, ctx: &Context, proposal_id: u64) -> (r: Result<(), Error>)
        ensures
            match finalize_result(old(self)@, *ctx, proposal_id) {
                Ok(status) => r == Ok::<(), Error>(()) && final(self)@ == finalize_next(
                    old(self)@,
                    proposal_id,
                    status,
                ),
                Err(e) => r == Err::<(), Error>(e) && final(self)@ == old(self)@,
            },
    {
        let mut proposal: Proposal = match self.proposals.get(&proposal_id) {
            Some(p) => p.clone(),
            None => {
                return Err(Error::ProposalNotFound);
            },
        };
        if proposal.status != ProposalStatus::Active {
            return Err(Error::ProposalNotActive);
        }
        if ctx.now < proposal.voting_ends_at {
            return Err(Error::VotingStillOpen);
        }
        let total: u128 = match proposal.yes.checked_add(proposal.no) {
            Some(total) => total,
            None => {
                return Err(Error::ArithmeticError);
            },
        };
        let quorum_met: bool = proposal.voted_balance >= self.quorum(proposal.snapshot_epoch);
        let status: ProposalStatus = if !quorum_met || total == 0 {
            ProposalStatus::Rejected
        } else {
            match proposal.yes.checked_mul(BPS_DENOMINATOR as u128) {
                Some(scaled) => {
                    if scaled / total >= self.params.approval_bps as u128 {
                        ProposalStatus::Passed
                    } else {
                        ProposalStatus::Rejected
                    }
                },
                None => {
                    return Err(Error::ArithmeticError);
                },
            }
        };
        proposal.status = status;
        let yes: u128 = proposal.yes;
        let no: u128 = proposal.no;
        self.proposals.insert(proposal_id, proposal);
        self.events.push(
            Event::ProposalFinalized(ProposalFinalized { proposal_id, status, yes, no }),
        );
        assert(self@ =~= finalize_next(old(self)@, proposal_id, status));
        Ok(())
    }

    /// Executes a passed proposal. A Funding proposal releases its amount from the treasury.
    /// Anyone may call it.
    pub fn execute(&mut self, proposal_id: u64, replies: &Vec<Reply>) -> (step: Step<(), Error>)
        ensures
            step == execute_step(old(self)@, proposal_id, replies@),
            final(self)@ == (if step matches Step::Done(Ok(_)) {
                execute_next(old(self)@, proposal_id)
            } else {
                old(self)@
            }),
    {
        let mut proposal: Proposal = match self.proposals.get(&proposal_id) {
            Some(p) => p.clone(),
            None => {
                return Step::Done(Err(Error::ProposalNotFound));
            },
        };
        match proposal.status {
            ProposalStatus::Passed => {},
            ProposalStatus::Executed => {
                return Step::Done(Err(Error::AlreadyExecuted));
            },
            _ => {
                return Step::Done(Err(Error::NotPassed));
            },
        }
        let mut writes: Vec<Write<Error>> = Vec::new();
        if let ProposalKind::Funding { fund, token_kind, amount, recipient } = proposal.kind {
            writes.push(
                Write {
                    call: Call::TreasuryRelease {
                        treasury: self.treasury,
                        fund,
                        token_kind,
                        amount,
                        recipient,
                    },
                    on_failure: Error::TreasuryCallFailed,
                },
            );
        }
        assert(writes@ =~= release_writes(self@, proposal.kind));
        let step = run_to_end(&writes, replies, 0, Ok(()));
        if let Step::Done(Ok(_)) = step {
            proposal.status = ProposalStatus::Executed;
            self.proposals.insert(proposal_id, proposal);
            self.events.push(Event::ProposalExecuted(ProposalExecuted { proposal_id }));
            assert(self@ =~= execute_next(old(self)@, proposal_id));
        }
        step
    }

    /// The maintainer account.
    pub fn maintainer(&self) -> (r: AccountId)
        ensures
            r == self@.maintainer,
    {
        self.maintainer
    }

    /// The council's members.
    pub fn council(&self) -> (r: Vec<AccountId>)
        ensures
            r@ == self@.council,
    {
        let mut members: Vec<AccountId> = Vec::new();
        let mut i: usize = 0;
        while i < self.council.len()
            invariant
                i <= self.council@.len(),
                members@ == self.council@.take(i as int),
            decreases self.council@.len() - i,
        {
            members.push(self.council[i]);
            assert(self.council@.take(i + 1) =~= self.council@.take(i as int).push(
                self.council@[i as int],
            ));
            i = i + 1;
        }
        assert(self.council@.take(i as int) =~= self.council@);
        members
    }

    /// Whether an account sits on the council.
    pub fn is_council(&self, account: AccountId) -> (r: bool)
        ensures
            r == self@.council.contains(account),
    {
        is_member(&self.council, account)
    }

    /// The treasury contract's address.
    pub fn treasury(&self) -> (r: AccountId)
        ensures
            r == self@.treasury,
    {
        self.treasury
    }

    /// The current governance parameters.
    pub fn params(&self) -> (r: GovernanceParams)
        ensures
            r == self@.params,
    {
        self.params
    }

    /// The latest committed snapshot epoch (0 if none submitted yet).
    pub fn current_epoch(&self) -> (r: u64)
        ensures
            r == self@.current_epoch,
    {
        self.current_epoch
    }

    /// Looks up a snapshot by epoch.
    pub fn get_snapshot(&self, epoch: u64) -> (r: Option<Snapshot>)
        ensures
            r == (if self@.snapshots.contains_key(epoch) {
                Some(self@.snapshots[epoch])
            } else {
                None
            }),
    {
        match self.snapshots.get(&epoch) {
            Some(s) => Some(*s),
            None => None,
        }
    }

    /// The total number of proposals submitted.
    pub fn proposal_count(&self) -> (r: u64)
        ensures
            r == self@.proposal_count,
    {
        self.proposal_count
    }

    /// Looks up a proposal by id.
    pub fn get_proposal(&self, proposal_id: u64) -> (r: Option<Proposal>)
        ensures
            r == (if self@.proposals.contains_key(proposal_id) {
                Some(self@.proposals[proposal_id])
            } else {
                None
            }),
    {
        match self.proposals.get(&proposal_id) {
            Some(p) => Some(p.clone()),
            None => None,
        }
    }

    /// Reports whether `(coldkey, hotkey)` has already voted on `proposal_id`.
    pub fn has_voted(&self, proposal_id: u64, coldkey: AccountId, hotkey: AccountId) -> (r: bool)
        ensures
            r == self@.voted.contains((proposal_id, coldkey, hotkey)),
    {
        self.has_voted.contains(&(proposal_id, coldkey, hotkey))
    }

    /// Hands out the events since the last call.
    pub fn take_events(&mut self) -> (r: Vec<Event>)
        ensures
            r@ == old(self)@.events,
            final(self)@ == (GovernanceState { events: Seq::empty(), ..old(self)@ }),
    {
        let mut taken: Vec<Event> = Vec::new();
        std::mem::swap(&mut taken, &mut self.events);
        taken
    }
}

/// Makes one call on another contract if the caller may; see [`forwarded`].
fn forward(
    permission: Result<(), Error>,
    call: Call,
    on_failure: Error,
    replies: &Vec<Reply>,
) -> (step: Step<(), Error>)
    ensures
        step == forwarded(permission, call, on_failure, replies@),
{
    match permission {
        Err(e) => Step::Done(Err(e)),
        Ok(()) => {
            let mut writes: Vec<Write<Error>> = Vec::new();
            writes.push(Write { call, on_failure });
            assert(writes@ =~= seq![Write { call, on_failure }]);
            run_to_end(&writes, replies, 0, Ok(()))
        },
    }
}

/// Calls that governance makes on the vault, the oracle and the auction, which accept them from
/// it alone. Who may ask for them is decided here.
impl TusdtGovernance {
    /// Schedules new parameters of a subnet on the vault; maintainer-only.
    pub fn forward_vault_set_contract_params(
        &self,
        ctx: &Context,
        netuid: u16,
        params: VaultContractParamsConfig,
        replies: &Vec<Reply>,
    ) -> (step: Step<(), Error>)
        ensures
            step == forwarded(
                maintainer_only(self@, *ctx),
                Call::VaultSetContractParams { vault: self@.vault, netuid, params },
                Error::VaultCallFailed,
                replies@,
            ),
    {
        forward(
            self.ensure_maintainer(ctx),
            Call::VaultSetContractParams { vault: self.vault, netuid, params },
            Error::VaultCallFailed,
            replies,
        )
    }

    /// Cancels a scheduled update of the vault's parameters; maintainer-only.
    pub fn forward_vault_cancel_contract_params_update(
        &self,
        ctx: &Context,
        netuid: u16,
        replies: &Vec<Reply>,
    ) -> (step: Step<(), Error>)
        ensures
            step == forwarded(
                maintainer_only(self@, *ctx),
                Call::VaultCancelContractParamsUpdate { vault: self@.vault, netuid },
                Error::VaultCallFailed,
                replies@,
            ),
    {
        forward(
            self.ensure_maintainer(ctx),
            Call::VaultCancelContractParamsUpdate { vault: self.vault, netuid },
            Error::VaultCallFailed,
            replies,
        )
    }

    /// Points the vault to another treasury; maintainer-only.
    pub fn forward_vault_update_treasury(
        &self,
        ctx: &Context,
        new_treasury: AccountId,
        replies: &Vec<Reply>,
    ) -> (step: Step<(), Error>)
        ensures
            step == forwarded(
                maintainer_only(self@, *ctx),
                Call::VaultUpdateTreasury { vault: self@.vault, treasury: new_treasury },
                Error::VaultCallFailed,
                replies@,
            ),
    {
        forward(
            self.ensure_maintainer(ctx),
            Call::VaultUpdateTreasury { vault: self.vault, treasury: new_treasury },
            Error::VaultCallFailed,
            replies,
        )
    }

    /// Points the vault to another platform account; maintainer-only.
    pub fn forward_vault_update_platform(
        &self,
        ctx: &Context,
        new_platform: AccountId,
        replies: &Vec<Reply>,
    ) -> (step: Step<(), Error>)
        ensures
            step == forwarded(
                maintainer_only(self@, *ctx),
                Call::VaultUpdatePlatform { vault: self@.vault, platform: new_platform },
                Error::VaultCallFailed,
                replies@,
            ),
    {
        forward(
            self.ensure_maintainer(ctx),
            Call::VaultUpdatePlatform { vault: self.vault, platform: new_platform },
            Error::VaultCallFailed,
            replies,
        )
    }

    /// Resumes the vault; maintainer-only.
    pub fn forward_vault_unpause(
        &self,
        ctx: &Context,
        replies: &Vec<Reply>,
    ) -> (step: Step<(), Error>)
        ensures
            step == forwarded(
                maintainer_only(self@, *ctx),
                Call::VaultUnpause { vault: self@.vault },
                Error::VaultCallFailed,
                replies@,
            ),
    {
        forward(
            self.ensure_maintainer(ctx),
            Call::VaultUnpause { vault: self.vault },
            Error::VaultCallFailed,
            replies,
        )
    }

    /// Has the vault claim its excess alpha on a subnet; maintainer-only.
    pub fn forward_vault_claim_excess_alpha(
        &self,
        ctx: &Context,
        netuid: u16,
        replies: &Vec<Reply>,
    ) -> (step: Step<(), Error>)
        ensures
            step == forwarded(
                maintainer_only(self@, *ctx),
                Call::VaultClaimExcessAlpha { vault: self@.vault, netuid },
                Error::VaultCallFailed,
                replies@,
            ),
    {
        forward(
            self.ensure_maintainer(ctx),
            Call::VaultClaimExcessAlpha { vault: self.vault, netuid },
            Error::VaultCallFailed,
            replies,
        )
    }

    /// Halts the vault; council-only, so that any single member can act in an emergency.
    pub fn forward_vault_pause(
        &self,
        ctx: &Context,
        replies: &Vec<Reply>,
    ) -> (step: Step<(), Error>)
        ensures
            step == forwarded(
                council_only(self@, *ctx),
                Call::VaultPause { vault: self@.vault },
                Error::VaultCallFailed,
                replies@,
            ),
    {
        forward(
            self.ensure_council(ctx),
            Call::VaultPause { vault: self.vault },
            Error::VaultCallFailed,
            replies,
        )
    }

    /// Sets or clears the oracle's validator; maintainer-only.
    pub fn forward_oracle_set_validator(
        &self,
        ctx: &Context,
        validator: Option<AccountId>,
        replies: &Vec<Reply>,
    ) -> (step: Step<(), Error>)
        ensures
            step == forwarded(
                maintainer_only(self@, *ctx),
                Call::OracleSetValidator { oracle: self@.oracle, validator },
                Error::OracleCallFailed,
                replies@,
            ),
    {
        forward(
            self.ensure_maintainer(ctx),
            Call::OracleSetValidator { oracle: self.oracle, validator },
            Error::OracleCallFailed,
            replies,
        )
    }

    /// Sets how far the oracle's price may move in a round; maintainer-only.
    pub fn forward_oracle_set_max_price_deviation(
        &self,
        ctx: &Context,
        max_price_deviation: Ratio,
        replies: &Vec<Reply>,
    ) -> (step: Step<(), Error>)
        ensures
            step == forwarded(
                maintainer_only(self@, *ctx),
                Call::OracleSetMaxPriceDeviation { oracle: self@.oracle, deviation: max_price_deviation },
                Error::OracleCallFailed,
                replies@,
            ),
    {
        forward(
            self.ensure_maintainer(ctx),
            Call::OracleSetMaxPriceDeviation { oracle: self.oracle, deviation: max_price_deviation },
            Error::OracleCallFailed,
            replies,
        )
    }

    /// Commits an emergency price on the oracle; maintainer-only. On success the result is the
    /// price that the oracle committed.
    pub fn forward_oracle_commit_round(
        &self,
        ctx: &Context,
        price: Ratio,
        replies: &Vec<Reply>,
    ) -> (step: Step<PriceData, Error>)
        ensures
            step == commit_round_step(self@, *ctx, price, replies@),
    {
        match self.ensure_maintainer(ctx) {
            Err(e) => Step::Done(Err(e)),
            Ok(()) => if replies.len() == 0 {
                Step::Call(Call::OracleCommitRound { oracle: self.oracle, price })
            } else {
                match replies[0] {
                    Reply::Committed(data) => Step::Done(Ok(data)),
                    _ => Step::Done(Err(Error::OracleCallFailed)),
                }
            },
        }
    }

    /// Sets the subnet whose stake the oracle reads; maintainer-only.
    pub fn forward_oracle_set_netuid(
        &self,
        ctx: &Context,
        netuid: u16,
        replies: &Vec<Reply>,
    ) -> (step: Step<(), Error>)
        ensures
            step == forwarded(
                maintainer_only(self@, *ctx),
                Call::OracleSetNetuid { oracle: self@.oracle, netuid },
                Error::OracleCallFailed,
                replies@,
            ),
    {
        forward(
            self.ensure_maintainer(ctx),
            Call::OracleSetNetuid { oracle: self.oracle, netuid },
            Error::OracleCallFailed,
            replies,
        )
    }

    /// Sets the stake that a price submitter needs; maintainer-only.
    pub fn forward_oracle_set_min_submitter_stake(
        &self,
        ctx: &Context,
        min_stake: u128,
        replies: &Vec<Reply>,
    ) -> (step: Step<(), Error>)
        ensures
            step == forwarded(
                maintainer_only(self@, *ctx),
                Call::OracleSetMinSubmitterStake { oracle: self@.oracle, min_stake },
                Error::OracleCallFailed,
                replies@,
            ),
    {
        forward(
            self.ensure_maintainer(ctx),
            Call::OracleSetMinSubmitterStake { oracle: self.oracle, min_stake },
            Error::OracleCallFailed,
            replies,
        )
    }

    /// Sets or clears the auction's admin; maintainer-only.
    pub fn forward_auction_set_admin(
        &self,
        ctx: &Context,
        admin: Option<AccountId>,
        replies: &Vec<Reply>,
    ) -> (step: Step<(), Error>)
        ensures
            step == forwarded(
                maintainer_only(self@, *ctx),
                Call::AuctionSetAdmin { auction: self@.auction, admin },
                Error::AuctionCallFailed,
                replies@,
            ),
    {
        forward(
            self.ensure_maintainer(ctx),
            Call::AuctionSetAdmin { auction: self.auction, admin },
            Error::AuctionCallFailed,
            replies,
        )
    }
}

} // verus!
