//! What a contract sees of the chain: the context of a call, the calls it makes to the outside,
//! and the replies that come back.
//!
//! A message that needs the outside is a function of the contract's state, its arguments and the
//! replies so far. It names the next outside call to make, or it is done. Nothing is stored
//! before a message is done with success.
use vstd::prelude::*;
use crate::account::{AccountId, Balance, Timestamp};
use crate::peers::{AuctionRecord, Fund, PriceData, TokenKind};
use crate::ratio::Ratio;
use crate::vault_alpha::VaultContractParamsConfig;

verus! {

/// The identifier of the chain's extension.
pub const EXTENSION_ID: u16 = 0x1000;

/// Reads a stake record.
pub const FUNC_STAKE_INFO: u16 = 0;

/// Unstakes.
pub const FUNC_REMOVE_STAKE: u16 = 2;

/// Moves stake between hotkeys.
pub const FUNC_MOVE_STAKE: u16 = 5;

/// Moves stake of the contract to another coldkey.
pub const FUNC_TRANSFER_STAKE: u16 = 6;

/// Reads the price of a subnet's alpha.
pub const FUNC_ALPHA_PRICE: u16 = 15;

/// Moves stake of the caller to another coldkey.
pub const FUNC_CALLER_TRANSFER_STAKE: u16 = 25;

/// Reads how much of a stake can be moved.
pub const FUNC_STAKE_AVAILABILITY: u16 = 36;

/// The surroundings of one message.
#[derive(Clone, Copy, Debug)]
pub struct Context {
    /// The account that sent the message.
    pub caller: AccountId,
    /// The contract's own account.
    pub contract: AccountId,
    /// The block's time.
    pub now: Timestamp,
    /// Native tokens sent along with the message.
    pub transferred_value: Balance,
}

/// A stake record of the chain for a hotkey, a coldkey and a subnet.
#[derive(Clone, Copy, Debug, PartialEq, Eq)]
pub struct StakeInfo {
    pub hotkey: AccountId,
    pub coldkey: AccountId,
    pub netuid: u16,
    pub stake: u64,
    pub locked: u64,
    pub emission: u64,
    pub tao_emission: u64,
    pub drain: u64,
    pub is_registered: bool,
}

/// How much of a stake can be moved.
#[derive(Clone, Copy, Debug, PartialEq, Eq)]
pub struct StakeAvailability {
    pub netuid: u16,
    pub total: u64,
    pub locked: u64,
    pub available: u64,
}

/// One call to the outside.
#[derive(Clone, Copy, Debug, PartialEq, Eq)]
pub enum Call {
    /// Sends native tokens from the contract.
    NativeTransfer { to: AccountId, amount: Balance },
    /// Reads the contract's native balance.
    NativeBalance,
    /// Reads a stake record.
    StakeInfo { hotkey: AccountId, coldkey: AccountId, netuid: u16 },
    /// Reads the price of a subnet's alpha, in rao per alpha.
    AlphaPrice { netuid: u16 },
    /// Moves stake of the message's caller to another coldkey.
    CallerTransferStake {
        destination: AccountId,
        hotkey: AccountId,
        origin_netuid: u16,
        destination_netuid: u16,
        amount: Balance,
    },
    /// Moves stake of the contract to another coldkey.
    TransferStake {
        destination: AccountId,
        hotkey: AccountId,
        origin_netuid: u16,
        destination_netuid: u16,
        amount: Balance,
    },
    /// Unstakes alpha of the contract to native tokens.
    RemoveStake { hotkey: AccountId, netuid: u16, amount: Balance },
    TokenTransfer { token: AccountId, to: AccountId, amount: Balance },
    TokenTransferFrom { token: AccountId, from: AccountId, to: AccountId, amount: Balance },
    TokenMint { token: AccountId, to: AccountId, amount: Balance },
    TokenBurn { token: AccountId, from: AccountId, amount: Balance },
    TokenBalanceOf { token: AccountId, owner: AccountId },
    OracleLatestPrice { oracle: AccountId },
    OracleUpdateGovernance { oracle: AccountId, governance: AccountId },
    OracleSetValidator { oracle: AccountId, validator: Option<AccountId> },
    OracleSetMaxPriceDeviation { oracle: AccountId, deviation: Ratio },
    OracleCommitRound { oracle: AccountId, price: Ratio },
    OracleSetNetuid { oracle: AccountId, netuid: u16 },
    OracleSetMinSubmitterStake { oracle: AccountId, min_stake: u128 },
    AuctionCreate {
        auction: AccountId,
        owner: AccountId,
        vault_id: u32,
        collateral: Balance,
        debt: Balance,
        min_bid: Balance,
        price: Ratio,
        duration_ms: Option<u64>,
    },
    AuctionGet { auction: AccountId, auction_id: u32 },
    AuctionTransferWinningBid { auction: AccountId, auction_id: u32, to: AccountId },
    AuctionUpdateGovernance { auction: AccountId, governance: AccountId },
    AuctionSetAdmin { auction: AccountId, admin: Option<AccountId> },
    TreasuryRelease {
        treasury: AccountId,
        fund: Fund,
        token_kind: TokenKind,
        amount: Balance,
        recipient: AccountId,
    },
    VaultSetContractParams { vault: AccountId, netuid: u16, params: VaultContractParamsConfig },
    VaultCancelContractParamsUpdate { vault: AccountId, netuid: u16 },
    VaultUpdateTreasury { vault: AccountId, treasury: AccountId },
    VaultUpdatePlatform { vault: AccountId, platform: AccountId },
    VaultPause { vault: AccountId },
    VaultUnpause { vault: AccountId },
    VaultClaimExcessAlpha { vault: AccountId, netuid: u16 },
    /// Instantiates the token contract.
    InstantiateToken { code_hash: [u8; 32], owner: AccountId, salt: u8 },
    /// Instantiates the auction contract.
    InstantiateAuction {
        code_hash: [u8; 32],
        vault: AccountId,
        governance: AccountId,
        token: AccountId,
        salt: u8,
    },
    /// Instantiates the oracle contract.
    InstantiateOracle {
        code_hash: [u8; 32],
        vault: AccountId,
        governance: AccountId,
        netuid: u16,
        salt: u8,
    },
}

/// What came back from a call.
#[derive(Clone, Copy, Debug, PartialEq, Eq)]
pub enum Reply {
    /// The call reported an error.
    Failed,
    /// The call succeeded and carries no value.
    Done,
    /// A balance or a price in rao.
    Amount(u64),
    /// A stake record, if there is one.
    Stake(Option<StakeInfo>),
    /// The oracle's latest price, if there is one.
    Price(Option<PriceData>),
    /// The price of a round that the oracle committed.
    Committed(PriceData),
    /// The identifier of a new auction.
    AuctionId(u32),
    /// An auction, if there is one.
    Auction(Option<AuctionRecord>),
    /// The address of a new contract.
    Account(AccountId),
}

/// How far a message has come.
#[derive(Debug, PartialEq, Eq)]
pub enum Step<T, E> {
    /// The next call to make.
    Call(Call),
    /// The message's result.
    Done(Result<T, E>),
}

/// A call that only has to succeed, with the error to report when it does not.
#[derive(Debug)]
pub struct Write<E> {
    pub call: Call,
    pub on_failure: E,
}

/// How far a list of writes has come.
pub enum Progress<E> {
    /// The next write to make.
    Pending(Call),
    /// A write failed.
    Failed(E),
    /// Every write succeeded.
    Complete,
}

/// The writes from `i` on, when the reply to write `j` is `replies[from + j]`: they are made in
/// order, and the first that fails ends the list.
pub open spec fn progress<E>(
    writes: Seq<Write<E>>,
    replies: Seq<Reply>,
    from: nat,
    i: nat,
) -> Progress<E>
    decreases writes.len() - i,
{
    if i >= writes.len() {
        Progress::Complete
    } else if from + i >= replies.len() {
        Progress::Pending(writes[i as int].call)
    } else if replies[(from + i) as int] is Failed {
        Progress::Failed(writes[i as int].on_failure)
    } else {
        progress(writes, replies, from, i + 1)
    }
}

/// Makes `writes` in order, their replies standing in `replies` from `from` on, and ends with
/// `outcome` once all have succeeded.
pub open spec fn conclude<T, E>(
    writes: Seq<Write<E>>,
    replies: Seq<Reply>,
    from: nat,
    outcome: Result<T, E>,
) -> Step<T, E> {
    match progress(writes, replies, from, 0) {
        Progress::Pending(call) => Step::Call(call),
        Progress::Failed(e) => Step::Done(Err(e)),
        Progress::Complete => Step::Done(outcome),
    }
}

/// A message that ends with an error.
pub open spec fn fail<T, E>(e: E) -> Step<T, E> {
    Step::Done(Err(e))
}

/// How far `writes` have come; see [`progress`].
pub fn run_writes<E: Copy>(writes: &Vec<Write<E>>, replies: &Vec<Reply>, from: usize) -> (p:
    Progress<E>)
    ensures
        p == progress(writes@, replies@, from as nat, 0),
{
    let mut i: usize = 0;
    while i < writes.len()
        invariant
            i <= writes@.len(),
            i == 0 || from + i <= replies@.len(),
            progress(writes@, replies@, from as nat, 0) == progress(
                writes@,
                replies@,
                from as nat,
                i as nat,
            ),
        decreases writes@.len() - i,
    {
        if from >= replies.len() || i >= replies.len() - from {
            return Progress::Pending(writes[i].call);
        }
        if matches!(replies[from + i], Reply::Failed) {
            return Progress::Failed(writes[i].on_failure);
        }
        i = i + 1;
    }
    Progress::Complete
}

/// Makes `writes` in order and ends with `outcome`; see [`conclude`].
pub fn run_to_end<T, E: Copy>(
    writes: &Vec<Write<E>>,
    replies: &Vec<Reply>,
    from: usize,
    outcome: Result<T, E>,
) -> (step: Step<T, E>)
    ensures
        step == conclude(writes@, replies@, from as nat, outcome),
{
    match run_writes(writes, replies, from) {
        Progress::Pending(call) => Step::Call(call),
        Progress::Failed(e) => Step::Done(Err(e)),
        Progress::Complete => Step::Done(outcome),
    }
}

/// The amount in a reply; absent when the call failed.
pub open spec fn reply_amount(reply: Reply) -> Option<u64> {
    match reply {
        Reply::Amount(v) => Some(v),
        _ => None,
    }
}

/// The amount in a reply; see [`reply_amount`].
pub fn amount_in(reply: &Reply) -> (v: Option<u64>)
    ensures
        v == reply_amount(*reply),
{
    match reply {
        Reply::Amount(v) => Some(*v),
        _ => None,
    }
}

/// The stake record in a reply; absent when the call failed.
pub open spec fn reply_stake(reply: Reply) -> Option<Option<StakeInfo>> {
    match reply {
        Reply::Stake(info) => Some(info),
        _ => None,
    }
}

/// The stake record in a reply; see [`reply_stake`].
pub fn stake_in(reply: &Reply) -> (v: Option<Option<StakeInfo>>)
    ensures
        v == reply_stake(*reply),
{
    match reply {
        Reply::Stake(info) => Some(*info),
        _ => None,
    }
}

/// The writes all succeed exactly when each has a reply and none of those is a failure.
pub proof fn law_progress_complete<E>(writes: Seq<Write<E>>, replies: Seq<Reply>, from: nat, i: nat)
    requires
        i <= writes.len(),
    ensures
        progress(writes, replies, from, i) is Complete <==> forall|j: nat|
            i <= j < writes.len() ==> from + j < replies.len() && !(#[trigger] replies[(from
                + j) as int] is Failed),
    decreases writes.len() - i,
{
    if i < writes.len() {
        law_progress_complete(writes, replies, from, i + 1);
        if from + i < replies.len() && !(replies[(from + i) as int] is Failed) {
        } else {
            if forall|j: nat|
                i <= j < writes.len() ==> from + j < replies.len() && !(#[trigger] replies[(from
                    + j) as int] is Failed) {
                assert(!(replies[(from + i) as int] is Failed));
                assert(false);
            }
        }
    }
}

/// Writes are made in order, one after another: with `n` replies to them so far, none a failure,
/// the next is write `n`; a failure ends them with its own error; and they are complete once all
/// have been answered.
pub proof fn law_writes_run_in_order<T, E>(
    writes: Seq<Write<E>>,
    replies: Seq<Reply>,
    from: nat,
    outcome: Result<T, E>,
    n: nat,
)
    requires
        from + n <= replies.len(),
        n <= writes.len(),
        forall|j: int| from <= j < from + n ==> !(#[trigger] replies[j] is Failed),
    ensures
        n == writes.len() ==> conclude(writes, replies, from, outcome) == Step::Done(outcome),
        n < writes.len() && from + n == replies.len() ==> conclude(writes, replies, from, outcome)
            == Step::<T, E>::Call(writes[n as int].call),
        n < writes.len() && from + n < replies.len() && replies[(from + n) as int] is Failed
            ==> conclude(writes, replies, from, outcome) == Step::<T, E>::Done(
            Err(writes[n as int].on_failure),
        ),
{
    lemma_progress_skips(writes, replies, from, n, 0);
}

proof fn lemma_progress_skips<E>(
    writes: Seq<Write<E>>,
    replies: Seq<Reply>,
    from: nat,
    n: nat,
    i: nat,
)
    requires
        i <= n <= writes.len(),
        from + n <= replies.len(),
        forall|j: int| from <= j < from + n ==> !(#[trigger] replies[j] is Failed),
    ensures
        progress(writes, replies, from, i) == progress(writes, replies, from, n),
    decreases n - i,
{
    if i < n {
        assert(!(replies[(from + i) as int] is Failed));
        lemma_progress_skips(writes, replies, from, n, i + 1);
    }
}

/// A reply's amount or stake record is what it carries, and every other reply counts as a failure.
pub proof fn law_replies_carry_their_values(reply: Reply)
    ensures
        match reply {
            Reply::Amount(v) => reply_amount(reply) == Some(v) && reply_stake(reply) is None,
            Reply::Stake(info) => reply_stake(reply) == Some(info) && reply_amount(reply) is None,
            _ => reply_amount(reply) is None && reply_stake(reply) is None,
        },
{
}

} // verus!
