//! A stand-in for the chain, for tests of the contracts: one mock of the chain's stake functions
//! and the helpers that install it.
use vstd::prelude::*;
use crate::account::AccountId;
use crate::host::{
    Call, Reply, StakeAvailability, StakeInfo, EXTENSION_ID, FUNC_ALPHA_PRICE,
    FUNC_CALLER_TRANSFER_STAKE, FUNC_MOVE_STAKE, FUNC_REMOVE_STAKE, FUNC_STAKE_AVAILABILITY,
    FUNC_STAKE_INFO, FUNC_TRANSFER_STAKE,
};

verus! {

/// The call succeeded.
pub const STATUS_OK: u32 = 0;

/// A read failed.
pub const STATUS_READ_FAILED: u32 = 1;

/// A write failed.
pub const STATUS_WRITE_FAILED: u32 = 2;

/// The mocked alpha price: one alpha is one TAO.
pub const MOCK_ALPHA_PRICE: u64 = 1_000_000_000;

/// The accounts of the test environment.
#[derive(Debug, Clone, Copy, PartialEq, Eq)]
pub struct DefaultAccounts {
    pub alice: AccountId,
    pub bob: AccountId,
    pub charlie: AccountId,
    pub django: AccountId,
    pub eve: AccountId,
    pub frank: AccountId,
}

/// Whether an account repeats one byte.
pub open spec fn repeats(account: AccountId, byte: u8) -> bool {
    forall|i: int| 0 <= i < 32 ==> #[trigger] account.0@[i] == byte
}

/// The account that repeats one byte.
pub open spec fn account_of(byte: u8) -> AccountId {
    choose|account: AccountId| repeats(account, byte)
}

/// The account that repeats one byte.
pub fn repeated(byte: u8) -> (account: AccountId)
    ensures
        repeats(account, byte),
        account == account_of(byte),
{
    let account = AccountId([byte; 32]);
    proof {
        assert(repeats(account, byte));
        assert(account.0 =~= account_of(byte).0);
    }
    account
}

/// The accounts of the test environment: each repeats one byte, from `0x01` for `alice` on.
pub fn default_accounts() -> (a: DefaultAccounts)
    ensures
        a == (DefaultAccounts {
            alice: account_of(0x01),
            bob: account_of(0x02),
            charlie: account_of(0x03),
            django: account_of(0x04),
            eve: account_of(0x05),
            frank: account_of(0x06),
        }),
        repeats(a.alice, 0x01) && repeats(a.bob, 0x02) && repeats(a.charlie, 0x03),
        repeats(a.django, 0x04) && repeats(a.eve, 0x05) && repeats(a.frank, 0x06),
{
    DefaultAccounts {
        alice: repeated(0x01),
        bob: repeated(0x02),
        charlie: repeated(0x03),
        django: repeated(0x04),
        eve: repeated(0x05),
        frank: repeated(0x06),
    }
}

/// Mock of the chain's stake functions. Construct it with [`MockExtension::dispatch`] or
/// [`MockExtension::subnet_stake`], fine-tune it by its fields, and install it with
/// [`register_extension`].
#[derive(Debug, Clone, Copy, PartialEq, Eq)]
pub struct MockExtension {
    /// Alpha stake in the reported stake record; none for a missing record.
    pub stake: Option<u64>,
    /// `is_registered` of the reported record.
    pub is_registered: bool,
    /// Every call fails as a failed read.
    pub should_fail: bool,
    /// A transfer of the caller's stake fails as a failed write.
    pub transfer_fails: bool,
    /// `netuid` of the reported record.
    pub netuid: u16,
    /// Hotkey of the reported record.
    pub hotkey: AccountId,
    /// Coldkey of the reported record.
    pub coldkey: AccountId,
    /// Every function answers with the stake record.
    pub answers_any_func_id: bool,
}

/// What a call to the mock hands out.
#[derive(Debug, Clone, Copy, PartialEq, Eq)]
pub enum MockOutput {
    Nothing,
    StakeInfo(Option<StakeInfo>),
    AlphaPrice(u64),
    StakeAvailability(StakeAvailability),
}

/// The record that a mock reports.
pub open spec fn mock_record(m: MockExtension) -> Option<StakeInfo> {
    match m.stake {
        None => None,
        Some(stake) => Some(
            StakeInfo {
                hotkey: m.hotkey,
                coldkey: m.coldkey,
                netuid: m.netuid,
                stake,
                locked: 0,
                emission: 0,
                tao_emission: 0,
                drain: 0,
                is_registered: m.is_registered,
            },
        ),
    }
}

/// How a mock answers a function: the status and the output.
pub open spec fn mock_answer(m: MockExtension, func_id: u16) -> (u32, MockOutput) {
    let movable = match m.stake {
        Some(stake) => stake,
        None => 0,
    };
    if m.should_fail {
        (STATUS_READ_FAILED, MockOutput::Nothing)
    } else if m.answers_any_func_id || func_id == FUNC_STAKE_INFO {
        (STATUS_OK, MockOutput::StakeInfo(mock_record(m)))
    } else if func_id == FUNC_ALPHA_PRICE {
        (STATUS_OK, MockOutput::AlphaPrice(MOCK_ALPHA_PRICE))
    } else if func_id == FUNC_STAKE_AVAILABILITY {
        (
            STATUS_OK,
            MockOutput::StakeAvailability(
                StakeAvailability {
                    netuid: m.netuid,
                    total: movable,
                    locked: 0,
                    available: movable,
                },
            ),
        )
    } else if func_id == FUNC_REMOVE_STAKE || func_id == FUNC_MOVE_STAKE || func_id
        == FUNC_TRANSFER_STAKE {
        (STATUS_OK, MockOutput::Nothing)
    } else if func_id == FUNC_CALLER_TRANSFER_STAKE {
        if m.transfer_fails {
            (STATUS_WRITE_FAILED, MockOutput::Nothing)
        } else {
            (STATUS_OK, MockOutput::Nothing)
        }
    } else {
        (STATUS_READ_FAILED, MockOutput::Nothing)
    }
}

/// The mock that answers each function by its own rule: netuid 1, hotkey `bob`, coldkey `alice`,
/// registered.
pub open spec fn dispatch_mock(stake: Option<u64>) -> MockExtension {
    MockExtension {
        stake,
        is_registered: true,
        should_fail: false,
        transfer_fails: false,
        netuid: 1,
        hotkey: account_of(0x02),
        coldkey: account_of(0x01),
        answers_any_func_id: false,
    }
}

impl MockExtension {
    /// The mock that answers each function by its own rule; see [`dispatch_mock`].
    pub fn dispatch(stake: Option<u64>) -> (m: MockExtension)
        ensures
            m == dispatch_mock(stake),
    {
        let accounts = default_accounts();
        MockExtension {
            stake,
            is_registered: true,
            should_fail: false,
            transfer_fails: false,
            netuid: 1,
            hotkey: accounts.bob,
            coldkey: accounts.alice,
            answers_any_func_id: false,
        }
    }

    /// The mock that answers every function with the stake record: netuid 113, hotkey and coldkey
    /// `alice`, registered.
    pub fn subnet_stake(stake: Option<u64>) -> (m: MockExtension)
        ensures
            m == (MockExtension {
                stake,
                is_registered: true,
                should_fail: false,
                transfer_fails: false,
                netuid: 113,
                hotkey: account_of(0x01),
                coldkey: account_of(0x01),
                answers_any_func_id: true,
            }),
    {
        let accounts = default_accounts();
        MockExtension {
            stake,
            is_registered: true,
            should_fail: false,
            transfer_fails: false,
            netuid: 113,
            hotkey: accounts.alice,
            coldkey: accounts.alice,
            answers_any_func_id: true,
        }
    }

    /// Sets `is_registered` of the reported record.
    pub fn with_is_registered(self, value: bool) -> (m: MockExtension)
        ensures
            m == (MockExtension { is_registered: value, ..self }),
    {
        MockExtension { is_registered: value, ..self }
    }

    /// Sets whether every call fails as a failed read.
    pub fn with_should_fail(self, value: bool) -> (m: MockExtension)
        ensures
            m == (MockExtension { should_fail: value, ..self }),
    {
        MockExtension { should_fail: value, ..self }
    }

    /// Sets whether a transfer of the caller's stake fails as a failed write.
    pub fn with_transfer_fails(self, value: bool) -> (m: MockExtension)
        ensures
            m == (MockExtension { transfer_fails: value, ..self }),
    {
        MockExtension { transfer_fails: value, ..self }
    }

    fn stake_info(&self) -> (r: Option<StakeInfo>)
        ensures
            r == mock_record(*self),
    {
        match self.stake {
            None => None,
            Some(stake) => Some(
                StakeInfo {
                    hotkey: self.hotkey,
                    coldkey: self.coldkey,
                    netuid: self.netuid,
                    stake,
                    locked: 0,
                    emission: 0,
                    tao_emission: 0,
                    drain: 0,
                    is_registered: self.is_registered,
                },
            ),
        }
    }

    /// The identifier of the chain's extension.
    pub fn ext_id(&self) -> (id: u16)
        ensures
            id == EXTENSION_ID,
    {
        EXTENSION_ID
    }

    /// Answers a function with a status and an output; see [`mock_answer`].
    pub fn call(&self, func_id: u16) -> (r: (u32, MockOutput))
        ensures
            r == mock_answer(*self, func_id),
    {
        if self.should_fail {
            return (STATUS_READ_FAILED, MockOutput::Nothing);
        }
        if self.answers_any_func_id || func_id == FUNC_STAKE_INFO {
            return (STATUS_OK, MockOutput::StakeInfo(self.stake_info()));
        }
        if func_id == FUNC_ALPHA_PRICE {
            return (STATUS_OK, MockOutput::AlphaPrice(MOCK_ALPHA_PRICE));
        }
        if func_id == FUNC_STAKE_AVAILABILITY {
            let movable: u64 = match self.stake {
                Some(stake) => stake,
                None => 0,
            };
            return (
                STATUS_OK,
                MockOutput::StakeAvailability(
                    StakeAvailability {
                        netuid: self.netuid,
                        total: movable,
                        locked: 0,
                        available: movable,
                    },
                ),
            );
        }
        if func_id == FUNC_REMOVE_STAKE || func_id == FUNC_MOVE_STAKE || func_id
            == FUNC_TRANSFER_STAKE {
            return (STATUS_OK, MockOutput::Nothing);
        }
        if func_id == FUNC_CALLER_TRANSFER_STAKE {
            if self.transfer_fails {
                return (STATUS_WRITE_FAILED, MockOutput::Nothing);
            }
            return (STATUS_OK, MockOutput::Nothing);
        }
        (STATUS_READ_FAILED, MockOutput::Nothing)
    }
}

/// The test environment: who calls whom, and the chain's extension, if one is installed.
#[derive(Debug, Clone, Copy, PartialEq, Eq)]
pub struct TestEnvironment {
    pub caller: AccountId,
    pub callee: AccountId,
    pub extension: Option<MockExtension>,
}

/// The chain function behind a call, if it is one of the chain's stake functions.
pub open spec fn func_of(call: Call) -> Option<u16> {
    match call {
        Call::StakeInfo { .. } => Some(FUNC_STAKE_INFO),
        Call::AlphaPrice { .. } => Some(FUNC_ALPHA_PRICE),
        Call::RemoveStake { .. } => Some(FUNC_REMOVE_STAKE),
        Call::TransferStake { .. } => Some(FUNC_TRANSFER_STAKE),
        Call::CallerTransferStake { .. } => Some(FUNC_CALLER_TRANSFER_STAKE),
        _ => None,
    }
}

/// A status and an output as a contract receives them.
pub open spec fn as_reply(answer: (u32, MockOutput)) -> Reply {
    if answer.0 != STATUS_OK {
        Reply::Failed
    } else {
        match answer.1 {
            MockOutput::StakeInfo(info) => Reply::Stake(info),
            MockOutput::AlphaPrice(price) => Reply::Amount(price),
            _ => Reply::Done,
        }
    }
}

impl TestEnvironment {
    /// An environment in which `caller` calls `callee` and no extension is installed.
    pub fn new(caller: AccountId, callee: AccountId) -> (env: TestEnvironment)
        ensures
            env == (TestEnvironment { caller, callee, extension: None }),
    {
        TestEnvironment { caller, callee, extension: None }
    }

    /// The installed extension's reply to a call; none when the call is not one of the chain's
    /// stake functions or no extension is installed.
    pub fn reply(&self, call: &Call) -> (r: Option<Reply>)
        ensures
            r == (match (func_of(*call), self.extension) {
                (Some(func_id), Some(m)) => Some(as_reply(mock_answer(m, func_id))),
                _ => None,
            }),
    {
        let func_id: u16 = match call {
            Call::StakeInfo { .. } => FUNC_STAKE_INFO,
            Call::AlphaPrice { .. } => FUNC_ALPHA_PRICE,
            Call::RemoveStake { .. } => FUNC_REMOVE_STAKE,
            Call::TransferStake { .. } => FUNC_TRANSFER_STAKE,
            Call::CallerTransferStake { .. } => FUNC_CALLER_TRANSFER_STAKE,
            _ => {
                return None;
            },
        };
        match self.extension {
            None => None,
            Some(m) => {
                let (status, output): (u32, MockOutput) = m.call(func_id);
                if status != STATUS_OK {
                    return Some(Reply::Failed);
                }
                match output {
                    MockOutput::StakeInfo(info) => Some(Reply::Stake(info)),
                    MockOutput::AlphaPrice(price) => Some(Reply::Amount(price)),
                    _ => Some(Reply::Done),
                }
            },
        }
    }
}

/// Sets the caller.
pub fn set_caller(env: &mut TestEnvironment, caller: AccountId)
    ensures
        *final(env) == (TestEnvironment { caller, ..*old(env) }),
{
    env.caller = caller;
}

/// Installs a mock.
pub fn register_extension(env: &mut TestEnvironment, ext: MockExtension)
    ensures
        *final(env) == (TestEnvironment { extension: Some(ext), ..*old(env) }),
{
    env.extension = Some(ext);
}

/// Installs the dispatching mock with a stake.
pub fn register_mock(env: &mut TestEnvironment, stake: u64)
    ensures
        *final(env) == (TestEnvironment {
            extension: Some(dispatch_mock(Some(stake))),
            ..*old(env)
        }),
{
    register_extension(env, MockExtension::dispatch(Some(stake)));
}

/// Installs the dispatching mock without a stake record.
pub fn register_mock_no_stake(env: &mut TestEnvironment)
    ensures
        *final(env) == (TestEnvironment { extension: Some(dispatch_mock(None)), ..*old(env) }),
{
    register_extension(env, MockExtension::dispatch(None));
}

/// Installs the dispatching mock with a stake, where a transfer of the caller's stake fails.
pub fn register_mock_transfer_fails(env: &mut TestEnvironment, stake: u64)
    ensures
        *final(env) == (TestEnvironment {
            extension: Some(
                MockExtension { transfer_fails: true, ..dispatch_mock(Some(stake)) },
            ),
            ..*old(env)
        }),
{
    register_extension(env, MockExtension::dispatch(Some(stake)).with_transfer_fails(true));
}

/// Installs the dispatching mock where every call fails.
pub fn register_mock_chain_fails(env: &mut TestEnvironment)
    ensures
        *final(env) == (TestEnvironment {
            extension: Some(MockExtension { should_fail: true, ..dispatch_mock(Some(1_000)) }),
            ..*old(env)
        }),
{
    register_extension(env, MockExtension::dispatch(Some(1_000)).with_should_fail(true));
}

/// Only a transfer of the caller's stake tells the mock with failing transfers from the plain
/// one.
pub proof fn law_failing_transfers_only(stake: u64, func_id: u16)
    requires
        func_id != FUNC_CALLER_TRANSFER_STAKE,
    ensures
        mock_answer(
            (MockExtension { transfer_fails: true, ..dispatch_mock(Some(stake)) }),
            func_id,
        ) == mock_answer(dispatch_mock(Some(stake)), func_id),
{
}

/// What a contract under test gets back from a dispatching mock: its stake record for a read of
/// the stake, one TAO for the price of an alpha, and success for moving stake, but for the
/// caller's where transfers fail. A mock whose calls fail answers every call with a failure.
pub proof fn law_mock_replies(m: MockExtension, call: Call)
    requires
        func_of(call) is Some,
        !m.answers_any_func_id,
    ensures
        ({
            let reply = as_reply(mock_answer(m, func_of(call)->0));
            &&& m.should_fail ==> reply is Failed
            &&& !m.should_fail ==> match call {
                Call::StakeInfo { .. } => match m.stake {
                    None => reply == Reply::Stake(None),
                    Some(stake) => reply matches Reply::Stake(Some(info)) && {
                        &&& info.stake == stake
                        &&& info.locked == 0
                        &&& info.hotkey == m.hotkey && info.coldkey == m.coldkey
                        &&& info.netuid == m.netuid && info.is_registered == m.is_registered
                        &&& info.emission == 0 && info.tao_emission == 0 && info.drain == 0
                    },
                },
                Call::AlphaPrice { .. } => reply == Reply::Amount(1_000_000_000),
                Call::CallerTransferStake { .. } => if m.transfer_fails {
                    reply is Failed
                } else {
                    reply is Done
                },
                _ => reply is Done,
            }
        }),
        call is StakeInfo || call is AlphaPrice || call is RemoveStake || call is TransferStake
            || call is CallerTransferStake,
{
}

/// The chain's functions by their numbers, as a mock answers them: 0 reads a stake record, 15 the
/// alpha price, 36 how much can be moved; 2, 5 and 6 move stake of the contract and 25 that of the
/// caller. No other number is known. A mock may answer all numbers with its stake record.
pub proof fn law_mock_answers(m: MockExtension, func_id: u16)
    ensures
        ({
            let (status, output) = mock_answer(m, func_id);
            let movable = if m.stake is Some {
                m.stake->0
            } else {
                0
            };
            &&& m.should_fail ==> status == 1 && output is Nothing
            &&& !m.should_fail && (m.answers_any_func_id || func_id == 0) ==> status == 0
                && output is StakeInfo && output->StakeInfo_0 == mock_record(m)
            &&& !m.should_fail && !m.answers_any_func_id ==> {
                &&& func_id == 15 ==> status == 0 && output == MockOutput::AlphaPrice(1_000_000_000)
                &&& func_id == 36 ==> status == 0 && output == MockOutput::StakeAvailability(
                    StakeAvailability {
                        netuid: m.netuid,
                        total: movable,
                        locked: 0,
                        available: movable,
                    },
                )
                &&& func_id == 2 || func_id == 5 || func_id == 6 ==> status == 0 && output is Nothing
                &&& func_id == 25 ==> output is Nothing && status == if m.transfer_fails {
                    2u32
                } else {
                    0
                }
                &&& func_id != 0 && func_id != 2 && func_id != 5 && func_id != 6 && func_id != 15
                    && func_id != 25 && func_id != 36 ==> status == 1 && output is Nothing
            }
        }),
        func_of(Call::AlphaPrice { netuid: m.netuid }) == Some(15u16),
{
}

/// The dispatching mock reports a registered stake on subnet 1, of hotkey `bob` and coldkey
/// `alice`, and nothing fails.
pub proof fn law_dispatching_mock(stake: Option<u64>)
    ensures
        ({
            let m = dispatch_mock(stake);
            &&& m.stake == stake
            &&& m.is_registered && !m.should_fail && !m.transfer_fails && !m.answers_any_func_id
            &&& m.netuid == 1
            &&& m.hotkey == account_of(2)
            &&& m.coldkey == account_of(1)
        }),
{
}

} // verus!
