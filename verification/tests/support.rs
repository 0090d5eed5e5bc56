use tusdt::account::AccountId;
use tusdt::host::{Call, Reply, StakeAvailability};
use tusdt::test_support::{
    default_accounts, register_extension, register_mock, register_mock_chain_fails,
    register_mock_no_stake, register_mock_transfer_fails, set_caller, MockExtension, MockOutput,
    TestEnvironment,
};

fn env() -> TestEnvironment {
    TestEnvironment::new(AccountId([1; 32]), AccountId([9; 32]))
}

#[test]
fn accounts_are_those_of_the_chain() {
    let ours = default_accounts();
    let chain = ink::env::test::default_accounts::<ink::env::DefaultEnvironment>();
    let bytes = |a: ink::primitives::AccountId| -> [u8; 32] { *a.as_ref() };
    assert_eq!(ours.alice.0, bytes(chain.alice));
    assert_eq!(ours.bob.0, bytes(chain.bob));
    assert_eq!(ours.charlie.0, bytes(chain.charlie));
    assert_eq!(ours.django.0, bytes(chain.django));
    assert_eq!(ours.eve.0, bytes(chain.eve));
    assert_eq!(ours.frank.0, bytes(chain.frank));
}

#[test]
fn dispatching_mock_answers_by_function() {
    let a = default_accounts();
    let m = MockExtension::dispatch(Some(10));
    assert_eq!(m.ext_id(), 0x1000);
    match m.call(0) {
        (0, MockOutput::StakeInfo(Some(info))) => {
            assert_eq!((info.stake, info.locked, info.netuid), (10, 0, 1));
            assert_eq!((info.hotkey, info.coldkey), (a.bob, a.alice));
            assert!(info.is_registered);
        }
        _ => unreachable!(),
    }
    assert_eq!(m.call(15), (0, MockOutput::AlphaPrice(1_000_000_000)));
    assert_eq!(
        m.call(36),
        (0, MockOutput::StakeAvailability(StakeAvailability { netuid: 1, total: 10, locked: 0, available: 10 }))
    );
    for write in [2, 5, 6, 25] {
        assert_eq!(m.call(write), (0, MockOutput::Nothing));
    }
    assert_eq!(m.call(7), (1, MockOutput::Nothing));
    assert_eq!(m.with_transfer_fails(true).call(25), (2, MockOutput::Nothing));
    assert_eq!(m.with_transfer_fails(true).call(6), (0, MockOutput::Nothing));
    assert_eq!(m.with_should_fail(true).call(0), (1, MockOutput::Nothing));
    assert_eq!(MockExtension::dispatch(None).call(0), (0, MockOutput::StakeInfo(None)));
}

#[test]
fn subnet_mock_answers_everything_with_the_record() {
    let a = default_accounts();
    let m = MockExtension::subnet_stake(Some(3)).with_is_registered(false);
    for func in [0, 15, 25, 999] {
        match m.call(func) {
            (0, MockOutput::StakeInfo(Some(info))) => {
                assert_eq!((info.netuid, info.hotkey, info.coldkey), (113, a.alice, a.alice));
                assert!(!info.is_registered);
            }
            _ => unreachable!(),
        }
    }
}

#[test]
fn registered_mocks_answer_calls() {
    let a = default_accounts();
    let mut env = env();
    let stake = Call::StakeInfo { hotkey: a.bob, coldkey: a.alice, netuid: 1 };
    let pull = Call::CallerTransferStake {
        destination: a.alice,
        hotkey: a.bob,
        origin_netuid: 1,
        destination_netuid: 1,
        amount: 1,
    };
    assert_eq!(env.reply(&stake), None);
    register_mock(&mut env, 5);
    assert!(matches!(env.reply(&stake), Some(Reply::Stake(Some(i))) if i.stake == 5));
    assert_eq!(env.reply(&pull), Some(Reply::Done));
    assert_eq!(env.reply(&Call::AlphaPrice { netuid: 1 }), Some(Reply::Amount(1_000_000_000)));
    assert_eq!(env.reply(&Call::NativeBalance), None);
    register_mock_no_stake(&mut env);
    assert_eq!(env.reply(&stake), Some(Reply::Stake(None)));
    register_mock_transfer_fails(&mut env, 5);
    assert_eq!(env.reply(&pull), Some(Reply::Failed));
    register_mock_chain_fails(&mut env);
    assert_eq!(env.reply(&stake), Some(Reply::Failed));
    assert_eq!(env.extension.unwrap().stake, Some(1_000));
    register_extension(&mut env, MockExtension::subnet_stake(None));
    assert_eq!(env.reply(&stake), Some(Reply::Stake(None)));
    set_caller(&mut env, a.frank);
    assert_eq!((env.caller, env.callee), (a.frank, AccountId([9; 32])));
}
