use tusdt::account::AccountId;
use tusdt::calendar::day_of_month;
use tusdt::governance::{
    Error, Event, GovernanceParams, Proposal, ProposalKind, ProposalStatus, Snapshot,
    TusdtGovernance,
};
use tusdt::host::{Call, Context, Reply, StakeInfo, Step};
use tusdt::merkle::{hash_pair, leaf_hash, verify_merkle_proof};
use tusdt::peers::{Fund, PriceData, TokenKind};
use tusdt::ratio::Ratio;
use tusdt::test_support::{
    default_accounts, register_extension, set_caller, DefaultAccounts, MockExtension,
    TestEnvironment,
};
use tusdt::vault_alpha::VaultContractParamsConfig;
use tusdt::voting::{integer_sqrt, voting_power};

/// Above the default floor, so that submission is allowed unless a test overrides it.
const STAKE_ABOVE_FLOOR: u64 = 2_000_000_000_000;

const MS_PER_DAY: u64 = 86_400_000;

/// The `day`-th of January 1970.
fn ts_for_day(day: u64) -> u64 {
    (day - 1) * MS_PER_DAY
}

/// The 15th, inside the default submission window.
const IN_WINDOW_TS: u64 = 14 * MS_PER_DAY;

/// Governance with a clock and a chain around it.
struct World {
    gov: TusdtGovernance,
    env: TestEnvironment,
    now: u64,
}

impl World {
    fn ctx(&self) -> Context {
        Context {
            caller: self.env.caller,
            contract: self.env.callee,
            now: self.now,
            transferred_value: 0,
        }
    }

    fn register_stake(&mut self, stake: Option<u64>) {
        register_extension(&mut self.env, MockExtension::subnet_stake(stake));
    }

    fn submit_proposal(&mut self, cid: String, kind: ProposalKind, hotkey: AccountId) -> Result<u64, Error> {
        let ctx = self.ctx();
        let mut replies: Vec<Reply> = Vec::new();
        loop {
            match self.gov.submit_proposal(&ctx, cid.clone(), kind, hotkey, &replies) {
                Step::Done(r) => return r,
                Step::Call(call) => replies.push(self.env.reply(&call).unwrap()),
            }
        }
    }

    fn submit_snapshot(&mut self, root: [u8; 32], supply: u128, block: u32) -> Result<u64, Error> {
        let ctx = self.ctx();
        self.gov.submit_snapshot(&ctx, root, supply, block)
    }

    fn update_params(&mut self, params: GovernanceParams) -> Result<(), Error> {
        let ctx = self.ctx();
        self.gov.update_params(&ctx, params)
    }

    fn vote(&mut self, id: u64, hotkey: AccountId, support: bool, balance: u128, multiplier: u32, proof: Vec<[u8; 32]>) -> Result<(), Error> {
        let ctx = self.ctx();
        self.gov.vote(&ctx, id, hotkey, support, balance, multiplier, proof)
    }

    fn finalize(&mut self, id: u64) -> Result<(), Error> {
        let ctx = self.ctx();
        self.gov.finalize(&ctx, id)
    }

    fn execute(&mut self, id: u64, treasury: Reply) -> (Result<(), Error>, Vec<Call>) {
        let mut replies: Vec<Reply> = Vec::new();
        let mut calls: Vec<Call> = Vec::new();
        loop {
            match self.gov.execute(id, &replies) {
                Step::Done(r) => return (r, calls),
                Step::Call(call) => {
                    calls.push(call);
                    replies.push(treasury);
                }
            }
        }
    }

    fn set_council(&mut self, members: Vec<AccountId>) -> Result<(), Error> {
        let ctx = self.ctx();
        self.gov.set_council(&ctx, members)
    }

    fn set_maintainer(&mut self, account: AccountId) -> Result<(), Error> {
        let ctx = self.ctx();
        self.gov.set_maintainer(&ctx, account)
    }

    /// A snapshot whose tree holds exactly one leaf, so that the root is the leaf.
    fn submit_single_leaf_snapshot(&mut self, coldkey: AccountId, hotkey: AccountId, balance: u128, multiplier: u32, supply: u128) -> u64 {
        let root = leaf_hash(coldkey, hotkey, balance, multiplier);
        self.submit_snapshot(root, supply, 0).expect("snapshot ok")
    }

    fn set_proposer_stake_floor(&mut self, floor: u128) {
        let mut p = GovernanceParams::default_params();
        p.min_proposer_stake = floor;
        self.update_params(p).expect("update ok");
    }

    fn proposal(&self, id: u64) -> Proposal {
        self.gov.get_proposal(id).unwrap()
    }
}

/// Governance without a snapshot. The maintainer is alice, and the council is complete without
/// frank.
fn make_governance_no_snapshot() -> (World, DefaultAccounts) {
    let accounts = default_accounts();
    let contract = AccountId([0x10; 32]);
    let gov = TusdtGovernance::new(
        accounts.django,
        AccountId([0x20; 32]),
        AccountId([0x21; 32]),
        AccountId([0x22; 32]),
        accounts.alice,
    );
    let mut world = World {
        gov,
        env: TestEnvironment::new(accounts.alice, contract),
        now: IN_WINDOW_TS,
    };
    world.register_stake(Some(STAKE_ABOVE_FLOOR));
    world
        .set_council(vec![
            accounts.alice,
            accounts.bob,
            accounts.charlie,
            accounts.django,
            accounts.eve,
        ])
        .expect("set council");
    (world, accounts)
}

/// Governance with an empty snapshot, so that proposals can be submitted.
fn make_governance() -> (World, DefaultAccounts) {
    let (mut world, accounts) = make_governance_no_snapshot();
    world.submit_snapshot([0u8; 32], 0, 0).expect("snapshot ok");
    (world, accounts)
}

fn bafy() -> String {
    String::from("bafy")
}

#[test]
fn constructor_sets_maintainer_and_defaults() {
    let (world, accounts) = make_governance_no_snapshot();
    let gov = &world.gov;
    assert_eq!(gov.maintainer(), accounts.alice);
    assert_eq!(gov.council().len(), 5);
    assert!(gov.is_council(accounts.alice));
    assert!(!gov.is_council(accounts.frank));
    assert_eq!(gov.proposal_count(), 0);
    let p = gov.params();
    assert_eq!(p.netuid, 113);
    assert_eq!(p.voting_period_ms, 48 * 60 * 60 * 1_000);
    assert_eq!(p.approval_bps, 5_001);
    assert_eq!(p.quorum_bps, 2_000);
    assert_eq!(p.min_proposer_stake, 1_000_000_000_000);
    assert_eq!(p.submission_open_day, 5);
    assert_eq!(p.submission_close_day, 25);
    assert_eq!(gov.current_epoch(), 0);
    assert!(gov.get_snapshot(1).is_none());
    assert_eq!(gov.quorum(1), 0);
    assert_eq!(gov.treasury(), accounts.django);
}

#[test]
fn council_is_empty_at_the_start() {
    let a = default_accounts();
    let gov = TusdtGovernance::new(a.bob, a.bob, a.bob, a.bob, a.alice);
    assert!(gov.council().is_empty());
    assert!(!gov.is_council(a.alice));
}

#[test]
fn submit_proposal_rejects_without_snapshot() {
    let (mut world, accounts) = make_governance_no_snapshot();
    let res = world.submit_proposal(bafy(), ProposalKind::NonFunding, accounts.bob);
    assert_eq!(res, Err(Error::NoSnapshot));
}

#[test]
fn submit_proposal_rejects_empty_cid() {
    let (mut world, accounts) = make_governance();
    let res = world.submit_proposal(String::new(), ProposalKind::NonFunding, accounts.bob);
    assert!(matches!(res, Err(_)));
    assert_eq!(res, Err(Error::InvalidCid));
}

#[test]
fn submit_proposal_rejects_oversized_cid() {
    let (mut world, accounts) = make_governance();
    let long_cid = String::from_utf8(vec![b'a'; 97]).unwrap();
    let res = world.submit_proposal(long_cid, ProposalKind::NonFunding, accounts.bob);
    assert!(matches!(res, Err(_)));
    assert_eq!(res, Err(Error::InvalidCid));
}

#[test]
fn cid_length_counts_bytes() {
    let (mut world, accounts) = make_governance();
    // 96 bytes are accepted; 49 two-byte characters are 98 bytes.
    let exact = String::from_utf8(vec![b'a'; 96]).unwrap();
    assert_eq!(world.submit_proposal(exact, ProposalKind::NonFunding, accounts.bob), Ok(1));
    let wide = "é".repeat(49);
    assert_eq!(
        world.submit_proposal(wide, ProposalKind::NonFunding, accounts.bob),
        Err(Error::InvalidCid)
    );
}

#[test]
fn submit_proposal_rejects_zero_amount_funding() {
    let (mut world, accounts) = make_governance();
    let res = world.submit_proposal(
        String::from("bafy..."),
        ProposalKind::Funding {
            fund: Fund::Operation,
            token_kind: TokenKind::Tusdt,
            amount: 0,
            recipient: accounts.bob,
        },
        accounts.bob,
    );
    assert!(matches!(res, Err(_)));
    assert_eq!(res, Err(Error::InvalidAmount));
}

#[test]
fn submit_proposal_happy_path_increments_count() {
    let (mut world, accounts) = make_governance();
    let id = world
        .submit_proposal(String::from("bafy-cid-1"), ProposalKind::NonFunding, accounts.bob)
        .expect("submit ok");
    assert_eq!(id, 1);
    assert_eq!(world.gov.proposal_count(), 1);
    let p = world.gov.get_proposal(1).expect("proposal stored");
    assert_eq!(p.id, 1);
    assert_eq!(p.status, ProposalStatus::Active);
    assert_eq!(p.yes, 0);
    assert_eq!(p.no, 0);
    assert_eq!(p.cid, "bafy-cid-1");
    assert_eq!(p.voting_ends_at, IN_WINDOW_TS + 48 * 60 * 60 * 1_000);

    let id2 = world
        .submit_proposal(String::from("bafy-cid-2"), ProposalKind::NonFunding, accounts.bob)
        .expect("submit ok");
    assert_eq!(id2, 2);
    assert_eq!(world.gov.proposal_count(), 2);
}

#[test]
fn submit_proposal_rejects_stake_at_or_below_floor() {
    let (mut world, accounts) = make_governance();
    world.set_proposer_stake_floor(1_000);

    // Exactly at the floor is not above it.
    world.register_stake(Some(1_000));
    let res = world.submit_proposal(bafy(), ProposalKind::NonFunding, accounts.bob);
    assert_eq!(res, Err(Error::InsufficientStake));

    world.register_stake(Some(999));
    let res = world.submit_proposal(bafy(), ProposalKind::NonFunding, accounts.bob);
    assert_eq!(res, Err(Error::InsufficientStake));

    assert_eq!(world.gov.proposal_count(), 0);
}

#[test]
fn submit_proposal_rejects_when_no_stake_record() {
    let (mut world, accounts) = make_governance();
    world.register_stake(None);
    let res = world.submit_proposal(bafy(), ProposalKind::NonFunding, accounts.bob);
    assert_eq!(res, Err(Error::NoStake));
    assert_eq!(world.gov.proposal_count(), 0);
}

#[test]
fn submit_proposal_reports_a_failed_stake_read() {
    let (mut world, accounts) = make_governance();
    register_extension(
        &mut world.env,
        MockExtension::subnet_stake(Some(STAKE_ABOVE_FLOOR)).with_should_fail(true),
    );
    let res = world.submit_proposal(bafy(), ProposalKind::NonFunding, accounts.bob);
    assert_eq!(res, Err(Error::StakeQueryFailed));
}

#[test]
fn submit_proposal_asks_for_the_stake_of_the_caller() {
    let (mut world, accounts) = make_governance();
    let ctx = world.ctx();
    let step = world.gov.submit_proposal(&ctx, bafy(), ProposalKind::NonFunding, accounts.bob, &vec![]);
    assert_eq!(
        step,
        Step::Call(Call::StakeInfo { hotkey: accounts.bob, coldkey: accounts.alice, netuid: 113 })
    );
    assert_eq!(world.gov.proposal_count(), 0);
}

#[test]
fn submit_proposal_rejects_a_deadline_beyond_time() {
    let (mut world, accounts) = make_governance();
    let mut p = GovernanceParams::default_params();
    p.voting_period_ms = u64::MAX;
    world.update_params(p).unwrap();
    let res = world.submit_proposal(bafy(), ProposalKind::NonFunding, accounts.bob);
    assert_eq!(res, Err(Error::ArithmeticError));
}

#[test]
fn submit_proposal_allows_stake_just_above_floor() {
    let (mut world, accounts) = make_governance();
    world.set_proposer_stake_floor(1_000);
    world.register_stake(Some(1_001));
    let id = world
        .submit_proposal(bafy(), ProposalKind::NonFunding, accounts.bob)
        .expect("submit ok");
    assert_eq!(id, 1);
    assert_eq!(world.gov.proposal_count(), 1);
}

#[test]
fn update_params_changes_proposer_stake_floor() {
    let (mut world, accounts) = make_governance();

    world.register_stake(Some(5_000));
    let res = world.submit_proposal(bafy(), ProposalKind::NonFunding, accounts.bob);
    assert_eq!(res, Err(Error::InsufficientStake));

    world.set_proposer_stake_floor(1_000);
    let id = world
        .submit_proposal(bafy(), ProposalKind::NonFunding, accounts.bob)
        .expect("submit ok");
    assert_eq!(id, 1);
}

#[test]
fn submit_proposal_rejects_before_window_opens() {
    let (mut world, accounts) = make_governance();
    world.now = ts_for_day(4);
    let res = world.submit_proposal(bafy(), ProposalKind::NonFunding, accounts.bob);
    assert_eq!(res, Err(Error::OutsideSubmissionWindow));
    assert_eq!(world.gov.proposal_count(), 0);
}

#[test]
fn submit_proposal_rejects_after_window_closes() {
    let (mut world, accounts) = make_governance();
    world.now = ts_for_day(26);
    let res = world.submit_proposal(bafy(), ProposalKind::NonFunding, accounts.bob);
    assert_eq!(res, Err(Error::OutsideSubmissionWindow));
    assert_eq!(world.gov.proposal_count(), 0);
}

#[test]
fn submit_proposal_allows_on_window_boundaries() {
    let (mut world, accounts) = make_governance();

    world.now = ts_for_day(5);
    world
        .submit_proposal(bafy(), ProposalKind::NonFunding, accounts.bob)
        .expect("5th accepted");

    world.now = ts_for_day(25);
    world
        .submit_proposal(bafy(), ProposalKind::NonFunding, accounts.bob)
        .expect("25th accepted");

    assert_eq!(world.gov.proposal_count(), 2);
}

#[test]
fn update_params_rejects_invalid_submission_window() {
    let (mut world, _) = make_governance();

    let mut bad = GovernanceParams::default_params();
    bad.submission_open_day = 0;
    assert_eq!(world.update_params(bad), Err(Error::InvalidParams));

    let mut bad = GovernanceParams::default_params();
    bad.submission_open_day = 20;
    bad.submission_close_day = 10;
    assert_eq!(world.update_params(bad), Err(Error::InvalidParams));

    let mut bad = GovernanceParams::default_params();
    bad.submission_close_day = 29;
    assert_eq!(world.update_params(bad), Err(Error::InvalidParams));
}

#[test]
fn submit_proposal_respects_updated_window() {
    let (mut world, accounts) = make_governance();

    let mut p = GovernanceParams::default_params();
    p.submission_open_day = 10;
    p.submission_close_day = 12;
    world.update_params(p).expect("update ok");

    world.now = ts_for_day(15);
    let res = world.submit_proposal(bafy(), ProposalKind::NonFunding, accounts.bob);
    assert_eq!(res, Err(Error::OutsideSubmissionWindow));

    world.now = ts_for_day(11);
    world
        .submit_proposal(bafy(), ProposalKind::NonFunding, accounts.bob)
        .expect("11th accepted");
    assert_eq!(world.gov.proposal_count(), 1);
}

#[test]
fn day_of_month_matches_known_dates() {
    // 1970-01-01.
    assert_eq!(day_of_month(0), 1);
    // 2021-01-01.
    assert_eq!(day_of_month(1_609_459_200_000), 1);
    // 2020-02-29.
    assert_eq!(day_of_month(1_582_934_400_000), 29);
    // 2024-12-31.
    assert_eq!(day_of_month(1_735_603_200_000), 31);
    // Mid-day on the 15th.
    assert_eq!(day_of_month(ts_for_day(15) + 12 * 60 * 60 * 1_000), 15);
}

#[test]
fn day_of_month_walks_through_whole_years() {
    let mut day: u64 = 0;
    for year in 1970u64..2405 {
        let leap = year % 4 == 0 && (year % 100 != 0 || year % 400 == 0);
        for month in 1..13 {
            let length: u8 = match month {
                2 => if leap { 29 } else { 28 },
                4 | 6 | 9 | 11 => 30,
                _ => 31,
            };
            for expected in 1..=length {
                assert_eq!(day_of_month(day * MS_PER_DAY), expected);
                assert_eq!(day_of_month(day * MS_PER_DAY + MS_PER_DAY - 1), expected);
                day += 1;
            }
        }
    }
}

#[test]
fn integer_sqrt_floors_correctly() {
    assert_eq!(integer_sqrt(0), 0);
    assert_eq!(integer_sqrt(1), 1);
    assert_eq!(integer_sqrt(2), 1);
    assert_eq!(integer_sqrt(3), 1);
    assert_eq!(integer_sqrt(4), 2);
    assert_eq!(integer_sqrt(8), 2);
    assert_eq!(integer_sqrt(9), 3);
    assert_eq!(integer_sqrt(1_000_000), 1_000);
    assert_eq!(integer_sqrt(4_000_000_000_000), 2_000_000);
    let big = (u64::MAX as u128) * (u64::MAX as u128);
    assert_eq!(integer_sqrt(big), u64::MAX as u128);
    assert_eq!(integer_sqrt(big - 1), u64::MAX as u128 - 1);
    assert_eq!(integer_sqrt(u128::MAX), u64::MAX as u128);
}

#[test]
fn voting_power_grows_with_balance_and_multiplier() {
    assert_eq!(voting_power(4_000_000_000_000, 10_000), Ok(2_000_000));
    assert_eq!(voting_power(4_000_000_000_000, 5_000), Ok(1_000_000));
    assert_eq!(voting_power(3_999_999_999_999, 10_000), Ok(1_999_999));
    assert_eq!(voting_power(0, 10_000), Ok(0));
    assert_eq!(voting_power(u128::MAX, u32::MAX), Ok(u64::MAX as u128 * u32::MAX as u128 / 10_000));
}

#[test]
fn leaf_and_pair_hashes_match_the_chain() {
    let accounts = default_accounts();
    let mut expected = [0u8; 32];
    ink::env::hash_encoded::<ink::env::hash::Blake2x256, _>(
        &(
            ink::primitives::AccountId::from(accounts.alice.0),
            ink::primitives::AccountId::from(accounts.bob.0),
            4_000_000_000_001u128,
            8_000u32,
        ),
        &mut expected,
    );
    let leaf = leaf_hash(accounts.alice, accounts.bob, 4_000_000_000_001, 8_000);
    assert_eq!(leaf, expected);

    let other = [0xffu8; 32];
    let mut input = [0u8; 64];
    input[..32].copy_from_slice(&leaf);
    input[32..].copy_from_slice(&other);
    let mut pair = [0u8; 32];
    ink::env::hash_bytes::<ink::env::hash::Blake2x256>(&input, &mut pair);
    assert_eq!(hash_pair(leaf, other), pair);
    assert_eq!(hash_pair(other, leaf), pair);
    assert_ne!(pair, leaf);
}

#[test]
fn pairs_are_sorted_at_the_first_difference() {
    let mut a = [7u8; 32];
    let mut b = [7u8; 32];
    a[31] = 1;
    b[31] = 2;
    let mut input = [0u8; 64];
    input[..32].copy_from_slice(&a);
    input[32..].copy_from_slice(&b);
    let mut expected = [0u8; 32];
    ink::env::hash_bytes::<ink::env::hash::Blake2x256>(&input, &mut expected);
    assert_eq!(hash_pair(b, a), expected);
}

#[test]
fn every_leaf_of_a_tree_is_provable() {
    let leaves: Vec<[u8; 32]> = (0u8..4).map(|i| leaf_hash(AccountId([i; 32]), AccountId([9; 32]), i as u128, 10_000)).collect();
    let left = hash_pair(leaves[0], leaves[1]);
    let right = hash_pair(leaves[2], leaves[3]);
    let root = hash_pair(left, right);
    assert!(verify_merkle_proof(&[leaves[1], right], root, leaves[0]));
    assert!(verify_merkle_proof(&[leaves[0], right], root, leaves[1]));
    assert!(verify_merkle_proof(&[leaves[3], left], root, leaves[2]));
    assert!(verify_merkle_proof(&[leaves[2], left], root, leaves[3]));
    assert!(!verify_merkle_proof(&[leaves[2], left], root, leaves[0]));
    assert!(!verify_merkle_proof(&[], root, leaves[0]));
    assert!(verify_merkle_proof(&[], root, root));
}

#[test]
fn vote_weight_is_sqrt_of_balance() {
    let (mut world, accounts) = make_governance();
    let balance = 4_000_000_000_000;
    world.submit_single_leaf_snapshot(accounts.alice, accounts.bob, balance, 10_000, 0);
    let id = world
        .submit_proposal(bafy(), ProposalKind::NonFunding, accounts.bob)
        .expect("submit ok");

    world
        .vote(id, accounts.bob, true, balance, 10_000, Vec::new())
        .expect("vote ok");

    let proposal = world.proposal(id);
    assert_eq!(proposal.yes, 2_000_000);
    assert_eq!(proposal.no, 0);
}

#[test]
fn vote_weight_applies_time_staked_multiplier() {
    let (mut world, accounts) = make_governance();
    let balance = 4_000_000_000_000;
    world.submit_single_leaf_snapshot(accounts.alice, accounts.bob, balance, 8_000, 0);
    let id = world
        .submit_proposal(bafy(), ProposalKind::NonFunding, accounts.bob)
        .expect("submit ok");

    world
        .vote(id, accounts.bob, true, balance, 8_000, Vec::new())
        .expect("vote ok");

    assert_eq!(world.proposal(id).yes, 1_600_000);
}

#[test]
fn vote_rejects_invalid_proof() {
    let (mut world, accounts) = make_governance();
    let balance = 4_000_000_000_000;
    world.submit_single_leaf_snapshot(accounts.alice, accounts.bob, balance, 10_000, 0);
    let id = world
        .submit_proposal(bafy(), ProposalKind::NonFunding, accounts.bob)
        .expect("submit ok");

    let res = world.vote(id, accounts.bob, true, balance * 2, 10_000, Vec::new());
    assert_eq!(res, Err(Error::InvalidProof));
    assert_eq!(world.proposal(id).yes, 0);
}

#[test]
fn vote_verifies_multi_leaf_proof() {
    let (mut world, accounts) = make_governance();

    let balance = 4_000_000_000_000;
    let leaf_voter = leaf_hash(accounts.alice, accounts.bob, balance, 10_000);
    let leaf_other = leaf_hash(accounts.charlie, accounts.eve, 1_000_000, 10_000);
    let root = hash_pair(leaf_voter, leaf_other);
    world.submit_snapshot(root, 0, 0).expect("snapshot ok");

    let id = world
        .submit_proposal(bafy(), ProposalKind::NonFunding, accounts.bob)
        .expect("submit ok");

    world
        .vote(id, accounts.bob, true, balance, 10_000, vec![leaf_other])
        .expect("vote ok");
    assert_eq!(world.proposal(id).yes, 2_000_000);
}

#[test]
fn vote_rejects_double_vote_for_same_pair() {
    let (mut world, accounts) = make_governance();

    let balance = 4_000_000_000_000;
    world.submit_single_leaf_snapshot(accounts.alice, accounts.bob, balance, 10_000, 0);
    let id = world
        .submit_proposal(bafy(), ProposalKind::NonFunding, accounts.bob)
        .expect("submit ok");

    assert!(!world.gov.has_voted(id, accounts.alice, accounts.bob));
    world
        .vote(id, accounts.bob, true, balance, 10_000, Vec::new())
        .expect("vote ok");
    assert!(world.gov.has_voted(id, accounts.alice, accounts.bob));
    assert_eq!(
        world.vote(id, accounts.bob, false, balance, 10_000, Vec::new()),
        Err(Error::AlreadyVoted)
    );
}

#[test]
fn votes_of_several_pairs_add_up() {
    let (mut world, accounts) = make_governance();
    let leaf_a = leaf_hash(accounts.alice, accounts.bob, 4_000_000, 10_000);
    let leaf_c = leaf_hash(accounts.charlie, accounts.bob, 9_000_000, 5_000);
    world.submit_snapshot(hash_pair(leaf_a, leaf_c), 0, 0).unwrap();
    let id = world.submit_proposal(bafy(), ProposalKind::NonFunding, accounts.bob).unwrap();

    world.vote(id, accounts.bob, true, 4_000_000, 10_000, vec![leaf_c]).unwrap();
    set_caller(&mut world.env, accounts.charlie);
    world.vote(id, accounts.bob, false, 9_000_000, 5_000, vec![leaf_a]).unwrap();

    let p = world.proposal(id);
    assert_eq!((p.yes, p.no, p.voted_balance), (2_000, 1_500, 13_000_000));
}

#[test]
fn vote_rejects_unknown_closed_and_powerless() {
    let (mut world, accounts) = make_governance();
    assert_eq!(
        world.vote(9, accounts.bob, true, 1, 10_000, Vec::new()),
        Err(Error::ProposalNotFound)
    );

    world.submit_single_leaf_snapshot(accounts.alice, accounts.bob, 1, 5_000, 0);
    let id = world.submit_proposal(bafy(), ProposalKind::NonFunding, accounts.bob).unwrap();
    // sqrt(1) at half weight rounds down to nothing.
    assert_eq!(
        world.vote(id, accounts.bob, true, 1, 5_000, Vec::new()),
        Err(Error::NoStake)
    );

    world.now = world.proposal(id).voting_ends_at;
    assert_eq!(
        world.vote(id, accounts.bob, true, 1, 5_000, Vec::new()),
        Err(Error::VotingClosed)
    );
    world.finalize(id).unwrap();
    assert_eq!(
        world.vote(id, accounts.bob, true, 1, 5_000, Vec::new()),
        Err(Error::ProposalNotActive)
    );
    assert_eq!(world.finalize(id), Err(Error::ProposalNotActive));
    assert_eq!(world.finalize(77), Err(Error::ProposalNotFound));
}

#[test]
fn tallies_do_not_wrap() {
    let (mut world, accounts) = make_governance();
    let leaf_a = leaf_hash(accounts.alice, accounts.bob, u128::MAX, 10_000);
    let leaf_c = leaf_hash(accounts.charlie, accounts.bob, 4, 10_000);
    world.submit_snapshot(hash_pair(leaf_a, leaf_c), 0, 0).unwrap();
    let id = world.submit_proposal(bafy(), ProposalKind::NonFunding, accounts.bob).unwrap();
    world.vote(id, accounts.bob, true, u128::MAX, 10_000, vec![leaf_c]).unwrap();
    set_caller(&mut world.env, accounts.charlie);
    assert_eq!(
        world.vote(id, accounts.bob, true, 4, 10_000, vec![leaf_a]),
        Err(Error::ArithmeticError)
    );
    assert!(!world.gov.has_voted(id, accounts.charlie, accounts.bob));
}

#[test]
fn update_params_rejects_non_maintainer() {
    let (mut world, accounts) = make_governance();
    // A council member is not the maintainer.
    set_caller(&mut world.env, accounts.bob);
    assert_eq!(
        world.update_params(GovernanceParams::default_params()),
        Err(Error::NotMaintainer)
    );
}

#[test]
fn update_params_rejects_invalid_approval_bps() {
    let (mut world, _) = make_governance();
    let mut bad = GovernanceParams::default_params();
    bad.approval_bps = 0;
    assert!(world.update_params(bad).is_err());

    let mut bad = GovernanceParams::default_params();
    bad.approval_bps = 10_001;
    assert!(world.update_params(bad).is_err());
}

#[test]
fn update_params_rejects_zero_voting_period() {
    let (mut world, _) = make_governance();
    let mut bad = GovernanceParams::default_params();
    bad.voting_period_ms = 0;
    assert!(world.update_params(bad).is_err());
}

#[test]
fn update_params_happy_path() {
    let (mut world, _) = make_governance();
    let mut p = GovernanceParams::default_params();
    p.netuid = 42;
    p.quorum_bps = 3_000;
    p.approval_bps = 6_667;
    p.voting_period_ms = 60 * 1_000;
    world.update_params(p).expect("update ok");
    assert_eq!(world.gov.params().netuid, 42);
    assert_eq!(world.gov.params().quorum_bps, 3_000);
    assert_eq!(world.gov.params().approval_bps, 6_667);
    assert_eq!(world.gov.params().voting_period_ms, 60 * 1_000);
}

#[test]
fn finalize_before_voting_ends_fails() {
    let (mut world, accounts) = make_governance();
    let id = world
        .submit_proposal(bafy(), ProposalKind::NonFunding, accounts.bob)
        .unwrap();
    assert!(world.finalize(id).is_err());
    assert_eq!(world.finalize(id), Err(Error::VotingStillOpen));
}

#[test]
fn execute_on_non_passed_fails() {
    let (mut world, accounts) = make_governance();
    let id = world
        .submit_proposal(bafy(), ProposalKind::NonFunding, accounts.bob)
        .unwrap();
    assert!(world.execute(id, Reply::Done).0.is_err());
    assert_eq!(world.execute(id, Reply::Done).0, Err(Error::NotPassed));
    assert_eq!(world.execute(99, Reply::Done).0, Err(Error::ProposalNotFound));
}

#[test]
fn finalize_rejects_when_quorum_not_met() {
    let (mut world, accounts) = make_governance();
    let mut p = GovernanceParams::default_params();
    p.voting_period_ms = 1;
    world.update_params(p).expect("update ok");
    let epoch = world.submit_snapshot([0u8; 32], 100, 0).expect("snapshot ok");
    assert_eq!(world.gov.quorum(epoch), 20);

    let id = world
        .submit_proposal(bafy(), ProposalKind::NonFunding, accounts.bob)
        .unwrap();

    world.now += 12;

    world.finalize(id).expect("finalize ok");
    assert_eq!(world.proposal(id).status, ProposalStatus::Rejected);
}

#[test]
fn quorum_is_20_percent_of_circulating_supply_by_default() {
    let (mut world, _) = make_governance();
    let epoch = world
        .submit_snapshot([0u8; 32], 1_000_000, 0)
        .expect("snapshot ok");
    assert_eq!(
        world.gov.get_snapshot(epoch).unwrap().circulating_supply,
        1_000_000
    );
    assert_eq!(world.gov.quorum(epoch), 200_000);
}

#[test]
fn quorum_saturates_for_a_huge_supply() {
    let (mut world, _) = make_governance();
    let epoch = world.submit_snapshot([0u8; 32], u128::MAX, 0).unwrap();
    assert_eq!(world.gov.quorum(epoch), u128::MAX / 10_000);
}

#[test]
fn submit_snapshot_rejects_non_council() {
    let (mut world, accounts) = make_governance();
    let epoch_before = world.gov.current_epoch();
    set_caller(&mut world.env, accounts.frank);
    assert_eq!(
        world.submit_snapshot([0u8; 32], 1_000_000, 0),
        Err(Error::NotCouncil)
    );
    assert_eq!(world.gov.current_epoch(), epoch_before);
}

#[test]
fn snapshots_are_numbered_and_kept() {
    let (mut world, _) = make_governance();
    assert_eq!(world.submit_snapshot([1u8; 32], 10, 5), Ok(2));
    assert_eq!(world.submit_snapshot([2u8; 32], 20, 6), Ok(3));
    assert_eq!(
        world.gov.get_snapshot(2),
        Some(Snapshot { root: [1u8; 32], circulating_supply: 10, snapshot_block: 5 })
    );
    assert_eq!(world.gov.current_epoch(), 3);
}

#[test]
fn a_later_snapshot_leaves_running_votes_alone() {
    let (mut world, accounts) = make_governance();
    world.submit_single_leaf_snapshot(accounts.alice, accounts.bob, 100, 10_000, 0);
    let id = world.submit_proposal(bafy(), ProposalKind::NonFunding, accounts.bob).unwrap();
    world.submit_snapshot([3u8; 32], 1_000_000, 0).unwrap();
    world.vote(id, accounts.bob, true, 100, 10_000, Vec::new()).unwrap();
    assert_eq!(world.proposal(id).yes, 10);
    assert_eq!(world.proposal(id).snapshot_epoch, 2);
}

#[test]
fn update_params_rejects_invalid_quorum_bps() {
    let (mut world, _) = make_governance();
    let mut bad = GovernanceParams::default_params();
    bad.quorum_bps = 10_001;
    assert_eq!(world.update_params(bad), Err(Error::InvalidParams));
}

#[test]
fn finalize_passes_when_quorum_met() {
    let (mut world, accounts) = make_governance();
    let mut p = GovernanceParams::default_params();
    p.voting_period_ms = 1;
    world.update_params(p).expect("update ok");

    let balance = 4_000_000_000_000;
    let epoch = world.submit_single_leaf_snapshot(accounts.alice, accounts.bob, balance, 10_000, 1_000_000);
    assert!(world.gov.quorum(epoch) < balance);

    let id = world
        .submit_proposal(bafy(), ProposalKind::NonFunding, accounts.bob)
        .unwrap();
    world
        .vote(id, accounts.bob, true, balance, 10_000, Vec::new())
        .expect("vote ok");

    world.now += 12;

    world.finalize(id).expect("finalize ok");
    let proposal = world.proposal(id);
    assert_eq!(proposal.status, ProposalStatus::Passed);
    assert_eq!(proposal.voted_balance, balance);
}

#[test]
fn finalize_rejects_when_voted_balance_below_quorum() {
    let (mut world, accounts) = make_governance();
    let mut p = GovernanceParams::default_params();
    p.voting_period_ms = 1;
    world.update_params(p).expect("update ok");

    let balance = 1_000_000;
    let epoch = world.submit_single_leaf_snapshot(accounts.alice, accounts.bob, balance, 10_000, 100_000_000);
    assert_eq!(world.gov.quorum(epoch), 20_000_000);

    let id = world
        .submit_proposal(bafy(), ProposalKind::NonFunding, accounts.bob)
        .unwrap();
    world
        .vote(id, accounts.bob, true, balance, 10_000, Vec::new())
        .expect("vote ok");

    world.now += 12;

    world.finalize(id).expect("finalize ok");
    let proposal = world.proposal(id);
    assert_eq!(proposal.status, ProposalStatus::Rejected);
    assert_eq!(proposal.voted_balance, balance);
}

#[test]
fn approval_needs_its_share_of_power() {
    let (mut world, accounts) = make_governance();
    // Equal power on both sides is 5_000 basis points, one short of the default approval.
    let leaf_a = leaf_hash(accounts.alice, accounts.bob, 10_000, 10_000);
    let leaf_c = leaf_hash(accounts.charlie, accounts.bob, 10_000, 10_000);
    world.submit_snapshot(hash_pair(leaf_a, leaf_c), 0, 0).unwrap();
    let id = world.submit_proposal(bafy(), ProposalKind::NonFunding, accounts.bob).unwrap();
    world.vote(id, accounts.bob, true, 10_000, 10_000, vec![leaf_c]).unwrap();
    set_caller(&mut world.env, accounts.charlie);
    world.vote(id, accounts.bob, false, 10_000, 10_000, vec![leaf_a]).unwrap();
    world.now = world.proposal(id).voting_ends_at;
    world.finalize(id).unwrap();
    assert_eq!(world.proposal(id).status, ProposalStatus::Rejected);
}

/// A passed Funding proposal.
fn passed_funding() -> (World, DefaultAccounts, u64) {
    let (mut world, accounts) = make_governance();
    world.submit_single_leaf_snapshot(accounts.alice, accounts.bob, 100, 10_000, 100);
    let kind = ProposalKind::Funding {
        fund: Fund::Operation,
        token_kind: TokenKind::Native,
        amount: 77,
        recipient: accounts.eve,
    };
    let id = world.submit_proposal(bafy(), kind, accounts.bob).unwrap();
    world.vote(id, accounts.bob, true, 100, 10_000, Vec::new()).unwrap();
    world.now = world.proposal(id).voting_ends_at;
    world.finalize(id).unwrap();
    (world, accounts, id)
}

#[test]
fn execution_releases_once() {
    let (mut world, accounts, id) = passed_funding();
    let (result, calls) = world.execute(id, Reply::Done);
    assert_eq!(result, Ok(()));
    assert_eq!(
        calls,
        vec![Call::TreasuryRelease {
            treasury: accounts.django,
            fund: Fund::Operation,
            token_kind: TokenKind::Native,
            amount: 77,
            recipient: accounts.eve,
        }]
    );
    assert_eq!(world.proposal(id).status, ProposalStatus::Executed);
    let (again, calls) = world.execute(id, Reply::Done);
    assert_eq!(again, Err(Error::AlreadyExecuted));
    assert!(calls.is_empty());
}

#[test]
fn refused_release_can_be_retried() {
    let (mut world, _, id) = passed_funding();
    assert_eq!(world.execute(id, Reply::Failed).0, Err(Error::TreasuryCallFailed));
    assert_eq!(world.proposal(id).status, ProposalStatus::Passed);
    assert_eq!(world.execute(id, Reply::Done).0, Ok(()));
}

#[test]
fn events_tell_a_proposals_life() {
    let (mut world, accounts, id) = passed_funding();
    world.execute(id, Reply::Done).0.unwrap();
    let events = world.gov.take_events();
    assert_eq!(events.len(), 6);
    assert!(matches!(events[0], Event::SnapshotSubmitted(e) if e.epoch == 1));
    assert!(matches!(events[2], Event::ProposalSubmitted(e) if e.proposal_id == id && e.proposer == accounts.alice));
    assert!(matches!(events[3], Event::Voted(e) if e.weight == 10 && e.support && e.coldkey == accounts.alice));
    assert!(matches!(events[4], Event::ProposalFinalized(e) if e.status == ProposalStatus::Passed && e.yes == 10));
    assert!(matches!(events[5], Event::ProposalExecuted(e) if e.proposal_id == id));
    assert!(world.gov.take_events().is_empty());
}

#[test]
fn set_maintainer_transfers_role() {
    let (mut world, accounts) = make_governance();
    world.set_maintainer(accounts.bob).expect("transfer ok");
    assert_eq!(world.gov.maintainer(), accounts.bob);

    set_caller(&mut world.env, accounts.alice);
    assert_eq!(
        world.update_params(GovernanceParams::default_params()),
        Err(Error::NotMaintainer)
    );
    set_caller(&mut world.env, accounts.bob);
    world
        .update_params(GovernanceParams::default_params())
        .expect("update ok");
}

#[test]
fn set_maintainer_rejects_non_maintainer() {
    let (mut world, accounts) = make_governance();
    set_caller(&mut world.env, accounts.bob);
    assert_eq!(world.set_maintainer(accounts.bob), Err(Error::NotMaintainer));
    assert_eq!(world.gov.maintainer(), accounts.alice);
}

#[test]
fn set_council_replaces_membership() {
    let (mut world, accounts) = make_governance();
    world
        .set_council(vec![
            accounts.bob,
            accounts.charlie,
            accounts.django,
            accounts.eve,
            accounts.frank,
        ])
        .expect("set council ok");
    assert!(!world.gov.is_council(accounts.alice));
    assert!(world.gov.is_council(accounts.frank));
    assert_eq!(world.gov.council().len(), 5);
}

#[test]
fn set_council_rejects_non_maintainer() {
    let (mut world, accounts) = make_governance();
    set_caller(&mut world.env, accounts.bob);
    assert_eq!(
        world.set_council(vec![
            accounts.bob,
            accounts.charlie,
            accounts.django,
            accounts.eve,
            accounts.frank,
        ]),
        Err(Error::NotMaintainer)
    );
}

#[test]
fn set_council_rejects_wrong_size() {
    let (mut world, accounts) = make_governance();
    assert_eq!(
        world.set_council(vec![accounts.bob, accounts.charlie]),
        Err(Error::InvalidCouncil)
    );
}

#[test]
fn set_council_rejects_duplicates() {
    let (mut world, accounts) = make_governance();
    assert_eq!(
        world.set_council(vec![
            accounts.bob,
            accounts.bob,
            accounts.charlie,
            accounts.django,
            accounts.eve,
        ]),
        Err(Error::InvalidCouncil)
    );
}

#[test]
fn forwarders_call_only_for_their_role() {
    let (mut world, accounts) = make_governance();
    let none: Vec<Reply> = Vec::new();
    let vault = AccountId([0x20; 32]);
    let auction = AccountId([0x21; 32]);
    let oracle = AccountId([0x22; 32]);
    let params = VaultContractParamsConfig {
        collateral_ratio: 15_000,
        liquidation_ratio: 12_000,
        interest_rate: 500,
        liquidation_fee: 100,
    };
    let ctx = world.ctx();
    let gov = &world.gov;
    assert_eq!(
        gov.forward_vault_set_contract_params(&ctx, 3, params, &none),
        Step::Call(Call::VaultSetContractParams { vault, netuid: 3, params })
    );
    assert_eq!(
        gov.forward_vault_cancel_contract_params_update(&ctx, 3, &none),
        Step::Call(Call::VaultCancelContractParamsUpdate { vault, netuid: 3 })
    );
    assert_eq!(
        gov.forward_vault_update_treasury(&ctx, accounts.eve, &none),
        Step::Call(Call::VaultUpdateTreasury { vault, treasury: accounts.eve })
    );
    assert_eq!(
        gov.forward_vault_update_platform(&ctx, accounts.eve, &none),
        Step::Call(Call::VaultUpdatePlatform { vault, platform: accounts.eve })
    );
    assert_eq!(gov.forward_vault_unpause(&ctx, &none), Step::Call(Call::VaultUnpause { vault }));
    assert_eq!(
        gov.forward_vault_claim_excess_alpha(&ctx, 3, &none),
        Step::Call(Call::VaultClaimExcessAlpha { vault, netuid: 3 })
    );
    assert_eq!(
        gov.forward_oracle_set_validator(&ctx, None, &none),
        Step::Call(Call::OracleSetValidator { oracle, validator: None })
    );
    assert_eq!(
        gov.forward_oracle_set_max_price_deviation(&ctx, Ratio::one(), &none),
        Step::Call(Call::OracleSetMaxPriceDeviation { oracle, deviation: Ratio::one() })
    );
    assert_eq!(
        gov.forward_oracle_set_netuid(&ctx, 3, &none),
        Step::Call(Call::OracleSetNetuid { oracle, netuid: 3 })
    );
    assert_eq!(
        gov.forward_oracle_set_min_submitter_stake(&ctx, 9, &none),
        Step::Call(Call::OracleSetMinSubmitterStake { oracle, min_stake: 9 })
    );
    assert_eq!(
        gov.forward_auction_set_admin(&ctx, Some(accounts.eve), &none),
        Step::Call(Call::AuctionSetAdmin { auction, admin: Some(accounts.eve) })
    );
    // What the other contracts refuse becomes an error of this one.
    assert_eq!(
        gov.forward_vault_unpause(&ctx, &vec![Reply::Failed]),
        Step::Done(Err(Error::VaultCallFailed))
    );
    assert_eq!(
        gov.forward_oracle_set_netuid(&ctx, 3, &vec![Reply::Failed]),
        Step::Done(Err(Error::OracleCallFailed))
    );
    assert_eq!(
        gov.forward_auction_set_admin(&ctx, None, &vec![Reply::Failed]),
        Step::Done(Err(Error::AuctionCallFailed))
    );
    assert_eq!(gov.forward_vault_unpause(&ctx, &vec![Reply::Done]), Step::Done(Ok(())));

    // A council member halts the vault but does not resume it; an outsider does neither.
    set_caller(&mut world.env, accounts.bob);
    let ctx = world.ctx();
    assert_eq!(world.gov.forward_vault_pause(&ctx, &none), Step::Call(Call::VaultPause { vault }));
    assert_eq!(
        world.gov.forward_vault_unpause(&ctx, &none),
        Step::Done(Err(Error::NotMaintainer))
    );
    set_caller(&mut world.env, accounts.frank);
    let ctx = world.ctx();
    assert_eq!(
        world.gov.forward_vault_pause(&ctx, &none),
        Step::Done(Err(Error::NotCouncil))
    );
}

#[test]
fn emergency_price_is_handed_back() {
    let (world, _) = make_governance();
    let ctx = world.ctx();
    let oracle = AccountId([0x22; 32]);
    let price = Ratio::from_basis_points(20_000);
    assert_eq!(
        world.gov.forward_oracle_commit_round(&ctx, price, &vec![]),
        Step::Call(Call::OracleCommitRound { oracle, price })
    );
    let data = PriceData { price, committed_at: 5 };
    assert_eq!(
        world.gov.forward_oracle_commit_round(&ctx, price, &vec![Reply::Committed(data)]),
        Step::Done(Ok(data))
    );
    assert_eq!(
        world.gov.forward_oracle_commit_round(&ctx, price, &vec![Reply::Failed]),
        Step::Done(Err(Error::OracleCallFailed))
    );
}

#[test]
fn stake_reply_is_read_exactly() {
    let a = default_accounts();
    let info = StakeInfo {
        hotkey: a.alice,
        coldkey: a.bob,
        netuid: 113,
        stake: 5,
        locked: 4,
        emission: 3,
        tao_emission: 2,
        drain: 1,
        is_registered: false,
    };
    assert_eq!(tusdt::governance::read_stake_weight(&Reply::Stake(Some(info))), Ok(5));
    assert_eq!(tusdt::governance::read_stake_weight(&Reply::Stake(None)), Err(Error::NoStake));
    assert_eq!(tusdt::governance::read_stake_weight(&Reply::Failed), Err(Error::StakeQueryFailed));
}

#[test]
fn exhausted_numbers_are_refused() {
    let (mut world, accounts) = make_governance();
    world.gov.proposal_count = u64::MAX;
    assert_eq!(
        world.submit_proposal(bafy(), ProposalKind::NonFunding, accounts.bob),
        Err(Error::ArithmeticError)
    );
    world.gov.current_epoch = u64::MAX;
    assert_eq!(world.submit_snapshot([1; 32], 1, 1), Err(Error::ArithmeticError));
    assert_eq!(world.gov.current_epoch(), u64::MAX);
}

#[test]
fn a_missing_snapshot_blocks_votes() {
    let (mut world, accounts) = make_governance();
    let id = world.submit_proposal(bafy(), ProposalKind::NonFunding, accounts.bob).unwrap();
    let epoch = world.proposal(id).snapshot_epoch;
    world.gov.snapshots.remove(&epoch);
    assert_eq!(
        world.vote(id, accounts.bob, true, 100, 10_000, vec![]),
        Err(Error::NoSnapshot)
    );
}

#[test]
fn tallies_are_the_sums_of_accepted_votes_whatever_comes_between() {
    let (mut world, accounts) = make_governance();
    let leaf_a = leaf_hash(accounts.alice, accounts.bob, 4_000_000, 10_000);
    let leaf_c = leaf_hash(accounts.charlie, accounts.bob, 9_000_000, 5_000);
    world.submit_snapshot(hash_pair(leaf_a, leaf_c), 13_000_000, 0).unwrap();
    let first = world.submit_proposal(bafy(), ProposalKind::NonFunding, accounts.bob).unwrap();
    let second = world.submit_proposal(bafy(), ProposalKind::NonFunding, accounts.bob).unwrap();
    let tally = |world: &World, id: u64| {
        let p = world.proposal(id);
        (p.yes, p.no, p.voted_balance)
    };

    world.vote(first, accounts.bob, true, 4_000_000, 10_000, vec![leaf_c]).unwrap();
    world.submit_snapshot([9; 32], 1, 1).unwrap();
    world.set_proposer_stake_floor(5);
    assert_eq!(
        world.vote(first, accounts.bob, false, 4_000_000, 10_000, vec![leaf_c]),
        Err(Error::AlreadyVoted)
    );
    assert_eq!(
        world.vote(second, accounts.bob, false, 4_000_001, 10_000, vec![leaf_c]),
        Err(Error::InvalidProof)
    );
    world.vote(second, accounts.bob, false, 4_000_000, 10_000, vec![leaf_c]).unwrap();
    let third = world.submit_proposal(bafy(), ProposalKind::NonFunding, accounts.bob).unwrap();
    world.set_maintainer(accounts.eve).unwrap();
    set_caller(&mut world.env, accounts.charlie);
    world.vote(first, accounts.bob, false, 9_000_000, 5_000, vec![leaf_a]).unwrap();

    assert_eq!(tally(&world, first), (2_000, 1_500, 13_000_000));
    assert_eq!(tally(&world, second), (0, 2_000, 4_000_000));
    assert_eq!(tally(&world, third), (0, 0, 0));
    assert!(world.gov.has_voted(second, accounts.alice, accounts.bob));
    assert!(!world.gov.has_voted(second, accounts.charlie, accounts.bob));

    world.now = world.proposal(first).voting_ends_at;
    world.finalize(first).unwrap();
    world.execute(first, Reply::Done).0.unwrap();
    world.finalize(second).unwrap();
    assert_eq!(tally(&world, first), (2_000, 1_500, 13_000_000));
    assert_eq!(tally(&world, second), (0, 2_000, 4_000_000));
}
