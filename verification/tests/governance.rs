use grainlify::governance::{
    Error, GovernanceConfig, GovernanceContract, ProposalStatus, VoteType, VotingScheme,
};
use grainlify::types::{Address, Symbol};

const ADMIN: Address = Address { id: 1 };
const USER: Address = Address { id: 2 };
const TOKEN: Address = Address { id: 3 };
const DESC: Symbol = Symbol { code: 0x7465_7374 };
const USER_BALANCE: i128 = 1000;

fn config(quorum: u32, stake: i128, scheme: VotingScheme) -> GovernanceConfig {
    GovernanceConfig {
        voting_period: 100,
        execution_delay: 10,
        quorum_percentage: quorum,
        approval_threshold: 5000,
        min_proposal_stake: stake,
        voting_scheme: scheme,
        governance_token: TOKEN,
    }
}

fn setup() -> GovernanceContract {
    let mut g = GovernanceContract::new();
    g.init_governance_state(ADMIN, config(1, 100, VotingScheme::OnePersonOneVote)).unwrap();
    g
}

fn propose(g: &mut GovernanceContract, now: u64) -> u32 {
    g.create_proposal(USER, [0u8; 32], DESC, now, Some(USER_BALANCE)).unwrap()
}

#[test]
fn test_create_proposal_with_stake() {
    let mut g = setup();
    let prop_id = propose(&mut g, 0);
    assert_eq!(prop_id, 0);
}

#[test]
fn test_edge_case_double_voting() {
    let mut g = setup();
    let prop_id = propose(&mut g, 0);
    g.cast_vote(USER, prop_id, VoteType::For, 0, Some(USER_BALANCE)).unwrap();
    let result = g.cast_vote(USER, prop_id, VoteType::For, 0, Some(USER_BALANCE));
    assert_eq!(result, Err(Error::AlreadyVoted));
}

#[test]
fn test_edge_case_voting_after_expiration() {
    let mut g = setup();
    let prop_id = propose(&mut g, 0);
    let result = g.cast_vote(USER, prop_id, VoteType::For, 200, Some(USER_BALANCE));
    assert_eq!(result, Err(Error::VotingEnded));
}

#[test]
fn test_finalize_and_execute() {
    let mut g = setup();
    let prop_id = propose(&mut g, 0);
    g.cast_vote(USER, prop_id, VoteType::For, 0, Some(USER_BALANCE)).unwrap();
    let status = g.finalize_proposal(prop_id, 150, true).unwrap();
    assert_eq!(status, ProposalStatus::Approved);
    let installed = g.execute_proposal(prop_id, 200).unwrap();
    assert_eq!(installed, None);
    assert_eq!(g.get_proposal(prop_id).unwrap().status, ProposalStatus::Executed);
}

#[test]
fn test_insufficient_stake() {
    let mut g = setup();
    let poor_user = Address { id: 9 };
    let result = g.create_proposal(poor_user, [0u8; 32], DESC, 0, Some(0));
    assert_eq!(result, Err(Error::InsufficientStake));
}

#[test]
fn test_token_weighted_voting() {
    let mut g = setup();
    g.init_governance_state(ADMIN, config(1, 0, VotingScheme::TokenWeighted)).unwrap();
    let voter1 = Address { id: 10 };
    let voter2 = Address { id: 11 };
    let prop_id = propose(&mut g, 0);
    g.cast_vote(voter1, prop_id, VoteType::For, 0, Some(1000)).unwrap();
    g.cast_vote(voter2, prop_id, VoteType::Against, 0, Some(500)).unwrap();
    let status = g.finalize_proposal(prop_id, 150, true).unwrap();
    assert_eq!(status, ProposalStatus::Approved);
}

#[test]
fn test_quorum_not_met() {
    let mut g = setup();
    g.init_governance_state(ADMIN, config(5000, 0, VotingScheme::OnePersonOneVote)).unwrap();
    let prop_id = propose(&mut g, 0);
    g.cast_vote(USER, prop_id, VoteType::For, 0, Some(USER_BALANCE)).unwrap();
    let status = g.finalize_proposal(prop_id, 150, true).unwrap();
    assert_eq!(status, ProposalStatus::Rejected);
}

#[test]
fn test_execution_delay_enforced() {
    let mut g = setup();
    let prop_id = propose(&mut g, 0);
    g.cast_vote(USER, prop_id, VoteType::For, 0, Some(USER_BALANCE)).unwrap();
    g.finalize_proposal(prop_id, 150, true).unwrap();
    let result = g.execute_proposal(prop_id, 105);
    assert_eq!(result, Err(Error::ExecutionDelayNotMet));
}

#[test]
fn test_stake_refund() {
    let mut g = setup();
    let initial_balance = 1000i128;
    let stake = 100i128;
    let prop_id = propose(&mut g, 0);
    let staked = g.get_proposal(prop_id).unwrap().stake_amount;
    let balance_after_stake = initial_balance - staked;
    assert_eq!(balance_after_stake, initial_balance - stake);
    g.cast_vote(USER, prop_id, VoteType::For, 0, Some(balance_after_stake)).unwrap();
    g.finalize_proposal(prop_id, 150, true).unwrap();
    let balance_after_refund = balance_after_stake + g.get_proposal(prop_id).unwrap().stake_amount;
    assert_eq!(balance_after_refund, initial_balance);
}

#[test]
fn governance_errors_before_initialisation() {
    let mut g = GovernanceContract::new();
    assert_eq!(g.get_config().unwrap_err(), Error::NotInitialized);
    assert_eq!(g.create_proposal(USER, [0u8; 32], DESC, 0, Some(1000)), Err(Error::NotInitialized));
    assert_eq!(g.cast_vote(USER, 0, VoteType::For, 0, Some(1)), Err(Error::ProposalsNotFound));
}

#[test]
fn governance_rejects_bad_thresholds() {
    let mut g = GovernanceContract::new();
    let mut c = config(1, 100, VotingScheme::OnePersonOneVote);
    c.approval_threshold = 4999;
    assert_eq!(g.init_governance_state(ADMIN, c), Err(Error::ThresholdTooLow));
    c.approval_threshold = 10001;
    assert_eq!(g.init_governance_state(ADMIN, c), Err(Error::InvalidThreshold));
    assert_eq!(g.get_config().unwrap_err(), Error::NotInitialized);
}

#[test]
fn governance_voting_window_and_finalize_timing() {
    let mut g = setup();
    let prop_id = propose(&mut g, 50);
    assert_eq!(g.finalize_proposal(prop_id, 100, true), Err(Error::VotingStillActive));
    assert_eq!(g.cast_vote(USER, 99, VoteType::For, 60, Some(1)), Err(Error::ProposalNotFound));
    assert_eq!(g.execute_proposal(prop_id, 500), Err(Error::ProposalNotApproved));
    let status = g.finalize_proposal(prop_id, 151, true).unwrap();
    assert_eq!(status, ProposalStatus::Rejected);
}

#[test]
fn governance_execute_returns_hash_to_install() {
    let mut g = setup();
    let hash = [7u8; 32];
    let prop_id = g.create_proposal(USER, hash, DESC, 0, Some(USER_BALANCE)).unwrap();
    g.cast_vote(USER, prop_id, VoteType::For, 10, Some(USER_BALANCE)).unwrap();
    g.finalize_proposal(prop_id, 101, true).unwrap();
    assert_eq!(g.execute_proposal(prop_id, 110), Ok(Some(hash)));
    assert_eq!(g.execute_proposal(prop_id, 111), Err(Error::ProposalNotApproved));
}

#[test]
fn governance_error_codes() {
    assert_eq!(Error::NotInitialized.code(), 1);
    assert_eq!(Error::AlreadyVoted.code(), 11);
    assert_eq!(Error::InsufficientBalance.code(), 15);
}

#[test]
fn governance_vote_timing_and_balance_errors() {
    let mut g = setup();
    let prop_id = propose(&mut g, 50);
    assert_eq!(g.create_proposal(USER, [0u8; 32], DESC, 0, None), Err(Error::InsufficientBalance));
    g.cast_vote(USER, prop_id, VoteType::Against, 60, Some(1)).unwrap();
    g.finalize_proposal(prop_id, 151, true).unwrap();
    assert_eq!(g.cast_vote(Address { id: 20 }, prop_id, VoteType::For, 60, Some(1)), Err(Error::ProposalNotActive));
}
