use grainlify::multisig::{MultiSig, MultiSigConfig, MultiSigError};
use grainlify::types::Address;

const A: Address = Address { id: 1 };
const B: Address = Address { id: 2 };
const C: Address = Address { id: 3 };
const OUTSIDER: Address = Address { id: 9 };

fn two_of_three() -> MultiSig {
    let mut ms = MultiSig::new();
    ms.init(vec![A, B, C], 2).unwrap();
    ms
}

#[test]
fn init_rejects_bad_thresholds() {
    let mut ms = MultiSig::new();
    assert_eq!(ms.init(vec![A, B], 0), Err(MultiSigError::InvalidThreshold));
    assert_eq!(ms.init(vec![A, B], 3), Err(MultiSigError::InvalidThreshold));
    assert!(ms.get_config_opt().is_none());
    ms.init(vec![A, B], 2).unwrap();
    assert_eq!(ms.get_config_opt().unwrap().threshold, 2);
}

#[test]
fn proposal_ids_count_up_from_one() {
    let mut ms = two_of_three();
    assert_eq!(ms.propose(A, 0), Ok(1));
    assert_eq!(ms.propose(B, 0), Ok(2));
    assert_eq!(ms.propose(OUTSIDER, 0), Err(MultiSigError::NotSigner));
}

#[test]
fn threshold_reached_after_enough_distinct_approvals() {
    let mut ms = two_of_three();
    let id = ms.propose(A, 0).unwrap();
    ms.approve(id, A, 10).unwrap();
    assert!(!ms.can_execute(id, 10));
    assert_eq!(ms.approve(id, A, 10), Err(MultiSigError::AlreadyApproved));
    assert_eq!(ms.approve(id, OUTSIDER, 10), Err(MultiSigError::NotSigner));
    ms.approve(id, B, 10).unwrap();
    assert!(ms.can_execute(id, 10));
    ms.mark_executed(id, 10).unwrap();
    assert!(!ms.can_execute(id, 10));
    assert_eq!(ms.mark_executed(id, 10), Err(MultiSigError::AlreadyExecuted));
    assert_eq!(ms.approve(id, C, 10), Err(MultiSigError::AlreadyExecuted));
}

#[test]
fn expiry_and_cancellation_block_execution() {
    let mut ms = two_of_three();
    let id = ms.propose(A, 100).unwrap();
    ms.approve(id, A, 10).unwrap();
    ms.approve(id, B, 10).unwrap();
    assert!(ms.can_execute(id, 99));
    assert!(!ms.is_expired(id, 99));
    assert!(ms.is_expired(id, 100));
    assert!(!ms.can_execute(id, 100));
    assert_eq!(ms.approve(id, C, 100), Err(MultiSigError::ProposalExpired));
    ms.cancel(id, C).unwrap();
    assert!(ms.is_cancelled(id));
    assert!(!ms.can_execute(id, 50));
    assert_eq!(ms.cancel(id, C), Err(MultiSigError::ProposalCancelled));
    assert_eq!(ms.mark_executed(id, 50), Err(MultiSigError::ThresholdNotMet));
}

#[test]
fn pause_blocks_execution_until_unpaused() {
    let mut ms = two_of_three();
    let id = ms.propose(A, 0).unwrap();
    ms.approve(id, A, 1).unwrap();
    ms.approve(id, B, 1).unwrap();
    assert_eq!(ms.pause(OUTSIDER), Err(MultiSigError::NotSigner));
    ms.pause(C).unwrap();
    assert!(ms.is_contract_paused());
    assert!(!ms.can_execute(id, 1));
    ms.unpause(A).unwrap();
    assert!(ms.can_execute(id, 1));
}

#[test]
fn inconsistent_configuration_blocks_execution() {
    let mut ms = two_of_three();
    let id = ms.propose(A, 0).unwrap();
    ms.approve(id, A, 1).unwrap();
    ms.approve(id, B, 1).unwrap();
    ms.config = Some(MultiSigConfig { signers: vec![A], threshold: 2 });
    assert!(ms.is_state_inconsistent());
    assert!(!ms.can_execute(id, 1));
    assert_eq!(ms.set_config(MultiSigConfig { signers: vec![A], threshold: 2 }), Err(MultiSigError::InvalidThreshold));
    ms.set_config(MultiSigConfig { signers: vec![A, B], threshold: 2 }).unwrap();
    assert!(!ms.is_state_inconsistent());
    ms.clear_config();
    assert!(ms.get_config_opt().is_none());
}

#[test]
fn unknown_proposals_are_reported() {
    let mut ms = two_of_three();
    assert!(ms.get_proposal_opt(5).is_none());
    assert_eq!(ms.approve(5, A, 0), Err(MultiSigError::ProposalNotFound));
    assert_eq!(ms.cancel(5, A), Err(MultiSigError::ProposalNotFound));
    assert_eq!(ms.mark_executed(5, 0), Err(MultiSigError::ProposalNotFound));
}
