use grainlify::types::Address;
use grainlify::view_facade::{DummyEscrow, EscrowStatus, BOUNTY_NOT_FOUND};

const DEPOSITOR: Address = Address { id: 5 };

#[test]
fn dummy_escrow_serves_two_bounties() {
    let escrow = DummyEscrow { depositor: DEPOSITOR };
    let one = escrow.get_escrow_info(1).unwrap();
    assert_eq!((one.amount, one.remaining_amount, one.status), (1000, 1000, EscrowStatus::Locked));
    assert_eq!(one.deadline, 123456789);
    let two = escrow.get_escrow_info(2).unwrap();
    assert_eq!((two.amount, two.remaining_amount, two.status), (500, 0, EscrowStatus::Released));
    assert_eq!(escrow.get_escrow_info(3), Err(BOUNTY_NOT_FOUND));
}

#[test]
fn dummy_escrow_metadata_and_pause_flags() {
    let escrow = DummyEscrow { depositor: DEPOSITOR };
    let meta = escrow.get_metadata(4).unwrap();
    assert_eq!(meta.repo_id, 42);
    assert_eq!(meta.issue_id, 40);
    assert_eq!(meta.bounty_type, "bug-bounty");
    let flags = escrow.get_pause_flags();
    assert!(!flags.lock_paused && !flags.release_paused && !flags.refund_paused);
}

#[test]
fn dummy_escrow_lists_one_escrow_per_depositor() {
    let escrow = DummyEscrow { depositor: DEPOSITOR };
    let user = Address { id: 77 };
    let list = escrow.query_escrows_by_depositor(user, 0, 10);
    assert_eq!(list.len(), 1);
    assert_eq!(list[0].bounty_id, 1);
    assert_eq!(list[0].escrow.depositor, user);
}
