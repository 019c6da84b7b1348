use grainlify::claim_period::{
    cancel_claim, create_pending_claim, execute_claim, get_claim, get_claim_window, set_claim_window,
    ClaimError, ClaimStatus, DEFAULT_CLAIM_WINDOW,
};
use grainlify::program_escrow::{ProgramData, ProgramStore};
use grainlify::types::Address;

const ADMIN: Address = Address { id: 1 };
const PAYOUT_KEY: Address = Address { id: 2 };
const TOKEN: Address = Address { id: 3 };
const CONTRIBUTOR: Address = Address { id: 4 };
const STRANGER: Address = Address { id: 99 };
const NOW: u64 = 1_000_000;

fn program_id() -> String {
    "TestProgram2024".to_string()
}

fn setup() -> ProgramStore {
    let mut store = ProgramStore::new();
    store.program = Some(ProgramData {
        program_id: program_id(),
        total_funds: 500_000,
        remaining_balance: 500_000,
        authorized_payout_key: PAYOUT_KEY,
        payout_history: Vec::new(),
        token_address: TOKEN,
    });
    store.admin = Some(ADMIN);
    store
}

fn remaining(s: &ProgramStore) -> i128 {
    s.program.as_ref().unwrap().remaining_balance
}

#[test]
fn test_claim_within_window_succeeds() {
    let mut t = setup();
    let amount: i128 = 10_000;
    let claim_id = create_pending_claim(&mut t, &program_id(), CONTRIBUTOR, amount, NOW + 86_400, NOW).unwrap();
    let claim = get_claim(&t, &program_id(), claim_id);
    assert_eq!(claim.status, ClaimStatus::Pending);
    assert_eq!(claim.amount, amount);
    assert_eq!(claim.recipient, CONTRIBUTOR);
    execute_claim(&mut t, &program_id(), claim_id, CONTRIBUTOR, NOW + 21_600).unwrap();
    assert_eq!(get_claim(&t, &program_id(), claim_id).status, ClaimStatus::Completed);
    assert_eq!(remaining(&t), 500_000 - amount);
}

#[test]
fn test_claim_after_expiry_fails() {
    let mut t = setup();
    let claim_id = create_pending_claim(&mut t, &program_id(), CONTRIBUTOR, 5_000, NOW + 3_600, NOW).unwrap();
    assert_eq!(get_claim(&t, &program_id(), claim_id).status, ClaimStatus::Pending);
    assert_eq!(
        execute_claim(&mut t, &program_id(), claim_id, CONTRIBUTOR, NOW + 7_200),
        Err(ClaimError::Expired)
    );
}

#[test]
fn test_admin_cancel_pending_claim_restores_escrow() {
    let mut t = setup();
    let amount: i128 = 8_000;
    let claim_id = create_pending_claim(&mut t, &program_id(), CONTRIBUTOR, amount, NOW + 86_400, NOW).unwrap();
    let balance_after_create = remaining(&t);
    cancel_claim(&mut t, &program_id(), claim_id, ADMIN).unwrap();
    assert_eq!(remaining(&t), balance_after_create + amount);
    assert_eq!(get_claim(&t, &program_id(), claim_id).status, ClaimStatus::Cancelled);
}

#[test]
fn test_admin_cancel_expired_claim_succeeds() {
    let mut t = setup();
    let amount: i128 = 3_000;
    let claim_id = create_pending_claim(&mut t, &program_id(), CONTRIBUTOR, amount, NOW + 3_600, NOW).unwrap();
    let balance_before = remaining(&t);
    cancel_claim(&mut t, &program_id(), claim_id, ADMIN).unwrap();
    assert_eq!(remaining(&t), balance_before + amount);
    assert_eq!(get_claim(&t, &program_id(), claim_id).status, ClaimStatus::Cancelled);
}

#[test]
fn test_non_admin_cannot_cancel_claim() {
    let mut t = setup();
    let claim_id = create_pending_claim(&mut t, &program_id(), CONTRIBUTOR, 5_000, NOW + 86_400, NOW).unwrap();
    assert_eq!(cancel_claim(&mut t, &program_id(), claim_id, STRANGER), Err(ClaimError::Unauthorized));
}

#[test]
fn test_cannot_double_claim() {
    let mut t = setup();
    let claim_id = create_pending_claim(&mut t, &program_id(), CONTRIBUTOR, 10_000, NOW + 86_400, NOW).unwrap();
    execute_claim(&mut t, &program_id(), claim_id, CONTRIBUTOR, NOW).unwrap();
    assert_eq!(
        execute_claim(&mut t, &program_id(), claim_id, CONTRIBUTOR, NOW),
        Err(ClaimError::AlreadyProcessed)
    );
}

#[test]
fn test_cannot_execute_cancelled_claim() {
    let mut t = setup();
    let claim_id = create_pending_claim(&mut t, &program_id(), CONTRIBUTOR, 5_000, NOW + 86_400, NOW).unwrap();
    cancel_claim(&mut t, &program_id(), claim_id, ADMIN).unwrap();
    assert_eq!(
        execute_claim(&mut t, &program_id(), claim_id, CONTRIBUTOR, NOW),
        Err(ClaimError::AlreadyProcessed)
    );
}

#[test]
fn test_wrong_recipient_cannot_execute_claim() {
    let mut t = setup();
    let claim_id = create_pending_claim(&mut t, &program_id(), CONTRIBUTOR, 5_000, NOW + 86_400, NOW).unwrap();
    assert_eq!(execute_claim(&mut t, &program_id(), claim_id, STRANGER, NOW), Err(ClaimError::NotRecipient));
}

#[test]
fn claim_creation_refusals() {
    let mut t = setup();
    assert_eq!(
        create_pending_claim(&mut t, &program_id(), CONTRIBUTOR, 0, NOW + 10, NOW),
        Err(ClaimError::InvalidAmount)
    );
    assert_eq!(
        create_pending_claim(&mut t, &program_id(), CONTRIBUTOR, 600_000, NOW + 10, NOW),
        Err(ClaimError::InsufficientBalance)
    );
    assert_eq!(
        create_pending_claim(&mut t, &program_id(), CONTRIBUTOR, 10, NOW, NOW),
        Err(ClaimError::DeadlineNotInFuture)
    );
    assert_eq!(remaining(&t), 500_000);
    let mut empty = ProgramStore::new();
    assert_eq!(
        create_pending_claim(&mut empty, &program_id(), CONTRIBUTOR, 10, NOW + 10, NOW),
        Err(ClaimError::ProgramNotInitialized)
    );
}

#[test]
fn claim_ids_increase_and_unknown_claims_are_missing() {
    let mut t = setup();
    let a = create_pending_claim(&mut t, &program_id(), CONTRIBUTOR, 1, NOW + 10, NOW).unwrap();
    let b = create_pending_claim(&mut t, &program_id(), CONTRIBUTOR, 1, NOW + 10, NOW).unwrap();
    assert_eq!(b, a + 1);
    assert_eq!(cancel_claim(&mut t, &program_id(), 999, ADMIN), Err(ClaimError::ClaimNotFound));
}

#[test]
fn claim_window_defaults_and_admin_only() {
    let mut t = setup();
    assert_eq!(get_claim_window(&t), DEFAULT_CLAIM_WINDOW);
    assert_eq!(set_claim_window(&mut t, STRANGER, 3_600), Err(ClaimError::Unauthorized));
    set_claim_window(&mut t, ADMIN, 3_600).unwrap();
    assert_eq!(get_claim_window(&t), 3_600);
    let mut no_admin = ProgramStore::new();
    assert_eq!(set_claim_window(&mut no_admin, ADMIN, 3_600), Err(ClaimError::NotInitialized));
}
