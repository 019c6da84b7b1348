use grainlify::payout_splits::{
    disable_split_config, execute_split_payout, get_split_config, preview_split, set_split_config,
    BeneficiarySplit, SplitError, TOTAL_BASIS_POINTS,
};
use grainlify::program_escrow::{ProgramData, ProgramStore};
use grainlify::types::Address;

const ADMIN: Address = Address { id: 1 };
const PAYOUT_KEY: Address = Address { id: 2 };
const TOKEN: Address = Address { id: 3 };
const R1: Address = Address { id: 11 };
const R2: Address = Address { id: 12 };
const R3: Address = Address { id: 13 };

fn program_id() -> String {
    "TestProgram".to_string()
}

fn setup(remaining_balance: i128) -> ProgramStore {
    let mut store = ProgramStore::new();
    store.admin = Some(ADMIN);
    store.program = Some(ProgramData {
        program_id: program_id(),
        total_funds: remaining_balance,
        remaining_balance,
        authorized_payout_key: PAYOUT_KEY,
        payout_history: Vec::new(),
        token_address: TOKEN,
    });
    store
}

fn ben(recipient: Address, share_bps: i128) -> BeneficiarySplit {
    BeneficiarySplit { recipient, share_bps }
}

/// What `addr` has been paid so far, from the payout history.
fn balance(store: &ProgramStore, addr: Address) -> i128 {
    store
        .program
        .as_ref()
        .unwrap()
        .payout_history
        .iter()
        .filter(|r| r.recipient == addr)
        .map(|r| r.amount)
        .sum()
}

fn remaining(store: &ProgramStore) -> i128 {
    store.program.as_ref().unwrap().remaining_balance
}

#[test]
fn test_sum_of_distributions_equals_input() {
    let mut s = setup(10_000);
    set_split_config(&mut s, &program_id(), PAYOUT_KEY, vec![ben(R1, 3_333), ben(R2, 3_333), ben(R3, 3_334)]).unwrap();
    let result = execute_split_payout(&mut s, &program_id(), PAYOUT_KEY, 10_000, 0).unwrap();
    let total = balance(&s, R1) + balance(&s, R2) + balance(&s, R3);
    assert_eq!(total, 10_000);
    assert_eq!(result.total_distributed, 10_000);
}

#[test]
fn test_no_over_distribution() {
    let mut s = setup(1_000_000);
    set_split_config(&mut s, &program_id(), PAYOUT_KEY, vec![ben(R1, 7_000), ben(R2, 3_000)]).unwrap();
    let result = execute_split_payout(&mut s, &program_id(), PAYOUT_KEY, 1_000_000, 0).unwrap();
    let total = balance(&s, R1) + balance(&s, R2);
    assert!(total <= 1_000_000);
    assert_eq!(result.total_distributed, total);
}

#[test]
fn test_floor_rounding_never_overpays() {
    let mut s = setup(100_000);
    set_split_config(&mut s, &program_id(), PAYOUT_KEY, vec![ben(R1, 3_334), ben(R2, 3_333), ben(R3, 3_333)]).unwrap();
    execute_split_payout(&mut s, &program_id(), PAYOUT_KEY, 100_000, 0).unwrap();
    let r1_max = (100_000i128 * 3_334 / TOTAL_BASIS_POINTS) + 1;
    let r2_max = 100_000i128 * 3_333 / TOTAL_BASIS_POINTS;
    let r3_max = 100_000i128 * 3_333 / TOTAL_BASIS_POINTS;
    assert!(balance(&s, R1) <= r1_max);
    assert!(balance(&s, R2) <= r2_max);
    assert!(balance(&s, R3) <= r3_max);
}

#[test]
fn test_equal_splits_within_one_unit() {
    let amount = 10_001;
    let mut s = setup(amount);
    set_split_config(&mut s, &program_id(), PAYOUT_KEY, vec![ben(R1, 3_334), ben(R2, 3_333), ben(R3, 3_333)]).unwrap();
    execute_split_payout(&mut s, &program_id(), PAYOUT_KEY, amount, 0).unwrap();
    let (b1, b2, b3) = (balance(&s, R1), balance(&s, R2), balance(&s, R3));
    assert!((b1 - b2).abs() <= 2);
    assert!((b2 - b3).abs() <= 1);
}

#[test]
fn test_dust_goes_to_first_beneficiary() {
    let amount = 10;
    let mut s = setup(amount);
    set_split_config(&mut s, &program_id(), PAYOUT_KEY, vec![ben(R1, 3_334), ben(R2, 3_333), ben(R3, 3_333)]).unwrap();
    execute_split_payout(&mut s, &program_id(), PAYOUT_KEY, amount, 0).unwrap();
    let total = balance(&s, R1) + balance(&s, R2) + balance(&s, R3);
    assert_eq!(total, amount);
    assert_eq!(balance(&s, R1), 4);
    assert_eq!(balance(&s, R2), 3);
    assert_eq!(balance(&s, R3), 3);
}

#[test]
fn test_no_dust_accumulation_over_payouts() {
    let total = 100;
    let mut s = setup(total);
    set_split_config(&mut s, &program_id(), PAYOUT_KEY, vec![ben(R1, 5_000), ben(R2, 5_000)]).unwrap();
    for p in [10, 20, 30, 40] {
        execute_split_payout(&mut s, &program_id(), PAYOUT_KEY, p, 0).unwrap();
    }
    assert_eq!(balance(&s, R1) + balance(&s, R2), total);
}

#[test]
fn test_dust_bounded_by_beneficiary_count() {
    let mut s = setup(100);
    set_split_config(&mut s, &program_id(), PAYOUT_KEY, vec![ben(R1, 4_000), ben(R2, 3_000), ben(R3, 3_000)]).unwrap();
    let preview = preview_split(&s, &program_id(), 100).unwrap();
    let total_preview: i128 = preview.iter().map(|b| b.share_bps).sum();
    assert!(total_preview <= 100);
}

#[test]
fn test_max_beneficiaries() {
    let num_beneficiaries = 50usize;
    let amount = 10_000_000;
    let mut s = setup(amount);
    let share_per_ben = TOTAL_BASIS_POINTS / num_beneficiaries as i128;
    let bens: Vec<BeneficiarySplit> =
        (0..num_beneficiaries).map(|i| ben(Address { id: 100 + i as u64 }, share_per_ben)).collect();
    let cfg = set_split_config(&mut s, &program_id(), PAYOUT_KEY, bens).unwrap();
    assert_eq!(cfg.beneficiaries.len(), num_beneficiaries);
    let result = execute_split_payout(&mut s, &program_id(), PAYOUT_KEY, amount, 0).unwrap();
    assert_eq!(result.recipient_count, num_beneficiaries as u32);
}

#[test]
fn test_single_beneficiary_full_share() {
    let amount = 500;
    let mut s = setup(amount);
    set_split_config(&mut s, &program_id(), PAYOUT_KEY, vec![ben(R1, 10_000)]).unwrap();
    let result = execute_split_payout(&mut s, &program_id(), PAYOUT_KEY, amount, 0).unwrap();
    assert_eq!(result.total_distributed, amount);
    assert_eq!(result.recipient_count, 1);
    assert_eq!(balance(&s, R1), amount);
}

#[test]
fn test_minimum_amount_single_unit() {
    let mut s = setup(1);
    set_split_config(&mut s, &program_id(), PAYOUT_KEY, vec![ben(R1, 7_000), ben(R2, 3_000)]).unwrap();
    let result = execute_split_payout(&mut s, &program_id(), PAYOUT_KEY, 1, 0).unwrap();
    assert_eq!(result.total_distributed, 1);
    assert_eq!(result.remaining_balance, 0);
}

#[test]
fn test_large_amount_fine_grained_shares() {
    let amount = 1_000_000_000_000i128;
    let mut s = setup(amount);
    set_split_config(&mut s, &program_id(), PAYOUT_KEY, vec![ben(R1, 1), ben(R2, 9_999)]).unwrap();
    execute_split_payout(&mut s, &program_id(), PAYOUT_KEY, amount, 0).unwrap();
    assert_eq!(balance(&s, R1) + balance(&s, R2), amount);
}

#[test]
fn test_single_basis_point_share() {
    let amount = 10_000;
    let mut s = setup(amount);
    set_split_config(&mut s, &program_id(), PAYOUT_KEY, vec![ben(R1, 1), ben(R2, 9_999)]).unwrap();
    let result = execute_split_payout(&mut s, &program_id(), PAYOUT_KEY, amount, 0).unwrap();
    assert_eq!(balance(&s, R1), 1);
    assert_eq!(result.remaining_balance, 0);
}

#[test]
fn test_insufficient_balance_reverts() {
    let mut s = setup(50);
    set_split_config(&mut s, &program_id(), PAYOUT_KEY, vec![ben(R1, 10_000)]).unwrap();
    assert_eq!(
        execute_split_payout(&mut s, &program_id(), PAYOUT_KEY, 100, 0).unwrap_err(),
        SplitError::InsufficientBalance
    );
    assert_eq!(remaining(&s), 50);
}

#[test]
fn test_zero_amount_reverts() {
    let mut s = setup(100);
    set_split_config(&mut s, &program_id(), PAYOUT_KEY, vec![ben(R1, 10_000)]).unwrap();
    assert_eq!(execute_split_payout(&mut s, &program_id(), PAYOUT_KEY, 0, 0).unwrap_err(), SplitError::InvalidAmount);
}

#[test]
fn test_negative_amount_reverts() {
    let mut s = setup(100);
    set_split_config(&mut s, &program_id(), PAYOUT_KEY, vec![ben(R1, 10_000)]).unwrap();
    assert_eq!(execute_split_payout(&mut s, &program_id(), PAYOUT_KEY, -100, 0).unwrap_err(), SplitError::InvalidAmount);
}

#[test]
fn test_disabled_config_reverts() {
    let mut s = setup(1000);
    set_split_config(&mut s, &program_id(), PAYOUT_KEY, vec![ben(R1, 10_000)]).unwrap();
    disable_split_config(&mut s, &program_id()).unwrap();
    assert_eq!(execute_split_payout(&mut s, &program_id(), PAYOUT_KEY, 500, 0).unwrap_err(), SplitError::ConfigDisabled);
}

#[test]
fn test_overflow_in_share_calculation() {
    let mut s = setup(i128::MAX);
    set_split_config(&mut s, &program_id(), PAYOUT_KEY, vec![ben(R1, 10_000)]).unwrap();
    assert_eq!(
        execute_split_payout(&mut s, &program_id(), PAYOUT_KEY, i128::MAX, 0).unwrap_err(),
        SplitError::ArithmeticOverflow
    );
}

#[test]
fn test_sum_overflow_detected() {
    let huge = i128::MAX / TOTAL_BASIS_POINTS;
    let mut s = setup(huge);
    set_split_config(&mut s, &program_id(), PAYOUT_KEY, vec![ben(R1, 5_000), ben(R2, 5_000)]).unwrap();
    let result = execute_split_payout(&mut s, &program_id(), PAYOUT_KEY, huge, 0).unwrap();
    assert_eq!(result.total_distributed, huge);
    assert_eq!(balance(&s, R1) + balance(&s, R2), huge);
    assert_eq!(result.remaining_balance, 0);
}

#[test]
fn test_empty_beneficiaries_rejected() {
    let mut s = setup(100);
    assert_eq!(set_split_config(&mut s, &program_id(), PAYOUT_KEY, Vec::new()).unwrap_err(), SplitError::NoBeneficiaries);
}

#[test]
fn test_too_many_beneficiaries_rejected() {
    let mut s = setup(100);
    let bens: Vec<BeneficiarySplit> = (0..51).map(|i| ben(Address { id: 200 + i }, 195)).collect();
    assert_eq!(set_split_config(&mut s, &program_id(), PAYOUT_KEY, bens).unwrap_err(), SplitError::TooManyBeneficiaries);
}

#[test]
fn test_zero_share_rejected() {
    let mut s = setup(100);
    assert_eq!(
        set_split_config(&mut s, &program_id(), PAYOUT_KEY, vec![ben(R1, 10_000), ben(R2, 0)]).unwrap_err(),
        SplitError::NonPositiveShare
    );
}

#[test]
fn test_negative_share_rejected() {
    let mut s = setup(100);
    assert_eq!(
        set_split_config(&mut s, &program_id(), PAYOUT_KEY, vec![ben(R1, 10_000), ben(R2, -100)]).unwrap_err(),
        SplitError::NonPositiveShare
    );
}

#[test]
fn test_shares_must_sum_to_total() {
    let mut s = setup(100);
    assert_eq!(
        set_split_config(&mut s, &program_id(), PAYOUT_KEY, vec![ben(R1, 5_000), ben(R2, 4_000)]).unwrap_err(),
        SplitError::SharesNotTotal
    );
}

#[test]
fn test_shares_exceeding_total_rejected() {
    let mut s = setup(100);
    assert_eq!(
        set_split_config(&mut s, &program_id(), PAYOUT_KEY, vec![ben(R1, 6_000), ben(R2, 5_000)]).unwrap_err(),
        SplitError::SharesNotTotal
    );
}

#[test]
fn test_valid_split_accepted() {
    let mut s = setup(100);
    let cfg = set_split_config(&mut s, &program_id(), PAYOUT_KEY, vec![ben(R1, 6_000), ben(R2, 4_000)]).unwrap();
    assert!(cfg.active);
    assert_eq!(cfg.beneficiaries.len(), 2);
}

#[test]
fn test_preview_matches_actual() {
    let amount = 777;
    let mut s = setup(amount);
    set_split_config(&mut s, &program_id(), PAYOUT_KEY, vec![ben(R1, 7_000), ben(R2, 3_000)]).unwrap();
    let preview = preview_split(&s, &program_id(), amount).unwrap();
    execute_split_payout(&mut s, &program_id(), PAYOUT_KEY, amount, 0).unwrap();
    assert_eq!(balance(&s, R1), preview[0].share_bps);
    assert_eq!(balance(&s, R2), preview[1].share_bps);
}

#[test]
fn test_preview_is_readonly() {
    let amount = 1000;
    let mut s = setup(amount);
    set_split_config(&mut s, &program_id(), PAYOUT_KEY, vec![ben(R1, 10_000)]).unwrap();
    preview_split(&s, &program_id(), amount).unwrap();
    assert_eq!(remaining(&s), amount);
    assert_eq!(balance(&s, R1), 0);
}

#[test]
fn test_preview_dust_calculation() {
    let amount = 7;
    let mut s = setup(7);
    set_split_config(&mut s, &program_id(), PAYOUT_KEY, vec![ben(R1, 3_334), ben(R2, 3_333), ben(R3, 3_333)]).unwrap();
    let preview = preview_split(&s, &program_id(), amount).unwrap();
    let preview_sum: i128 = preview.iter().map(|b| b.share_bps).sum();
    assert_eq!(preview_sum, amount);
}

#[test]
fn test_partial_releases_maintain_ratio() {
    let mut s = setup(10_000);
    set_split_config(&mut s, &program_id(), PAYOUT_KEY, vec![ben(R1, 7_000), ben(R2, 3_000)]).unwrap();
    let mut expected_r1 = 0i128;
    let mut expected_r2 = 0i128;
    for p in [4000, 3000, 3000] {
        execute_split_payout(&mut s, &program_id(), PAYOUT_KEY, p, 0).unwrap();
        expected_r1 += p * 7000 / TOTAL_BASIS_POINTS;
        expected_r2 += p * 3000 / TOTAL_BASIS_POINTS;
    }
    assert_eq!(balance(&s, R1), expected_r1);
    assert_eq!(balance(&s, R2), expected_r2);
}

#[test]
fn test_remaining_balance_tracked() {
    let mut s = setup(10_000);
    set_split_config(&mut s, &program_id(), PAYOUT_KEY, vec![ben(R1, 5_000), ben(R2, 5_000)]).unwrap();
    assert_eq!(execute_split_payout(&mut s, &program_id(), PAYOUT_KEY, 3000, 0).unwrap().remaining_balance, 7000);
    assert_eq!(execute_split_payout(&mut s, &program_id(), PAYOUT_KEY, 5000, 0).unwrap().remaining_balance, 2000);
    assert_eq!(execute_split_payout(&mut s, &program_id(), PAYOUT_KEY, 2000, 0).unwrap().remaining_balance, 0);
}

#[test]
fn test_get_config_after_set() {
    let mut s = setup(100);
    set_split_config(&mut s, &program_id(), PAYOUT_KEY, vec![ben(R1, 6_000), ben(R2, 4_000)]).unwrap();
    let retrieved = get_split_config(&s, &program_id());
    assert!(retrieved.is_some());
    let cfg = retrieved.unwrap();
    assert!(cfg.active);
    assert_eq!(cfg.beneficiaries.len(), 2);
}

#[test]
fn test_get_config_nonexistent() {
    let s = setup(100);
    assert!(get_split_config(&s, &"NonExistent".to_string()).is_none());
}

#[test]
fn test_disable_config() {
    let mut s = setup(1000);
    set_split_config(&mut s, &program_id(), PAYOUT_KEY, vec![ben(R1, 10_000)]).unwrap();
    disable_split_config(&mut s, &program_id()).unwrap();
    let cfg = get_split_config(&s, &program_id()).unwrap();
    assert!(!cfg.active);
}

#[test]
fn test_total_payouts_never_exceed_funded() {
    let total_funded = 100_000;
    let mut left = total_funded;
    let mut s = setup(total_funded);
    set_split_config(&mut s, &program_id(), PAYOUT_KEY, vec![ben(R1, 5_000), ben(R2, 5_000)]).unwrap();
    for p in [10_000, 20_000, 30_000, 40_000] {
        if p <= left {
            execute_split_payout(&mut s, &program_id(), PAYOUT_KEY, p, 0).unwrap();
            left -= p;
        }
    }
    assert_eq!(remaining(&s), left);
}

#[test]
fn test_payout_history_recorded() {
    let mut s = setup(1000);
    set_split_config(&mut s, &program_id(), PAYOUT_KEY, vec![ben(R1, 10_000)]).unwrap();
    execute_split_payout(&mut s, &program_id(), PAYOUT_KEY, 500, 42).unwrap();
    let history = &s.program.as_ref().unwrap().payout_history;
    assert!(!history.is_empty());
    assert_eq!(history[0].timestamp, 42);
}

#[test]
fn split_payout_without_program_or_config() {
    let mut s = ProgramStore::new();
    assert_eq!(
        execute_split_payout(&mut s, &program_id(), PAYOUT_KEY, 10, 0).unwrap_err(),
        SplitError::ProgramNotInitialized
    );
    let mut s = setup(100);
    assert_eq!(execute_split_payout(&mut s, &program_id(), PAYOUT_KEY, 10, 0).unwrap_err(), SplitError::NoSplitConfig);
    assert_eq!(preview_split(&s, &program_id(), 10).unwrap_err(), SplitError::NoSplitConfig);
    assert_eq!(disable_split_config(&mut s, &program_id()).unwrap_err(), SplitError::NoSplitConfig);
}

#[test]
fn split_share_sum_overflow_is_refused() {
    let mut s = setup(100);
    assert_eq!(
        set_split_config(&mut s, &program_id(), PAYOUT_KEY, vec![ben(R1, i128::MAX), ben(R2, 1)]).unwrap_err(),
        SplitError::ShareOverflow
    );
}

#[test]
fn only_the_payout_key_may_configure_or_pay_out() {
    let mut s = setup(1000);
    assert_eq!(
        set_split_config(&mut s, &program_id(), R1, vec![ben(R1, 10_000)]).unwrap_err(),
        SplitError::Unauthorized
    );
    assert!(get_split_config(&s, &program_id()).is_none());
    set_split_config(&mut s, &program_id(), PAYOUT_KEY, vec![ben(R1, 10_000)]).unwrap();
    assert_eq!(
        execute_split_payout(&mut s, &program_id(), ADMIN, 500, 0).unwrap_err(),
        SplitError::Unauthorized
    );
    assert_eq!(remaining(&s), 1000);
    assert_eq!(balance(&s, R1), 0);
    let mut empty = ProgramStore::new();
    assert_eq!(
        set_split_config(&mut empty, &program_id(), PAYOUT_KEY, vec![ben(R1, 10_000)]).unwrap_err(),
        SplitError::ProgramNotInitialized
    );
}
