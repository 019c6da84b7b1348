use grainlify::core_contract::ContractError as CoreError;
use grainlify::program_escrow::ContractError;

#[test]
fn test_error_codes_are_stable() {
    assert_eq!(ContractError::Unauthorized.code(), 1);
    assert_eq!(ContractError::InvalidAmount.code(), 2);
    assert_eq!(ContractError::Paused.code(), 3);
    assert_eq!(ContractError::ProgramNotFound.code(), 7);
    assert_eq!(ContractError::InsufficientBalance.code(), 10);
    assert_eq!(ContractError::PayoutFailed.code(), 300);
    assert_eq!(ContractError::ScheduleNotFound.code(), 400);
    assert_eq!(ContractError::ClaimNotFound.code(), 500);
    assert_eq!(ContractError::DisputeAlreadyOpen.code(), 600);
    assert_eq!(ContractError::InvalidFeeRate.code(), 701);
}

#[test]
fn test_error_equality() {
    assert_eq!(ContractError::Unauthorized, ContractError::Unauthorized);
    assert_ne!(ContractError::Unauthorized, ContractError::InvalidAmount);
    assert_ne!(ContractError::Paused, ContractError::MaintenanceMode);
}

#[test]
fn test_error_debug() {
    let error = ContractError::Unauthorized;
    let debug_str = format!("{:?}", error);
    assert!(debug_str.contains("Unauthorized"));
}

#[test]
fn test_error_clone() {
    let error = ContractError::Unauthorized;
    let cloned = error.clone();
    assert_eq!(error, cloned);
}

#[test]
fn test_error_copy() {
    let error = ContractError::Unauthorized;
    let copied = error;
    assert_eq!(error, copied);
}

#[test]
fn core_error_codes_are_stable() {
    assert_eq!(CoreError::AlreadyInitialized.code(), 1);
    assert_eq!(CoreError::NotInitialized.code(), 2);
    assert_eq!(CoreError::NotAdmin.code(), 3);
    assert_eq!(CoreError::ThresholdNotMet.code(), 101);
    assert_eq!(CoreError::SnapshotPruned.code(), 107);
}
