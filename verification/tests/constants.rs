use grainlify::core_contract;
use grainlify::program_escrow::{MAX_BATCH_SIZE, STORAGE_SCHEMA_VERSION};

#[test]
fn test_storage_schema_version_constant() {
    assert_eq!(core_contract::STORAGE_SCHEMA_VERSION, 1);
}

#[test]
fn test_storage_layout_test_storage_schema_version_constant() {
    assert_eq!(STORAGE_SCHEMA_VERSION, 1);
}

#[test]
fn test_max_batch_size_constant_is_100() {
    assert_eq!(MAX_BATCH_SIZE, 100);
}

#[test]
fn test_max_batch_size_plus_one_exceeds_limit() {
    assert!(MAX_BATCH_SIZE + 1 > MAX_BATCH_SIZE);
}

#[test]
fn test_batch_limit_boundary_values() {
    assert!(MAX_BATCH_SIZE > 0);
    assert!(MAX_BATCH_SIZE <= 100);
}

#[test]
fn core_constants_match_documented_values() {
    assert_eq!(core_contract::VERSION, 2);
    assert_eq!(core_contract::CONFIG_SNAPSHOT_LIMIT, 20);
    assert_eq!(core_contract::DEFAULT_TIMELOCK_DELAY, 86_400);
    assert_eq!(core_contract::MIN_TIMELOCK_DELAY, 3_600);
    assert_eq!(core_contract::MAX_TIMELOCK_DELAY, 2_592_000);
}
