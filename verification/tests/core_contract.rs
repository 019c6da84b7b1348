use grainlify::core_contract::{
    BuildInfoEvent, ContractError, CoreFailure, GrainlifyContract, MigrationState, UpgradeInterface,
    DEFAULT_TIMELOCK_DELAY, VERSION,
};
use grainlify::monitoring::get_analytics;
use grainlify::multisig::MultiSigError;
use grainlify::types::{Address, Hash32};

const ADMIN: Address = Address { id: 1 };
const S1: Address = Address { id: 11 };
const S2: Address = Address { id: 12 };
const S3: Address = Address { id: 13 };
const CONTRACT: Address = Address { id: 100 };
const WASM: Hash32 = [1u8; 32];

fn initialised() -> GrainlifyContract {
    let mut c = GrainlifyContract::new();
    c.init_admin(ADMIN, 0).unwrap();
    c
}

/// A contract with a 2-of-3 multisig and one proposal to install `WASM`,
/// approved by two signers at `now`, whose timelock starts then.
fn with_approved_upgrade(now: u64) -> (GrainlifyContract, u64) {
    let mut c = initialised();
    c.multisig.init(vec![S1, S2, S3], 2).unwrap();
    let id = c.multisig.propose(S1, 0).unwrap();
    c.upgrade_proposals.set(id, WASM);
    c.upgrade_proposers.set(id, S1);
    c.multisig.approve(id, S1, now).unwrap();
    c.multisig.approve(id, S2, now).unwrap();
    c.upgrade_timelocks.set(id, now);
    (c, id)
}

#[test]
fn test_build_info_event_data_structure() {
    let mut c = GrainlifyContract::new();
    let event = c.init_admin(ADMIN, 12345).unwrap();
    assert_eq!(event, BuildInfoEvent { admin: ADMIN, version: VERSION, timestamp: 12345 });
}

#[test]
fn test_build_info_event_version_matches_get_version() {
    let mut c = GrainlifyContract::new();
    let event = c.init_admin(ADMIN, 0).unwrap();
    assert_eq!(event.version, c.get_version());
    assert_eq!(c.get_version(), VERSION);
    assert_eq!(c.get_admin(), Some(ADMIN));
}

#[test]
fn test_double_initialization_rejected() {
    let mut c = initialised();
    assert_eq!(
        c.init_admin(Address { id: 2 }, 5),
        Err(CoreFailure::Code(ContractError::AlreadyInitialized))
    );
    assert_eq!(c.get_admin(), Some(ADMIN));
}

#[test]
fn test_build_info_event_per_contract_instance() {
    let mut c1 = GrainlifyContract::new();
    let mut c2 = GrainlifyContract::new();
    c1.init_admin(Address { id: 7 }, 0).unwrap();
    c2.init_admin(Address { id: 8 }, 0).unwrap();
    assert_ne!(c1.get_admin(), c2.get_admin());
}

#[test]
fn storage_layout_and_version_helpers() {
    let mut c = GrainlifyContract::new();
    assert!(!c.verify_storage_layout());
    assert_eq!(c.get_version(), 0);
    assert_eq!(c.require_min_version(1), Err(CoreFailure::Code(ContractError::NotInitialized)));
    c.init_admin(ADMIN, 0).unwrap();
    assert!(c.verify_storage_layout());
    assert!(!c.is_read_only());
    assert_eq!(c.get_version_numeric_encoded(), 20_000);
    assert_eq!(c.require_min_version(20_000), Ok(()));
    assert_eq!(c.require_min_version(20_001), Err(CoreFailure::VersionTooLow));
    assert_eq!(c.get_version_semver_string(), b"2.0.0".to_vec());
    c.set_version(10_203, 1).unwrap();
    assert_eq!(c.get_version_numeric_encoded(), 10_203);
    assert_eq!(c.get_version_semver_string(), b"1.2.3".to_vec());
    c.set_version(1_230_405, 1).unwrap();
    assert_eq!(c.get_version_semver_string(), b"123.4.5".to_vec());
    assert!(!c.is_strict_mode());
}

#[test]
fn semver_text_falls_back_for_unwritable_major() {
    let mut c = initialised();
    c.set_version(1000 * 10_000, 1).unwrap();
    assert_eq!(c.get_version_semver_string(), b":00.0.0".to_vec());
    c.set_version(8000 * 10_000, 1).unwrap();
    assert_eq!(c.get_version_semver_string(), b"0.0.0".to_vec());
}

#[test]
fn timelock_delay_bounds_and_read_only() {
    let mut c = GrainlifyContract::new();
    assert_eq!(c.set_timelock_delay(7_200), Err(CoreFailure::Code(ContractError::NotInitialized)));
    c.init_admin(ADMIN, 0).unwrap();
    assert_eq!(c.get_timelock_delay(), DEFAULT_TIMELOCK_DELAY);
    assert_eq!(c.set_timelock_delay(3_599), Err(CoreFailure::TimelockTooShort));
    assert_eq!(c.set_timelock_delay(2_592_001), Err(CoreFailure::TimelockTooLong));
    assert_eq!(c.set_timelock_delay(3_600), Ok(DEFAULT_TIMELOCK_DELAY));
    assert_eq!(c.get_timelock_delay(), 3_600);
    let event = c.set_read_only_mode(true, 77).unwrap();
    assert!(event.enabled && event.admin == ADMIN && event.timestamp == 77);
    assert!(c.is_read_only());
    assert_eq!(c.set_timelock_delay(7_200), Err(CoreFailure::ReadOnly));
    assert_eq!(c.set_version(5, 1), Err(CoreFailure::ReadOnly));
    assert_eq!(c.upgrade(WASM, 1), Err(CoreFailure::ReadOnly));
    c.set_read_only_mode(false, 78).unwrap();
    assert_eq!(c.set_timelock_delay(7_200), Ok(3_600));
}

#[test]
fn admin_upgrade_records_previous_version_and_tracks_call() {
    let mut c = initialised();
    let event = c.upgrade(WASM, 50).unwrap();
    assert_eq!(event.new_wasm_hash, WASM);
    assert_eq!(event.previous_version, VERSION);
    assert_eq!(event.timestamp, 50);
    assert_eq!(c.get_previous_version(), Some(VERSION));
    assert_eq!(c.monitoring.operation_count, 2);
    assert_eq!(c.monitoring.last_operation_ts, 50);
    let mut fresh = GrainlifyContract::new();
    assert_eq!(fresh.upgrade(WASM, 1), Err(CoreFailure::Code(ContractError::NotInitialized)));
}

#[test]
fn multisig_upgrade_waits_for_timelock() {
    let (mut c, id) = with_approved_upgrade(1_000);
    assert_eq!(c.get_timelock_status(id, 1_000), Some(DEFAULT_TIMELOCK_DELAY));
    assert_eq!(c.get_timelock_status(id, 1_000 + 86_000), Some(400));
    assert_eq!(c.execute_upgrade(id, 1_000 + 86_000, CONTRACT), Err(CoreFailure::TimelockPending(400)));
    assert_eq!(c.get_timelock_status(id, 1_000 + DEFAULT_TIMELOCK_DELAY), Some(0));
    let event = c.execute_upgrade(id, 1_000 + DEFAULT_TIMELOCK_DELAY, CONTRACT).unwrap();
    assert_eq!(event.new_wasm_hash, WASM);
    assert_eq!(event.previous_version, VERSION);
    assert_eq!(c.get_previous_version(), Some(VERSION));
    assert_eq!(c.get_timelock_status(id, 1_000 + DEFAULT_TIMELOCK_DELAY), None);
    assert!(c.multisig.get_proposal_opt(id).unwrap().executed);
    assert_eq!(
        c.execute_upgrade(id, 1_000 + DEFAULT_TIMELOCK_DELAY + 1, CONTRACT),
        Err(CoreFailure::TimelockNotStarted)
    );
}

#[test]
fn multisig_upgrade_refusals() {
    let (mut c, id) = with_approved_upgrade(0);
    assert_eq!(c.execute_upgrade(id + 1, 100_000, CONTRACT), Err(CoreFailure::TimelockNotStarted));
    c.pause(S3).unwrap();
    assert!(c.is_paused());
    assert_eq!(
        c.execute_upgrade(id, 100_000, CONTRACT),
        Err(CoreFailure::MultiSig(MultiSigError::ThresholdNotMet))
    );
    assert_eq!(c.get_previous_version(), None);
    c.unpause(S3).unwrap();
    c.upgrade_proposals.remove(id);
    assert_eq!(c.execute_upgrade(id, 100_000, CONTRACT), Err(CoreFailure::MissingUpgradeProposal));
    assert!(c.load_upgrade_proposal(id).is_none());
    c.upgrade_proposals.set(id, WASM);
    let record = c.load_upgrade_proposal(id).unwrap();
    assert_eq!(record.proposer, Some(S1));
    assert_eq!(record.wasm_hash, WASM);
    assert!(c.can_execute(id, 100_000));
    assert!(c.execute_upgrade(id, 100_000, CONTRACT).is_ok());
}

#[test]
fn snapshots_capture_and_restore_configuration() {
    let mut c = initialised();
    c.multisig.init(vec![S1, S2], 2).unwrap();
    let first = c.create_config_snapshot(10).unwrap();
    assert_eq!(first, 1);
    c.set_version(3, 11).unwrap();
    let second = c.create_config_snapshot(12).unwrap();
    let diff = c.compare_snapshots(first, second).unwrap();
    assert!(diff.version_changed && !diff.admin_changed && !diff.multisig_signers_changed);
    assert_eq!((diff.from_version, diff.to_version), (2, 3));
    assert_eq!(c.compare_snapshots(first, 99), Err(CoreFailure::SnapshotNotFound));
    assert_eq!(c.get_snapshot_count(), 2);
    assert_eq!(c.get_latest_config_snapshot().unwrap().id, second);
    assert_eq!(c.restore_config_snapshot(first, 20), Ok(None));
    assert_eq!(c.get_version(), 2);
    let cfg = c.multisig.get_config_opt().unwrap();
    assert_eq!((cfg.signers, cfg.threshold), (vec![S1, S2], 2));
    assert_eq!(c.restore_config_snapshot(42, 20), Err(CoreFailure::SnapshotNotFound));
    let info = c.get_rollback_info();
    assert_eq!(info.snapshot_count, 2);
    assert_eq!(info.latest_snapshot_id, second);
    assert_eq!(info.latest_snapshot_version, 3);
}

#[test]
fn snapshot_history_keeps_latest_twenty() {
    let mut c = initialised();
    for i in 0..25u64 {
        assert_eq!(c.create_config_snapshot(i), Ok(i + 1));
    }
    let list = c.list_config_snapshots();
    assert_eq!(list.len(), 20);
    assert_eq!(list[0].id, 6);
    assert_eq!(list[19].id, 25);
    assert!(c.get_config_snapshot(5).is_none());
    assert_eq!(c.get_config_snapshot(6).unwrap().timestamp, 5);
    assert_eq!(c.get_snapshot_count(), 20);
}

#[test]
fn admin_changing_restore_needs_confirmation() {
    let mut c = initialised();
    let snap = c.create_config_snapshot(10).unwrap();
    let new_admin = Address { id: 2 };
    c.admin = Some(new_admin);
    let pending = c.restore_config_snapshot(snap, 100).unwrap().unwrap();
    assert_eq!(pending.proposed_admin, ADMIN);
    assert_eq!(pending.expires_at, 100 + DEFAULT_TIMELOCK_DELAY);
    assert_eq!(c.get_admin(), Some(new_admin));
    assert_eq!(c.confirm_admin_restore(snap + 1, 200), Err(CoreFailure::PendingRestoreMismatch));
    assert_eq!(
        c.confirm_admin_restore(snap, 100 + DEFAULT_TIMELOCK_DELAY + 1),
        Err(CoreFailure::PendingRestoreExpired)
    );
    assert_eq!(c.confirm_admin_restore(snap, 200), Ok(()));
    assert_eq!(c.get_admin(), Some(ADMIN));
    assert!(c.pending_admin_restore.is_none());
    assert_eq!(c.confirm_admin_restore(snap, 201), Err(CoreFailure::NoPendingRestore));
}

#[test]
fn snapshot_without_admin_cannot_be_restored() {
    let mut c = GrainlifyContract::new();
    assert_eq!(c.create_config_snapshot(1), Err(CoreFailure::Code(ContractError::NotInitialized)));
    c.admin = Some(ADMIN);
    c.create_config_snapshot(1).unwrap();
    c.snapshots[0].admin = None;
    assert_eq!(c.restore_config_snapshot(1, 2), Err(CoreFailure::SnapshotHasNoAdmin));
}

#[test]
fn invariants_and_health() {
    let mut c = GrainlifyContract::new();
    let report = c.check_invariants();
    assert!(!report.healthy);
    assert_eq!(report.violation_count, 2);
    c.init_admin(ADMIN, 0).unwrap();
    assert!(c.verify_invariants());
    c.previous_version = Some(9);
    let report = c.check_invariants();
    assert!(!report.config_sane && report.metrics_sane);
    assert_eq!(report.violation_count, 1);
    c.previous_version = None;
    c.chain_id = Some("stellar".to_string());
    assert!(!c.verify_invariants());
    c.network_id = Some("testnet".to_string());
    assert!(c.verify_invariants());
    assert_eq!(c.get_network_info(), (Some("stellar".to_string()), Some("testnet".to_string())));
    c.upgrade(WASM, 9).unwrap();
    let health = c.health_check();
    assert!(health.is_healthy);
    assert_eq!(health.total_operations, 2);
    assert_eq!(health.last_operation, 9);
    assert_eq!(health.contract_version, b"2.0.0".to_vec());
}

#[test]
fn rollback_info_reports_migration() {
    let mut c = initialised();
    assert!(!c.get_rollback_info().rollback_available);
    c.migration_state = Some(MigrationState { from_version: 1, to_version: 2, migrated_at: 7, migration_hash: WASM });
    c.upgrade(WASM, 8).unwrap();
    let info = c.get_rollback_info();
    assert!(info.rollback_available && info.has_migration);
    assert_eq!((info.migration_from_version, info.migration_to_version, info.migration_timestamp), (1, 2, 7));
    assert_eq!(info.current_version, VERSION);
    assert_eq!(info.previous_version, VERSION);
    assert!(!info.has_snapshot);
    assert_eq!(c.get_migration_state().unwrap().to_version, 2);
}

#[test]
fn upgrade_interface_delegates() {
    let mut c = initialised();
    UpgradeInterface::set_version(&mut c, 4, 3).unwrap();
    assert_eq!(UpgradeInterface::get_version(&c), 4);
}

#[test]
fn unconfigured_multisig_cannot_judge_upgrade() {
    let (mut c, id) = with_approved_upgrade(0);
    c.multisig.clear_config();
    assert_eq!(c.execute_upgrade(id, 100_000, CONTRACT), Err(CoreFailure::MultiSigNotInitialized));
    assert_eq!(c.get_previous_version(), None);
}

#[test]
fn restore_refuses_unmeetable_threshold() {
    let mut c = initialised();
    c.create_config_snapshot(1).unwrap();
    c.snapshots[0].multisig_threshold = 3;
    assert_eq!(
        c.restore_config_snapshot(1, 2),
        Err(CoreFailure::MultiSig(MultiSigError::InvalidThreshold))
    );
    assert_eq!(c.get_version(), VERSION);
}

#[test]
fn test_monitoring_views_report_uninitialized_state() {
    let c = GrainlifyContract::new();
    let health = c.health_check();
    assert!(!health.is_healthy);
    assert_eq!(health.last_operation, 0);
    assert_eq!(health.total_operations, 0);
    assert_eq!(health.contract_version, b"0.0.0".to_vec());
    let analytics = get_analytics(&c.monitoring);
    assert_eq!(analytics.operation_count, 0);
    assert_eq!(analytics.unique_users, 0);
    assert_eq!(analytics.error_count, 0);
    assert_eq!(analytics.error_rate, 0);
}

#[test]
fn test_monitoring_views_report_initialized_state() {
    let mut c = GrainlifyContract::new();
    c.init_admin(ADMIN, 7).unwrap();
    let health = c.health_check();
    assert!(health.is_healthy);
    assert_eq!(health.last_operation, 7);
    assert_eq!(health.total_operations, 1);
    assert_eq!(health.contract_version, b"2.0.0".to_vec());
    let analytics = get_analytics(&c.monitoring);
    assert_eq!(analytics.operation_count, 1);
    assert_eq!(analytics.unique_users, 1);
    assert_eq!(analytics.error_count, 0);
    assert_eq!(analytics.error_rate, 0);
}
