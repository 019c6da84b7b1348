//! The Grainlify core contract: admin-controlled upgrades with version
//! tracking, a multisig timelocked upgrade path, read-only mode, and
//! configuration snapshots with a two-step guard on admin changes.
use vstd::prelude::*;
use crate::types::{Address, Symbol, Hash32, copy_addresses, addresses_equal};
use crate::keyed::{KeyedU64, kget, lemma_kindex_char, lemma_kindex_is};
use crate::multisig::{MultiSig, MultiSigConfig, MultiSigError, ProposalView, can_execute_defined, executable, proposal_at, ms_proposal_set};
use crate::monitoring::{
    Monitoring, HealthStatus, InvariantReport, metrics_sane, sat_add, call_recorded, record_call, operation_tracked,
    track_operation,
};
use crate::strict_mode;

verus! {

/// Errors of the core contract, with stable codes.
#[derive(Clone, Copy, Debug, PartialEq, Eq, Structural)]
pub enum ContractError {
    AlreadyInitialized,
    NotInitialized,
    NotAdmin,
    ThresholdNotMet,
    ProposalNotFound,
    MigrationCommitmentNotFound,
    MigrationHashMismatch,
    TimelockDelayTooHigh,
    SnapshotRestoreAdminPending,
    SnapshotPruned,
}

/// The stable numeric code of each core error.
pub open spec fn contract_error_code(e: ContractError) -> u32 {
    match e {
        ContractError::AlreadyInitialized => 1,
        ContractError::NotInitialized => 2,
        ContractError::NotAdmin => 3,
        ContractError::ThresholdNotMet => 101,
        ContractError::ProposalNotFound => 102,
        ContractError::MigrationCommitmentNotFound => 103,
        ContractError::MigrationHashMismatch => 104,
        ContractError::TimelockDelayTooHigh => 105,
        ContractError::SnapshotRestoreAdminPending => 106,
        ContractError::SnapshotPruned => 107,
    }
}

impl ContractError {
    /// The stable numeric code of this error.
    pub fn code(&self) -> (c: u32)
        ensures
            c == contract_error_code(*self),
    {
        match self {
            ContractError::AlreadyInitialized => 1,
            ContractError::NotInitialized => 2,
            ContractError::NotAdmin => 3,
            ContractError::ThresholdNotMet => 101,
            ContractError::ProposalNotFound => 102,
            ContractError::MigrationCommitmentNotFound => 103,
            ContractError::MigrationHashMismatch => 104,
            ContractError::TimelockDelayTooHigh => 105,
            ContractError::SnapshotRestoreAdminPending => 106,
            ContractError::SnapshotPruned => 107,
        }
    }
}

/// Why a core entrypoint was refused; each variant is one way the entrypoint
/// aborts.
#[derive(Clone, Copy, Debug, PartialEq, Eq, Structural)]
pub enum CoreFailure {
    /// Aborts with an error code.
    Code(ContractError),
    /// The contract is in read-only mode.
    ReadOnly,
    /// No timelock was started for the proposal.
    TimelockNotStarted,
    /// The timelock has this many seconds left.
    TimelockPending(u64),
    /// No WASM hash is recorded for the proposal.
    MissingUpgradeProposal,
    /// The multisig refused.
    MultiSig(MultiSigError),
    /// The multisig has no configuration.
    MultiSigNotInitialized,
    /// The requested timelock delay is under one hour.
    TimelockTooShort,
    /// The requested timelock delay is over thirty days.
    TimelockTooLong,
    /// The version is below the required minimum.
    VersionTooLow,
    /// No snapshot with the id is retained.
    SnapshotNotFound,
    /// The snapshot would remove the admin.
    SnapshotHasNoAdmin,
    /// No admin restore is pending.
    NoPendingRestore,
    /// The pending admin restore is for another snapshot.
    PendingRestoreMismatch,
    /// The pending admin restore has expired.
    PendingRestoreExpired,
}

/// Version recorded by `init_admin`.
pub const VERSION: u32 = 2;

/// Version of the persisted storage schema.
pub const STORAGE_SCHEMA_VERSION: u32 = 1;

/// Number of configuration snapshots retained.
pub const CONFIG_SNAPSHOT_LIMIT: usize = 20;

/// Default timelock delay (one day).
pub const DEFAULT_TIMELOCK_DELAY: u64 = 86_400;

/// Longest allowed timelock delay (thirty days).
pub const MAX_TIMELOCK_DELAY: u64 = 2_592_000;

/// Shortest allowed timelock delay (one hour).
pub const MIN_TIMELOCK_DELAY: u64 = 3_600;

/// Symbol code under which upgrades are tracked.
pub const OP_UPGRADE: u64 = 1;

/// Symbol code under which version changes are tracked.
pub const OP_SET_VERSION: u64 = 2;

/// Symbol code under which multisig upgrades are tracked.
pub const OP_EXECUTE_UPGRADE: u64 = 3;

/// Symbol code under which initialisation is tracked.
pub const OP_INIT: u64 = 4;

/// A point-in-time copy of the core configuration.
#[derive(Debug)]
pub struct CoreConfigSnapshot {
    pub id: u64,
    pub timestamp: u64,
    pub admin: Option<Address>,
    pub version: u32,
    pub previous_version: Option<u32>,
    pub multisig_threshold: u32,
    pub multisig_signers: Vec<Address>,
}

/// The values of a snapshot.
pub struct SnapshotView {
    pub id: u64,
    pub timestamp: u64,
    pub admin: Option<Address>,
    pub version: u32,
    pub previous_version: Option<u32>,
    pub multisig_threshold: u32,
    pub multisig_signers: Seq<Address>,
}

/// The values of a snapshot.
pub open spec fn sview(s: CoreConfigSnapshot) -> SnapshotView {
    SnapshotView {
        id: s.id,
        timestamp: s.timestamp,
        admin: s.admin,
        version: s.version,
        previous_version: s.previous_version,
        multisig_threshold: s.multisig_threshold,
        multisig_signers: s.multisig_signers@,
    }
}

/// What differs between two snapshots.
#[derive(Clone, Copy, Debug, PartialEq, Eq, Structural)]
pub struct SnapshotDiff {
    pub from_id: u64,
    pub to_id: u64,
    pub admin_changed: bool,
    pub version_changed: bool,
    pub previous_version_changed: bool,
    pub multisig_threshold_changed: bool,
    pub multisig_signers_changed: bool,
    pub from_version: u32,
    pub to_version: u32,
}

/// Rollback-related facts about the contract.
#[derive(Clone, Copy, Debug, PartialEq, Eq, Structural)]
pub struct RollbackInfo {
    pub current_version: u32,
    pub previous_version: u32,
    pub rollback_available: bool,
    pub has_migration: bool,
    pub migration_from_version: u32,
    pub migration_to_version: u32,
    pub migration_timestamp: u64,
    pub snapshot_count: u32,
    pub has_snapshot: bool,
    pub latest_snapshot_id: u64,
    pub latest_snapshot_version: u32,
}

/// Persisted result of the last migration.
#[derive(Clone, Copy, Debug, PartialEq, Eq)]
pub struct MigrationState {
    pub from_version: u32,
    pub to_version: u32,
    pub migrated_at: u64,
    pub migration_hash: Hash32,
}

/// What an upgrade announces: the code it installs, the version it
/// replaces and when.
#[derive(Clone, Copy, Debug, PartialEq, Eq)]
pub struct UpgradeEvent {
    pub new_wasm_hash: Hash32,
    pub previous_version: u32,
    pub timestamp: u64,
}

/// What a change of read-only mode announces.
#[derive(Clone, Copy, Debug, PartialEq, Eq, Structural)]
pub struct ReadOnlyModeEvent {
    pub enabled: bool,
    pub admin: Address,
    pub timestamp: u64,
}

/// What initialisation announces.
#[derive(Clone, Copy, Debug, PartialEq, Eq, Structural)]
pub struct BuildInfoEvent {
    pub admin: Address,
    pub version: u32,
    pub timestamp: u64,
}

/// A multisig upgrade proposal as stored: its WASM hash, proposer and the
/// multisig proposal's expiry and cancellation.
#[derive(Clone, Copy, Debug, PartialEq, Eq)]
pub struct UpgradeProposalRecord {
    pub proposal_id: u64,
    pub proposer: Option<Address>,
    pub wasm_hash: Hash32,
    pub expiry: u64,
    pub cancelled: bool,
}

/// A commitment to the hash of a future migration.
#[derive(Clone, Copy, Debug, PartialEq, Eq)]
pub struct MigrationCommitment {
    pub target_version: u32,
    pub hash: Hash32,
    pub committed_at: u64,
    pub expires_at: u64,
}

/// An admin-changing snapshot restore awaiting the new admin's
/// confirmation.
#[derive(Clone, Copy, Debug, PartialEq, Eq, Structural)]
pub struct PendingAdminRestore {
    pub snapshot_id: u64,
    pub proposed_admin: Address,
    pub initiated_at: u64,
    pub expires_at: u64,
}

/// Everything the core contract keeps in storage.
#[derive(Debug)]
pub struct GrainlifyContract {
    pub admin: Option<Address>,
    pub version: Option<u32>,
    pub previous_version: Option<u32>,
    pub read_only: Option<bool>,
    pub migration_state: Option<MigrationState>,
    pub chain_id: Option<String>,
    pub network_id: Option<String>,
    pub timelock_delay: Option<u64>,
    /// Timelock start per multisig upgrade proposal.
    pub upgrade_timelocks: KeyedU64<u64>,
    /// WASM hash per multisig upgrade proposal.
    pub upgrade_proposals: KeyedU64<Hash32>,
    /// Proposer per multisig upgrade proposal.
    pub upgrade_proposers: KeyedU64<Address>,
    /// Retained snapshots, oldest first.
    pub snapshots: Vec<CoreConfigSnapshot>,
    /// Id of the last snapshot created.
    pub snapshot_counter: u64,
    pub pending_admin_restore: Option<PendingAdminRestore>,
    pub multisig: MultiSig,
    pub monitoring: Monitoring,
}

/// The effective timelock delay.
pub open spec fn delay_of(c: &GrainlifyContract) -> u64 {
    match c.timelock_delay {
        Some(d) => d,
        None => DEFAULT_TIMELOCK_DELAY,
    }
}

/// Whether read-only mode is on.
pub open spec fn read_only_of(c: &GrainlifyContract) -> bool {
    match c.read_only {
        Some(b) => b,
        None => false,
    }
}

/// Fields outside the admin/version configuration, snapshots and metrics
/// that no admin operation touches.
pub open spec fn peripheral_unchanged(c1: &GrainlifyContract, c2: &GrainlifyContract) -> bool {
    &&& c2.migration_state == c1.migration_state
    &&& c2.chain_id == c1.chain_id
    &&& c2.network_id == c1.network_id
    &&& c2.upgrade_proposals == c1.upgrade_proposals
    &&& c2.upgrade_proposers == c1.upgrade_proposers
}

impl GrainlifyContract {
    /// Empty core storage.
    pub fn new() -> (c: Self)
        ensures
            c.admin is None,
            c.version is None,
            c.previous_version is None,
            c.read_only is None,
            c.timelock_delay is None,
            c.migration_state is None,
            c.chain_id is None,
            c.network_id is None,
            c.upgrade_timelocks.entries@.len() == 0,
            c.upgrade_proposals.entries@.len() == 0,
            c.upgrade_proposers.entries@.len() == 0,
            c.snapshots@.len() == 0,
            c.snapshot_counter == 0,
            c.pending_admin_restore is None,
            c.multisig.config is None,
            c.multisig.proposals@.len() == 0,
            c.multisig.proposal_counter == 0,
            !c.multisig.paused,
            c.monitoring.operation_count == 0,
            c.monitoring.unique_users == 0,
            c.monitoring.error_count == 0,
            c.monitoring.last_operation_ts == 0,
            c.monitoring.tracked_users@.len() == 0,
            c.monitoring.perf@.len() == 0,
    {
        GrainlifyContract {
            admin: None,
            version: None,
            previous_version: None,
            read_only: None,
            migration_state: None,
            chain_id: None,
            network_id: None,
            timelock_delay: None,
            upgrade_timelocks: KeyedU64::new(),
            upgrade_proposals: KeyedU64::new(),
            upgrade_proposers: KeyedU64::new(),
            snapshots: Vec::new(),
            snapshot_counter: 0,
            pending_admin_restore: None,
            multisig: MultiSig::new(),
            monitoring: Monitoring::new(),
        }
    }

    /// One-time initialisation at `now`: records the admin and the initial
    /// version, turns read-only mode off and tracks one operation by the
    /// admin at `now`.  Refused, with storage unchanged, once a version is
    /// set.  Returns the build-information event to announce.  The caller
    /// authorises `admin` beforehand.
    pub fn init_admin(&mut self, admin: Address, now: u64) -> (r: Result<BuildInfoEvent, CoreFailure>)
        ensures
            r == (if old(self).version is Some {
                Err(CoreFailure::Code(ContractError::AlreadyInitialized))
            } else {
                Ok((BuildInfoEvent { admin, version: VERSION, timestamp: now }))
            }),
            r is Err ==> *final(self) == *old(self),
            r is Ok ==> *final(self) == (GrainlifyContract {
                admin: Some(admin),
                version: Some(VERSION),
                read_only: Some(false),
                monitoring: final(self).monitoring,
                ..*old(self)
            }),
            r is Ok ==> operation_tracked(&old(self).monitoring, &final(self).monitoring, admin, true, now)
                && final(self).monitoring.perf == old(self).monitoring.perf,
    {
        if self.version.is_some() {
            return Err(CoreFailure::Code(ContractError::AlreadyInitialized));
        }
        self.admin = Some(admin);
        self.version = Some(VERSION);
        self.read_only = Some(false);
        track_operation(&mut self.monitoring, Symbol { code: OP_INIT }, admin, true, now);
        Ok(BuildInfoEvent { admin, version: VERSION, timestamp: now })
    }

    /// The effective timelock delay (one day unless set).
    pub fn get_timelock_delay(&self) -> (r: u64)
        ensures
            r == delay_of(self),
    {
        match self.timelock_delay {
            Some(d) => d,
            None => DEFAULT_TIMELOCK_DELAY,
        }
    }

    /// The admin sets the timelock delay.  Refused, with storage unchanged,
    /// when no admin is set, in read-only mode, or when the delay is under
    /// one hour or over thirty days.  Returns the previous delay.
    pub fn set_timelock_delay(&mut self, delay_seconds: u64) -> (r: Result<u64, CoreFailure>)
        ensures
            r == (if old(self).admin is None {
                Err(CoreFailure::Code(ContractError::NotInitialized))
            } else if read_only_of(old(self)) {
                Err(CoreFailure::ReadOnly)
            } else if delay_seconds < MIN_TIMELOCK_DELAY {
                Err(CoreFailure::TimelockTooShort)
            } else if delay_seconds > MAX_TIMELOCK_DELAY {
                Err(CoreFailure::TimelockTooLong)
            } else {
                Ok(delay_of(old(self)))
            }),
            r is Err ==> *final(self) == *old(self),
            r is Ok ==> final(self).timelock_delay == Some(delay_seconds) && final(self).admin == old(self).admin
                && final(self).version == old(self).version && final(self).read_only == old(self).read_only,
    {
        if self.admin.is_none() {
            return Err(CoreFailure::Code(ContractError::NotInitialized));
        }
        if self.is_read_only() {
            return Err(CoreFailure::ReadOnly);
        }
        if delay_seconds < MIN_TIMELOCK_DELAY {
            return Err(CoreFailure::TimelockTooShort);
        }
        if delay_seconds > MAX_TIMELOCK_DELAY {
            return Err(CoreFailure::TimelockTooLong);
        }
        let old_delay: u64 = self.get_timelock_delay();
        self.timelock_delay = Some(delay_seconds);
        Ok(old_delay)
    }

    /// Seconds left on the timelock of a proposal at `now` (0 once elapsed),
    /// or `None` when no timelock was started.
    pub fn get_timelock_status(&self, proposal_id: u64, now: u64) -> (r: Option<u64>)
        ensures
            r == match kget(self.upgrade_timelocks.entries@, proposal_id) {
                None => None,
                Some(start) => {
                    let elapsed = if now >= start {
                        now - start
                    } else {
                        0
                    };
                    if elapsed >= delay_of(self) {
                        Some(0u64)
                    } else {
                        Some((delay_of(self) - elapsed) as u64)
                    }
                },
            },
    {
        match self.upgrade_timelocks.get(proposal_id) {
            Some(start) => {
                let delay: u64 = self.get_timelock_delay();
                let elapsed: u64 = now.saturating_sub(start);
                if elapsed >= delay {
                    Some(0)
                } else {
                    Some(delay.saturating_sub(elapsed))
                }
            },
            None => None,
        }
    }

    /// The current version (0 before initialisation).
    pub fn get_version(&self) -> (r: u32)
        ensures
            r == match self.version {
                Some(v) => v,
                None => 0u32,
            },
    {
        match self.version {
            Some(v) => v,
            None => 0,
        }
    }

    /// The admin, if set.
    pub fn get_admin(&self) -> (r: Option<Address>)
        ensures
            r == self.admin,
    {
        self.admin
    }

    /// Whether this build carries the strict-mode checks.
    pub fn is_strict_mode(&self) -> (r: bool)
        ensures
            r == strict_mode::STRICT_MODE_ENABLED,
    {
        strict_mode::is_enabled()
    }

    /// The version in `major * 10 000 + minor * 100 + patch` form: a version
    /// under 10 000 is a bare major version and is scaled.
    pub fn get_version_numeric_encoded(&self) -> (r: u32)
        ensures
            r == encoded_version(match self.version {
                Some(v) => v,
                None => 0u32,
            }),
    {
        encode_version(self.get_version())
    }

    /// Checks that the encoded version is at least `min_numeric`.  Refused
    /// when the contract has no version or it is lower.
    pub fn require_min_version(&self, min_numeric: u32) -> (r: Result<(), CoreFailure>)
        ensures
            r == (if encoded_version(match self.version {
                Some(v) => v,
                None => 0u32,
            }) == 0 {
                Err(CoreFailure::Code(ContractError::NotInitialized))
            } else if encoded_version(match self.version {
                Some(v) => v,
                None => 0u32,
            }) < min_numeric {
                Err(CoreFailure::VersionTooLow)
            } else {
                Ok(())
            }),
    {
        let cur: u32 = self.get_version_numeric_encoded();
        if cur == 0 {
            return Err(CoreFailure::Code(ContractError::NotInitialized));
        }
        if cur < min_numeric {
            return Err(CoreFailure::VersionTooLow);
        }
        Ok(())
    }

    /// Whether read-only mode is on.
    pub fn is_read_only(&self) -> (r: bool)
        ensures
            r == read_only_of(self),
    {
        match self.read_only {
            Some(b) => b,
            None => false,
        }
    }

    /// The admin turns read-only mode on or off at `now` (allowed in
    /// read-only mode).  Refused, with storage unchanged, when no admin is
    /// set.  Returns the event to announce.  The caller authorises the admin
    /// beforehand.
    pub fn set_read_only_mode(&mut self, enabled: bool, now: u64) -> (r: Result<ReadOnlyModeEvent, CoreFailure>)
        ensures
            r == (match old(self).admin {
                None => Err(CoreFailure::Code(ContractError::NotInitialized)),
                Some(a) => Ok((ReadOnlyModeEvent { enabled, admin: a, timestamp: now })),
            }),
            r is Err ==> *final(self) == *old(self),
            r is Ok ==> *final(self) == (GrainlifyContract { read_only: Some(enabled), ..*old(self) }),
    {
        let admin: Address = match self.admin {
            None => {
                return Err(CoreFailure::Code(ContractError::NotInitialized));
            },
            Some(a) => a,
        };
        self.read_only = Some(enabled);
        Ok(ReadOnlyModeEvent { enabled, admin, timestamp: now })
    }

    /// The stored chain id, if any.
    pub fn get_chain_id(&self) -> (r: Option<String>)
        ensures
            r == self.chain_id,
    {
        match &self.chain_id {
            Some(s) => Some(s.clone()),
            None => None,
        }
    }

    /// The stored network id, if any.
    pub fn get_network_id(&self) -> (r: Option<String>)
        ensures
            r == self.network_id,
    {
        match &self.network_id {
            Some(s) => Some(s.clone()),
            None => None,
        }
    }

    /// The stored chain and network ids.
    pub fn get_network_info(&self) -> (r: (Option<String>, Option<String>))
        ensures
            r == (self.chain_id, self.network_id),
    {
        (self.get_chain_id(), self.get_network_id())
    }

    /// Whether the admin and the version are both stored.
    pub fn verify_storage_layout(&self) -> (r: bool)
        ensures
            r == (self.admin is Some && self.version is Some),
    {
        self.admin.is_some() && self.version.is_some()
    }

    /// The last migration's record, if any.
    pub fn get_migration_state(&self) -> (r: Option<MigrationState>)
        ensures
            r == self.migration_state,
    {
        self.migration_state
    }

    /// The version before the last upgrade, if recorded.
    pub fn get_previous_version(&self) -> (r: Option<u32>)
        ensures
            r == self.previous_version,
    {
        self.previous_version
    }

    /// A multisig signer pauses execution.
    pub fn pause(&mut self, signer: Address) -> (r: Result<(), MultiSigError>)
        requires
            old(self).multisig.config is Some,
        ensures
            r is Err <==> !crate::multisig::is_signer(&old(self).multisig, signer),
            r is Err ==> *final(self) == *old(self),
            r is Ok ==> final(self).multisig.paused && final(self).multisig.config == old(self).multisig.config
                && final(self).multisig.proposals == old(self).multisig.proposals,
    {
        self.multisig.pause(signer)
    }

    /// A multisig signer resumes execution.
    pub fn unpause(&mut self, signer: Address) -> (r: Result<(), MultiSigError>)
        requires
            old(self).multisig.config is Some,
        ensures
            r is Err <==> !crate::multisig::is_signer(&old(self).multisig, signer),
            r is Err ==> *final(self) == *old(self),
            r is Ok ==> !final(self).multisig.paused && final(self).multisig.config == old(self).multisig.config
                && final(self).multisig.proposals == old(self).multisig.proposals,
    {
        self.multisig.unpause(signer)
    }

    /// Whether multisig execution is paused.
    pub fn is_paused(&self) -> (r: bool)
        ensures
            r == self.multisig.paused,
    {
        self.multisig.is_contract_paused()
    }

    /// Whether a multisig proposal may execute at `now`.
    pub fn can_execute(&self, proposal_id: u64, now: u64) -> (r: bool)
        requires
            can_execute_defined(&self.multisig, proposal_id),
        ensures
            r == executable(&self.multisig, proposal_id, now),
    {
        self.multisig.can_execute(proposal_id, now)
    }
}

/// The stored version, or 1 when none is stored: the version an upgrade
/// records as the previous one.
pub open spec fn version_or_one(c: &GrainlifyContract) -> u32 {
    match c.version {
        Some(v) => v,
        None => 1u32,
    }
}

/// What the admin gate of a configuration change decides.
pub open spec fn admin_gate(c: &GrainlifyContract) -> Result<Address, CoreFailure> {
    match c.admin {
        None => Err(CoreFailure::Code(ContractError::NotInitialized)),
        Some(a) => if read_only_of(c) {
            Err(CoreFailure::ReadOnly)
        } else {
            Ok(a)
        },
    }
}

/// Seconds elapsed since `start` at `now` (0 when `now` is earlier).
pub open spec fn elapsed_since(start: u64, now: u64) -> u64 {
    if now >= start {
        (now - start) as u64
    } else {
        0
    }
}

/// What the multisig decides when an upgrade proposal is executed: the
/// proposal must exist, not be executed yet, and be executable at `now`;
/// without a configuration an unpaused multisig cannot judge at all.
pub open spec fn multisig_execution(ms: &MultiSig, id: u64, now: u64) -> Result<(), CoreFailure> {
    match proposal_at(ms, id) {
        None => Err(CoreFailure::MultiSig(MultiSigError::ProposalNotFound)),
        Some(p) => if p.executed {
            Err(CoreFailure::MultiSig(MultiSigError::AlreadyExecuted))
        } else if !ms.paused && ms.config is None {
            Err(CoreFailure::MultiSigNotInitialized)
        } else if !executable(ms, id, now) {
            Err(CoreFailure::MultiSig(MultiSigError::ThresholdNotMet))
        } else {
            Ok(())
        },
    }
}

/// What `execute_upgrade` decides: the timelock must have been started and
/// have elapsed, a WASM hash must be recorded for the proposal, and the
/// multisig must let the proposal execute.  Yields the hash to install.
pub open spec fn execute_upgrade_outcome(c: &GrainlifyContract, id: u64, now: u64) -> Result<Hash32, CoreFailure> {
    match kget(c.upgrade_timelocks.entries@, id) {
        None => Err(CoreFailure::TimelockNotStarted),
        Some(start) => if elapsed_since(start, now) < delay_of(c) {
            Err(CoreFailure::TimelockPending((delay_of(c) - elapsed_since(start, now)) as u64))
        } else {
            match kget(c.upgrade_proposals.entries@, id) {
                None => Err(CoreFailure::MissingUpgradeProposal),
                Some(h) => match multisig_execution(&c.multisig, id, now) {
                    Err(e) => Err(e),
                    Ok(()) => Ok(h),
                },
            }
        },
    }
}

/// `c2` is `c1` after the multisig upgrade proposal `id` was executed at
/// `now` by the contract `contract`: the previous version is recorded, the
/// proposal is marked executed, its timelock is cleared, and the call is
/// tracked; nothing else changes.
pub open spec fn upgrade_executed(
    c1: &GrainlifyContract,
    c2: &GrainlifyContract,
    id: u64,
    now: u64,
    contract: Address,
) -> bool {
    &&& *c2 == GrainlifyContract {
        previous_version: Some(version_or_one(c1)),
        upgrade_timelocks: c2.upgrade_timelocks,
        multisig: c2.multisig,
        monitoring: c2.monitoring,
        ..*c1
    }
    &&& kget(c2.upgrade_timelocks.entries@, id) is None
    &&& forall|k: u64| k != id ==> #[trigger] kget(c2.upgrade_timelocks.entries@, k) == kget(
        c1.upgrade_timelocks.entries@,
        k,
    )
    &&& ms_proposal_set(
        &c1.multisig,
        &c2.multisig,
        id,
        ProposalView { executed: true, ..proposal_at(&c1.multisig, id)->0 },
    )
    &&& call_recorded(&c1.monitoring, &c2.monitoring, Symbol { code: OP_EXECUTE_UPGRADE }, contract, true, 0, now)
}

/// What `upgrade` returns: the admin gate's refusal, or the event that
/// announces `hash` replacing the stored version (1 when none) at `now`.
pub open spec fn upgrade_outcome(c: &GrainlifyContract, hash: Hash32, now: u64) -> Result<UpgradeEvent, CoreFailure> {
    match admin_gate(c) {
        Err(e) => Err(e),
        Ok(_) => Ok(UpgradeEvent { new_wasm_hash: hash, previous_version: version_or_one(c), timestamp: now }),
    }
}

/// `c2` is `c1` after an admin upgrade at `now`: the previous version is
/// recorded and the call is tracked for the admin; nothing else changes.
pub open spec fn upgrade_applied(c1: &GrainlifyContract, c2: &GrainlifyContract, now: u64) -> bool {
    &&& *c2 == GrainlifyContract {
        previous_version: Some(version_or_one(c1)),
        monitoring: c2.monitoring,
        ..*c1
    }
    &&& call_recorded(&c1.monitoring, &c2.monitoring, Symbol { code: OP_UPGRADE }, c1.admin->0, true, 0, now)
}

/// `c2` is `c1` after the admin set the version to `v` at `now`: the call
/// is tracked for the admin; nothing else changes.
pub open spec fn version_applied(c1: &GrainlifyContract, c2: &GrainlifyContract, v: u32, now: u64) -> bool {
    &&& *c2 == GrainlifyContract { version: Some(v), monitoring: c2.monitoring, ..*c1 }
    &&& call_recorded(&c1.monitoring, &c2.monitoring, Symbol { code: OP_SET_VERSION }, c1.admin->0, true, 0, now)
}

/// What `execute_upgrade` returns: the refusal, or the event that announces
/// the recorded hash replacing the stored version (1 when none) at `now`.
pub open spec fn execute_upgrade_result(c: &GrainlifyContract, id: u64, now: u64) -> Result<UpgradeEvent, CoreFailure> {
    match execute_upgrade_outcome(c, id, now) {
        Err(e) => Err(e),
        Ok(h) => Ok(UpgradeEvent { new_wasm_hash: h, previous_version: version_or_one(c), timestamp: now }),
    }
}

impl GrainlifyContract {
    /// Single-admin upgrade: records the current version (1 when none is
    /// stored) as the previous version and tracks the call.  Refused, with
    /// storage unchanged, when no admin is set or in read-only mode.  Returns
    /// the event to announce; the caller authorises the admin beforehand
    /// and installs `new_wasm_hash` afterwards.  Ledger time does not
    /// advance within one invocation, so the call is timed at 0 seconds.
    pub fn upgrade(&mut self, new_wasm_hash: Hash32, now: u64) -> (r: Result<UpgradeEvent, CoreFailure>)
        ensures
            r == upgrade_outcome(old(self), new_wasm_hash, now),
            r is Err ==> *final(self) == *old(self),
            r is Ok ==> upgrade_applied(old(self), final(self), now),
    {
        let admin: Address = match self.admin {
            None => {
                return Err(CoreFailure::Code(ContractError::NotInitialized));
            },
            Some(a) => a,
        };
        if self.is_read_only() {
            return Err(CoreFailure::ReadOnly);
        }
        let current_version: u32 = match self.version {
            Some(v) => v,
            None => 1,
        };
        self.previous_version = Some(current_version);
        record_call(&mut self.monitoring, Symbol { code: OP_UPGRADE }, admin, true, 0, now);
        Ok(UpgradeEvent { new_wasm_hash, previous_version: current_version, timestamp: now })
    }

    /// The admin sets the version and the call is tracked.  Refused, with
    /// storage unchanged, when no admin is set or in read-only mode.
    pub fn set_version(&mut self, new_version: u32, now: u64) -> (r: Result<(), CoreFailure>)
        ensures
            r == (match admin_gate(old(self)) {
                Err(e) => Err(e),
                Ok(_) => Ok(()),
            }),
            r is Err ==> *final(self) == *old(self),
            r is Ok ==> version_applied(old(self), final(self), new_version, now),
    {
        let admin: Address = match self.admin {
            None => {
                return Err(CoreFailure::Code(ContractError::NotInitialized));
            },
            Some(a) => a,
        };
        if self.is_read_only() {
            return Err(CoreFailure::ReadOnly);
        }
        self.version = Some(new_version);
        record_call(&mut self.monitoring, Symbol { code: OP_SET_VERSION }, admin, true, 0, now);
        Ok(())
    }

    /// Executes a multisig-approved upgrade once its timelock has elapsed:
    /// records the current version (1 when none is stored) as the previous
    /// version, marks the proposal executed, clears its timelock and tracks
    /// the call as made by `contract`, the contract's own address.  Refused,
    /// with storage unchanged, as `execute_upgrade_outcome` says.  Returns
    /// the event to announce; the caller installs its hash.
    pub fn execute_upgrade(&mut self, proposal_id: u64, now: u64, contract: Address) -> (r: Result<UpgradeEvent, CoreFailure>)
        ensures
            r == execute_upgrade_result(old(self), proposal_id, now),
            r is Err ==> *final(self) == *old(self),
            r is Ok ==> upgrade_executed(old(self), final(self), proposal_id, now, contract),
    {
        let start: u64 = match self.upgrade_timelocks.get(proposal_id) {
            None => {
                return Err(CoreFailure::TimelockNotStarted);
            },
            Some(t) => t,
        };
        let delay: u64 = self.get_timelock_delay();
        let elapsed: u64 = now.saturating_sub(start);
        if elapsed < delay {
            return Err(CoreFailure::TimelockPending(delay - elapsed));
        }
        let hash: Hash32 = match self.upgrade_proposals.get(proposal_id) {
            None => {
                return Err(CoreFailure::MissingUpgradeProposal);
            },
            Some(h) => h,
        };
        match self.multisig.get_proposal_opt(proposal_id) {
            None => {
                return Err(CoreFailure::MultiSig(MultiSigError::ProposalNotFound));
            },
            Some(p) => {
                if p.executed {
                    return Err(CoreFailure::MultiSig(MultiSigError::AlreadyExecuted));
                }
                if !self.multisig.paused && self.multisig.config.is_none() {
                    return Err(CoreFailure::MultiSigNotInitialized);
                }
            },
        }
        match self.multisig.mark_executed(proposal_id, now) {
            Err(e) => {
                return Err(CoreFailure::MultiSig(e));
            },
            Ok(()) => {},
        }
        let current_version: u32 = match self.version {
            Some(v) => v,
            None => 1,
        };
        self.previous_version = Some(current_version);
        self.upgrade_timelocks.remove(proposal_id);
        record_call(&mut self.monitoring, Symbol { code: OP_EXECUTE_UPGRADE }, contract, true, 0, now);
        Ok(UpgradeEvent { new_wasm_hash: hash, previous_version: current_version, timestamp: now })
    }
}

/// An executed upgrade proposal cannot be executed again: its timelock is
/// gone, so a second execution is refused at any later time.
pub proof fn law_upgrade_executes_once(
    c1: &GrainlifyContract,
    c2: &GrainlifyContract,
    id: u64,
    now: u64,
    contract: Address,
    later: u64,
)
    requires
        upgrade_executed(c1, c2, id, now, contract),
    ensures
        execute_upgrade_outcome(c2, id, later) == Err::<Hash32, CoreFailure>(CoreFailure::TimelockNotStarted),
{
}

/// A multisig upgrade only executes once its timelock has run for the full
/// delay, a WASM hash is recorded for it, and the multisig would execute it:
/// not paused, the proposal neither executed, cancelled nor expired, and
/// approved by at least the threshold of signers.
pub proof fn law_upgrade_needs_timelock_and_approvals(c: &GrainlifyContract, id: u64, now: u64)
    requires
        execute_upgrade_outcome(c, id, now) is Ok,
    ensures
        kget(c.upgrade_timelocks.entries@, id) matches Some(start) && elapsed_since(start, now) >= delay_of(c),
        kget(c.upgrade_proposals.entries@, id) is Some,
        !c.multisig.paused,
        c.multisig.config is Some,
        proposal_at(&c.multisig, id) matches Some(p) && !p.executed && !p.cancelled && !crate::multisig::expired(
            p,
            now,
        ) && p.approvals.len() >= c.multisig.config->0.threshold,
{
}

/// The values of the retained snapshots, oldest first.
pub open spec fn snaps(c: &GrainlifyContract) -> Seq<SnapshotView> {
    snap_views(c.snapshots@)
}

/// The values of a sequence of snapshots.
pub open spec fn snap_views(v: Seq<CoreConfigSnapshot>) -> Seq<SnapshotView> {
    v.map_values(|x: CoreConfigSnapshot| sview(x))
}

/// Snapshots keyed by their id.
pub open spec fn snap_entries(s: Seq<SnapshotView>) -> Seq<(u64, SnapshotView)> {
    s.map_values(|v: SnapshotView| (v.id, v))
}

/// The retained snapshot with id `id` (the first one, should ids repeat).
pub open spec fn snapshot_by_id(c: &GrainlifyContract, id: u64) -> Option<SnapshotView> {
    kget(snap_entries(snaps(c)), id)
}

/// The snapshot of the current configuration under id `id` at `now`: the
/// admin, the version (0 when none), the previous version, and the
/// multisig threshold and signers (0 and none without a configuration).
pub open spec fn current_snapshot(c: &GrainlifyContract, id: u64, now: u64) -> SnapshotView {
    SnapshotView {
        id,
        timestamp: now,
        admin: c.admin,
        version: match c.version {
            Some(v) => v,
            None => 0u32,
        },
        previous_version: c.previous_version,
        multisig_threshold: match c.multisig.config {
            Some(cfg) => cfg.threshold,
            None => 0u32,
        },
        multisig_signers: match c.multisig.config {
            Some(cfg) => cfg.signers@,
            None => Seq::<Address>::empty(),
        },
    }
}

/// The history after a snapshot was appended: the oldest one is dropped once
/// more than twenty are held.
pub open spec fn retain_latest(s: Seq<SnapshotView>) -> Seq<SnapshotView> {
    if s.len() > CONFIG_SNAPSHOT_LIMIT {
        s.drop_first()
    } else {
        s
    }
}

/// `c2` is `c1` after a snapshot of its configuration was taken at `now`
/// under the next id; nothing else changes.
pub open spec fn snapshot_taken(c1: &GrainlifyContract, c2: &GrainlifyContract, now: u64) -> bool {
    let id = (c1.snapshot_counter + 1) as u64;
    &&& *c2 == GrainlifyContract { snapshots: c2.snapshots, snapshot_counter: id, ..*c1 }
    &&& snaps(c2) == retain_latest(snaps(c1).push(current_snapshot(c1, id, now)))
}

/// A snapshot history as the contract keeps it: at most twenty snapshots,
/// in increasing id order, none newer than the id counter.
pub open spec fn snapshots_wf(s: Seq<SnapshotView>, counter: u64) -> bool {
    &&& s.len() <= CONFIG_SNAPSHOT_LIMIT
    &&& forall|i: int, j: int| 0 <= i < j < s.len() ==> s[i].id < s[j].id
    &&& forall|i: int| 0 <= i < s.len() ==> s[i].id <= counter
}

/// Taking a snapshot keeps the history bounded and ordered, and the new
/// snapshot becomes the latest.
pub proof fn law_snapshot_history_bounded(s: Seq<SnapshotView>, counter: u64, v: SnapshotView)
    requires
        snapshots_wf(s, counter),
        counter < u64::MAX,
        v.id == counter + 1,
    ensures
        snapshots_wf(retain_latest(s.push(v)), (counter + 1) as u64),
        retain_latest(s.push(v)).last() == v,
{
    let p = s.push(v);
    assert forall|i: int, j: int| 0 <= i < j < p.len() implies p[i].id < p[j].id by {
        if j == p.len() - 1 {
            assert(p[i] == s[i]);
        } else {
            assert(p[i] == s[i] && p[j] == s[j]);
        }
    }
    assert forall|i: int| 0 <= i < p.len() implies p[i].id <= counter + 1 by {
        if i < s.len() {
            assert(p[i] == s[i]);
        }
    }
    if p.len() > CONFIG_SNAPSHOT_LIMIT {
        let d = p.drop_first();
        assert forall|i: int, j: int| 0 <= i < j < d.len() implies d[i].id < d[j].id by {
            assert(d[i] == p[i + 1] && d[j] == p[j + 1]);
        }
        assert forall|i: int| 0 <= i < d.len() implies d[i].id <= counter + 1 by {
            assert(d[i] == p[i + 1]);
        }
    }
}

/// A copy of a snapshot.
fn copy_snapshot(s: &CoreConfigSnapshot) -> (r: CoreConfigSnapshot)
    ensures
        sview(r) == sview(*s),
{
    CoreConfigSnapshot {
        id: s.id,
        timestamp: s.timestamp,
        admin: s.admin,
        version: s.version,
        previous_version: s.previous_version,
        multisig_threshold: s.multisig_threshold,
        multisig_signers: copy_addresses(&s.multisig_signers),
    }
}

/// What two snapshots differ in.
pub open spec fn snapshot_diff(from_id: u64, to_id: u64, f: SnapshotView, t: SnapshotView) -> SnapshotDiff {
    SnapshotDiff {
        from_id,
        to_id,
        admin_changed: f.admin != t.admin,
        version_changed: f.version != t.version,
        previous_version_changed: f.previous_version != t.previous_version,
        multisig_threshold_changed: f.multisig_threshold != t.multisig_threshold,
        multisig_signers_changed: f.multisig_signers != t.multisig_signers,
        from_version: f.version,
        to_version: t.version,
    }
}

/// Comparing two snapshots reports each field as changed exactly when the
/// two snapshots hold different values for it, and reports their ids and
/// versions as they are.
pub proof fn law_snapshot_diff_reports_differences(from_id: u64, to_id: u64, f: SnapshotView, t: SnapshotView)
    ensures
        ({
            let d = snapshot_diff(from_id, to_id, f, t);
            &&& d.from_id == from_id
            &&& d.to_id == to_id
            &&& d.admin_changed <==> f.admin != t.admin
            &&& d.version_changed <==> f.version != t.version
            &&& d.previous_version_changed <==> f.previous_version != t.previous_version
            &&& d.multisig_threshold_changed <==> f.multisig_threshold != t.multisig_threshold
            &&& d.multisig_signers_changed <==> f.multisig_signers != t.multisig_signers
            &&& d.from_version == f.version
            &&& d.to_version == t.version
        }),
{
}

impl GrainlifyContract {
    /// Index of the retained snapshot with id `id`.
    fn find_snapshot(&self, id: u64) -> (r: Option<usize>)
        ensures
            r matches Some(i) ==> i < self.snapshots@.len() && snapshot_by_id(self, id) == Some(
                sview(self.snapshots@[i as int]),
            ),
            r is None ==> snapshot_by_id(self, id) is None,
    {
        let ghost es = snap_entries(snaps(self));
        let mut i: usize = 0;
        while i < self.snapshots.len()
            invariant
                0 <= i <= self.snapshots@.len(),
                es == snap_entries(snaps(self)),
                es.len() == self.snapshots@.len(),
                forall|j: int| 0 <= j < i ==> (#[trigger] es[j]).0 != id,
            decreases self.snapshots@.len() - i,
        {
            assert(es[i as int].0 == self.snapshots@[i as int].id);
            if self.snapshots[i].id == id {
                proof {
                    lemma_kindex_is(es, id, i as int);
                }
                return Some(i);
            }
            i = i + 1;
        }
        proof {
            lemma_kindex_char(es, id);
        }
        None
    }

    /// The admin snapshots the current configuration at `now` under the
    /// next id, which it returns; the oldest snapshot is dropped once more
    /// than twenty are held.  Refused, with storage unchanged, when no
    /// admin is set.  The caller authorises the admin beforehand.
    pub fn create_config_snapshot(&mut self, now: u64) -> (r: Result<u64, CoreFailure>)
        requires
            old(self).snapshot_counter < u64::MAX,
            snapshots_wf(snaps(old(self)), old(self).snapshot_counter),
        ensures
            r == (if old(self).admin is None {
                Err(CoreFailure::Code(ContractError::NotInitialized))
            } else {
                Ok((old(self).snapshot_counter + 1) as u64)
            }),
            r is Err ==> *final(self) == *old(self),
            r is Ok ==> snapshot_taken(old(self), final(self), now),
            r matches Ok(id) ==> snapshot_by_id(final(self), id) == Some(current_snapshot(old(self), id, now)),
            snapshots_wf(snaps(final(self)), final(self).snapshot_counter),
    {
        if self.admin.is_none() {
            return Err(CoreFailure::Code(ContractError::NotInitialized));
        }
        let next_id: u64 = self.snapshot_counter + 1;
        let (threshold, signers): (u32, Vec<Address>) = match &self.multisig.config {
            Some(cfg) => (cfg.threshold, copy_addresses(&cfg.signers)),
            None => (0, Vec::new()),
        };
        let version: u32 = match self.version {
            Some(v) => v,
            None => 0,
        };
        let snap = CoreConfigSnapshot {
            id: next_id,
            timestamp: now,
            admin: self.admin,
            version,
            previous_version: self.previous_version,
            multisig_threshold: threshold,
            multisig_signers: signers,
        };
        let ghost before = self.snapshots@;
        self.snapshots.push(snap);
        assert(snaps(self) =~= snaps(old(self)).push(current_snapshot(old(self), next_id, now)));
        if self.snapshots.len() > CONFIG_SNAPSHOT_LIMIT {
            let ghost pushed = snaps(self);
            self.snapshots.remove(0);
            assert(snaps(self) =~= pushed.drop_first());
        }
        self.snapshot_counter = next_id;
        proof {
            law_snapshot_history_bounded(snaps(old(self)), old(self).snapshot_counter, current_snapshot(old(self), next_id, now));
            law_snapshot_reads_back(old(self), self, now);
        }
        Ok(next_id)
    }

    /// Copies of the retained snapshots, oldest first.
    pub fn list_config_snapshots(&self) -> (r: Vec<CoreConfigSnapshot>)
        ensures
            snap_views(r@) == snaps(self),
    {
        let mut r: Vec<CoreConfigSnapshot> = Vec::new();
        let mut i: usize = 0;
        while i < self.snapshots.len()
            invariant
                0 <= i <= self.snapshots@.len(),
                r@.len() == i,
                snap_views(r@) == snaps(self).take(i as int),
            decreases self.snapshots@.len() - i,
        {
            let c = copy_snapshot(&self.snapshots[i]);
            let ghost before = r@;
            r.push(c);
            proof {
                assert forall|k: int| 0 <= k < i + 1 implies #[trigger] snap_views(r@)[k] == snaps(self).take(
                    i + 1,
                )[k] by {
                    if k < i {
                        assert(r@[k] == before[k]);
                        assert(snap_views(before)[k] == snaps(self).take(i as int)[k]);
                    }
                }
                assert(snap_views(r@) =~= snaps(self).take(i + 1));
            }
            i = i + 1;
        }
        assert(snaps(self).take(i as int) =~= snaps(self));
        r
    }

    /// A copy of the retained snapshot with id `snapshot_id`, if any.
    pub fn get_config_snapshot(&self, snapshot_id: u64) -> (r: Option<CoreConfigSnapshot>)
        ensures
            r is Some <==> snapshot_by_id(self, snapshot_id) is Some,
            r matches Some(x) ==> snapshot_by_id(self, snapshot_id) == Some(sview(x)),
    {
        match self.find_snapshot(snapshot_id) {
            Some(i) => Some(copy_snapshot(&self.snapshots[i])),
            None => None,
        }
    }

    /// A copy of the newest retained snapshot, if any.
    pub fn get_latest_config_snapshot(&self) -> (r: Option<CoreConfigSnapshot>)
        ensures
            r is Some <==> snaps(self).len() > 0,
            r matches Some(x) ==> sview(x) == snaps(self).last(),
    {
        let n: usize = self.snapshots.len();
        if n == 0 {
            return None;
        }
        Some(copy_snapshot(&self.snapshots[n - 1]))
    }

    /// Number of retained snapshots.
    pub fn get_snapshot_count(&self) -> (r: u32)
        requires
            self.snapshots@.len() <= u32::MAX,
        ensures
            r == snaps(self).len(),
    {
        self.snapshots.len() as u32
    }

    /// What the retained snapshots `from_id` and `to_id` differ in.  Refused
    /// when either is not retained.
    pub fn compare_snapshots(&self, from_id: u64, to_id: u64) -> (r: Result<SnapshotDiff, CoreFailure>)
        ensures
            r == (match (snapshot_by_id(self, from_id), snapshot_by_id(self, to_id)) {
                (Some(f), Some(t)) => Ok(snapshot_diff(from_id, to_id, f, t)),
                _ => Err(CoreFailure::SnapshotNotFound),
            }),
    {
        let fi: usize = match self.find_snapshot(from_id) {
            None => {
                return Err(CoreFailure::SnapshotNotFound);
            },
            Some(i) => i,
        };
        let ti: usize = match self.find_snapshot(to_id) {
            None => {
                return Err(CoreFailure::SnapshotNotFound);
            },
            Some(i) => i,
        };
        let f = &self.snapshots[fi];
        let t = &self.snapshots[ti];
        Ok(
            SnapshotDiff {
                from_id,
                to_id,
                admin_changed: f.admin != t.admin,
                version_changed: f.version != t.version,
                previous_version_changed: f.previous_version != t.previous_version,
                multisig_threshold_changed: f.multisig_threshold != t.multisig_threshold,
                multisig_signers_changed: !addresses_equal(&f.multisig_signers, &t.multisig_signers),
                from_version: f.version,
                to_version: t.version,
            },
        )
    }
}

/// A snapshot just taken can be read back by its id, and it holds the
/// configuration at the time it was taken.
pub proof fn law_snapshot_reads_back(c1: &GrainlifyContract, c2: &GrainlifyContract, now: u64)
    requires
        snapshots_wf(snaps(c1), c1.snapshot_counter),
        c1.snapshot_counter < u64::MAX,
        snapshot_taken(c1, c2, now),
    ensures
        snapshot_by_id(c2, (c1.snapshot_counter + 1) as u64) == Some(
            current_snapshot(c1, (c1.snapshot_counter + 1) as u64, now),
        ),
{
    let id = (c1.snapshot_counter + 1) as u64;
    let v = current_snapshot(c1, id, now);
    law_snapshot_history_bounded(snaps(c1), c1.snapshot_counter, v);
    let s = snaps(c2);
    let es = snap_entries(s);
    assert(s.last() == v);
    assert forall|j: int| 0 <= j < es.len() - 1 implies (#[trigger] es[j]).0 != id by {
        assert(s[j].id < s[s.len() - 1].id);
    }
    lemma_kindex_is(es, id, es.len() - 1);
}

/// Whether restoring a snapshot would set a multisig threshold that its
/// signers cannot meet.
pub open spec fn threshold_invalid(s: SnapshotView) -> bool {
    s.multisig_threshold > 0 && s.multisig_threshold > s.multisig_signers.len()
}

/// `c2` is `c1` with the configuration of snapshot `s` applied: its admin,
/// version and previous version, and its multisig threshold and signers
/// (the multisig configuration is removed when the threshold is 0); nothing
/// else changes but the pending admin restore, which callers state.
pub open spec fn snapshot_applied(c1: &GrainlifyContract, c2: &GrainlifyContract, s: SnapshotView) -> bool {
    &&& *c2 == GrainlifyContract {
        admin: s.admin,
        version: Some(s.version),
        previous_version: s.previous_version,
        multisig: c2.multisig,
        pending_admin_restore: c2.pending_admin_restore,
        ..*c1
    }
    &&& c2.multisig == MultiSig { config: c2.multisig.config, ..c1.multisig }
    &&& if s.multisig_threshold > 0 {
        c2.multisig.config matches Some(cfg) && cfg.signers@ == s.multisig_signers && cfg.threshold
            == s.multisig_threshold
    } else {
        c2.multisig.config is None
    }
}

/// What `restore_config_snapshot` decides: an admin must be set and the
/// snapshot retained; a snapshot with another admin must name one (it then
/// awaits that admin's confirmation), and one applied at once must carry a
/// threshold its signers can meet.
pub open spec fn restore_outcome(c: &GrainlifyContract, id: u64) -> Result<(), CoreFailure> {
    if c.admin is None {
        Err(CoreFailure::Code(ContractError::NotInitialized))
    } else {
        match snapshot_by_id(c, id) {
            None => Err(CoreFailure::SnapshotNotFound),
            Some(s) => if s.admin != c.admin {
                if s.admin is None {
                    Err(CoreFailure::SnapshotHasNoAdmin)
                } else {
                    Ok(())
                }
            } else if threshold_invalid(s) {
                Err(CoreFailure::MultiSig(MultiSigError::InvalidThreshold))
            } else {
                Ok(())
            },
        }
    }
}

/// The pending restore that an admin-changing restore of snapshot `s`
/// (id `id`) records at `now`: it expires a day later (saturating).
pub open spec fn pending_for(id: u64, s: SnapshotView, now: u64) -> PendingAdminRestore {
    PendingAdminRestore {
        snapshot_id: id,
        proposed_admin: s.admin->0,
        initiated_at: now,
        expires_at: sat_add(now, DEFAULT_TIMELOCK_DELAY),
    }
}

/// What `confirm_admin_restore` decides: a restore must be pending for this
/// snapshot and not have expired at `now`, and the snapshot must still be
/// retained and carry a threshold its signers can meet.
pub open spec fn confirm_outcome(c: &GrainlifyContract, id: u64, now: u64) -> Result<(), CoreFailure> {
    match c.pending_admin_restore {
        None => Err(CoreFailure::NoPendingRestore),
        Some(p) => if p.snapshot_id != id {
            Err(CoreFailure::PendingRestoreMismatch)
        } else if now > p.expires_at {
            Err(CoreFailure::PendingRestoreExpired)
        } else {
            match snapshot_by_id(c, id) {
                None => Err(CoreFailure::SnapshotNotFound),
                Some(s) => if threshold_invalid(s) {
                    Err(CoreFailure::MultiSig(MultiSigError::InvalidThreshold))
                } else {
                    Ok(())
                },
            }
        },
    }
}

impl GrainlifyContract {
    /// Applies the configuration of the retained snapshot at index `i`.
    fn apply_snapshot_restore(&mut self, i: usize)
        requires
            i < old(self).snapshots@.len(),
            !threshold_invalid(sview(old(self).snapshots@[i as int])),
        ensures
            snapshot_applied(old(self), final(self), sview(old(self).snapshots@[i as int])),
            final(self).pending_admin_restore == old(self).pending_admin_restore,
    {
        let admin: Option<Address> = self.snapshots[i].admin;
        let version: u32 = self.snapshots[i].version;
        let previous: Option<u32> = self.snapshots[i].previous_version;
        let threshold: u32 = self.snapshots[i].multisig_threshold;
        let signers: Vec<Address> = copy_addresses(&self.snapshots[i].multisig_signers);
        self.admin = admin;
        self.version = Some(version);
        self.previous_version = previous;
        if threshold > 0 {
            let res = self.multisig.set_config(MultiSigConfig { signers, threshold });
            assert(res is Ok);
        } else {
            self.multisig.clear_config();
        }
    }

    /// The admin restores snapshot `snapshot_id` at `now`.  A snapshot with
    /// the current admin is applied at once (`Ok(None)`); one that would
    /// change the admin is not applied but recorded as a restore that the
    /// new admin must confirm within a day (`Ok(Some(pending))`).  Refused,
    /// with storage unchanged, as `restore_outcome` says.  The admin never
    /// changes here.  The caller authorises the admin beforehand.
    pub fn restore_config_snapshot(&mut self, snapshot_id: u64, now: u64) -> (r: Result<
        Option<PendingAdminRestore>,
        CoreFailure,
    >)
        ensures
            r is Ok <==> restore_outcome(old(self), snapshot_id) is Ok,
            r matches Err(e) ==> restore_outcome(old(self), snapshot_id) == Err::<(), CoreFailure>(e)
                && *final(self) == *old(self),
            final(self).admin == old(self).admin,
            r matches Ok(Some(p)) ==> {
                let s = snapshot_by_id(old(self), snapshot_id)->0;
                &&& s.admin != old(self).admin
                &&& p == pending_for(snapshot_id, s, now)
                &&& *final(self) == GrainlifyContract { pending_admin_restore: Some(p), ..*old(self) }
            },
            r matches Ok(None) ==> {
                let s = snapshot_by_id(old(self), snapshot_id)->0;
                &&& s.admin == old(self).admin
                &&& snapshot_applied(old(self), final(self), s)
                &&& final(self).pending_admin_restore == old(self).pending_admin_restore
            },
    {
        if self.admin.is_none() {
            return Err(CoreFailure::Code(ContractError::NotInitialized));
        }
        let i: usize = match self.find_snapshot(snapshot_id) {
            None => {
                return Err(CoreFailure::SnapshotNotFound);
            },
            Some(i) => i,
        };
        let snap_admin: Option<Address> = self.snapshots[i].admin;
        if snap_admin != self.admin {
            let proposed: Address = match snap_admin {
                None => {
                    return Err(CoreFailure::SnapshotHasNoAdmin);
                },
                Some(a) => a,
            };
            let pending = PendingAdminRestore {
                snapshot_id,
                proposed_admin: proposed,
                initiated_at: now,
                expires_at: now.saturating_add(DEFAULT_TIMELOCK_DELAY),
            };
            self.pending_admin_restore = Some(pending);
            return Ok(Some(pending));
        }
        let threshold: u32 = self.snapshots[i].multisig_threshold;
        if threshold > 0 && threshold as usize > self.snapshots[i].multisig_signers.len() {
            return Err(CoreFailure::MultiSig(MultiSigError::InvalidThreshold));
        }
        self.apply_snapshot_restore(i);
        Ok(None)
    }

    /// The proposed admin confirms the pending restore of `snapshot_id` at
    /// `now`: the snapshot is applied and the pending restore cleared.
    /// Refused, with storage unchanged, as `confirm_outcome` says.  The
    /// caller authorises the pending restore's proposed admin beforehand.
    pub fn confirm_admin_restore(&mut self, snapshot_id: u64, now: u64) -> (r: Result<(), CoreFailure>)
        ensures
            r == confirm_outcome(old(self), snapshot_id, now),
            r is Err ==> *final(self) == *old(self),
            r is Ok ==> snapshot_applied(old(self), final(self), snapshot_by_id(old(self), snapshot_id)->0)
                && final(self).pending_admin_restore is None,
    {
        let pending: PendingAdminRestore = match self.pending_admin_restore {
            None => {
                return Err(CoreFailure::NoPendingRestore);
            },
            Some(p) => p,
        };
        if pending.snapshot_id != snapshot_id {
            return Err(CoreFailure::PendingRestoreMismatch);
        }
        if now > pending.expires_at {
            return Err(CoreFailure::PendingRestoreExpired);
        }
        let i: usize = match self.find_snapshot(snapshot_id) {
            None => {
                return Err(CoreFailure::SnapshotNotFound);
            },
            Some(i) => i,
        };
        let threshold: u32 = self.snapshots[i].multisig_threshold;
        if threshold > 0 && threshold as usize > self.snapshots[i].multisig_signers.len() {
            return Err(CoreFailure::MultiSig(MultiSigError::InvalidThreshold));
        }
        self.apply_snapshot_restore(i);
        self.pending_admin_restore = None;
        Ok(())
    }
}

/// Restoring a snapshot that was just taken gives back the configuration
/// it was taken from: admin, version, previous version and multisig
/// configuration.
pub proof fn law_restoring_fresh_snapshot_keeps_configuration(
    c1: &GrainlifyContract,
    c2: &GrainlifyContract,
    c3: &GrainlifyContract,
    now: u64,
)
    requires
        snapshots_wf(snaps(c1), c1.snapshot_counter),
        c1.snapshot_counter < u64::MAX,
        c1.version is Some,
        c1.multisig.config matches Some(cfg) ==> cfg.threshold > 0,
        snapshot_taken(c1, c2, now),
        snapshot_applied(c2, c3, snapshot_by_id(c2, (c1.snapshot_counter + 1) as u64)->0),
    ensures
        c3.admin == c1.admin,
        c3.version == c1.version,
        c3.previous_version == c1.previous_version,
        c3.multisig.config is Some <==> c1.multisig.config is Some,
        c3.multisig.config matches Some(cfg) ==> cfg.signers@ == c1.multisig.config->0.signers@ && cfg.threshold
            == c1.multisig.config->0.threshold,
{
    law_snapshot_reads_back(c1, c2, now);
}

/// The stored version, or 0 when none is stored.
pub open spec fn version_or_zero(c: &GrainlifyContract) -> u32 {
    match c.version {
        Some(v) => v,
        None => 0u32,
    }
}

/// The rollback facts of the contract.
pub open spec fn rollback_info(c: &GrainlifyContract) -> RollbackInfo {
    let prev: u32 = match c.previous_version {
        Some(p) => p,
        None => 0u32,
    };
    let s = snaps(c);
    RollbackInfo {
        current_version: version_or_zero(c),
        previous_version: prev,
        rollback_available: prev > 0,
        has_migration: c.migration_state is Some,
        migration_from_version: match c.migration_state {
            Some(m) => m.from_version,
            None => 0u32,
        },
        migration_to_version: match c.migration_state {
            Some(m) => m.to_version,
            None => 0u32,
        },
        migration_timestamp: match c.migration_state {
            Some(m) => m.migrated_at,
            None => 0u64,
        },
        snapshot_count: s.len() as u32,
        has_snapshot: s.len() > 0,
        latest_snapshot_id: if s.len() > 0 {
            s.last().id
        } else {
            0u64
        },
        latest_snapshot_version: if s.len() > 0 {
            s.last().version
        } else {
            0u32
        },
    }
}

/// The decimal digits of `n` as the version text writes them: a hundreds
/// byte for `n >= 100` (taken from `n / 100` modulo 256, so it is only a
/// digit below 1000), a tens digit for `n >= 10`, and the units digit.
pub open spec fn number_bytes(n: u32) -> Seq<u8> {
    let hundreds: Seq<u8> = if n >= 100 {
        seq![(48 + (n / 100) % 256) as u8]
    } else {
        Seq::<u8>::empty()
    };
    let tens: Seq<u8> = if n >= 10 {
        seq![(48 + (n % 100) / 10) as u8]
    } else {
        Seq::<u8>::empty()
    };
    hundreds + tens + seq![(48 + n % 10) as u8]
}

/// The usual decimal text of `n`: its digits, most significant first, with
/// no leading zero.
pub open spec fn decimal(n: nat) -> Seq<u8>
    decreases n,
{
    if n < 10 {
        seq![(48 + n) as u8]
    } else {
        decimal(n / 10).push((48 + n % 10) as u8)
    }
}

/// Below 1000 the version text writes a number in its usual decimal form,
/// with digits only.
proof fn lemma_number_bytes_decimal(n: u32)
    requires
        n < 1000,
    ensures
        number_bytes(n) == decimal(n as nat),
        forall|i: int| 0 <= i < number_bytes(n).len() ==> 48 <= #[trigger] number_bytes(n)[i] <= 57,
{
    if n < 10 {
        assert(number_bytes(n) =~= seq![(48 + n) as u8]);
    } else if n < 100 {
        let t = (n / 10) as nat;
        assert(t < 10);
        assert((n % 100) / 10 == n / 10);
        assert(decimal(t) =~= seq![(48 + t) as u8]);
        assert(number_bytes(n) =~= seq![(48 + n / 10) as u8, (48 + n % 10) as u8]);
        assert(decimal(n as nat) =~= seq![(48 + n / 10) as u8, (48 + n % 10) as u8]);
    } else {
        let t = (n / 10) as nat;
        let h = (t / 10) as nat;
        assert(10 <= t < 100);
        assert(h == n / 100);
        assert((n / 100) % 256 == n / 100);
        assert(t % 10 == (n % 100) / 10);
        assert(decimal(h) =~= seq![(48 + h) as u8]);
        assert(decimal(t) =~= seq![(48 + h) as u8, (48 + t % 10) as u8]);
        assert(number_bytes(n) =~= seq![(48 + n / 100) as u8, (48 + (n % 100) / 10) as u8, (48 + n % 10) as u8]);
        assert(decimal(n as nat) =~= seq![(48 + n / 100) as u8, (48 + (n % 100) / 10) as u8, (48 + n % 10) as u8]);
    }
}

/// The version text of an encoded version whose major part is below 1000 is
/// `major.minor.patch`, each part in its usual decimal form: 2 gives
/// `2.0.0`, 10 203 gives `1.2.3`.
pub proof fn law_version_text_is_semver(e: u32)
    requires
        e / 10000 < 1000,
    ensures
        semver_bytes(e) == decimal((e / 10000) as nat) + seq![46u8] + decimal(((e % 10000) / 100) as nat) + seq![
            46u8,
        ] + decimal((e % 100) as nat),
{
    let a = e / 10000;
    let b = (e % 10000) / 100;
    let c = e % 100;
    lemma_number_bytes_decimal(a);
    lemma_number_bytes_decimal(b);
    lemma_number_bytes_decimal(c);
    let na = number_bytes(a);
    let nb = number_bytes(b);
    let nc = number_bytes(c);
    let raw = semver_raw(e);
    assert(raw == na + seq![46u8] + nb + seq![46u8] + nc);
    assert forall|i: int| 0 <= i < raw.len() implies raw[i] < 128 by {
        if i < na.len() {
            assert(raw[i] == na[i]);
        } else if i == na.len() {
        } else if i < na.len() + 1 + nb.len() {
            assert(raw[i] == nb[i - na.len() - 1]);
        } else if i == na.len() + 1 + nb.len() {
        } else {
            assert(raw[i] == nc[i - na.len() - 2 - nb.len()]);
        }
    }
}

/// Whether the hundreds byte of `n` fits in a byte.
pub open spec fn number_writable(n: u32) -> bool {
    n >= 100 ==> 48 + (n / 100) % 256 <= 255
}

/// The text `major.minor.patch` of an encoded version, as written.
pub open spec fn semver_raw(e: u32) -> Seq<u8> {
    number_bytes(e / 10000) + seq![46u8] + number_bytes((e % 10000) / 100) + seq![46u8] + number_bytes(e % 100)
}

/// Whether every byte is ASCII.
pub open spec fn all_ascii(b: Seq<u8>) -> bool {
    forall|i: int| 0 <= i < b.len() ==> b[i] < 128
}

/// The version text of an encoded version: `major.minor.patch`, or
/// `0.0.0` when the written bytes are not valid UTF-8.  Every byte after
/// the first is an ASCII digit or dot, so the bytes are valid UTF-8 exactly
/// when they are all ASCII.
pub open spec fn semver_bytes(e: u32) -> Seq<u8> {
    if all_ascii(semver_raw(e)) {
        semver_raw(e)
    } else {
        seq![48u8, 46u8, 48u8, 46u8, 48u8]
    }
}

/// Whether the version text of `c` can be written (its major version's
/// hundreds byte fits in a byte).
pub open spec fn semver_writable(c: &GrainlifyContract) -> bool {
    number_writable(encoded_version(version_or_zero(c)) / 10000)
}

/// Appends the digits of `n` as the version text writes them.
fn push_number(buf: &mut Vec<u8>, n: u32)
    requires
        number_writable(n),
    ensures
        final(buf)@ == old(buf)@ + number_bytes(n),
{
    let ghost start = buf@;
    let ghost hundreds: Seq<u8> = if n >= 100 {
        seq![(48 + (n / 100) % 256) as u8]
    } else {
        Seq::<u8>::empty()
    };
    let ghost tens: Seq<u8> = if n >= 10 {
        seq![(48 + (n % 100) / 10) as u8]
    } else {
        Seq::<u8>::empty()
    };
    if n >= 100 {
        let h: u32 = (n / 100) % 256;
        buf.push(48u8 + h as u8);
    }
    assert(buf@ =~= start + hundreds);
    if n >= 10 {
        let t: u32 = (n % 100) / 10;
        buf.push(48u8 + t as u8);
    }
    assert(buf@ =~= start + hundreds + tens);
    let u: u32 = n % 10;
    buf.push(48u8 + u as u8);
    assert(buf@ =~= old(buf)@ + number_bytes(n));
}

/// Whether the configuration holds together: previous version no newer
/// than the version, and chain and network ids either both set and
/// non-empty or both unset.
pub open spec fn previous_version_sane(c: &GrainlifyContract) -> bool {
    match (c.previous_version, c.version) {
        (Some(p), Some(v)) => p <= v,
        (Some(_), None) => false,
        (None, _) => true,
    }
}

/// Whether the chain and network ids are both set and non-empty, or both
/// unset.
pub open spec fn network_pair_sane(c: &GrainlifyContract) -> bool {
    match (c.chain_id, c.network_id) {
        (Some(a), Some(b)) => a@.len() > 0 && b@.len() > 0,
        (None, None) => true,
        _ => false,
    }
}

/// 1 when `b` holds, else 0.
pub open spec fn count_if(b: bool) -> int {
    if b {
        1
    } else {
        0
    }
}

/// The invariant report of the contract.
pub open spec fn invariant_report(c: &GrainlifyContract) -> InvariantReport {
    let m = &c.monitoring;
    let admin_set = c.admin is Some;
    let version_set = c.version is Some;
    let version = version_or_zero(c);
    let config_sane = admin_set && version_set && version > 0 && previous_version_sane(c) && network_pair_sane(c);
    let violations = count_if(!admin_set) + count_if(!version_set || version == 0) + count_if(
        !previous_version_sane(c),
    ) + count_if(!network_pair_sane(c)) + count_if(m.error_count > m.operation_count) + count_if(
        m.unique_users > m.operation_count,
    ) + count_if(m.operation_count == 0 && (m.unique_users > 0 || m.error_count > 0));
    InvariantReport {
        healthy: config_sane && metrics_sane(m),
        config_sane,
        metrics_sane: metrics_sane(m),
        admin_set,
        version_set,
        version,
        operation_count: m.operation_count,
        unique_users: m.unique_users,
        error_count: m.error_count,
        violation_count: violations as u32,
    }
}

impl GrainlifyContract {
    /// The rollback facts: current and previous version (0 when unset), the
    /// last migration, and the number and newest of the retained snapshots.
    pub fn get_rollback_info(&self) -> (r: RollbackInfo)
        requires
            self.snapshots@.len() <= u32::MAX,
        ensures
            r == rollback_info(self),
    {
        let current_version: u32 = match self.version {
            Some(v) => v,
            None => 0,
        };
        let previous_version: u32 = match self.previous_version {
            Some(p) => p,
            None => 0,
        };
        let (has_migration, from_v, to_v, at): (bool, u32, u32, u64) = match self.migration_state {
            Some(m) => (true, m.from_version, m.to_version, m.migrated_at),
            None => (false, 0, 0, 0),
        };
        let n: usize = self.snapshots.len();
        let (latest_id, latest_version): (u64, u32) = if n > 0 {
            (self.snapshots[n - 1].id, self.snapshots[n - 1].version)
        } else {
            (0, 0)
        };
        RollbackInfo {
            current_version,
            previous_version,
            rollback_available: previous_version > 0,
            has_migration,
            migration_from_version: from_v,
            migration_to_version: to_v,
            migration_timestamp: at,
            snapshot_count: n as u32,
            has_snapshot: n > 0,
            latest_snapshot_id: latest_id,
            latest_snapshot_version: latest_version,
        }
    }

    /// The stored upgrade proposal `proposal_id`: its WASM hash, proposer,
    /// and the multisig proposal's expiry and cancellation (0 and false
    /// without one).  `None` when no hash is recorded.
    pub fn load_upgrade_proposal(&self, proposal_id: u64) -> (r: Option<UpgradeProposalRecord>)
        ensures
            r == (match kget(self.upgrade_proposals.entries@, proposal_id) {
                None => None,
                Some(h) => Some(
                    UpgradeProposalRecord {
                        proposal_id,
                        proposer: kget(self.upgrade_proposers.entries@, proposal_id),
                        wasm_hash: h,
                        expiry: match proposal_at(&self.multisig, proposal_id) {
                            Some(p) => p.expiry,
                            None => 0u64,
                        },
                        cancelled: match proposal_at(&self.multisig, proposal_id) {
                            Some(p) => p.cancelled,
                            None => false,
                        },
                    },
                ),
            }),
    {
        let wasm_hash: Hash32 = match self.upgrade_proposals.get(proposal_id) {
            None => {
                return None;
            },
            Some(h) => h,
        };
        let proposer: Option<Address> = self.upgrade_proposers.get(proposal_id);
        let (expiry, cancelled): (u64, bool) = match self.multisig.get_proposal_opt(proposal_id) {
            Some(p) => (p.expiry, p.cancelled),
            None => (0, false),
        };
        Some(UpgradeProposalRecord { proposal_id, proposer, wasm_hash, expiry, cancelled })
    }

    /// The version as `major.minor.patch` text.
    pub fn get_version_semver_string(&self) -> (r: Vec<u8>)
        requires
            semver_writable(self),
        ensures
            r@ == semver_bytes(encoded_version(version_or_zero(self))),
    {
        let encoded: u32 = self.get_version_numeric_encoded();
        let major: u32 = encoded / 10_000;
        let minor: u32 = (encoded % 10_000) / 100;
        let patch: u32 = encoded % 100;
        let mut buf: Vec<u8> = Vec::new();
        push_number(&mut buf, major);
        buf.push(46u8);
        push_number(&mut buf, minor);
        buf.push(46u8);
        push_number(&mut buf, patch);
        assert(buf@ =~= semver_raw(encoded));
        let mut i: usize = 0;
        while i < buf.len()
            invariant
                0 <= i <= buf@.len(),
                buf@ == semver_raw(encoded),
                encoded == encoded_version(version_or_zero(self)),
                forall|j: int| 0 <= j < i ==> buf@[j] < 128,
            decreases buf@.len() - i,
        {
            if buf[i] >= 128 {
                let fallback: Vec<u8> = vec![48u8, 46u8, 48u8, 46u8, 48u8];
                assert(fallback@ =~= seq![48u8, 46u8, 48u8, 46u8, 48u8]);
                return fallback;
            }
            i = i + 1;
        }
        buf
    }

    /// Checks the configuration and metric invariants.
    pub fn check_invariants(&self) -> (r: InvariantReport)
        ensures
            r == invariant_report(self),
    {
        let m = &self.monitoring;
        let ops: u64 = m.operation_count;
        let users: u64 = m.unique_users;
        let errors: u64 = m.error_count;
        let metrics_ok: bool = errors <= ops && users <= ops && (ops > 0 || (users == 0 && errors == 0));
        let admin_set: bool = self.admin.is_some();
        let version_set: bool = self.version.is_some();
        let version: u32 = match self.version {
            Some(v) => v,
            None => 0,
        };
        let version_sane: bool = version > 0;
        let previous_ok: bool = match (self.previous_version, self.version) {
            (Some(p), Some(v)) => p <= v,
            (Some(_), None) => false,
            (None, _) => true,
        };
        let network_ok: bool = match (&self.chain_id, &self.network_id) {
            (Some(a), Some(b)) => !a.as_str().is_empty() && !b.as_str().is_empty(),
            (None, None) => true,
            _ => false,
        };
        let config_ok: bool = admin_set && version_set && version_sane && previous_ok && network_ok;
        let mut violations: u32 = 0;
        if !admin_set {
            violations = violations + 1;
        }
        if !version_set || !version_sane {
            violations = violations + 1;
        }
        if !previous_ok {
            violations = violations + 1;
        }
        if !network_ok {
            violations = violations + 1;
        }
        if errors > ops {
            violations = violations + 1;
        }
        if users > ops {
            violations = violations + 1;
        }
        if ops == 0 && (users > 0 || errors > 0) {
            violations = violations + 1;
        }
        InvariantReport {
            healthy: config_ok && metrics_ok,
            config_sane: config_ok,
            metrics_sane: metrics_ok,
            admin_set,
            version_set,
            version,
            operation_count: ops,
            unique_users: users,
            error_count: errors,
            violation_count: violations,
        }
    }

    /// Whether every invariant holds.
    pub fn verify_invariants(&self) -> (r: bool)
        ensures
            r == invariant_report(self).healthy,
    {
        self.check_invariants().healthy
    }

    /// The health summary: whether every invariant holds, the last
    /// operation time, the operation count and the version text.
    pub fn health_check(&self) -> (r: HealthStatus)
        requires
            semver_writable(self),
        ensures
            r.is_healthy == invariant_report(self).healthy,
            r.last_operation == self.monitoring.last_operation_ts,
            r.total_operations == self.monitoring.operation_count,
            r.contract_version@ == semver_bytes(encoded_version(version_or_zero(self))),
    {
        let report = self.check_invariants();
        HealthStatus {
            is_healthy: report.healthy,
            last_operation: self.monitoring.last_operation_ts,
            total_operations: report.operation_count,
            contract_version: self.get_version_semver_string(),
        }
    }
}

/// The version interface of upgradeable contracts.
pub trait UpgradeInterface {
    /// The current version.
    fn get_version(&self) -> u32;

    /// Sets the version at `now`.
    fn set_version(&mut self, new_version: u32, now: u64) -> Result<(), CoreFailure>;
}

impl UpgradeInterface for GrainlifyContract {
    fn get_version(&self) -> (r: u32)
        ensures
            r == version_or_zero(self),
    {
        GrainlifyContract::get_version(self)
    }

    fn set_version(&mut self, new_version: u32, now: u64) -> (r: Result<(), CoreFailure>)
        ensures
            r == (match admin_gate(old(self)) {
                Err(e) => Err(e),
                Ok(_) => Ok(()),
            }),
            r is Err ==> *final(self) == *old(self),
            r is Ok ==> version_applied(old(self), final(self), new_version, now),
    {
        GrainlifyContract::set_version(self, new_version, now)
    }
}

/// The version in `major * 10 000 + minor * 100 + patch` form.
pub open spec fn encoded_version(raw: u32) -> u32 {
    if raw >= 10_000 {
        raw
    } else {
        (raw * 10_000) as u32
    }
}

/// Encodes a raw version number.
pub fn encode_version(raw: u32) -> (r: u32)
    ensures
        r == encoded_version(raw),
{
    if raw >= 10_000 {
        raw
    } else {
        raw * 10_000
    }
}

} // verus!
