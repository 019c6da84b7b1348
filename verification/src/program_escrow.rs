//! Shared state of a program escrow: the program record, its payout history,
//! the split configurations and the pending claims that the payout-split and
//! claim-period modules read and update.
use vstd::prelude::*;
use crate::types::Address;
use crate::payout_splits::{SplitConfig, split_valid};
use crate::claim_period::ClaimRecord;

verus! {

/// Maximum number of entries accepted by one batch operation.
pub const MAX_BATCH_SIZE: u32 = 100;

/// Version of the persisted storage schema.
pub const STORAGE_SCHEMA_VERSION: u32 = 1;

/// One completed transfer out of the escrow.
#[derive(Clone, Copy, Debug, PartialEq, Eq, Structural)]
pub struct PayoutRecord {
    pub recipient: Address,
    pub amount: i128,
    pub timestamp: u64,
}

/// The program record that the escrow keeps for its single program.
#[derive(Debug)]
pub struct ProgramData {
    pub program_id: String,
    pub total_funds: i128,
    pub remaining_balance: i128,
    pub authorized_payout_key: Address,
    pub payout_history: Vec<PayoutRecord>,
    pub token_address: Address,
}

/// A free-form key/value field of program metadata.
#[derive(Debug)]
pub struct MetadataCustomField {
    pub key: String,
    pub value: String,
}

/// Descriptive metadata of a program.
#[derive(Debug)]
pub struct ProgramMetadata {
    pub program_name: Option<String>,
    pub program_type: Option<String>,
    pub ecosystem: Option<String>,
    pub tags: Vec<String>,
    pub start_date: Option<u64>,
    pub end_date: Option<u64>,
    pub custom_fields: Vec<MetadataCustomField>,
}

/// Everything the escrow has in storage that its payout logic reads.
///
/// A split configuration is only ever stored after validation, so every
/// stored configuration is valid (`wf`).
#[derive(Debug)]
pub struct ProgramStore {
    /// Contract administrator, once set.
    pub admin: Option<Address>,
    /// The program record, once the program is initialised.
    pub program: Option<ProgramData>,
    /// Split configurations keyed by program id (first match wins).
    pub split_configs: Vec<SplitConfig>,
    /// Claim records keyed by `(program_id, claim_id)` (first match wins).
    pub claims: Vec<ClaimRecord>,
    /// Identifier handed to the next pending claim.
    pub next_claim_id: u64,
    /// Configured default claim window in seconds, once set.
    pub claim_window: Option<u64>,
}

impl ProgramStore {
    /// Well-formedness: every stored split configuration is valid.
    pub open spec fn wf(&self) -> bool {
        forall|i: int|
            0 <= i < self.split_configs@.len() ==> split_valid(
                #[trigger] self.split_configs@[i].beneficiaries@,
            )
    }

    /// An empty store: nothing initialised, claim ids start at 1.
    pub fn new() -> (s: Self)
        ensures
            s.wf(),
            s.admin is None,
            s.program is None,
            s.split_configs@.len() == 0,
            s.claims@.len() == 0,
            s.next_claim_id == 1,
            s.claim_window is None,
    {
        ProgramStore {
            admin: None,
            program: None,
            split_configs: Vec::new(),
            claims: Vec::new(),
            next_claim_id: 1,
            claim_window: None,
        }
    }
}

/// Errors reported by program-escrow entrypoints, with stable codes.
#[derive(Clone, Copy, Debug, PartialEq, Eq, Structural)]
pub enum ContractError {
    Unauthorized,
    InvalidAmount,
    Paused,
    MaintenanceMode,
    ProgramNotFound,
    InsufficientBalance,
    PayoutFailed,
    ScheduleNotFound,
    ClaimNotFound,
    DisputeAlreadyOpen,
    InvalidFeeRate,
}

/// The stable numeric code of each error.
pub open spec fn error_code(e: ContractError) -> u32 {
    match e {
        ContractError::Unauthorized => 1,
        ContractError::InvalidAmount => 2,
        ContractError::Paused => 3,
        ContractError::MaintenanceMode => 4,
        ContractError::ProgramNotFound => 7,
        ContractError::InsufficientBalance => 10,
        ContractError::PayoutFailed => 300,
        ContractError::ScheduleNotFound => 400,
        ContractError::ClaimNotFound => 500,
        ContractError::DisputeAlreadyOpen => 600,
        ContractError::InvalidFeeRate => 701,
    }
}

impl ContractError {
    /// The stable numeric code of this error.
    pub fn code(&self) -> (c: u32)
        ensures
            c == error_code(*self),
    {
        match self {
            ContractError::Unauthorized => 1,
            ContractError::InvalidAmount => 2,
            ContractError::Paused => 3,
            ContractError::MaintenanceMode => 4,
            ContractError::ProgramNotFound => 7,
            ContractError::InsufficientBalance => 10,
            ContractError::PayoutFailed => 300,
            ContractError::ScheduleNotFound => 400,
            ContractError::ClaimNotFound => 500,
            ContractError::DisputeAlreadyOpen => 600,
            ContractError::InvalidFeeRate => 701,
        }
    }
}

/// Distinct errors carry distinct codes.
pub proof fn error_codes_are_distinct(a: ContractError, b: ContractError)
    requires
        a != b,
    ensures
        error_code(a) != error_code(b),
{
}

} // verus!
