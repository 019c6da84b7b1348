//! Verified core logic of the Grainlify contracts: upgrade administration
//! with timelocks and configuration snapshots, multisig approvals,
//! governance voting, replay-protected nonces, commit-reveal, operational
//! metrics, program escrow payout splits, claims and gas-saving helpers,
//! and the records served to the escrow view facade.
use vstd::prelude::*;

pub mod types;
pub mod strict_mode;
pub mod math;
pub mod program_escrow;
pub mod payout_splits;
pub mod claim_period;
pub mod governance;
pub mod nonce;
pub mod commit_reveal;
pub mod multisig;
pub mod monitoring;
pub mod keyed;
pub mod core_contract;
pub mod gas_optimization;
pub mod view_facade;

verus! {
} // verus!
