//! The escrow records that the read-only view facade aggregates, and a
//! fixed stand-in escrow that serves them.
use vstd::prelude::*;
use crate::types::Address;

verus! {

/// Lifecycle state of a bounty escrow.
#[derive(Clone, Copy, Debug, PartialEq, Eq, Structural)]
pub enum EscrowStatus {
    Locked,
    Released,
    Refunded,
    PartiallyRefunded,
}

/// Descriptive metadata of a bounty escrow.
#[derive(Clone, Debug, PartialEq, Eq)]
pub struct EscrowMetadata {
    pub repo_id: u64,
    pub issue_id: u64,
    pub bounty_type: String,
    pub risk_flags: u32,
    pub notification_prefs: u32,
    pub reference_hash: Option<Vec<u8>>,
}

/// Which escrow operations are paused, why and since when.
#[derive(Clone, Debug, PartialEq, Eq)]
pub struct PauseFlags {
    pub lock_paused: bool,
    pub release_paused: bool,
    pub refund_paused: bool,
    pub pause_reason: Option<String>,
    pub paused_at: u64,
}

/// One bounty escrow.
#[derive(Clone, Copy, Debug, PartialEq, Eq, Structural)]
pub struct Escrow {
    pub depositor: Address,
    pub amount: i128,
    pub remaining_amount: i128,
    pub status: EscrowStatus,
    pub deadline: u64,
    pub schema_version: u32,
}

/// An escrow with its bounty id.
#[derive(Clone, Copy, Debug, PartialEq, Eq, Structural)]
pub struct EscrowWithId {
    pub bounty_id: u64,
    pub escrow: Escrow,
}

/// Code of the error for an unknown bounty.
pub const BOUNTY_NOT_FOUND: u32 = 4;

/// A stand-in bounty escrow with two fixed bounties: bounty 1 (1000
/// locked) and bounty 2 (500, released).  `depositor` is the depositor it
/// reports for them.
#[derive(Debug)]
pub struct DummyEscrow {
    pub depositor: Address,
}

/// The fixed escrow of a bounty (`Some` only for bounties 1 and 2).
pub open spec fn dummy_escrow(depositor: Address, bounty_id: u64) -> Option<Escrow> {
    if bounty_id == 1 {
        Some(
            Escrow {
                depositor,
                amount: 1000,
                remaining_amount: 1000,
                status: EscrowStatus::Locked,
                deadline: 123456789,
                schema_version: 1,
            },
        )
    } else if bounty_id == 2 {
        Some(
            Escrow {
                depositor,
                amount: 500,
                remaining_amount: 0,
                status: EscrowStatus::Released,
                deadline: 987654321,
                schema_version: 1,
            },
        )
    } else {
        None
    }
}

impl DummyEscrow {
    /// The escrow of `bounty_id`; unknown bounties are refused with
    /// `BOUNTY_NOT_FOUND`.
    pub fn get_escrow_info(&self, bounty_id: u64) -> (r: Result<Escrow, u32>)
        ensures
            r == (match dummy_escrow(self.depositor, bounty_id) {
                Some(e) => Ok(e),
                None => Err(BOUNTY_NOT_FOUND),
            }),
    {
        if bounty_id == 1 {
            Ok(
                Escrow {
                    depositor: self.depositor,
                    amount: 1000,
                    remaining_amount: 1000,
                    status: EscrowStatus::Locked,
                    deadline: 123456789,
                    schema_version: 1,
                },
            )
        } else if bounty_id == 2 {
            Ok(
                Escrow {
                    depositor: self.depositor,
                    amount: 500,
                    remaining_amount: 0,
                    status: EscrowStatus::Released,
                    deadline: 987654321,
                    schema_version: 1,
                },
            )
        } else {
            Err(BOUNTY_NOT_FOUND)
        }
    }

    /// The metadata of `bounty_id`: repository 42, issue `bounty_id * 10`,
    /// a bug bounty without flags, preferences or reference hash.
    pub fn get_metadata(&self, bounty_id: u64) -> (r: Result<EscrowMetadata, u32>)
        requires
            bounty_id * 10 <= u64::MAX,
        ensures
            r matches Ok(m) && m.repo_id == 42 && m.issue_id == bounty_id * 10 && m.bounty_type@
                == "bug-bounty"@ && m.risk_flags == 0 && m.notification_prefs == 0 && m.reference_hash is None,
    {
        Ok(
            EscrowMetadata {
                repo_id: 42,
                issue_id: bounty_id * 10,
                bounty_type: "bug-bounty".to_owned(),
                risk_flags: 0,
                notification_prefs: 0,
                reference_hash: None,
            },
        )
    }

    /// Nothing is paused.
    pub fn get_pause_flags(&self) -> (r: PauseFlags)
        ensures
            !r.lock_paused && !r.release_paused && !r.refund_paused && r.pause_reason is None && r.paused_at == 0,
    {
        PauseFlags {
            lock_paused: false,
            release_paused: false,
            refund_paused: false,
            pause_reason: None,
            paused_at: 0,
        }
    }

    /// The escrows of `depositor`: bounty 1, locked with 1000, whatever the
    /// page asked for.
    pub fn query_escrows_by_depositor(&self, depositor: Address, offset: u32, limit: u32) -> (r: Vec<
        EscrowWithId,
    >)
        ensures
            r@ == seq![
                EscrowWithId {
                    bounty_id: 1,
                    escrow: Escrow {
                        depositor,
                        amount: 1000,
                        remaining_amount: 1000,
                        status: EscrowStatus::Locked,
                        deadline: 123456789,
                        schema_version: 1,
                    },
                },
            ],
    {
        let mut result: Vec<EscrowWithId> = Vec::new();
        result.push(
            EscrowWithId {
                bounty_id: 1,
                escrow: Escrow {
                    depositor,
                    amount: 1000,
                    remaining_amount: 1000,
                    status: EscrowStatus::Locked,
                    deadline: 123456789,
                    schema_version: 1,
                },
            },
        );
        result
    }
}

} // verus!
