//! Claim periods: a payout is first reserved as a pending claim that the
//! recipient must execute before its deadline; the administrator may cancel
//! a pending claim, which returns the reserved amount to the escrow.
use vstd::prelude::*;
use crate::types::Address;
use crate::program_escrow::{ProgramStore, ProgramData};

verus! {

/// Default claim window in seconds (one day).
pub const DEFAULT_CLAIM_WINDOW: u64 = 86_400;

/// Lifecycle of a claim.
#[derive(Clone, Copy, Debug, PartialEq, Eq, Structural)]
pub enum ClaimStatus {
    Pending,
    Completed,
    Cancelled,
}

/// A reserved payout awaiting execution by its recipient.
#[derive(Debug)]
pub struct ClaimRecord {
    pub claim_id: u64,
    pub program_id: String,
    pub recipient: Address,
    pub amount: i128,
    pub claim_deadline: u64,
    pub created_at: u64,
    pub status: ClaimStatus,
}

/// Why a claim operation was refused.
#[derive(Clone, Copy, Debug, PartialEq, Eq, Structural)]
pub enum ClaimError {
    /// The program record is not initialised.
    ProgramNotInitialized,
    /// No administrator is set.
    NotInitialized,
    /// The caller is not the administrator.
    Unauthorized,
    /// The caller is not the claim's recipient.
    NotRecipient,
    /// The claim amount is zero or negative.
    InvalidAmount,
    /// The claim amount exceeds the remaining escrow balance.
    InsufficientBalance,
    /// The deadline is not after the current time.
    DeadlineNotInFuture,
    /// No claim is stored under the given key.
    ClaimNotFound,
    /// The claim is no longer pending.
    AlreadyProcessed,
    /// The claim deadline has passed.
    Expired,
}

/// Whether claim `c` is stored under `(pid, id)`.
pub open spec fn claim_key_is(c: ClaimRecord, pid: Seq<char>, id: u64) -> bool {
    c.program_id@ == pid && c.claim_id == id
}

/// Index of the first claim stored under `(pid, id)`, if any.
pub open spec fn claim_index(claims: Seq<ClaimRecord>, pid: Seq<char>, id: u64) -> Option<int>
    decreases claims.len(),
{
    if claims.len() == 0 {
        None
    } else {
        match claim_index(claims.drop_last(), pid, id) {
            Some(i) => Some(i),
            None => if claim_key_is(claims.last(), pid, id) {
                Some(claims.len() - 1)
            } else {
                None
            },
        }
    }
}

/// Whether `i` is the first index stored under `(pid, id)`.
pub open spec fn is_first_claim(claims: Seq<ClaimRecord>, pid: Seq<char>, id: u64, i: int) -> bool {
    0 <= i < claims.len() && claim_key_is(claims[i], pid, id) && forall|j: int|
        0 <= j < i ==> !claim_key_is(#[trigger] claims[j], pid, id)
}

/// The claim stored under `(pid, id)`, if any.
pub open spec fn lookup_claim(store: &ProgramStore, pid: Seq<char>, id: u64) -> Option<ClaimRecord> {
    match claim_index(store.claims@, pid, id) {
        Some(i) => Some(store.claims@[i]),
        None => None,
    }
}

/// Two claim records hold the same values.
pub open spec fn same_claim(a: ClaimRecord, b: ClaimRecord) -> bool {
    &&& a.claim_id == b.claim_id
    &&& a.program_id@ == b.program_id@
    &&& a.recipient == b.recipient
    &&& a.amount == b.amount
    &&& a.claim_deadline == b.claim_deadline
    &&& a.created_at == b.created_at
    &&& a.status == b.status
}

/// `claims2` is `claims1` with the entry stored under `(pid, id)` set to
/// `rec`: lookups of that key give `rec`, all other lookups are unchanged.
pub open spec fn claims_updated(
    s1: &ProgramStore,
    s2: &ProgramStore,
    pid: Seq<char>,
    id: u64,
    rec: ClaimRecord,
) -> bool {
    &&& lookup_claim(s2, pid, id) matches Some(c) && same_claim(c, rec)
    &&& forall|p: Seq<char>, k: u64|
        !(p == pid && k == id) ==> #[trigger] lookup_claim(s2, p, k) == lookup_claim(s1, p, k)
}

/// Fields of the store other than the program and the claims are unchanged.
pub open spec fn rest_unchanged(s1: &ProgramStore, s2: &ProgramStore) -> bool {
    &&& s2.admin == s1.admin
    &&& s2.split_configs == s1.split_configs
    &&& s2.claim_window == s1.claim_window
}

/// `p2` is `p1` with remaining balance `remaining`.
pub open spec fn program_with_remaining(p1: ProgramData, p2: ProgramData, remaining: int) -> bool {
    &&& p2.remaining_balance == remaining
    &&& p2.program_id == p1.program_id
    &&& p2.total_funds == p1.total_funds
    &&& p2.authorized_payout_key == p1.authorized_payout_key
    &&& p2.payout_history == p1.payout_history
    &&& p2.token_address == p1.token_address
}

/// What `create_pending_claim` decides.
pub open spec fn create_claim_outcome(s: &ProgramStore, amount: int, deadline: u64, now: u64) -> Result<
    (),
    ClaimError,
> {
    match s.program {
        None => Err(ClaimError::ProgramNotInitialized),
        Some(p) => if amount <= 0 {
            Err(ClaimError::InvalidAmount)
        } else if amount > p.remaining_balance {
            Err(ClaimError::InsufficientBalance)
        } else if deadline <= now {
            Err(ClaimError::DeadlineNotInFuture)
        } else {
            Ok(())
        },
    }
}

/// The effect of a successful `create_pending_claim` returning `id`: the
/// amount is reserved out of the remaining balance, the claim id counter
/// advances, and a pending claim is stored under `(pid, id)`.
pub open spec fn claim_created(
    s1: &ProgramStore,
    s2: &ProgramStore,
    pid: Seq<char>,
    recipient: Address,
    amount: i128,
    deadline: u64,
    now: u64,
    id: u64,
) -> bool {
    &&& s1.program is Some
    &&& s2.program is Some
    &&& id == s1.next_claim_id
    &&& s2.next_claim_id == s1.next_claim_id + 1
    &&& program_with_remaining(
        s1.program->0,
        s2.program->0,
        s1.program->0.remaining_balance - amount,
    )
    &&& claims_updated(
        s1,
        s2,
        pid,
        id,
        ClaimRecord {
            claim_id: id,
            program_id: s2.claims@[claim_index(s2.claims@, pid, id)->0].program_id,
            recipient,
            amount,
            claim_deadline: deadline,
            created_at: now,
            status: ClaimStatus::Pending,
        },
    )
    &&& rest_unchanged(s1, s2)
}

/// What `execute_claim` decides.
pub open spec fn execute_claim_outcome(s: &ProgramStore, pid: Seq<char>, id: u64, caller: Address, now: u64) -> Result<
    (),
    ClaimError,
> {
    match lookup_claim(s, pid, id) {
        None => Err(ClaimError::ClaimNotFound),
        Some(c) => if c.recipient != caller {
            Err(ClaimError::NotRecipient)
        } else if c.status != ClaimStatus::Pending {
            Err(ClaimError::AlreadyProcessed)
        } else if now > c.claim_deadline {
            Err(ClaimError::Expired)
        } else if s.program is None {
            Err(ClaimError::ProgramNotInitialized)
        } else {
            Ok(())
        },
    }
}

/// The claim under `(pid, id)` got status `status`; nothing else changed in
/// it, and the rest of the store is as in `s1` except the program, which is
/// `prog2`.
pub open spec fn claim_status_set(
    s1: &ProgramStore,
    s2: &ProgramStore,
    pid: Seq<char>,
    id: u64,
    status: ClaimStatus,
) -> bool {
    let c = lookup_claim(s1, pid, id)->0;
    &&& lookup_claim(s1, pid, id) is Some
    &&& claims_updated(s1, s2, pid, id, ClaimRecord { status, ..c })
    &&& s2.next_claim_id == s1.next_claim_id
    &&& rest_unchanged(s1, s2)
}

/// What `cancel_claim` decides.
pub open spec fn cancel_claim_outcome(s: &ProgramStore, pid: Seq<char>, id: u64, admin: Address) -> Result<
    (),
    ClaimError,
> {
    match s.admin {
        None => Err(ClaimError::NotInitialized),
        Some(a) => if a != admin {
            Err(ClaimError::Unauthorized)
        } else {
            match lookup_claim(s, pid, id) {
                None => Err(ClaimError::ClaimNotFound),
                Some(c) => if c.status != ClaimStatus::Pending {
                    Err(ClaimError::AlreadyProcessed)
                } else if s.program is None {
                    Err(ClaimError::ProgramNotInitialized)
                } else {
                    Ok(())
                },
            }
        },
    }
}

// ---------------------------------------------------------------------------
// Lookup lemmas
// ---------------------------------------------------------------------------

proof fn lemma_claim_index_char(claims: Seq<ClaimRecord>, pid: Seq<char>, id: u64)
    ensures
        claim_index(claims, pid, id) matches Some(i) ==> is_first_claim(claims, pid, id, i),
        claim_index(claims, pid, id) is None ==> forall|j: int|
            0 <= j < claims.len() ==> !claim_key_is(#[trigger] claims[j], pid, id),
    decreases claims.len(),
{
    if claims.len() > 0 {
        let p = claims.drop_last();
        lemma_claim_index_char(p, pid, id);
        if claim_index(p, pid, id) is Some {
            let i = claim_index(p, pid, id)->0;
            assert(p[i] == claims[i]);
            assert forall|j: int| 0 <= j < i implies !claim_key_is(#[trigger] claims[j], pid, id) by {
                assert(p[j] == claims[j]);
            }
        } else {
            assert forall|j: int| 0 <= j < claims.len() - 1 implies !claim_key_is(
                #[trigger] claims[j],
                pid,
                id,
            ) by {
                assert(p[j] == claims[j]);
            }
        }
    }
}

proof fn lemma_claim_index(claims: Seq<ClaimRecord>, pid: Seq<char>, id: u64, i: int)
    requires
        is_first_claim(claims, pid, id, i),
    ensures
        claim_index(claims, pid, id) == Some(i),
{
    lemma_claim_index_char(claims, pid, id);
    match claim_index(claims, pid, id) {
        Some(k) => {
            if k < i {
                assert(!claim_key_is(claims[k], pid, id));
            }
            if i < k {
                assert(!claim_key_is(claims[i], pid, id));
            }
        },
        None => {
            assert(!claim_key_is(claims[i], pid, id));
        },
    }
}

proof fn lemma_claim_absent(claims: Seq<ClaimRecord>, pid: Seq<char>, id: u64)
    requires
        forall|j: int| 0 <= j < claims.len() ==> !claim_key_is(#[trigger] claims[j], pid, id),
    ensures
        claim_index(claims, pid, id) is None,
{
    lemma_claim_index_char(claims, pid, id);
    if claim_index(claims, pid, id) is Some {
        let i = claim_index(claims, pid, id)->0;
        assert(claim_key_is(claims[i], pid, id));
    }
}

/// Overwriting entry `k` by an entry with the same key keeps every lookup
/// index.
proof fn lemma_claim_index_same_keys(before: Seq<ClaimRecord>, after: Seq<ClaimRecord>, p: Seq<char>, id: u64)
    requires
        before.len() == after.len(),
        forall|j: int|
            0 <= j < before.len() ==> (#[trigger] after[j]).program_id@ == before[j].program_id@
                && after[j].claim_id == before[j].claim_id,
    ensures
        claim_index(after, p, id) == claim_index(before, p, id),
{
    lemma_claim_index_char(before, p, id);
    match claim_index(before, p, id) {
        Some(i) => {
            assert forall|j: int| 0 <= j < i implies !claim_key_is(#[trigger] after[j], p, id) by {
                assert(!claim_key_is(before[j], p, id));
            }
            assert(claim_key_is(before[i], p, id));
            lemma_claim_index(after, p, id, i);
        },
        None => {
            assert forall|j: int| 0 <= j < after.len() implies !claim_key_is(#[trigger] after[j], p, id) by {
                assert(!claim_key_is(before[j], p, id));
            }
            lemma_claim_absent(after, p, id);
        },
    }
}

/// Appending an entry with another key keeps that key's lookup index.
proof fn lemma_claim_index_push(before: Seq<ClaimRecord>, after: Seq<ClaimRecord>, p: Seq<char>, id: u64)
    requires
        after.len() == before.len() + 1,
        forall|j: int| 0 <= j < before.len() ==> #[trigger] after[j] == before[j],
        !claim_key_is(after.last(), p, id),
    ensures
        claim_index(after, p, id) == claim_index(before, p, id),
{
    assert(after.drop_last() =~= before);
}

// ---------------------------------------------------------------------------
// Executable helpers
// ---------------------------------------------------------------------------

fn find_claim(claims: &Vec<ClaimRecord>, program_id: &String, claim_id: u64) -> (r: Option<usize>)
    ensures
        r matches Some(i) ==> claim_index(claims@, program_id@, claim_id) == Some(i as int)
            && is_first_claim(claims@, program_id@, claim_id, i as int),
        r is None ==> claim_index(claims@, program_id@, claim_id) is None,
{
    let mut i: usize = 0;
    while i < claims.len()
        invariant
            0 <= i <= claims.len(),
            forall|j: int| 0 <= j < i ==> !claim_key_is(#[trigger] claims@[j], program_id@, claim_id),
        decreases claims.len() - i,
    {
        if claims[i].claim_id == claim_id && claims[i].program_id == *program_id {
            proof {
                lemma_claim_index(claims@, program_id@, claim_id, i as int);
            }
            return Some(i);
        }
        i = i + 1;
    }
    proof {
        assert forall|j: int| 0 <= j < claims@.len() implies !claim_key_is(
            #[trigger] claims@[j],
            program_id@,
            claim_id,
        ) by {}
        lemma_claim_absent(claims@, program_id@, claim_id);
    }
    None
}

fn copy_claim(c: &ClaimRecord) -> (r: ClaimRecord)
    ensures
        same_claim(r, *c),
        r.program_id == c.program_id,
{
    ClaimRecord {
        claim_id: c.claim_id,
        program_id: c.program_id.clone(),
        recipient: c.recipient,
        amount: c.amount,
        claim_deadline: c.claim_deadline,
        created_at: c.created_at,
        status: c.status,
    }
}

/// Stores `rec` under its key: overwrites the first entry with that key, or
/// appends it.
fn put_claim(store: &mut ProgramStore, rec: ClaimRecord)
    ensures
        claims_updated(old(store), final(store), rec.program_id@, rec.claim_id, rec),
        final(store).admin == old(store).admin,
        final(store).program == old(store).program,
        final(store).split_configs == old(store).split_configs,
        final(store).next_claim_id == old(store).next_claim_id,
        final(store).claim_window == old(store).claim_window,
{
    let ghost pid = rec.program_id@;
    let ghost id = rec.claim_id;
    let ghost before = store.claims@;
    let ghost r0 = rec;
    match find_claim(&store.claims, &rec.program_id, rec.claim_id) {
        Some(k) => {
            store.claims.set(k, rec);
            proof {
                let after = store.claims@;
                lemma_claim_index_char(before, pid, id);
                assert forall|p: Seq<char>, kk: u64| !(p == pid && kk == id) implies #[trigger] lookup_claim(
                    final(store),
                    p,
                    kk,
                ) == lookup_claim(old(store), p, kk) by {
                    lemma_claim_index_same_keys(before, after, p, kk);
                    lemma_claim_index_char(before, p, kk);
                }
                lemma_claim_index_same_keys(before, after, pid, id);
            }
        },
        None => {
            store.claims.push(rec);
            proof {
                let after = store.claims@;
                let k = before.len() as int;
                assert forall|j: int| 0 <= j < k implies !claim_key_is(#[trigger] after[j], pid, id) by {
                    assert(after[j] == before[j]);
                    lemma_claim_index_char(before, pid, id);
                }
                lemma_claim_index(after, pid, id, k);
                assert forall|p: Seq<char>, kk: u64| !(p == pid && kk == id) implies #[trigger] lookup_claim(
                    final(store),
                    p,
                    kk,
                ) == lookup_claim(old(store), p, kk) by {
                    lemma_claim_index_push(before, after, p, kk);
                    lemma_claim_index_char(before, p, kk);
                }
            }
        },
    }
}

// ---------------------------------------------------------------------------
// Public API
// ---------------------------------------------------------------------------

/// Reserves `amount` of the escrow for `recipient` until `claim_deadline` and
/// returns the new claim id.
///
/// Refused, with the store unchanged, when the program is not initialised,
/// the amount is not positive or exceeds the remaining balance, or the
/// deadline is not after `now`.  The caller authorises the program's payout
/// key beforehand.
pub fn create_pending_claim(
    store: &mut ProgramStore,
    program_id: &String,
    recipient: Address,
    amount: i128,
    claim_deadline: u64,
    now: u64,
) -> (r: Result<u64, ClaimError>)
    requires
        old(store).wf(),
        old(store).next_claim_id < u64::MAX,
    ensures
        final(store).wf(),
        r is Ok <==> create_claim_outcome(old(store), amount as int, claim_deadline, now) is Ok,
        r matches Err(e) ==> create_claim_outcome(old(store), amount as int, claim_deadline, now)
            == Err::<(), ClaimError>(e) && *final(store) == *old(store),
        r matches Ok(id) ==> claim_created(
            old(store),
            final(store),
            program_id@,
            recipient,
            amount,
            claim_deadline,
            now,
            id,
        ),
{
    let remaining: i128 = match &store.program {
        None => {
            return Err(ClaimError::ProgramNotInitialized);
        },
        Some(p) => p.remaining_balance,
    };
    if amount <= 0 {
        return Err(ClaimError::InvalidAmount);
    }
    if amount > remaining {
        return Err(ClaimError::InsufficientBalance);
    }
    if claim_deadline <= now {
        return Err(ClaimError::DeadlineNotInFuture);
    }
    match &mut store.program {
        None => {},
        Some(p) => {
            p.remaining_balance = p.remaining_balance - amount;
        },
    }
    let claim_id: u64 = store.next_claim_id;
    store.next_claim_id = claim_id + 1;
    let rec = ClaimRecord {
        claim_id,
        program_id: program_id.clone(),
        recipient,
        amount,
        claim_deadline,
        created_at: now,
        status: ClaimStatus::Pending,
    };
    let ghost mid = *store;
    put_claim(store, rec);
    proof {
        let i = claim_index(store.claims@, program_id@, claim_id)->0;
        assert(store.claims@[i].program_id@ == program_id@);
        assert forall|p: Seq<char>, kk: u64| !(p == program_id@ && kk == claim_id) implies #[trigger] lookup_claim(
            store,
            p,
            kk,
        ) == lookup_claim(old(store), p, kk) by {
            assert(lookup_claim(&mid, p, kk) == lookup_claim(old(store), p, kk));
        }
    }
    Ok(claim_id)
}

/// The recipient executes a pending claim before its deadline.
///
/// Refused, with the store unchanged, when no claim is stored under the key,
/// the caller is not its recipient, it is not pending, `now` is past its
/// deadline, or the program is not initialised.  Otherwise the claim becomes
/// completed and nothing else changes; the caller then transfers the claim
/// amount to the recipient.
pub fn execute_claim(
    store: &mut ProgramStore,
    program_id: &String,
    claim_id: u64,
    caller: Address,
    now: u64,
) -> (r: Result<(), ClaimError>)
    requires
        old(store).wf(),
    ensures
        final(store).wf(),
        r == execute_claim_outcome(old(store), program_id@, claim_id, caller, now),
        r is Err ==> *final(store) == *old(store),
        r is Ok ==> claim_status_set(old(store), final(store), program_id@, claim_id, ClaimStatus::Completed)
            && final(store).program == old(store).program,
{
    let k: usize = match find_claim(&store.claims, program_id, claim_id) {
        None => {
            return Err(ClaimError::ClaimNotFound);
        },
        Some(k) => k,
    };
    if store.claims[k].recipient != caller {
        return Err(ClaimError::NotRecipient);
    }
    if store.claims[k].status != ClaimStatus::Pending {
        return Err(ClaimError::AlreadyProcessed);
    }
    if now > store.claims[k].claim_deadline {
        return Err(ClaimError::Expired);
    }
    if store.program.is_none() {
        return Err(ClaimError::ProgramNotInitialized);
    }
    let mut rec = copy_claim(&store.claims[k]);
    rec.status = ClaimStatus::Completed;
    put_claim(store, rec);
    Ok(())
}

/// The administrator cancels a pending (possibly expired) claim, returning
/// its amount to the remaining balance.
///
/// Refused, with the store unchanged, when no administrator is set, `admin`
/// is not it, no claim is stored under the key, it is not pending, or the
/// program is not initialised.
pub fn cancel_claim(store: &mut ProgramStore, program_id: &String, claim_id: u64, admin: Address) -> (r:
    Result<(), ClaimError>)
    requires
        old(store).wf(),
        lookup_claim(old(store), program_id@, claim_id) matches Some(c) && old(store).program matches Some(
            p,
        ) ==> i128::MIN <= p.remaining_balance + c.amount <= i128::MAX,
    ensures
        final(store).wf(),
        r == cancel_claim_outcome(old(store), program_id@, claim_id, admin),
        r is Err ==> *final(store) == *old(store),
        r is Ok ==> claim_status_set(old(store), final(store), program_id@, claim_id, ClaimStatus::Cancelled)
            && final(store).program is Some && program_with_remaining(
            old(store).program->0,
            final(store).program->0,
            old(store).program->0.remaining_balance + lookup_claim(old(store), program_id@, claim_id)->0.amount,
        ),
{
    match store.admin {
        None => {
            return Err(ClaimError::NotInitialized);
        },
        Some(a) => {
            if a != admin {
                return Err(ClaimError::Unauthorized);
            }
        },
    }
    let k: usize = match find_claim(&store.claims, program_id, claim_id) {
        None => {
            return Err(ClaimError::ClaimNotFound);
        },
        Some(k) => k,
    };
    if store.claims[k].status != ClaimStatus::Pending {
        return Err(ClaimError::AlreadyProcessed);
    }
    if store.program.is_none() {
        return Err(ClaimError::ProgramNotInitialized);
    }
    let amount: i128 = store.claims[k].amount;
    match &mut store.program {
        None => {},
        Some(p) => {
            p.remaining_balance = p.remaining_balance + amount;
        },
    }
    let mut rec = copy_claim(&store.claims[k]);
    rec.status = ClaimStatus::Cancelled;
    put_claim(store, rec);
    Ok(())
}

/// The claim stored under `(program_id, claim_id)`, which must exist.
pub fn get_claim(store: &ProgramStore, program_id: &String, claim_id: u64) -> (r: ClaimRecord)
    requires
        lookup_claim(store, program_id@, claim_id) is Some,
    ensures
        same_claim(r, lookup_claim(store, program_id@, claim_id)->0),
{
    let k: usize = match find_claim(&store.claims, program_id, claim_id) {
        Some(k) => k,
        None => 0,
    };
    copy_claim(&store.claims[k])
}

/// The administrator sets the default claim window.  Refused, with the store
/// unchanged, when no administrator is set or `admin` is not it.
pub fn set_claim_window(store: &mut ProgramStore, admin: Address, window_seconds: u64) -> (r: Result<
    (),
    ClaimError,
>)
    requires
        old(store).wf(),
    ensures
        final(store).wf(),
        r == (match old(store).admin {
            None => Err(ClaimError::NotInitialized),
            Some(a) => if a != admin {
                Err(ClaimError::Unauthorized)
            } else {
                Ok(())
            },
        }),
        r is Err ==> *final(store) == *old(store),
        r is Ok ==> final(store).claim_window == Some(window_seconds) && final(store).admin == old(store).admin
            && final(store).program == old(store).program && final(store).split_configs == old(store).split_configs
            && final(store).claims == old(store).claims && final(store).next_claim_id == old(store).next_claim_id,
{
    match store.admin {
        None => Err(ClaimError::NotInitialized),
        Some(a) => {
            if a != admin {
                return Err(ClaimError::Unauthorized);
            }
            store.claim_window = Some(window_seconds);
            Ok(())
        },
    }
}

/// The default claim window: the configured one, or one day.
pub fn get_claim_window(store: &ProgramStore) -> (r: u64)
    ensures
        r == match store.claim_window {
            Some(w) => w,
            None => DEFAULT_CLAIM_WINDOW,
        },
{
    match store.claim_window {
        Some(w) => w,
        None => DEFAULT_CLAIM_WINDOW,
    }
}

// ---------------------------------------------------------------------------
// Laws
// ---------------------------------------------------------------------------

/// Cancelling a claim right after creating it gives back exactly the reserved
/// amount: the remaining balance is what it was before the claim, and the
/// claim ends cancelled.
pub proof fn law_cancel_undoes_create(
    s0: &ProgramStore,
    s1: &ProgramStore,
    s2: &ProgramStore,
    pid: Seq<char>,
    recipient: Address,
    amount: i128,
    deadline: u64,
    now: u64,
    id: u64,
)
    requires
        claim_created(s0, s1, pid, recipient, amount, deadline, now, id),
        claim_status_set(s1, s2, pid, id, ClaimStatus::Cancelled),
        s2.program is Some,
        program_with_remaining(
            s1.program->0,
            s2.program->0,
            s1.program->0.remaining_balance + lookup_claim(s1, pid, id)->0.amount,
        ),
    ensures
        s2.program->0.remaining_balance == s0.program->0.remaining_balance,
        lookup_claim(s2, pid, id) matches Some(c) && c.status == ClaimStatus::Cancelled && c.amount == amount,
{
}

/// A claim that is no longer pending can be neither executed nor cancelled.
pub proof fn law_processed_claims_are_final(
    s: &ProgramStore,
    pid: Seq<char>,
    id: u64,
    caller: Address,
    admin: Address,
    now: u64,
)
    requires
        lookup_claim(s, pid, id) matches Some(c) && c.status != ClaimStatus::Pending,
    ensures
        execute_claim_outcome(s, pid, id, caller, now) is Err,
        cancel_claim_outcome(s, pid, id, admin) is Err,
{
}

/// A pending claim executed by its recipient no later than its deadline,
/// while the program is initialised, succeeds; a claim is only ever refused
/// as expired once `now` is past its deadline.
pub proof fn law_claim_executes_until_deadline(
    s: &ProgramStore,
    pid: Seq<char>,
    id: u64,
    caller: Address,
    now: u64,
)
    requires
        lookup_claim(s, pid, id) is Some,
    ensures
        ({
            let c = lookup_claim(s, pid, id)->0;
            (c.recipient == caller && c.status == ClaimStatus::Pending && now <= c.claim_deadline
                && s.program is Some) ==> execute_claim_outcome(s, pid, id, caller, now) is Ok
        }),
        execute_claim_outcome(s, pid, id, caller, now) == Err::<(), ClaimError>(ClaimError::Expired) ==> now
            > lookup_claim(s, pid, id)->0.claim_deadline,
{
}

} // verus!
