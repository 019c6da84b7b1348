//! Commit-reveal: a creator commits to `sha256(value || salt)` and later
//! reveals `value` and `salt`; only the creator may reveal, and not after the
//! optional expiry.
use vstd::prelude::*;
use crate::types::{Address, Hash32};

verus! {

/// A stored commitment.
#[derive(Clone, Copy, Debug, PartialEq, Eq)]
pub struct Commitment {
    pub hash: Hash32,
    pub creator: Address,
    pub timestamp: u64,
    pub expiry: Option<u64>,
}

/// Why a reveal was refused.
#[derive(Clone, Copy, Debug, PartialEq, Eq, Structural)]
pub enum Error {
    CommitmentExpired,
    RevealMismatch,
    UnauthorizedReveal,
}

/// The stable numeric code of each reveal error.
pub open spec fn reveal_error_code(e: Error) -> u32 {
    match e {
        Error::CommitmentExpired => 100,
        Error::RevealMismatch => 101,
        Error::UnauthorizedReveal => 102,
    }
}

impl Error {
    /// The stable numeric code of this error.
    pub fn code(&self) -> (c: u32)
        ensures
            c == reveal_error_code(*self),
    {
        match self {
            Error::CommitmentExpired => 100,
            Error::RevealMismatch => 101,
            Error::UnauthorizedReveal => 102,
        }
    }
}

/// The SHA-256 digest of `data`, as the ledger host computes it.
pub uninterp spec fn sha256_digest(data: Seq<u8>) -> Seq<u8>;

/// Longest input hashed here, in bytes.  The host that computes the digest
/// runs under its default budget of 100 000 000 CPU instructions, and
/// hashing is charged about 55 instructions per byte (plus the copy into the
/// host), so inputs near 1.8 MB exhaust it and the host aborts; 1 MiB keeps
/// well inside the budget.
pub const MAX_HASH_INPUT: usize = 1_048_576;

/// SHA-256 of `data`, computed by the Soroban host
/// (`soroban_sdk::crypto::Crypto::sha256`).  Trusted: the result is the
/// 32-byte digest of `data` and depends on `data` alone, which is all the
/// contract claims; the digest function itself is not specified here.  The
/// input is bounded so that the host's budget is never exhausted.
#[verifier::external_body]
fn sha256(data: &Vec<u8>) -> (r: Hash32)
    requires
        data@.len() <= MAX_HASH_INPUT,
    ensures
        r@ == sha256_digest(data@),
{
    let env = soroban_sdk::Env::default();
    let bytes = soroban_sdk::Bytes::from_slice(&env, data.as_slice());
    env.crypto().sha256(&bytes).to_array()
}

/// Records a commitment to `hash` made by `creator` at time `now`.
pub fn create_commitment(creator: Address, hash: Hash32, expiry: Option<u64>, now: u64) -> (c: Commitment)
    ensures
        c == (Commitment { hash, creator, timestamp: now, expiry }),
{
    Commitment { hash, creator, timestamp: now, expiry }
}

/// The digest a commitment to `value` with `salt` holds:
/// `sha256(value || salt)`.
pub fn commitment_digest(value: &Vec<u8>, salt: &Vec<u8>) -> (r: Hash32)
    requires
        value@.len() + salt@.len() <= MAX_HASH_INPUT,
    ensures
        r@ == sha256_digest(value@ + salt@),
{
    let mut data: Vec<u8> = Vec::new();
    let mut i: usize = 0;
    while i < value.len()
        invariant
            0 <= i <= value.len(),
            data@ == value@.take(i as int),
            value@.len() + salt@.len() <= MAX_HASH_INPUT,
        decreases value.len() - i,
    {
        data.push(value[i]);
        i = i + 1;
        assert(data@ =~= value@.take(i as int));
    }
    assert(value@.take(value.len() as int) =~= value@);
    let mut j: usize = 0;
    while j < salt.len()
        invariant
            0 <= j <= salt.len(),
            data@ == value@ + salt@.take(j as int),
            value@.len() + salt@.len() <= MAX_HASH_INPUT,
        decreases salt.len() - j,
    {
        data.push(salt[j]);
        j = j + 1;
        assert(data@ =~= value@ + salt@.take(j as int));
    }
    assert(salt@.take(salt.len() as int) =~= salt@);
    sha256(&data)
}

/// What a reveal by `revealer` at `now` whose recomputed digest is `digest`
/// decides.
pub open spec fn reveal_outcome(c: Commitment, revealer: Address, now: u64, digest: Seq<u8>) -> Result<
    (),
    Error,
> {
    if revealer != c.creator {
        Err(Error::UnauthorizedReveal)
    } else if c.expiry matches Some(e) && now > e {
        Err(Error::CommitmentExpired)
    } else if digest != c.hash@ {
        Err(Error::RevealMismatch)
    } else {
        Ok(())
    }
}

/// Checks a reveal given the recomputed digest: only the creator may
/// reveal, not after the expiry, and the digest must equal the committed
/// hash.
pub fn check_reveal(commitment: &Commitment, revealer: Address, now: u64, digest: &Hash32) -> (r: Result<
    (),
    Error,
>)
    ensures
        r == reveal_outcome(*commitment, revealer, now, digest@),
{
    if revealer != commitment.creator {
        return Err(Error::UnauthorizedReveal);
    }
    match commitment.expiry {
        Some(expiry) => {
            if now > expiry {
                return Err(Error::CommitmentExpired);
            }
        },
        None => {},
    }
    let mut i: usize = 0;
    while i < 32
        invariant
            0 <= i <= 32,
            revealer == commitment.creator,
            commitment.expiry matches Some(e) ==> now <= e,
            forall|j: int| 0 <= j < i ==> digest@[j] == commitment.hash@[j],
        decreases 32 - i,
    {
        if digest[i] != commitment.hash[i] {
            assert(digest@[i as int] != commitment.hash@[i as int]);
            return Err(Error::RevealMismatch);
        }
        i = i + 1;
    }
    assert(digest@ =~= commitment.hash@);
    Ok(())
}

/// Whether a reveal by `revealer` at `now` gets as far as hashing: the
/// revealer is the creator and the commitment has not expired.
pub open spec fn reveal_hashes(c: Commitment, revealer: Address, now: u64) -> bool {
    revealer == c.creator && !(c.expiry matches Some(e) && now > e)
}

/// Verifies a reveal of `value` with `salt` against `commitment`: only the
/// creator may reveal, not after the expiry, and `sha256(value || salt)`
/// must equal the committed hash.  The caller authorises `revealer` once it
/// is known to be the creator.
pub fn verify_reveal(commitment: &Commitment, revealer: Address, value: &Vec<u8>, salt: &Vec<u8>, now: u64) -> (r:
    Result<(), Error>)
    requires
        reveal_hashes(*commitment, revealer, now) ==> value@.len() + salt@.len() <= MAX_HASH_INPUT,
    ensures
        r == reveal_outcome(*commitment, revealer, now, sha256_digest(value@ + salt@)),
{
    if revealer != commitment.creator {
        return Err(Error::UnauthorizedReveal);
    }
    match commitment.expiry {
        Some(expiry) => {
            if now > expiry {
                return Err(Error::CommitmentExpired);
            }
        },
        None => {},
    }
    let digest = commitment_digest(value, salt);
    check_reveal(commitment, revealer, now, &digest)
}

/// Revealing exactly what was committed, as its creator and before the
/// expiry, succeeds.
pub proof fn law_honest_reveal_succeeds(c: Commitment, value: Seq<u8>, salt: Seq<u8>, now: u64)
    requires
        c.hash@ == sha256_digest(value + salt),
        c.expiry matches Some(e) ==> now <= e,
    ensures
        reveal_outcome(c, c.creator, now, sha256_digest(value + salt)) is Ok,
{
}

/// Nobody but the creator can reveal a commitment.
pub proof fn law_only_creator_reveals(c: Commitment, revealer: Address, now: u64, digest: Seq<u8>)
    requires
        revealer != c.creator,
    ensures
        reveal_outcome(c, revealer, now, digest) == Err::<(), Error>(Error::UnauthorizedReveal),
{
}

} // verus!
