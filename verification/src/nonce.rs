//! Replay protection for signer-authorised flows.
//!
//! A signer reads its expected nonce, signs a payload containing it, and the
//! entrypoint consumes it: the stored nonce then grows by exactly one, so a
//! consumed nonce can never be reused.  Stale and future values are refused.
//! Domain-scoped nonces are isolated from the global nonce and from other
//! domains of the same signer.
use vstd::prelude::*;
use crate::types::{Address, Symbol};

verus! {

/// Why a nonce was refused.
#[derive(Clone, Copy, Debug, PartialEq, Eq, Structural)]
pub enum NonceError {
    /// The nonce is not the expected current one.
    InvalidNonce,
    /// The stored nonce is `u64::MAX` and cannot advance.
    NonceExhausted,
}

/// The stable numeric code of each nonce error.
pub open spec fn nonce_error_code(e: NonceError) -> u32 {
    match e {
        NonceError::InvalidNonce => 100,
        NonceError::NonceExhausted => 101,
    }
}

impl NonceError {
    /// The stable numeric code of this error.
    pub fn code(&self) -> (c: u32)
        ensures
            c == nonce_error_code(*self),
    {
        match self {
            NonceError::InvalidNonce => 100,
            NonceError::NonceExhausted => 101,
        }
    }
}

/// Keys under which nonces are tracked.
#[derive(Clone, Copy, Debug, PartialEq, Eq, Structural)]
pub enum NonceKey {
    /// The signer's global nonce.
    Signer(Address),
    /// The signer's nonce inside a domain.
    SignerWithDomain(Address, Symbol),
}

/// Stored nonces keyed by `NonceKey` (first match wins); an absent key has
/// nonce 0.
#[derive(Debug)]
pub struct NonceStore {
    pub entries: Vec<(NonceKey, u64)>,
}

/// Index of the first entry for `key`.
pub open spec fn nonce_index(es: Seq<(NonceKey, u64)>, key: NonceKey) -> Option<int>
    decreases es.len(),
{
    if es.len() == 0 {
        None
    } else {
        match nonce_index(es.drop_last(), key) {
            Some(i) => Some(i),
            None => if es.last().0 == key {
                Some(es.len() - 1)
            } else {
                None
            },
        }
    }
}

/// The current nonce stored under `key` (0 when absent).
pub open spec fn nonce_of(s: &NonceStore, key: NonceKey) -> u64 {
    match nonce_index(s.entries@, key) {
        Some(i) => s.entries@[i].1,
        None => 0,
    }
}

/// What consuming `provided` under `key` decides.
pub open spec fn consume_outcome(s: &NonceStore, key: NonceKey, provided: u64) -> Result<(), NonceError> {
    if provided != nonce_of(s, key) {
        Err(NonceError::InvalidNonce)
    } else if nonce_of(s, key) == u64::MAX {
        Err(NonceError::NonceExhausted)
    } else {
        Ok(())
    }
}

/// `s2` is `s1` with the nonce of `key` advanced by one and every other
/// nonce unchanged.
pub open spec fn nonce_consumed(s1: &NonceStore, s2: &NonceStore, key: NonceKey) -> bool {
    &&& nonce_of(s2, key) == nonce_of(s1, key) + 1
    &&& forall|k: NonceKey| k != key ==> #[trigger] nonce_of(s2, k) == nonce_of(s1, k)
}

proof fn lemma_nonce_index_char(es: Seq<(NonceKey, u64)>, key: NonceKey)
    ensures
        nonce_index(es, key) matches Some(i) ==> 0 <= i < es.len() && es[i].0 == key && forall|j: int|
            0 <= j < i ==> (#[trigger] es[j]).0 != key,
        nonce_index(es, key) is None ==> forall|j: int| 0 <= j < es.len() ==> (#[trigger] es[j]).0 != key,
    decreases es.len(),
{
    if es.len() > 0 {
        let p = es.drop_last();
        lemma_nonce_index_char(p, key);
        if nonce_index(p, key) is Some {
            let i = nonce_index(p, key)->0;
            assert(p[i] == es[i]);
            assert forall|j: int| 0 <= j < i implies (#[trigger] es[j]).0 != key by {
                assert(p[j] == es[j]);
            }
        } else {
            assert forall|j: int| 0 <= j < es.len() - 1 implies (#[trigger] es[j]).0 != key by {
                assert(p[j] == es[j]);
            }
        }
    }
}

proof fn lemma_nonce_index_is(es: Seq<(NonceKey, u64)>, key: NonceKey, i: int)
    requires
        0 <= i < es.len(),
        es[i].0 == key,
        forall|j: int| 0 <= j < i ==> (#[trigger] es[j]).0 != key,
    ensures
        nonce_index(es, key) == Some(i),
{
    lemma_nonce_index_char(es, key);
    match nonce_index(es, key) {
        Some(k) => {
            if k < i {
                assert(es[k].0 != key);
            }
            if i < k {
                assert(es[i].0 != key);
            }
        },
        None => {
            assert(es[i].0 != key);
        },
    }
}

/// Updating or appending the entry of `key` keeps every other lookup.
proof fn lemma_nonce_frame(before: Seq<(NonceKey, u64)>, after: Seq<(NonceKey, u64)>, key: NonceKey, other: NonceKey)
    requires
        other != key,
        after.len() == before.len() || after.len() == before.len() + 1,
        forall|j: int| 0 <= j < before.len() && before[j].0 != key ==> #[trigger] after[j] == before[j],
        forall|j: int| 0 <= j < before.len() ==> (#[trigger] after[j]).0 == before[j].0,
        after.len() == before.len() + 1 ==> after.last().0 == key,
    ensures
        nonce_index(after, other) == nonce_index(before, other),
        nonce_index(before, other) matches Some(i) ==> after[i] == before[i],
{
    lemma_nonce_index_char(before, other);
    match nonce_index(before, other) {
        Some(i) => {
            assert forall|j: int| 0 <= j < i implies (#[trigger] after[j]).0 != other by {
                assert(before[j].0 != other);
            }
            lemma_nonce_index_is(after, other, i);
        },
        None => {
            lemma_nonce_index_char(after, other);
            if nonce_index(after, other) is Some {
                let k = nonce_index(after, other)->0;
                if k < before.len() {
                    assert(before[k].0 != other);
                }
            }
        },
    }
}

impl NonceStore {
    /// A store in which every nonce is 0.
    pub fn new() -> (s: Self)
        ensures
            forall|k: NonceKey| #[trigger] nonce_of(&s, k) == 0,
    {
        NonceStore { entries: Vec::new() }
    }

    fn find(&self, key: NonceKey) -> (r: Option<usize>)
        ensures
            r matches Some(i) ==> nonce_index(self.entries@, key) == Some(i as int) && i < self.entries@.len(),
            r is None ==> nonce_index(self.entries@, key) is None,
    {
        let mut i: usize = 0;
        while i < self.entries.len()
            invariant
                0 <= i <= self.entries.len(),
                forall|j: int| 0 <= j < i ==> (#[trigger] self.entries@[j]).0 != key,
            decreases self.entries.len() - i,
        {
            if self.entries[i].0 == key {
                proof {
                    lemma_nonce_index_is(self.entries@, key, i as int);
                }
                return Some(i);
            }
            i = i + 1;
        }
        proof {
            lemma_nonce_index_char(self.entries@, key);
            if nonce_index(self.entries@, key) is Some {
                let k = nonce_index(self.entries@, key)->0;
                assert(self.entries@[k].0 != key);
            }
        }
        None
    }

    /// The current nonce stored under `key`.
    fn current(&self, key: NonceKey) -> (r: u64)
        ensures
            r == nonce_of(self, key),
    {
        match self.find(key) {
            Some(i) => self.entries[i].1,
            None => 0,
        }
    }

    /// Validates `provided_nonce` against the nonce of `key` and consumes it.
    fn validate_and_increment_nonce_for_key(&mut self, key: NonceKey, provided_nonce: u64) -> (r:
        Result<(), NonceError>)
        ensures
            r == consume_outcome(old(self), key, provided_nonce),
            r is Err ==> *final(self) == *old(self),
            r is Ok ==> nonce_consumed(old(self), final(self), key),
    {
        let current_nonce: u64 = self.current(key);
        if provided_nonce != current_nonce {
            return Err(NonceError::InvalidNonce);
        }
        let next_nonce: u64 = match current_nonce.checked_add(1) {
            Some(n) => n,
            None => {
                return Err(NonceError::NonceExhausted);
            },
        };
        let ghost before = self.entries@;
        match self.find(key) {
            Some(i) => {
                proof {
                    lemma_nonce_index_char(before, key);
                }
                self.entries.set(i, (key, next_nonce));
                proof {
                    lemma_nonce_index_is(self.entries@, key, i as int);
                    assert forall|k: NonceKey| k != key implies #[trigger] nonce_of(final(self), k)
                        == nonce_of(old(self), k) by {
                        lemma_nonce_frame(before, self.entries@, key, k);
                    }
                }
            },
            None => {
                proof {
                    lemma_nonce_index_char(before, key);
                }
                self.entries.push((key, next_nonce));
                proof {
                    assert forall|j: int| 0 <= j < before.len() implies (#[trigger] self.entries@[j]).0
                        != key by {
                        assert(self.entries@[j] == before[j]);
                    }
                    lemma_nonce_index_is(self.entries@, key, before.len() as int);
                    assert forall|k: NonceKey| k != key implies #[trigger] nonce_of(final(self), k)
                        == nonce_of(old(self), k) by {
                        lemma_nonce_frame(before, self.entries@, key, k);
                    }
                }
            },
        }
        Ok(())
    }
}

/// The signer's current global nonce (0 before any has been consumed).
pub fn get_nonce(store: &NonceStore, signer: Address) -> (r: u64)
    ensures
        r == nonce_of(store, NonceKey::Signer(signer)),
{
    store.current(NonceKey::Signer(signer))
}

/// The signer's current nonce inside `domain` (0 before any has been
/// consumed there).
pub fn get_nonce_with_domain(store: &NonceStore, signer: Address, domain: Symbol) -> (r: u64)
    ensures
        r == nonce_of(store, NonceKey::SignerWithDomain(signer, domain)),
{
    store.current(NonceKey::SignerWithDomain(signer, domain))
}

/// Validates `provided_nonce` against the signer's global nonce and consumes
/// it.  Refused, with the store unchanged, when it is not the current nonce
/// or the current nonce is `u64::MAX`; otherwise that nonce grows by exactly
/// one and every other nonce is unchanged.
pub fn validate_and_increment_nonce(store: &mut NonceStore, signer: Address, provided_nonce: u64) -> (r:
    Result<(), NonceError>)
    ensures
        r == consume_outcome(old(store), NonceKey::Signer(signer), provided_nonce),
        r is Err ==> *final(store) == *old(store),
        r is Ok ==> nonce_consumed(old(store), final(store), NonceKey::Signer(signer)),
{
    store.validate_and_increment_nonce_for_key(NonceKey::Signer(signer), provided_nonce)
}

/// Validates `provided_nonce` against the signer's nonce in `domain` and
/// consumes it, as `validate_and_increment_nonce` does for the global one.
pub fn validate_and_increment_nonce_with_domain(
    store: &mut NonceStore,
    signer: Address,
    domain: Symbol,
    provided_nonce: u64,
) -> (r: Result<(), NonceError>)
    ensures
        r == consume_outcome(old(store), NonceKey::SignerWithDomain(signer, domain), provided_nonce),
        r is Err ==> *final(store) == *old(store),
        r is Ok ==> nonce_consumed(old(store), final(store), NonceKey::SignerWithDomain(signer, domain)),
{
    store.validate_and_increment_nonce_for_key(NonceKey::SignerWithDomain(signer, domain), provided_nonce)
}

/// A consumed nonce can never be used again: right after it is consumed,
/// presenting it again is refused as invalid.
pub proof fn law_consumed_nonce_is_rejected(s1: &NonceStore, s2: &NonceStore, key: NonceKey, n: u64)
    requires
        consume_outcome(s1, key, n) is Ok,
        nonce_consumed(s1, s2, key),
    ensures
        consume_outcome(s2, key, n) == Err::<(), NonceError>(NonceError::InvalidNonce),
{
}

/// Nonces under different keys (signers, domains, global vs. domain) never
/// influence each other: consuming one leaves the outcome of every other
/// key's validation unchanged.
pub proof fn law_nonce_keys_are_isolated(
    s1: &NonceStore,
    s2: &NonceStore,
    key: NonceKey,
    other: NonceKey,
    n: u64,
)
    requires
        nonce_consumed(s1, s2, key),
        other != key,
    ensures
        consume_outcome(s2, other, n) == consume_outcome(s1, other, n),
        nonce_of(s2, other) == nonce_of(s1, other),
{
}

/// Consuming the current nonce always succeeds unless it is exhausted, so a
/// signer can keep going strictly in order.
pub proof fn law_current_nonce_is_accepted(s: &NonceStore, key: NonceKey)
    requires
        nonce_of(s, key) < u64::MAX,
    ensures
        consume_outcome(s, key, nonce_of(s, key)) is Ok,
{
}

} // verus!
