//! Plain-value identities shared by every module of the library.
//!
//! Ledger accounts, contract addresses and short symbols are handled by the
//! host as opaque handles; the library only ever compares them for equality,
//! so each is modelled by a stable 64-bit identity.
use vstd::prelude::*;

verus! {

/// An account or contract address, identified by a stable 64-bit handle.
#[derive(Clone, Copy, Debug, PartialEq, Eq, Structural, Hash)]
pub struct Address {
    pub id: u64,
}

/// A short on-ledger symbol, identified by its 64-bit encoding.
#[derive(Clone, Copy, Debug, PartialEq, Eq, Structural, Hash)]
pub struct Symbol {
    pub code: u64,
}

/// A 32-byte digest (WASM hash, commitment hash, migration hash).
pub type Hash32 = [u8; 32];

/// Whether `a` occurs in `s`.
pub open spec fn seq_has<T>(s: Seq<T>, a: T) -> bool {
    exists|i: int| 0 <= i < s.len() && s[i] == a
}

/// Linear membership test over a vector of addresses.
pub fn contains_address(v: &Vec<Address>, a: Address) -> (r: bool)
    ensures
        r == seq_has(v@, a),
{
    let mut i: usize = 0;
    while i < v.len()
        invariant
            0 <= i <= v.len(),
            forall|j: int| 0 <= j < i ==> v@[j] != a,
        decreases v.len() - i,
    {
        if v[i] == a {
            return true;
        }
        i = i + 1;
    }
    false
}

/// Copies a vector of addresses element by element.
pub fn copy_addresses(v: &Vec<Address>) -> (r: Vec<Address>)
    ensures
        r@ == v@,
{
    let mut r: Vec<Address> = Vec::new();
    let mut i: usize = 0;
    while i < v.len()
        invariant
            0 <= i <= v.len(),
            r@ == v@.take(i as int),
        decreases v.len() - i,
    {
        r.push(v[i]);
        i = i + 1;
        assert(r@ =~= v@.take(i as int));
    }
    assert(v@.take(v.len() as int) =~= v@);
    r
}

/// Element-wise equality of two address vectors.
pub fn addresses_equal(a: &Vec<Address>, b: &Vec<Address>) -> (r: bool)
    ensures
        r == (a@ == b@),
{
    if a.len() != b.len() {
        return false;
    }
    let mut i: usize = 0;
    while i < a.len()
        invariant
            a.len() == b.len(),
            0 <= i <= a.len(),
            forall|j: int| 0 <= j < i ==> a@[j] == b@[j],
        decreases a.len() - i,
    {
        if a[i] != b[i] {
            return false;
        }
        i = i + 1;
    }
    assert(a@ =~= b@);
    true
}

} // verus!
