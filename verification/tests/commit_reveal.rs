use grainlify::commit_reveal::{
    check_reveal, commitment_digest, create_commitment, verify_reveal, Error, MAX_HASH_INPUT,
};
use grainlify::types::Address;

const SHA_123456: [u8; 32] = [
    113, 146, 56, 92, 60, 6, 5, 222, 85, 187, 148, 118, 206, 29, 144, 116, 129, 144, 236, 179, 42, 142, 237,
    127, 82, 7, 179, 12, 246, 161, 254, 137,
];
const SHA_12: [u8; 32] = [
    161, 40, 113, 254, 226, 16, 251, 134, 25, 41, 30, 174, 161, 148, 88, 28, 189, 37, 49, 228, 178, 55, 89,
    210, 37, 246, 128, 105, 35, 246, 50, 34,
];

#[test]
fn test_commit_reveal_success() {
    let creator = Address { id: 1 };
    let value = vec![1u8, 2, 3];
    let salt = vec![4u8, 5, 6];
    let hash = commitment_digest(&value, &salt);
    let commitment = create_commitment(creator, hash, None, 0);
    let result = verify_reveal(&commitment, creator, &value, &salt, 0);
    assert!(result.is_ok());
}

#[test]
fn test_unauthorized_reveal() {
    let creator = Address { id: 1 };
    let attacker = Address { id: 2 };
    let value = vec![1u8];
    let salt = vec![2u8];
    let hash = commitment_digest(&value, &salt);
    let commitment = create_commitment(creator, hash, None, 0);
    let result = verify_reveal(&commitment, attacker, &value, &salt, 0);
    assert_eq!(result, Err(Error::UnauthorizedReveal));
}

#[test]
fn digest_is_sha256_of_value_then_salt() {
    assert_eq!(commitment_digest(&vec![1u8, 2, 3], &vec![4u8, 5, 6]), SHA_123456);
    assert_eq!(commitment_digest(&vec![1u8], &vec![2u8]), SHA_12);
    assert_ne!(commitment_digest(&vec![4u8, 5, 6], &vec![1u8, 2, 3]), SHA_123456);
}

#[test]
fn reveal_mismatch_and_expiry() {
    let creator = Address { id: 1 };
    let commitment = create_commitment(creator, SHA_123456, Some(100), 10);
    assert_eq!(commitment.timestamp, 10);
    assert_eq!(verify_reveal(&commitment, creator, &vec![1u8, 2, 3], &vec![4u8, 5, 6], 100), Ok(()));
    assert_eq!(
        verify_reveal(&commitment, creator, &vec![1u8, 2, 3], &vec![4u8, 5, 6], 101),
        Err(Error::CommitmentExpired)
    );
    assert_eq!(
        verify_reveal(&commitment, creator, &vec![1u8, 2, 3], &vec![4u8, 5, 7], 50),
        Err(Error::RevealMismatch)
    );
}

#[test]
fn check_reveal_compares_given_digest() {
    let creator = Address { id: 1 };
    let commitment = create_commitment(creator, SHA_12, None, 0);
    assert_eq!(check_reveal(&commitment, creator, 5, &SHA_12), Ok(()));
    assert_eq!(check_reveal(&commitment, creator, 5, &SHA_123456), Err(Error::RevealMismatch));
    assert_eq!(check_reveal(&commitment, Address { id: 2 }, 5, &SHA_12), Err(Error::UnauthorizedReveal));
    assert_eq!(Error::CommitmentExpired.code(), 100);
    assert_eq!(Error::RevealMismatch.code(), 101);
    assert_eq!(Error::UnauthorizedReveal.code(), 102);
}

#[test]
fn hashing_the_largest_input_stays_within_the_host_budget() {
    let value = vec![7u8; MAX_HASH_INPUT - 1];
    let salt = vec![9u8];
    let digest = commitment_digest(&value, &salt);
    let creator = Address { id: 1 };
    let commitment = create_commitment(creator, digest, None, 0);
    assert_eq!(verify_reveal(&commitment, creator, &value, &salt, 0), Ok(()));
}
