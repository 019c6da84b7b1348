use grainlify::nonce::{
    get_nonce, get_nonce_with_domain, validate_and_increment_nonce, validate_and_increment_nonce_with_domain,
    NonceError, NonceKey, NonceStore,
};
use grainlify::types::{Address, Symbol};

const UPGRADE: Symbol = Symbol { code: 0x7570 };
const PAYOUT: Symbol = Symbol { code: 0x7061 };

#[test]
fn nonce_defaults_to_zero_for_new_signer() {
    let store = NonceStore::new();
    let signer = Address { id: 1 };
    assert_eq!(get_nonce(&store, signer), 0);
}

#[test]
fn nonce_replay_is_rejected_after_successful_consume() {
    let mut store = NonceStore::new();
    let signer = Address { id: 1 };
    assert_eq!(validate_and_increment_nonce(&mut store, signer, 0), Ok(()));
    assert_eq!(get_nonce(&store, signer), 1);
    assert_eq!(validate_and_increment_nonce(&mut store, signer, 0), Err(NonceError::InvalidNonce));
    assert_eq!(get_nonce(&store, signer), 1);
}

#[test]
fn nonce_rejects_future_value() {
    let mut store = NonceStore::new();
    let signer = Address { id: 1 };
    assert_eq!(validate_and_increment_nonce(&mut store, signer, 1), Err(NonceError::InvalidNonce));
    assert_eq!(get_nonce(&store, signer), 0);
}

#[test]
fn nonces_are_isolated_per_signer() {
    let mut store = NonceStore::new();
    let signer_a = Address { id: 1 };
    let signer_b = Address { id: 2 };
    assert_eq!(validate_and_increment_nonce(&mut store, signer_a, 0), Ok(()));
    assert_eq!(get_nonce(&store, signer_a), 1);
    assert_eq!(get_nonce(&store, signer_b), 0);
    assert_eq!(validate_and_increment_nonce(&mut store, signer_b, 0), Ok(()));
}

#[test]
fn domain_nonce_isolation_and_replay_rejection() {
    let mut store = NonceStore::new();
    let signer = Address { id: 1 };
    assert_eq!(validate_and_increment_nonce_with_domain(&mut store, signer, UPGRADE, 0), Ok(()));
    assert_eq!(get_nonce_with_domain(&store, signer, UPGRADE), 1);
    assert_eq!(get_nonce_with_domain(&store, signer, PAYOUT), 0);
    assert_eq!(
        validate_and_increment_nonce_with_domain(&mut store, signer, UPGRADE, 0),
        Err(NonceError::InvalidNonce)
    );
    assert_eq!(validate_and_increment_nonce_with_domain(&mut store, signer, PAYOUT, 0), Ok(()));
}

#[test]
fn global_and_domain_nonces_are_independent() {
    let mut store = NonceStore::new();
    let signer = Address { id: 1 };
    assert_eq!(validate_and_increment_nonce(&mut store, signer, 0), Ok(()));
    assert_eq!(get_nonce(&store, signer), 1);
    assert_eq!(get_nonce_with_domain(&store, signer, UPGRADE), 0);
    assert_eq!(validate_and_increment_nonce_with_domain(&mut store, signer, UPGRADE, 0), Ok(()));
    assert_eq!(get_nonce_with_domain(&store, signer, UPGRADE), 1);
    assert_eq!(get_nonce(&store, signer), 1);
}

#[test]
fn nonce_exhaustion_is_reported_without_wrapping_global() {
    let mut store = NonceStore::new();
    let signer = Address { id: 1 };
    store.entries.push((NonceKey::Signer(signer), u64::MAX));
    assert_eq!(
        validate_and_increment_nonce(&mut store, signer, u64::MAX),
        Err(NonceError::NonceExhausted)
    );
    assert_eq!(get_nonce(&store, signer), u64::MAX);
}

#[test]
fn nonce_exhaustion_is_reported_without_wrapping_domain() {
    let mut store = NonceStore::new();
    let signer = Address { id: 1 };
    store.entries.push((NonceKey::SignerWithDomain(signer, UPGRADE), u64::MAX));
    assert_eq!(
        validate_and_increment_nonce_with_domain(&mut store, signer, UPGRADE, u64::MAX),
        Err(NonceError::NonceExhausted)
    );
    assert_eq!(get_nonce_with_domain(&store, signer, UPGRADE), u64::MAX);
}

#[test]
fn nonce_error_codes() {
    assert_eq!(NonceError::InvalidNonce.code(), 100);
    assert_eq!(NonceError::NonceExhausted.code(), 101);
}

#[test]
fn consecutive_nonces_are_accepted_in_order() {
    let mut store = NonceStore::new();
    let signer = Address { id: 5 };
    for n in 0..5u64 {
        assert_eq!(validate_and_increment_nonce(&mut store, signer, n), Ok(()));
    }
    assert_eq!(get_nonce(&store, signer), 5);
}
