use base64::Engine;
use dytallix_node::identity::{
    MLDSA65_PUBLIC_KEY_LEN, MLDSA65_SECRET_KEY_LEN, MLDSA87_PUBLIC_KEY_LEN, MLDSA87_SECRET_KEY_LEN,
};
use dytallix_node::{derive_identity, ValidatorIdentity};
use fips204::traits::{KeyGen, SerDes};
use fips204::{ml_dsa_65, ml_dsa_87};

/// An address codec for the tests: the length and first bytes of the key.
fn test_address(pk: &Vec<u8>) -> String {
    format!("dyt1{}-{:02x}{:02x}", pk.len(), pk[0], pk[1])
}

#[test]
fn key_lengths_match_fips204() {
    assert_eq!(MLDSA65_SECRET_KEY_LEN, ml_dsa_65::SK_LEN);
    assert_eq!(MLDSA65_PUBLIC_KEY_LEN, ml_dsa_65::PK_LEN);
    assert_eq!(MLDSA87_SECRET_KEY_LEN, ml_dsa_87::SK_LEN);
    assert_eq!(MLDSA87_PUBLIC_KEY_LEN, ml_dsa_87::PK_LEN);
}

#[test]
fn derives_mldsa65_identity() {
    let (pk, sk) = ml_dsa_65::KG::try_keygen().unwrap();
    let sk_bytes = sk.into_bytes();
    let (derived_pk, address, alg) =
        derive_identity(&sk_bytes, test_address).expect("valid ML-DSA-65 key");
    let pk_bytes = pk.into_bytes().to_vec();
    assert_eq!(address, test_address(&pk_bytes));
    assert_eq!(derived_pk, pk_bytes);
    assert_eq!(alg, "mldsa65");
}

#[test]
fn derives_mldsa87_identity() {
    let (pk, sk) = ml_dsa_87::KG::try_keygen().unwrap();
    let sk_bytes = sk.into_bytes();
    let (derived_pk, address, alg) =
        derive_identity(&sk_bytes, test_address).expect("valid ML-DSA-87 key");
    let pk_bytes = pk.into_bytes().to_vec();
    assert_eq!(address, test_address(&pk_bytes));
    assert_eq!(derived_pk, pk_bytes);
    assert_eq!(alg, "dilithium5");
}

#[test]
fn other_lengths_derive_nothing() {
    assert!(derive_identity(&[], test_address).is_none());
    assert!(derive_identity(&[7u8; 32], test_address).is_none());
    assert!(derive_identity(&vec![0u8; ml_dsa_65::SK_LEN + 1], test_address).is_none());
}

#[test]
fn new_identity_has_nothing_recorded() {
    let id = ValidatorIdentity::new();
    assert!(id.validator_address().is_none());
    assert!(id.validator_algorithm().is_none());
    assert!(id.validator_public_key_b64().is_none());
    assert!(id.validator_key().is_none());
}

#[test]
fn derived_key_records_public_key_and_algorithm() {
    let (pk, sk) = ml_dsa_65::KG::try_keygen().unwrap();
    let sk_bytes = sk.into_bytes();
    let mut id = ValidatorIdentity::new();
    let len = id.record_loaded_key(sk_bytes.to_vec(), Some("dyt1configured".to_string()), test_address);
    assert_eq!(len, ml_dsa_65::SK_LEN);
    assert_eq!(id.validator_algorithm(), Some("mldsa65"));
    let pk_bytes = pk.into_bytes().to_vec();
    let expected = base64::engine::general_purpose::STANDARD.encode(&pk_bytes);
    let encoded = id.validator_public_key_b64().unwrap();
    assert_eq!(encoded, expected);
    assert_eq!(encoded.len(), 4 * ((pk_bytes.len() + 2) / 3));
    assert_eq!(
        base64::engine::general_purpose::STANDARD.decode(&encoded).unwrap(),
        pk_bytes
    );
    // The configured address is only a fallback for keys that derive nothing.
    let derived_address = test_address(&pk_bytes);
    assert_eq!(id.validator_address(), Some(derived_address.as_str()));
}

#[test]
fn underived_key_records_configured_address() {
    let mut id = ValidatorIdentity::new();
    let len = id.record_loaded_key(vec![1, 2, 3], Some("dyt1configured".to_string()), test_address);
    assert_eq!(len, 3);
    assert_eq!(id.validator_address(), Some("dyt1configured"));
    assert_eq!(id.validator_algorithm(), Some("configured-address"));
    assert!(id.validator_public_key_b64().is_none());
}

#[test]
fn underived_key_without_address_records_nothing() {
    let mut id = ValidatorIdentity::new();
    assert_eq!(id.record_loaded_key(vec![9; 10], None, test_address), 10);
    assert!(id.validator_address().is_none());
    assert!(id.validator_algorithm().is_none());
}

#[test]
fn first_recorded_identity_stays() {
    let mut id = ValidatorIdentity::new();
    id.record_loaded_key(vec![1], Some("dyt1first".to_string()), test_address);
    id.record_loaded_key(vec![2], Some("dyt1second".to_string()), test_address);
    assert_eq!(id.validator_address(), Some("dyt1first"));
    let (_, sk) = ml_dsa_65::KG::try_keygen().unwrap();
    id.record_loaded_key(sk.into_bytes().to_vec(), None, test_address);
    assert_eq!(id.validator_algorithm(), Some("configured-address"));
    assert_eq!(id.validator_address(), Some("dyt1first"));
    assert!(id.validator_public_key_b64().is_some());
}

#[test]
fn base64_of_short_keys_is_padded() {
    let (_, sk) = ml_dsa_87::KG::try_keygen().unwrap();
    let mut id = ValidatorIdentity::new();
    id.record_loaded_key(sk.into_bytes().to_vec(), None, test_address);
    let encoded = id.validator_public_key_b64().unwrap();
    // 2592 bytes = 864 groups of three: no padding
    assert_eq!(encoded.len(), 3456);
    assert!(!encoded.ends_with('='));
    assert_eq!(id.validator_algorithm(), Some("dilithium5"));
    assert!(id.validator_address().unwrap().starts_with("dyt12592-"));
}

#[test]
fn first_loaded_key_bytes_are_kept() {
    let mut id = ValidatorIdentity::new();
    id.record_loaded_key(vec![4, 5, 6], None, test_address);
    assert_eq!(id.validator_key(), Some(&[4u8, 5, 6][..]));
    // nothing derived and nothing configured: no address, no algorithm
    assert!(id.validator_address().is_none());
    assert!(id.validator_algorithm().is_none());
    id.record_loaded_key(vec![7, 8], Some("dyt1late".to_string()), test_address);
    assert_eq!(id.validator_key(), Some(&[4u8, 5, 6][..]));
    assert_eq!(id.validator_address(), Some("dyt1late"));
}
