use anonbot::crypto::{hash_id, hash_username, CryptoError, SecureCrypto, KEY_LEN, NONCE_LEN, TAG_LEN};

fn crypto() -> SecureCrypto {
    SecureCrypto::new((0u8..32).collect())
}

#[test]
fn stored_key_is_kept() {
    let stored: Vec<u8> = vec![7; 32];
    let (key, fresh) = SecureCrypto::load_or_create_key(Some(stored.clone()));
    assert_eq!(key, stored);
    assert!(!fresh);
}

#[test]
fn missing_or_bad_key_is_replaced() {
    let (key, fresh) = SecureCrypto::load_or_create_key(None);
    assert_eq!(key.len(), KEY_LEN);
    assert!(fresh);
    let (key2, fresh2) = SecureCrypto::load_or_create_key(Some(vec![1, 2, 3]));
    assert_eq!(key2.len(), KEY_LEN);
    assert!(fresh2);
}

#[test]
fn encrypt_then_decrypt_gives_the_data() {
    let c = crypto();
    for data in [&b""[..], b"hello", &[0u8; 1000][..]] {
        let sealed = c.encrypt(data).unwrap();
        assert_eq!(sealed.len(), NONCE_LEN + data.len() + TAG_LEN);
        assert_eq!(c.decrypt(&sealed).unwrap(), data.to_vec());
    }
}

#[test]
fn each_encryption_uses_a_fresh_nonce() {
    let c = crypto();
    let a = c.encrypt(b"same").unwrap();
    let b = c.encrypt(b"same").unwrap();
    assert_ne!(a, b);
}

#[test]
fn short_payloads_are_invalid() {
    let c = crypto();
    assert_eq!(c.decrypt(&[0u8; 11]), Err(CryptoError::InvalidData));
    assert_eq!(c.decrypt(&[]), Err(CryptoError::InvalidData));
}

#[test]
fn tampered_payloads_are_refused() {
    let c = crypto();
    let mut sealed = c.encrypt(b"secret").unwrap();
    let last = sealed.len() - 1;
    sealed[last] ^= 1;
    assert_eq!(c.decrypt(&sealed), Err(CryptoError::Aead));
    let other = SecureCrypto::new(vec![9; 32]);
    let sealed = c.encrypt(b"secret").unwrap();
    assert_eq!(other.decrypt(&sealed), Err(CryptoError::Aead));
    assert_eq!(c.decrypt(&[0u8; 12]), Err(CryptoError::Aead));
}

#[test]
fn id_hashes() {
    assert_eq!(hash_id(123456789), "f61543d0676d1954734b746733896b16");
    assert_eq!(hash_id(-1), "b0af7aaa294d9dd06fcc87118751110b");
    assert_eq!(hash_id(5), hash_id(5));
    assert_ne!(hash_id(5), hash_id(6));
}

#[test]
fn username_hashes() {
    assert_eq!(hash_username("alice"), "e6cb48f60f1134b69ed8e1fc323ebc08");
    assert_eq!(hash_username("alice").len(), 32);
}

#[test]
fn error_messages() {
    let c = crypto();
    let e = c.decrypt(&[1u8, 2, 3]).unwrap_err();
    assert_eq!(e, CryptoError::InvalidData);
    assert_eq!(e.message(), "Invalid data");
    assert_eq!(CryptoError::Aead.message(), aes_gcm::Error.to_string());
}
