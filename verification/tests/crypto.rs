use base64::Engine;
use mcp_router::crypto::{CryptoError, KeyManager};

#[test]
fn round_trip_encryption_and_base64() {
    let manager = KeyManager::from_bytes(&[7u8; 32]).expect("create key manager");
    let message = b"secret payload";

    let (nonce, ciphertext) = manager.encrypt(message).expect("encrypt");
    let decrypted = manager
        .decrypt(&nonce, &ciphertext)
        .expect("decrypt nonce/cipher");
    assert_eq!(decrypted, message);

    let encoded = manager
        .encrypt_to_base64(message)
        .expect("encode to base64");
    let decoded = manager
        .decrypt_from_base64(&encoded)
        .expect("decode from base64");
    assert_eq!(decoded, message);
}

#[test]
fn fresh_nonces_give_distinct_ciphertexts() {
    let manager = KeyManager::from_bytes(&[5u8; 32]).expect("key");
    let (n1, c1) = manager.encrypt(b"same message").expect("encrypt");
    let (n2, c2) = manager.encrypt(b"same message").expect("encrypt");
    assert!(n1 != n2 || c1 != c2);
}

#[test]
fn truncated_payload_is_rejected() {
    let manager = KeyManager::from_bytes(&[3u8; 32]).expect("key");
    let short = base64::engine::general_purpose::STANDARD.encode([0u8; 20]);
    assert!(matches!(
        manager.decrypt_from_base64(&short),
        Err(CryptoError::CiphertextTooShort)
    ));
}

#[test]
fn tampered_ciphertext_fails_to_open() {
    let manager = KeyManager::from_bytes(&[4u8; 32]).expect("key");
    let (nonce, mut cipher) = manager.encrypt(b"payload").expect("encrypt");
    cipher[0] ^= 0x01;
    assert!(manager.decrypt(&nonce, &cipher).is_err());
}

#[test]
fn wrong_nonce_length_is_rejected() {
    let manager = KeyManager::from_bytes(&[6u8; 32]).expect("key");
    assert!(matches!(
        manager.decrypt(&[0u8; 8], b"whatever-material"),
        Err(CryptoError::BadNonceLength)
    ));
}

#[test]
fn master_key_must_be_32_bytes() {
    assert!(matches!(
        KeyManager::from_bytes(&[0u8; 16]),
        Err(CryptoError::BadKeyLength)
    ));
    assert!(KeyManager::from_bytes(&[0u8; 32]).is_ok());
}

#[test]
fn round_trip_laws_hold_on_samples() {
    let manager = KeyManager::from_bytes(&[8u8; 32]).expect("key");
    for sample in [&b""[..], b"x", b"a longer message with several words"] {
        let back = mcp_router::crypto::encrypt_then_decrypt(&manager, sample);
        assert_eq!(back, sample);
        let back64 = mcp_router::crypto::encrypt_then_decrypt_base64(&manager, sample);
        assert_eq!(back64, sample);
    }
}
