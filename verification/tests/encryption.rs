use russell::encryption::EncryptionKey;
use russell::error::CoreError;

#[test]
fn test_key_generation() {
    let key = EncryptionKey::generate();
    assert!(!key.to_encoded_string().is_empty());
}

#[test]
fn test_encrypt_decrypt_roundtrip() {
    let key = EncryptionKey::generate();
    let plaintext = b"secret token data";

    let ciphertext = key.encrypt(plaintext).unwrap();
    let decrypted = key.decrypt(&ciphertext).unwrap();

    assert_eq!(plaintext, &decrypted[..]);
}

#[test]
fn test_key_export_import() {
    let key1 = EncryptionKey::generate();
    let encoded = key1.to_encoded_string();

    let key2 = EncryptionKey::from_string(&encoded).unwrap();

    // Both keys decrypt the same ciphertext.
    let plaintext = b"test data";
    let ciphertext = key1.encrypt(plaintext).unwrap();
    let decrypted = key2.decrypt(&ciphertext).unwrap();

    assert_eq!(plaintext, &decrypted[..]);
    assert_eq!(key2.to_encoded_string(), encoded);
}

#[test]
fn test_invalid_ciphertext_rejected() {
    let key = EncryptionKey::generate();

    // Tampered ciphertext fails.
    let result = key.decrypt("not-valid-base64!!!");
    assert!(result.is_err());
}

#[test]
fn decryption_errors_say_what_failed() {
    let key = EncryptionKey::generate();
    match key.decrypt("not-valid-base64!!!") {
        Err(CoreError::Invariant(m)) => assert!(m.starts_with("invalid ciphertext encoding: "), "{m}"),
        other => panic!("unexpected {:?}", other.map(|_| ())),
    }
    // Valid base64 that is no age file.
    match key.decrypt("aGVsbG8=") {
        Err(CoreError::Invariant(m)) => assert!(m.starts_with("decryption failed: "), "{m}"),
        other => panic!("unexpected {:?}", other.map(|_| ())),
    }
    // Another key cannot open it.
    let other = EncryptionKey::generate();
    let sealed = key.encrypt(b"x").unwrap();
    assert!(other.decrypt(&sealed).is_err());
}

#[test]
fn keys_parse_in_either_case_and_are_written_canonically() {
    let key = EncryptionKey::generate();
    let upper = key.to_encoded_string();
    assert!(upper.starts_with("AGE-SECRET-KEY-1"));
    let lower = EncryptionKey::from_string(&upper.to_lowercase()).unwrap();
    assert_eq!(lower.to_encoded_string(), upper);
    match EncryptionKey::from_string("age1notasecret") {
        Err(CoreError::Invariant(m)) => assert!(m.starts_with("invalid key format: "), "{m}"),
        _ => panic!("accepted a non-key"),
    }
    let _recipient = key.public_key();
}
