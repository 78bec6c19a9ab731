use pngme::crypto::{Crypto, EncryptedData, NONCE_LENGTH, SALT_LENGTH};
use pngme::error::PngmeError;

#[test]
fn encrypt_decrypt() {
    let message = "Secret Message!";
    let password = "password";

    let encrypted = Crypto::encrypt(message, password).unwrap();

    let encoded = encrypted.to_base64();
    let decoded = EncryptedData::from_base64(&encoded).unwrap();

    let decrypted = Crypto::decrypt(&decoded, password).unwrap();

    assert_eq!(message, decrypted);
}

#[test]
fn wrong_password() {
    let message = "Secret Message!";
    let password = "correct_password";
    let wrong_password = "wrong_password";

    let encrypted = Crypto::encrypt(message, password).unwrap();
    let result = Crypto::decrypt(&encrypted, wrong_password);

    assert!(result.is_err());
}

#[test]
fn struct_accessors() {
    let message = "Secret Message!";
    let password = "password";

    let encrypted = Crypto::encrypt(message, password).unwrap();

    assert_eq!(encrypted.salt().len(), SALT_LENGTH);
    assert_eq!(encrypted.nonce().len(), NONCE_LENGTH);
    assert!(!encrypted.ciphertext().is_empty());
}

#[test]
fn base64_encoding() {
    let message = "Secret Message!";
    let password = "password";

    let encrypted = Crypto::encrypt(message, password).unwrap();
    let base64_str = encrypted.to_base64();

    assert!(!base64_str.is_empty());

    let decoded = EncryptedData::from_base64(&base64_str).unwrap();
    let decrypted = Crypto::decrypt(&decoded, password).unwrap();

    assert_eq!(message, decrypted);
}

#[test]
fn blob_transport_round_trip_fields() {
    let salt: Vec<u8> = (0u8..32).collect();
    let nonce: Vec<u8> = (100u8..112).collect();
    let ciphertext: Vec<u8> = vec![7, 8, 9, 10, 11];

    let blob = EncryptedData::new(salt.clone(), nonce.clone(), ciphertext.clone());
    let text = blob.to_base64();
    let back = EncryptedData::from_base64(&text).unwrap();

    assert_eq!(back.salt(), salt.as_slice());
    assert_eq!(back.nonce(), nonce.as_slice());
    assert_eq!(back.ciphertext(), ciphertext.as_slice());
}

#[test]
fn from_base64_rejects_bad_input() {
    // not base64 at all
    assert!(matches!(
        EncryptedData::from_base64("!!!not-base64!!!"),
        Err(PngmeError::Format)
    ));
    // well-formed base64, but fewer than the 44 bytes a blob needs
    assert!(matches!(
        EncryptedData::from_base64("AAAA"),
        Err(PngmeError::Format)
    ));
}

#[test]
fn decrypt_rejects_tampered_ciphertext() {
    let encrypted = Crypto::encrypt("attack at dawn", "hunter2").unwrap();
    let mut ciphertext = encrypted.ciphertext().to_vec();
    ciphertext[0] ^= 0x01;
    let tampered = EncryptedData::new(
        encrypted.salt().to_vec(),
        encrypted.nonce().to_vec(),
        ciphertext,
    );
    assert_eq!(
        Crypto::decrypt(&tampered, "hunter2"),
        Err(PngmeError::Crypto)
    );
}
