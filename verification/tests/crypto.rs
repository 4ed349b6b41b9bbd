//! Crypto stack tests: AEAD round trips, tampering, key derivation, and
//! the zeroizable wrappers.

use mcp_wallet::aead::{decrypt, decrypt_string, encrypt, encrypt_string, from_string,
    to_wire_string};
use mcp_wallet::hexcode::{hex_decode, hex_encode};
use mcp_wallet::kdf::{derive_key, generate_salt, KeyDerivationParams};
use mcp_wallet::keys::{MasterKey, SecretString};

fn test_key() -> MasterKey {
    let salt = generate_salt();
    derive_key("test-password", &salt, None).unwrap()
}

#[test]
fn test_encrypt_decrypt_roundtrip() {
    let key = test_key();
    let plaintext = b"Hello, World!";

    let encrypted = encrypt(plaintext, &key).unwrap();
    let decrypted = decrypt(&encrypted, &key).unwrap();

    assert_eq!(decrypted, plaintext);
}

#[test]
fn test_encrypt_string_decrypt_string_roundtrip() {
    let key = test_key();
    let plaintext = "sk-proj-abc123xyz789";

    let encrypted = encrypt_string(plaintext, &key).unwrap();
    let decrypted = decrypt_string(&encrypted, &key).unwrap();

    assert_eq!(decrypted, plaintext);
}

#[test]
fn test_encrypted_data_serialization() {
    let key = test_key();
    let plaintext = b"test data";

    let encrypted = encrypt(plaintext, &key).unwrap();
    let serialized = to_wire_string(&encrypted);
    let parsed = from_string(&serialized).unwrap();

    assert_eq!(encrypted.iv, parsed.iv);
    assert_eq!(encrypted.auth_tag, parsed.auth_tag);
    assert_eq!(encrypted.ciphertext, parsed.ciphertext);
}

#[test]
fn test_different_ivs_produce_different_ciphertext() {
    let key = test_key();
    let plaintext = b"same plaintext";

    let encrypted1 = encrypt(plaintext, &key).unwrap();
    let encrypted2 = encrypt(plaintext, &key).unwrap();

    assert_ne!(encrypted1.iv, encrypted2.iv);
    assert_ne!(encrypted1.ciphertext, encrypted2.ciphertext);
}

#[test]
fn test_wrong_key_fails_decryption() {
    let key1 = test_key();
    let key2 = test_key();
    let plaintext = b"secret data";

    let encrypted = encrypt(plaintext, &key1).unwrap();
    let result = decrypt(&encrypted, &key2);

    assert!(result.is_err());
}

#[test]
fn test_tampered_ciphertext_fails_decryption() {
    let key = test_key();
    let plaintext = b"secret data";

    let mut encrypted = encrypt(plaintext, &key).unwrap();
    if !encrypted.ciphertext.is_empty() {
        encrypted.ciphertext[0] ^= 0xFF;
    }

    let result = decrypt(&encrypted, &key);
    assert!(result.is_err());
}

#[test]
fn test_tampered_auth_tag_fails_decryption() {
    let key = test_key();
    let plaintext = b"secret data";

    let mut encrypted = encrypt(plaintext, &key).unwrap();
    encrypted.auth_tag[0] ^= 0xFF;

    let result = decrypt(&encrypted, &key);
    assert!(result.is_err());
}

#[test]
fn test_invalid_format_parsing() {
    assert!(from_string("invalid").is_err());
    assert!(from_string("a:b").is_err());
    assert!(from_string("a:b:c:d").is_err());
    assert!(from_string("not_hex:not_hex:not_hex").is_err());
}

#[test]
fn test_generate_salt() {
    let salt1 = generate_salt();
    let salt2 = generate_salt();

    assert_ne!(salt1, salt2);
    assert!(!salt1.is_empty());
}

#[test]
fn test_derive_key() {
    let password = "test-password-123";
    let salt = generate_salt();

    let key = derive_key(password, &salt, None).unwrap();

    assert_eq!(key.as_bytes().len(), 32);
}

#[test]
fn test_derive_key_deterministic() {
    let password = "test-password-123";
    let salt = generate_salt();

    let key1 = derive_key(password, &salt, None).unwrap();
    let key2 = derive_key(password, &salt, None).unwrap();

    assert_eq!(key1.as_bytes(), key2.as_bytes());
}

#[test]
fn test_derive_key_different_passwords() {
    let salt = generate_salt();

    let key1 = derive_key("password1", &salt, None).unwrap();
    let key2 = derive_key("password2", &salt, None).unwrap();

    assert_ne!(key1.as_bytes(), key2.as_bytes());
}

#[test]
fn test_derive_key_different_salts() {
    let password = "test-password";

    let key1 = derive_key(password, &generate_salt(), None).unwrap();
    let key2 = derive_key(password, &generate_salt(), None).unwrap();

    assert_ne!(key1.as_bytes(), key2.as_bytes());
}

#[test]
fn test_derive_key_with_custom_params() {
    let password = "test-password";
    let salt = generate_salt();

    let params = KeyDerivationParams { memory_cost: 8192, time_cost: 1, parallelism: 1 };

    let key = derive_key(password, &salt, Some(params)).unwrap();
    assert_eq!(key.as_bytes().len(), 32);
}

#[test]
fn test_master_key_from_slice() {
    let bytes = [42u8; 32];
    let key = MasterKey::from_slice(&bytes).unwrap();
    assert_eq!(key.as_bytes().as_slice(), &bytes);
}

#[test]
fn test_master_key_from_invalid_slice() {
    let bytes = [42u8; 16];
    assert!(MasterKey::from_slice(&bytes).is_none());
}

#[test]
fn test_secret_string_expose() {
    let secret = SecretString::new("my-secret".to_string());
    assert_eq!(secret.expose(), "my-secret");
}

#[test]
fn test_debug_redacted() {
    let key = MasterKey::new(vec![0u8; 32]);
    let debug = key.debug_string();
    assert!(debug.contains("REDACTED"));
    assert!(!debug.contains("0"));
}

#[test]
fn test_hex_roundtrip_exact() {
    let bytes = vec![0u8, 255u8, 16u8, 171u8];
    let encoded = hex_encode(&bytes);
    assert_eq!(encoded, "00ff10ab");
    let decoded = hex_decode(&encoded).unwrap();
    assert_eq!(decoded, bytes);
    assert_eq!(hex_decode("00FF10AB").unwrap(), bytes);
    assert!(hex_decode("0").is_none());
    assert!(hex_decode("zz").is_none());
}

#[test]
fn test_wire_format_exact_shape() {
    let key = test_key();
    let encrypted = encrypt(b"x", &key).unwrap();
    let wire = to_wire_string(&encrypted);
    let parts: Vec<&str> = wire.split(':').collect();
    assert_eq!(parts.len(), 3);
    assert_eq!(parts[0].len(), 24);
    assert_eq!(parts[1].len(), 32);
}
