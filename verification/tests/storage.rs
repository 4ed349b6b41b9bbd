//! Secure storage tests: store, retrieve, delete, listing, persistence
//! snapshots, and key verification.

use mcp_wallet::kdf::{derive_key, generate_salt};
use mcp_wallet::keys::MasterKey;
use mcp_wallet::store::SecureStore;

fn test_storage() -> (SecureStore, MasterKey) {
    let mut storage = SecureStore::new();
    let salt = generate_salt();
    let key = derive_key("test-password", &salt, None).unwrap();
    storage.set_master_key(Some(key.clone_key()));
    (storage, key)
}

#[test]
fn test_store_and_retrieve() {
    let (mut storage, _) = test_storage();

    storage.store("test-key", b"test-value").unwrap();

    let retrieved = storage.retrieve("test-key").unwrap();
    assert_eq!(retrieved, Some(b"test-value".to_vec()));
}

#[test]
fn test_retrieve_nonexistent() {
    let (storage, _) = test_storage();

    let retrieved = storage.retrieve("nonexistent").unwrap();
    assert_eq!(retrieved, None);
}

#[test]
fn test_delete() {
    let (mut storage, _) = test_storage();

    storage.store("test-key", b"test-value").unwrap();
    storage.delete("test-key");

    let retrieved = storage.retrieve("test-key").unwrap();
    assert_eq!(retrieved, None);
}

#[test]
fn test_exists() {
    let (mut storage, _) = test_storage();

    assert!(!storage.contains_key("test-key"));

    storage.store("test-key", b"test-value").unwrap();

    assert!(storage.contains_key("test-key"));
}

#[test]
fn test_list_keys() {
    let (mut storage, _) = test_storage();

    storage.store("cred:openai", b"key1").unwrap();
    storage.store("cred:anthropic", b"key2").unwrap();
    storage.store("other:foo", b"bar").unwrap();

    let cred_keys = storage.list_keys("cred:");
    assert_eq!(cred_keys.len(), 2);
    assert!(cred_keys.contains(&"cred:openai".to_string()));
    assert!(cred_keys.contains(&"cred:anthropic".to_string()));
}

#[test]
fn test_clear() {
    let (mut storage, _) = test_storage();

    storage.store("key1", b"value1").unwrap();
    storage.store("key2", b"value2").unwrap();

    storage.clear();

    let keys = storage.list_keys("");
    assert!(keys.is_empty());
}

#[test]
fn test_persistence() {
    let (mut storage, key) = test_storage();
    storage.store("persistent-key", b"persistent-value").unwrap();

    // A second instance over the snapshot of the first.
    let entries = storage.entries_snapshot().clone();
    let mut storage2 = SecureStore::new();
    storage2.load_entries(entries);
    storage2.set_master_key(Some(key));

    let retrieved = storage2.retrieve("persistent-key").unwrap();
    assert_eq!(retrieved, Some(b"persistent-value".to_vec()));
}

#[test]
fn test_verification() {
    let salt = generate_salt();
    let correct_key = derive_key("correct-password", &salt, None).unwrap();
    let wrong_key = derive_key("wrong-password", &salt, None).unwrap();

    let mut storage = SecureStore::new();

    storage.set_master_key(Some(correct_key.clone_key()));
    storage.save_verification().unwrap();

    assert!(storage.verify_key().unwrap());

    storage.set_master_key(Some(wrong_key));
    assert!(!storage.verify_key().unwrap());
}

#[test]
fn test_locked_store_refuses_access() {
    let mut storage = SecureStore::new();
    let denied = storage.store("k", b"v");
    assert!(denied.is_err());
    let denied = storage.retrieve("k");
    assert!(denied.is_err());
}
