//! One input per error kind the surface can return.

use mcp_wallet::errors::WalletError;
use mcp_wallet::executor::HttpRequestPlan;
use mcp_wallet::jsontext::parse_json;
use mcp_wallet::kdf::derive_key;
use mcp_wallet::optypes::{ApiOperation, HttpMethod};
use mcp_wallet::registry::IntegrationRegistry;
use mcp_wallet::store::SecureStore;
use mcp_wallet::wallet::Wallet;

#[test]
fn test_unlock_before_initialize() {
    let mut wallet = Wallet::new(SecureStore::new());
    let result = wallet.unlock("pw");
    assert!(matches!(result, Err(WalletError::WalletNotInitialized)));
}

#[test]
fn test_initialize_twice_is_storage_error() {
    let mut wallet = Wallet::new(SecureStore::new());
    wallet.initialize("pw").unwrap();
    let again = wallet.initialize("pw");
    assert!(matches!(again, Err(WalletError::StorageError(_))));
}

#[test]
fn test_bad_salt_is_key_derivation_error() {
    let result = derive_key("pw", "not valid base64 !!!", None);
    assert!(matches!(result, Err(WalletError::KeyDerivationError(_))));
}

#[test]
fn test_missing_integration_binding() {
    let mut store = SecureStore::new();
    let salt = mcp_wallet::kdf::generate_salt();
    let key = derive_key("pw", &salt, None).unwrap();
    store.set_master_key(Some(key));
    let mut registry = IntegrationRegistry::new();
    let result = registry.set_credential(&mut store, "absent", "cred-id");
    assert!(matches!(result, Err(WalletError::IntegrationNotFound(_))));
}

#[test]
fn test_non_object_arguments_are_rejected() {
    let op = ApiOperation {
        operation_id: "ping".to_string(),
        normalized_id: "ping".to_string(),
        method: HttpMethod::Get,
        path: "/ping".to_string(),
        summary: None,
        description: None,
        tags: vec![],
        deprecated: false,
        parameters: vec![],
        request_body: None,
        responses: vec![],
        security: vec![],
    };
    let args = parse_json("[1, 2]").unwrap();
    let result = HttpRequestPlan::build("https://api.test", &op, Some(&args), "k");
    assert!(matches!(result, Err(WalletError::ParseError(_))));
}
