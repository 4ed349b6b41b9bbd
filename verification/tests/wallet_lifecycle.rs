//! Wallet lifecycle tests: initialize, lock, unlock, sessions, the
//! credential store, integrations, and the dispatcher.

use mcp_wallet::dispatch::{route, DispatchAction};
use mcp_wallet::errors::WalletError;
use mcp_wallet::generator::ToolGenerator;
use mcp_wallet::jsontext::parse_json;
use mcp_wallet::mcp::McpMessage;
use mcp_wallet::json::JsonValue;
use mcp_wallet::registry::IntegrationRegistry;
use mcp_wallet::session::Session;
use mcp_wallet::settings::{Settings, SettingsManager};
use mcp_wallet::store::SecureStore;
use mcp_wallet::wallet::{Wallet, WalletState};

fn fresh_wallet() -> Wallet {
    Wallet::new(SecureStore::new())
}

#[test]
fn test_initialize_and_unlock() {
    let mut wallet = fresh_wallet();

    assert_eq!(wallet.state(), WalletState::NotInitialized);

    wallet.initialize("test-password").unwrap();
    assert_eq!(wallet.state(), WalletState::Unlocked);

    wallet.lock();
    assert_eq!(wallet.state(), WalletState::Locked);

    wallet.unlock("test-password").unwrap();
    assert_eq!(wallet.state(), WalletState::Unlocked);
}

#[test]
fn test_wrong_password() {
    let mut wallet = fresh_wallet();

    wallet.initialize("a").unwrap();
    wallet.lock();

    let result = wallet.unlock("b");
    assert!(matches!(result, Err(WalletError::InvalidPassword)));
    assert_eq!(wallet.state(), WalletState::Locked);

    wallet.unlock("a").unwrap();
    assert_eq!(wallet.state(), WalletState::Unlocked);
}

#[test]
fn test_init_and_credential_roundtrip() {
    let mut wallet = fresh_wallet();
    wallet.initialize("hunter2").unwrap();

    let cred = wallet.add_api_key("openai", "k", "sk-ABCDEFGH-long").unwrap();
    assert_eq!(cred.provider, "openai");
    assert_eq!(cred.prefix, Some("sk-ABCDE...".to_string()));

    wallet.lock();
    let blocked = wallet.get_decrypted(&cred.id);
    assert!(matches!(blocked, Err(WalletError::WalletLocked)));

    wallet.unlock("hunter2").unwrap();
    let decrypted = wallet.get_decrypted(&cred.id).unwrap();
    assert_eq!(decrypted.expose(), "sk-ABCDEFGH-long");
}

#[test]
fn test_change_password() {
    let mut wallet = fresh_wallet();

    wallet.initialize("old-password").unwrap();
    let cred = wallet.add_api_key("svc", "name", "secret-value").unwrap();
    wallet.lock();

    wallet.unlock("old-password").unwrap();
    wallet.change_password("old-password", "new-password").unwrap();
    wallet.lock();

    let result = wallet.unlock("old-password");
    assert!(matches!(result, Err(WalletError::InvalidPassword)));

    wallet.unlock("new-password").unwrap();
    assert_eq!(wallet.state(), WalletState::Unlocked);

    // The entries were re-encrypted under the new key.
    let decrypted = wallet.get_decrypted(&cred.id).unwrap();
    assert_eq!(decrypted.expose(), "secret-value");
}

fn copy_session(s: &Session) -> Session {
    Session {
        token: s.token.clone(),
        encrypted_master_key: s.encrypted_master_key.clone(),
        expires_at: s.expires_at,
        session_id: s.session_id.clone(),
    }
}

#[test]
fn test_session_handoff() {
    let mut wallet = fresh_wallet();
    wallet.initialize("pass").unwrap();
    let cred = wallet.add_api_key("svc", "name", "the-secret").unwrap();

    let now = 1_000u64;
    let token = wallet.create_session(Some(60), now).unwrap();
    assert_eq!(token.len(), 64);

    // A second instance over the same persisted data.
    let mut store2 = SecureStore::new();
    store2.load_entries(wallet.storage().entries_snapshot().clone());
    if let Some(salt) = wallet.storage().load_salt() {
        store2.save_salt(salt);
    }
    store2.set_verifier(wallet.storage().verifier_snapshot().cloned());
    let mut wallet2 = Wallet::new(store2);
    assert_eq!(wallet2.state(), WalletState::Locked);
    wallet2.load_session_slot(copy_session(wallet.session_snapshot().unwrap()));

    wallet2.unlock_with_session(now + 1).unwrap();
    assert_eq!(wallet2.state(), WalletState::Unlocked);
    let decrypted = wallet2.get_decrypted(&cred.id).unwrap();
    assert_eq!(decrypted.expose(), "the-secret");

    // A third instance sees the session as expired: the slot empties and
    // unlocking fails.
    let mut store3 = SecureStore::new();
    store3.load_entries(wallet.storage().entries_snapshot().clone());
    if let Some(salt) = wallet.storage().load_salt() {
        store3.save_salt(salt);
    }
    store3.set_verifier(wallet.storage().verifier_snapshot().cloned());
    let mut wallet3 = Wallet::new(store3);
    wallet3.load_session_slot(copy_session(wallet.session_snapshot().unwrap()));
    let late = now + 120;
    let result = wallet3.unlock_with_session(late);
    assert!(matches!(result, Err(WalletError::InvalidSession)));
    assert!(!wallet3.has_valid_session(late));
}

#[test]
fn test_session_expiry_and_token_mismatch() {
    let key = mcp_wallet::keys::MasterKey::new(vec![7u8; 32]);
    let session = Session::create(&key, Some(10), 100).unwrap();
    assert_eq!(session.expires_at, 110);
    assert!(!session.is_expired(110));
    assert!(session.is_expired(111));
    assert_eq!(session.remaining_secs(105), 5);

    let expired = session.get_master_key(&session.token, 200);
    assert!(matches!(expired, Err(WalletError::SessionExpired)));

    let mismatch = session.get_master_key("00", 105);
    assert!(matches!(mismatch, Err(WalletError::InvalidSession)));

    let recovered = session.get_master_key(&session.token, 105).unwrap();
    assert_eq!(recovered.as_bytes(), key.as_bytes());
}

#[test]
fn test_credential_not_found() {
    let mut wallet = fresh_wallet();
    wallet.initialize("p").unwrap();
    let missing = wallet.get_decrypted("no-such-id");
    assert!(matches!(missing, Err(WalletError::CredentialNotFound(_))));
}

#[test]
fn test_update_value() {
    let mut wallet = fresh_wallet();
    wallet.initialize("p").unwrap();

    let cred = wallet.add_api_key("test", "Test", "old-key").unwrap();

    wallet.update_credential_value(&cred.id, "new-key-12345678").unwrap();

    let decrypted = wallet.get_decrypted(&cred.id).unwrap();
    assert_eq!(decrypted.expose(), "new-key-12345678");

    let updated = wallet.get_credential(&cred.id).unwrap().unwrap();
    assert_eq!(updated.prefix, Some("new-key-...".to_string()));
}

#[test]
fn test_list_and_delete_credentials() {
    let mut wallet = fresh_wallet();
    wallet.initialize("p").unwrap();

    let c1 = wallet.add_api_key("openai", "OpenAI", "key1").unwrap();
    let _c2 = wallet.add_api_key("anthropic", "Anthropic", "key2").unwrap();

    let creds = wallet.list_credentials().unwrap();
    assert_eq!(creds.len(), 2);

    wallet.delete_credential(&c1.id);
    let creds = wallet.list_credentials().unwrap();
    assert_eq!(creds.len(), 1);
    assert!(wallet.get_credential(&c1.id).unwrap().is_none());
}

const TEST_SPEC: &str = r#"
openapi: "3.0.0"
info:
  title: Test API
  version: "1.0.0"
servers:
  - url: https://api.test.com
paths:
  /users:
    get:
      operationId: listUsers
      responses:
        '200':
          description: OK
"#;

#[test]
fn test_add_from_content() {
    let mut store = SecureStore::new();
    let salt = mcp_wallet::kdf::generate_salt();
    let key = mcp_wallet::kdf::derive_key("test", &salt, None).unwrap();
    store.set_master_key(Some(key));
    let mut registry = IntegrationRegistry::new();

    let integration = registry.add_from_content(&mut store, "test", TEST_SPEC).unwrap();

    assert_eq!(integration.key, "test");
    assert_eq!(integration.name, "Test API");
    assert_eq!(integration.operation_count, 1);
}

#[test]
fn test_list_operations() {
    let mut store = SecureStore::new();
    let salt = mcp_wallet::kdf::generate_salt();
    let key = mcp_wallet::kdf::derive_key("test", &salt, None).unwrap();
    store.set_master_key(Some(key));
    let mut registry = IntegrationRegistry::new();

    registry.add_from_content(&mut store, "test", TEST_SPEC).unwrap();

    let stored = registry.get_stored("test").unwrap();
    assert_eq!(stored.operations.len(), 1);
    assert_eq!(stored.operations[0].operation_id, "listUsers");
    assert!(registry.lookup_operation("test", "list.users").is_some());
}

#[test]
fn test_remove() {
    let mut store = SecureStore::new();
    let salt = mcp_wallet::kdf::generate_salt();
    let key = mcp_wallet::kdf::derive_key("test", &salt, None).unwrap();
    store.set_master_key(Some(key));
    let mut registry = IntegrationRegistry::new();

    registry.add_from_content(&mut store, "test", TEST_SPEC).unwrap();
    assert!(registry.get("test").is_some());

    registry.remove(&mut store, "test");
    assert!(registry.get("test").is_none());
}

#[test]
fn test_registry_reload_regenerates_identical_tools() {
    let mut store = SecureStore::new();
    let salt = mcp_wallet::kdf::generate_salt();
    let key = mcp_wallet::kdf::derive_key("test", &salt, None).unwrap();
    store.set_master_key(Some(key));
    let mut registry = IntegrationRegistry::new();
    registry.add_from_content(&mut store, "test", TEST_SPEC).unwrap();

    let generator = ToolGenerator::new();
    let before = generator.generate_tools("test", &registry.get_stored("test").unwrap().operations);

    let mut reloaded = IntegrationRegistry::new();
    reloaded.load(&store).unwrap();
    let after = generator.generate_tools("test", &reloaded.get_stored("test").unwrap().operations);

    assert_eq!(before.len(), after.len());
    for (b, a) in before.iter().zip(after.iter()) {
        assert_eq!(b.name, a.name);
        assert_eq!(b.description, a.description);
        let keys = |t: &mcp_wallet::mcp::McpTool| -> Vec<String> {
            match &t.input_schema.properties {
                Some(props) => props.iter().map(|(k, _)| k.clone()).collect(),
                None => vec![],
            }
        };
        assert_eq!(keys(b), keys(a));
    }
}

#[test]
fn test_settings_defaults_and_updates() {
    let mut manager = SettingsManager::new();
    assert_eq!(manager.get().auto_lock_timeout_minutes, 15);
    assert!(!manager.get().otel.enabled);
    assert_eq!(manager.get_otel().effective_service_name(), "symbia-mcp-wallet");

    let mut s = Settings::new();
    s.auto_lock_timeout_minutes = 30;
    s.otel.enabled = true;
    s.otel.service_name = Some("my-service".to_string());
    manager.update(s);
    assert_eq!(manager.get_auto_lock_timeout(), 30);
    assert_eq!(manager.get_otel().effective_service_name(), "my-service");

    manager.reset();
    assert_eq!(manager.get_auto_lock_timeout(), 15);
}

#[test]
fn test_settings_encode_decode_roundtrip() {
    let mut s = Settings::new();
    s.auto_lock_timeout_minutes = 42;
    s.otel.enabled = true;
    s.otel.endpoint = Some("http://localhost:4317".to_string());
    let v = mcp_wallet::settings::encode_settings(&s);
    let text = mcp_wallet::json::to_json_string(&v);
    let back = mcp_wallet::settings::decode_settings(&parse_json(&text).unwrap());
    assert_eq!(back.auto_lock_timeout_minutes, 42);
    assert!(back.otel.enabled);
    assert_eq!(back.otel.endpoint, Some("http://localhost:4317".to_string()));
}

#[test]
fn test_reset_clears_everything() {
    let mut wallet = fresh_wallet();
    wallet.initialize("p").unwrap();
    wallet.add_api_key("svc", "n", "secret").unwrap();
    wallet.reset();
    assert_eq!(wallet.state(), WalletState::NotInitialized);
    assert!(wallet.storage().entries_snapshot().is_empty());
    wallet.initialize("q").unwrap();
    assert_eq!(wallet.list_credentials().unwrap().len(), 0);
}

#[test]
fn test_dispatch_routing() {
    let init = McpMessage::request(
        JsonValue::Number("1".to_string()),
        "initialize".to_string(),
        parse_json(r#"{"protocolVersion": "2024-11-05", "capabilities": {}, "clientInfo": {"name": "c", "version": "0"}}"#),
    );
    match route(init, "server", "0.1.0") {
        DispatchAction::Respond(resp) => {
            let result = resp.result.unwrap();
            let pv = result.get("protocolVersion").unwrap().as_text().unwrap();
            assert_eq!(pv, "2024-11-05");
        },
        _ => panic!("initialize must be answered in place"),
    }

    let ping = McpMessage::request(JsonValue::Number("2".to_string()), "ping".to_string(), None);
    assert!(matches!(route(ping, "server", "0.1.0"), DispatchAction::Respond(_)));

    let list = McpMessage::request(
        JsonValue::Number("3".to_string()),
        "tools/list".to_string(),
        None,
    );
    assert!(matches!(route(list, "server", "0.1.0"), DispatchAction::ListTools { .. }));

    let call = McpMessage::request(
        JsonValue::Number("4".to_string()),
        "tools/call".to_string(),
        parse_json(r#"{"name": "x_get_user", "arguments": {"id": "42"}}"#),
    );
    match route(call, "server", "0.1.0") {
        DispatchAction::CallTool { name, arguments, .. } => {
            assert_eq!(name, "x_get_user");
            assert!(arguments.is_some());
        },
        _ => panic!("tools/call must be handed out"),
    }

    let unknown = McpMessage::request(
        JsonValue::Number("5".to_string()),
        "bogus/method".to_string(),
        None,
    );
    match route(unknown, "server", "0.1.0") {
        DispatchAction::Respond(resp) => {
            assert_eq!(resp.error.unwrap().code, -32601);
        },
        _ => panic!("unknown methods get a protocol error"),
    }

    let note = McpMessage::notification("notifications/initialized".to_string(), None);
    assert!(matches!(route(note, "server", "0.1.0"), DispatchAction::Silent));
}

#[test]
fn test_u64_rendering() {
    assert_eq!(mcp_wallet::credential::u64_string(0), "0");
    assert_eq!(mcp_wallet::credential::u64_string(7), "7");
    assert_eq!(mcp_wallet::credential::u64_string(12345), "12345");
    assert_eq!(mcp_wallet::credential::u64_string(18446744073709551615), "18446744073709551615");
}
