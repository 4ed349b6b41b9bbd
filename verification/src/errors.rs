//! Error types for the wallet and the OpenAPI parser.

use vstd::prelude::*;

verus! {

/// Wallet error kinds.
#[derive(Debug)]
pub enum WalletError {
    /// The wallet is locked; unlock with the password first.
    WalletLocked,
    /// The wallet has not been initialized yet.
    WalletNotInitialized,
    /// The password does not match the stored verifier.
    InvalidPassword,
    /// Encryption failed.
    EncryptionError(String),
    /// Decryption failed: wrong key, tampered data, or malformed framing.
    DecryptionError(String),
    /// Key derivation failed.
    KeyDerivationError(String),
    /// A storage operation failed.
    StorageError(String),
    /// A keychain operation failed.
    KeychainError(String),
    /// No integration under the given key.
    IntegrationNotFound(String),
    /// No credential under the given id.
    CredentialNotFound(String),
    /// No operation under the given path.
    OperationNotFound(String),
    /// The OpenAPI document was rejected.
    InvalidSpec(String),
    /// An I/O operation failed.
    IoError(String),
    /// Serialization or deserialization failed.
    SerializationError(String),
    /// A value could not be parsed.
    ParseError(String),
    /// The session file has expired.
    SessionExpired,
    /// The session token is missing or invalid.
    InvalidSession,
    /// A cryptographic value was malformed.
    CryptoError(String),
}

impl WalletError {
    /// A human-readable message for the error.
    pub fn message(&self) -> (r: String)
        ensures
            r@.len() > 0,
    {
        let m: String = match self {
            WalletError::WalletLocked => "Wallet is locked - unlock with password first".to_owned(),
            WalletError::WalletNotInitialized => "Wallet is not initialized - create a new wallet first".to_owned(),
            WalletError::InvalidPassword => "Invalid password".to_owned(),
            WalletError::EncryptionError(s) => "Encryption failed: ".to_owned().concat(s.as_str()),
            WalletError::DecryptionError(s) => "Decryption failed: ".to_owned().concat(s.as_str()),
            WalletError::KeyDerivationError(s) => "Key derivation failed: ".to_owned().concat(
                s.as_str(),
            ),
            WalletError::StorageError(s) => "Storage error: ".to_owned().concat(s.as_str()),
            WalletError::KeychainError(s) => "Keychain error: ".to_owned().concat(s.as_str()),
            WalletError::IntegrationNotFound(s) => "Integration not found: ".to_owned().concat(
                s.as_str(),
            ),
            WalletError::CredentialNotFound(s) => "Credential not found: ".to_owned().concat(
                s.as_str(),
            ),
            WalletError::OperationNotFound(s) => "Operation not found: ".to_owned().concat(
                s.as_str(),
            ),
            WalletError::InvalidSpec(s) => "Invalid OpenAPI spec: ".to_owned().concat(s.as_str()),
            WalletError::IoError(s) => "IO error: ".to_owned().concat(s.as_str()),
            WalletError::SerializationError(s) => "Serialization error: ".to_owned().concat(
                s.as_str(),
            ),
            WalletError::ParseError(s) => "Parse error: ".to_owned().concat(s.as_str()),
            WalletError::SessionExpired => "Session expired - please unlock wallet in the app".to_owned(),
            WalletError::InvalidSession => "Invalid session token".to_owned(),
            WalletError::CryptoError(s) => "Crypto error: ".to_owned().concat(s.as_str()),
        };
        proof {
            reveal_strlit("Wallet is locked - unlock with password first");
            reveal_strlit("Wallet is not initialized - create a new wallet first");
            reveal_strlit("Invalid password");
            reveal_strlit("Encryption failed: ");
            reveal_strlit("Decryption failed: ");
            reveal_strlit("Key derivation failed: ");
            reveal_strlit("Storage error: ");
            reveal_strlit("Keychain error: ");
            reveal_strlit("Integration not found: ");
            reveal_strlit("Credential not found: ");
            reveal_strlit("Operation not found: ");
            reveal_strlit("Invalid OpenAPI spec: ");
            reveal_strlit("IO error: ");
            reveal_strlit("Serialization error: ");
            reveal_strlit("Parse error: ");
            reveal_strlit("Session expired - please unlock wallet in the app");
            reveal_strlit("Invalid session token");
            reveal_strlit("Crypto error: ");
        }
        m
    }
}

/// Parser error kinds.
#[derive(Debug)]
pub enum ParseError {
    /// Fetching the document failed.
    FetchError(String),
    /// The document is not a valid OpenAPI spec.
    InvalidFormat(String),
    /// A required field is missing.
    MissingField(String),
    /// The URL is invalid.
    InvalidUrl(String),
    /// The YAML text could not be parsed.
    YamlError(String),
    /// The JSON text could not be parsed.
    JsonError(String),
    /// An HTTP exchange failed.
    HttpError(String),
    /// An I/O operation failed.
    IoError(String),
    /// The `openapi` field does not name a supported version.
    UnsupportedVersion(String),
}

impl ParseError {
    /// A human-readable message for the error.
    pub fn message(&self) -> (r: String)
        ensures
            r@.len() > 0,
    {
        let m: String = match self {
            ParseError::FetchError(s) => "Failed to fetch OpenAPI spec: ".to_owned().concat(
                s.as_str(),
            ),
            ParseError::InvalidFormat(s) => "Invalid OpenAPI spec format: ".to_owned().concat(
                s.as_str(),
            ),
            ParseError::MissingField(s) => "Missing required field: ".to_owned().concat(s.as_str()),
            ParseError::InvalidUrl(s) => "Invalid URL: ".to_owned().concat(s.as_str()),
            ParseError::YamlError(s) => "YAML parse error: ".to_owned().concat(s.as_str()),
            ParseError::JsonError(s) => "JSON parse error: ".to_owned().concat(s.as_str()),
            ParseError::HttpError(s) => "HTTP error: ".to_owned().concat(s.as_str()),
            ParseError::IoError(s) => "IO error: ".to_owned().concat(s.as_str()),
            ParseError::UnsupportedVersion(s) => "Unsupported OpenAPI version: ".to_owned().concat(
                s.as_str(),
            ),
        };
        proof {
            reveal_strlit("Failed to fetch OpenAPI spec: ");
            reveal_strlit("Invalid OpenAPI spec format: ");
            reveal_strlit("Missing required field: ");
            reveal_strlit("Invalid URL: ");
            reveal_strlit("YAML parse error: ");
            reveal_strlit("JSON parse error: ");
            reveal_strlit("HTTP error: ");
            reveal_strlit("IO error: ");
            reveal_strlit("Unsupported OpenAPI version: ");
        }
        m
    }
}

/// Map a parser error into the wallet's error space, as integration
/// ingestion does.
pub fn parse_to_wallet_error(e: ParseError) -> (r: WalletError)
    ensures
        r is InvalidSpec,
{
    WalletError::InvalidSpec(e.message())
}

} // verus!
