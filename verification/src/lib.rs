//! A local, per-user credential vault that exposes third-party HTTP APIs as
//! callable tools over the Model Context Protocol (MCP).
//!
//! The crate is organised around four subsystems:
//! - the cryptographic vault: Argon2id key derivation, AES-256-GCM
//!   authenticated encryption, and the storage model built on them;
//! - session handoff: a token-encrypted blob that lets a sibling process
//!   recover the master key for a bounded time;
//! - OpenAPI ingestion: parsing documents into a JSON value model, resolving
//!   `$ref` references, extracting operations, and indexing them in a
//!   namespace trie;
//! - the MCP tool surface: generating tool descriptors and planning tool
//!   calls as HTTP request descriptions.
//!
//! All file and network I/O lives outside this crate; every function here is
//! a pure state transformation with a contract.

pub mod keys;
pub mod strutil;
pub mod hexcode;
pub mod errors;
pub mod aead;
pub mod kdf;
pub mod json;
pub mod jsontext;
pub mod optypes;
pub mod namespace;
pub mod resolver;
pub mod extract;
pub mod parser;
pub mod auth;
pub mod mcp;
pub mod generator;
pub mod store;
pub mod session;
pub mod credential;
pub mod settings;
pub mod registry;
pub mod wallet;
pub mod executor;
pub mod dispatch;
