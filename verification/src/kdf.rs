//! Password-based key derivation using Argon2id.
//!
//! Derivation is a pure function of password, salt and parameters; the
//! uninterpreted function [`derived`] names its result, which is what makes
//! determinism — the same inputs always derive the same key — a theorem
//! rather than a test-only observation.

use vstd::prelude::*;
use argon2::password_hash::{PasswordHasher, SaltString};
use crate::errors::WalletError;
use crate::keys::{MasterKey, MASTER_KEY_LEN};

verus! {

/// Parameters for Argon2id key derivation.
pub struct KeyDerivationParams {
    /// Memory cost in KiB.
    pub memory_cost: u32,
    /// Time cost (iterations).
    pub time_cost: u32,
    /// Parallelism (lanes).
    pub parallelism: u32,
}

impl KeyDerivationParams {
    /// The reference parameters: 64 MiB, 3 iterations, 4 lanes.
    pub open spec fn spec_default() -> KeyDerivationParams {
        KeyDerivationParams { memory_cost: 65536, time_cost: 3, parallelism: 4 }
    }
}

impl Default for KeyDerivationParams {
    /// The reference parameters: 64 MiB, 3 iterations, 4 lanes.
    fn default() -> (r: KeyDerivationParams)
        ensures
            r == KeyDerivationParams::spec_default(),
    {
        KeyDerivationParams { memory_cost: 65536, time_cost: 3, parallelism: 4 }
    }
}

/// What Argon2id (version 0x13, 32-byte output) derives from a password, a
/// base64 salt string, and parameters — or `None` where the salt or the
/// parameters are rejected.
pub uninterp spec fn derived(
    password: Seq<char>,
    salt: Seq<char>,
    memory_cost: u32,
    time_cost: u32,
    parallelism: u32,
) -> Option<Seq<u8>>;

/// Relies on `argon2::Argon2::hash_password` with `Algorithm::Argon2id`,
/// `Version::V0x13` and a 32-byte output: the hash is a function of
/// password, salt and parameters alone; invalid salts or parameters are
/// rejected.
#[verifier::external_body]
fn argon2_derive(password: &str, salt: &str, params: &KeyDerivationParams) -> (r: Result<
    Vec<u8>,
    (),
>)
    ensures
        r matches Ok(k) ==> derived(
            password@,
            salt@,
            params.memory_cost,
            params.time_cost,
            params.parallelism,
        ) == Some(k@) && k@.len() == MASTER_KEY_LEN,
        r is Err ==> derived(
            password@,
            salt@,
            params.memory_cost,
            params.time_cost,
            params.parallelism,
        ) is None,
{
    let (m, t, p) = (params.memory_cost, params.time_cost, params.parallelism);
    let argon2_params = argon2::Params::new(m, t, p, Some(32)).map_err(|_| ())?;
    let argon2 = argon2::Argon2::new(argon2::Algorithm::Argon2id, argon2::Version::V0x13, argon2_params);
    let salt = SaltString::from_b64(salt).map_err(|_| ())?;
    let hash = argon2.hash_password(password.as_bytes(), &salt).map_err(|_| ())?;
    let out = hash.hash.ok_or(())?;
    if out.as_bytes().len() < 32 {
        return Err(());
    }
    Ok(out.as_bytes()[..32].to_vec())
}

/// Relies on `argon2::password_hash::SaltString::generate`: a random,
/// non-empty base64 salt string. Nothing is promised of its value.
#[verifier::external_body]
pub fn generate_salt() -> (r: String)
    ensures
        r@.len() > 0,
{
    SaltString::generate(&mut argon2::password_hash::rand_core::OsRng).as_str().to_string()
}

/// Derive a 256-bit master key from a password with Argon2id.
///
/// Deterministic: for a fixed password, salt and parameters the derived key
/// is always the same.
pub fn derive_key(password: &str, salt: &str, params: Option<KeyDerivationParams>) -> (r: Result<
    MasterKey,
    WalletError,
>)
    ensures
        ({
            let p = match params {
                Some(p) => p,
                None => KeyDerivationParams::spec_default(),
            };
            &&& (r matches Ok(k) ==> derived(
                password@,
                salt@,
                p.memory_cost,
                p.time_cost,
                p.parallelism,
            ) == Some(k@) && k.wf())
            &&& (r matches Err(e) ==> e is KeyDerivationError && derived(
                password@,
                salt@,
                p.memory_cost,
                p.time_cost,
                p.parallelism,
            ) is None)
        }),
{
    let p = match params {
        Some(p) => p,
        None => KeyDerivationParams::default(),
    };
    match argon2_derive(password, salt, &p) {
        Ok(bytes) => Ok(MasterKey::new(bytes)),
        Err(_) => Err(WalletError::KeyDerivationError("Argon2 rejected the inputs".to_owned())),
    }
}

/// Key derivation is deterministic: two derivations from the same password,
/// salt and parameters agree.
pub proof fn lemma_derive_key_deterministic(
    password: Seq<char>,
    salt: Seq<char>,
    params: KeyDerivationParams,
    k1: Seq<u8>,
    k2: Seq<u8>,
)
    requires
        derived(password, salt, params.memory_cost, params.time_cost, params.parallelism) == Some(
            k1,
        ),
        derived(password, salt, params.memory_cost, params.time_cost, params.parallelism) == Some(
            k2,
        ),
    ensures
        k1 == k2,
{
}

} // verus!
