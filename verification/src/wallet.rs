//! The wallet façade: the lifecycle over storage, credentials,
//! integrations, sessions and settings.
//!
//! The state machine is `NotInitialized → initialize → Unlocked ↔
//! lock/unlock ↔ Locked`, with `reset` returning to `NotInitialized`. The
//! master key lives in one place — inside storage — so locking clears it
//! everywhere at once, and while locked every decrypting operation fails
//! with `WalletLocked`.

use vstd::prelude::*;
use crate::credential::{Credential, CredentialManager, some_blob_opens, spec_cred_key,
    stored_secret_of};
use crate::errors::WalletError;
use crate::kdf::{derive_key, generate_salt, derived, KeyDerivationParams};
use crate::keys::{DecryptedCredential, MasterKey};
use crate::registry::IntegrationRegistry;
use crate::session::{Session, SessionManager, session_opens_to, spec_recovers,
    DEFAULT_SESSION_SECS};
use crate::settings::{OtelSettings, Settings, SettingsManager};
use crate::executor::{HttpRequestPlan, parse_tool_name, spec_tool_name_parts, spec_trim_trailing,
    spec_subst, query_post, carries_body, spec_body_fields};
use crate::json::{Json, JsonValue};
use crate::namespace::spec_lookup;
use crate::strutil::split_chars;
use crate::session::session_recoverable;
use crate::store::{SecureStore, opens_to_verification};

verus! {

/// The wallet lifecycle state.
#[derive(Clone, Copy, PartialEq, Eq, Structural, Debug)]
pub enum WalletState {
    /// No wallet has been created yet.
    NotInitialized,
    /// A wallet exists; the password has not been given.
    Locked,
    /// The master key is resident.
    Unlocked,
}

/// The wallet: storage, registries, session slot, settings and state.
pub struct Wallet {
    store: SecureStore,
    /// The integration registry.
    pub integrations: IntegrationRegistry,
    /// The credential store.
    pub credentials: CredentialManager,
    session_manager: SessionManager,
    settings_manager: SettingsManager,
    state: WalletState,
}

impl Wallet {
    /// The storage is sound, the registry is sound, and the key is
    /// resident exactly while unlocked.
    pub closed spec fn wf(&self) -> bool {
        &&& self.store.wf()
        &&& self.integrations.wf()
        &&& (self.state == WalletState::Unlocked <==> self.store.spec_master_key() is Some)
    }

    /// The current state.
    pub closed spec fn spec_state(&self) -> WalletState {
        self.state
    }

    /// The master key in storage, if resident.
    pub closed spec fn spec_master_key(&self) -> Option<MasterKey> {
        self.store.spec_master_key()
    }

    /// The session slot.
    pub closed spec fn spec_session(&self) -> Option<Session> {
        self.session_manager.spec_session()
    }

    /// The integration registry, as a value.
    pub closed spec fn spec_integrations(&self) -> IntegrationRegistry {
        self.integrations
    }

    /// Whether a password opens this wallet: the salt is present, the key
    /// derives, and the verifier opens under the derived key.
    pub open spec fn password_accepted(&self, password: Seq<char>) -> bool {
        &&& self.spec_store().spec_salt() matches Some(salt) && (derived(
            password,
            salt@,
            KeyDerivationParams::spec_default().memory_cost,
            KeyDerivationParams::spec_default().time_cost,
            KeyDerivationParams::spec_default().parallelism,
        ) matches Some(kb) && (self.spec_store().spec_verifier() matches Some(w)
            && opens_to_verification(w@, kb)))
    }

    /// Whether the session slot opens this wallet at `now`: an unexpired,
    /// recoverable session whose key opens the verifier.
    pub open spec fn session_accepted(&self, now: u64) -> bool {
        &&& self.spec_session() matches Some(sess) && !(now > sess.expires_at)
            && session_recoverable(sess) && (exists|kb: Seq<u8>|
            #[trigger] spec_recovers(sess, kb) && (self.spec_store().spec_verifier()
                matches Some(w) && opens_to_verification(w@, kb)))
    }

    /// A wallet over a loaded store: locked where initialized, untouched
    /// otherwise.
    pub fn new(store: SecureStore) -> (r: Wallet)
        requires
            store.wf(),
            store.spec_master_key() is None,
        ensures
            r.wf(),
            r.spec_state() == (if store.spec_salt() is Some && store.spec_verifier() is Some {
                WalletState::Locked
            } else {
                WalletState::NotInitialized
            }),
            r.spec_master_key() is None,
    {
        let state = if store.is_initialized() {
            WalletState::Locked
        } else {
            WalletState::NotInitialized
        };
        Wallet {
            store,
            integrations: IntegrationRegistry::new(),
            credentials: CredentialManager::new(),
            session_manager: SessionManager::new(),
            settings_manager: SettingsManager::new(),
            state,
        }
    }

    /// The current state.
    pub fn state(&self) -> (r: WalletState)
        ensures
            r == self.spec_state(),
    {
        self.state
    }

    /// Whether the wallet is unlocked.
    pub fn is_unlocked(&self) -> (r: bool)
        ensures
            r == (self.spec_state() == WalletState::Unlocked),
    {
        matches!(self.state, WalletState::Unlocked)
    }

    /// The storage, for persistence snapshots and loading.
    pub fn storage(&self) -> (r: &SecureStore)
        ensures
            *r == *self.spec_store(),
    {
        &self.store
    }

    /// The storage itself, in spec.
    pub closed spec fn spec_store(&self) -> &SecureStore {
        &self.store
    }

    /// Load persisted entries into the storage cache.
    pub fn load_entries(&mut self, entries: Vec<(String, String)>)
        requires
            old(self).wf(),
        ensures
            final(self).wf(),
            final(self).spec_state() == old(self).spec_state(),
    {
        self.store.load_entries(entries);
    }

    /// Install a persisted salt and verifier, as loading the disk files
    /// does.
    pub fn load_markers(&mut self, salt: Option<String>, verifier: Option<String>)
        requires
            old(self).wf(),
            old(self).spec_state() != WalletState::Unlocked,
        ensures
            final(self).wf(),
            final(self).spec_state() != WalletState::Unlocked,
    {
        match salt {
            Some(s) => {
                self.store.save_salt(s.as_str());
            },
            None => {},
        }
        self.store.set_verifier(verifier);
        self.state = if self.store.is_initialized() {
            WalletState::Locked
        } else {
            WalletState::NotInitialized
        };
    }

    /// Install a persisted session, as loading the session file does.
    pub fn load_session_slot(&mut self, session: Session)
        requires
            old(self).wf(),
        ensures
            final(self).wf(),
            final(self).spec_session() == Some(session),
            final(self).spec_state() == old(self).spec_state(),
    {
        self.session_manager.save_session(session);
    }

    /// Initialize a new wallet: forbidden unless no wallet exists. A salt
    /// is generated, the key derived, the verifier written, and the wallet
    /// comes up unlocked.
    pub fn initialize(&mut self, password: &str) -> (r: Result<(), WalletError>)
        requires
            old(self).wf(),
        ensures
            final(self).wf(),
            old(self).spec_state() != WalletState::NotInitialized ==> (r matches Err(e)
                && e is StorageError),
            r is Ok ==> old(self).spec_state() == WalletState::NotInitialized,
            r is Ok ==> ({
                &&& final(self).spec_state() == WalletState::Unlocked
                &&& final(self).spec_master_key() matches Some(k) && k.wf() && derived(
                    password@,
                    final(self).spec_store().spec_salt().unwrap()@,
                    KeyDerivationParams::spec_default().memory_cost,
                    KeyDerivationParams::spec_default().time_cost,
                    KeyDerivationParams::spec_default().parallelism,
                ) == Some(k@) && (final(self).spec_store().spec_verifier() matches Some(w)
                    && opens_to_verification(w@, k@))
                &&& final(self).password_accepted(password@)
            }),
            r is Err ==> ({
                &&& final(self).spec_state() == old(self).spec_state()
                &&& final(self).spec_master_key() == old(self).spec_master_key()
                &&& final(self).spec_store().spec_entries() == old(self).spec_store().spec_entries()
                &&& final(self).spec_store().spec_salt() == old(self).spec_store().spec_salt()
                &&& final(self).spec_store().spec_verifier() == old(
                    self,
                ).spec_store().spec_verifier()
            }),
    {
        if !matches!(self.state, WalletState::NotInitialized) {
            return Err(WalletError::StorageError("the wallet is already initialized".to_owned()));
        }
        let salt = generate_salt();
        let master_key = match derive_key(password, salt.as_str(), None) {
            Ok(k) => k,
            Err(e) => {
                return Err(e);
            },
        };
        self.store.save_salt(salt.as_str());
        self.store.set_master_key(Some(master_key));
        match self.store.save_verification() {
            Ok(()) => {},
            Err(e) => {
                self.store.set_master_key(None);
                self.state = if self.store.is_initialized() {
                    WalletState::Locked
                } else {
                    WalletState::NotInitialized
                };
                return Err(e);
            },
        }
        self.state = WalletState::Unlocked;
        Ok(())
    }

    /// Unlock with a password: the correct password — the one whose
    /// salt-derived key opens the verifier — succeeds, a wrong one fails
    /// with `InvalidPassword`, the key is cleared, and the wallet stays
    /// locked. Entries, salt and verifier are never touched.
    pub fn unlock(&mut self, password: &str) -> (r: Result<(), WalletError>)
        requires
            old(self).wf(),
        ensures
            final(self).wf(),
            old(self).spec_state() == WalletState::NotInitialized <==> (r matches Err(e)
                && e is WalletNotInitialized),
            r matches Err(e) && e is InvalidPassword ==> final(self).spec_state()
                == WalletState::Locked && final(self).spec_master_key() is None,
            r is Ok ==> final(self).spec_state() == WalletState::Unlocked
                && final(self).spec_master_key() is Some,
            old(self).spec_state() == WalletState::Unlocked ==> r is Ok,
            old(self).spec_state() == WalletState::Locked ==> (r is Ok
                <==> old(self).password_accepted(password@)),
            r is Ok && old(self).spec_state() == WalletState::Locked ==> (
            final(self).spec_master_key() matches Some(k) && derived(
                password@,
                old(self).spec_store().spec_salt().unwrap()@,
                KeyDerivationParams::spec_default().memory_cost,
                KeyDerivationParams::spec_default().time_cost,
                KeyDerivationParams::spec_default().parallelism,
            ) == Some(k@)),
            old(self).spec_state() == WalletState::Locked ==> ((r matches Err(e)
                && e is InvalidPassword) <==> (old(self).spec_store().spec_salt() matches Some(
                salt,
            ) && derived(
                password@,
                salt@,
                KeyDerivationParams::spec_default().memory_cost,
                KeyDerivationParams::spec_default().time_cost,
                KeyDerivationParams::spec_default().parallelism,
            ) is Some && !old(self).password_accepted(password@))),
            final(self).spec_store().spec_entries() == old(self).spec_store().spec_entries(),
            final(self).spec_store().spec_salt() == old(self).spec_store().spec_salt(),
            final(self).spec_store().spec_verifier() == old(self).spec_store().spec_verifier(),
    {
        if matches!(self.state, WalletState::NotInitialized) {
            return Err(WalletError::WalletNotInitialized);
        }
        if matches!(self.state, WalletState::Unlocked) {
            return Ok(());
        }
        let salt = match self.store.load_salt() {
            Some(s) => s.clone(),
            None => {
                return Err(WalletError::StorageError("no salt is stored".to_owned()));
            },
        };
        let master_key = match derive_key(password, salt.as_str(), None) {
            Ok(k) => k,
            Err(e) => {
                return Err(WalletError::StorageError("key derivation failed".to_owned()));
            },
        };
        self.store.set_master_key(Some(master_key));
        let ok = match self.store.verify_key() {
            Ok(b) => b,
            Err(_) => false,
        };
        if !ok {
            self.store.set_master_key(None);
            self.state = WalletState::Locked;
            return Err(WalletError::InvalidPassword);
        }
        let _loaded = self.integrations.load(&self.store);
        self.state = WalletState::Unlocked;
        Ok(())
    }

    /// Unlock through the session slot: an unexpired, recoverable session
    /// whose key opens the verifier succeeds — and nothing else does; every
    /// failure on a locked wallet is `InvalidSession`. Entries, salt and
    /// verifier are never touched.
    pub fn unlock_with_session(&mut self, now: u64) -> (r: Result<(), WalletError>)
        requires
            old(self).wf(),
        ensures
            final(self).wf(),
            old(self).spec_state() == WalletState::NotInitialized <==> (r matches Err(e)
                && e is WalletNotInitialized),
            r is Ok ==> final(self).spec_state() == WalletState::Unlocked
                && final(self).spec_master_key() is Some,
            r is Ok && old(self).spec_state() == WalletState::Locked ==> (
            old(self).spec_session() matches Some(sess) && spec_recovers(
                sess,
                final(self).spec_master_key().unwrap()@,
            ) && now <= sess.expires_at),
            old(self).spec_state() == WalletState::Unlocked ==> r is Ok,
            old(self).spec_state() == WalletState::Locked ==> (r is Ok
                <==> old(self).session_accepted(now)),
            r matches Err(e) ==> (old(self).spec_state() == WalletState::Locked
                ==> e is InvalidSession),
            final(self).spec_store().spec_entries() == old(self).spec_store().spec_entries(),
            final(self).spec_store().spec_salt() == old(self).spec_store().spec_salt(),
            final(self).spec_store().spec_verifier() == old(self).spec_store().spec_verifier(),
    {
        if matches!(self.state, WalletState::NotInitialized) {
            return Err(WalletError::WalletNotInitialized);
        }
        if matches!(self.state, WalletState::Unlocked) {
            return Ok(());
        }
        let token = match self.session_manager.load_session(now) {
            Some(s) => s.token.clone(),
            None => {
                return Err(WalletError::InvalidSession);
            },
        };
        let master_key = match self.session_manager.load_session(now) {
            Some(s) => match s.get_master_key(token.as_str(), now) {
                Ok(k) => k,
                Err(_) => {
                    return Err(WalletError::InvalidSession);
                },
            },
            None => {
                return Err(WalletError::InvalidSession);
            },
        };
        if !master_key_ok(&master_key) {
            return Err(WalletError::InvalidSession);
        }
        self.store.set_master_key(Some(master_key));
        let ok = match self.store.verify_key() {
            Ok(b) => b,
            Err(_) => false,
        };
        if !ok {
            self.store.set_master_key(None);
            self.state = WalletState::Locked;
            return Err(WalletError::InvalidSession);
        }
        let _loaded = self.integrations.load(&self.store);
        self.state = WalletState::Unlocked;
        Ok(())
    }

    /// Create a session for the resident key and record it in the session
    /// slot; the returned token is what a sibling process presents.
    pub fn create_session(&mut self, duration_secs: Option<u64>, now: u64) -> (r: Result<
        String,
        WalletError,
    >)
        requires
            old(self).wf(),
            now + (match duration_secs {
                Some(d) => d,
                None => DEFAULT_SESSION_SECS,
            }) <= u64::MAX,
        ensures
            final(self).wf(),
            final(self).spec_state() == old(self).spec_state(),
            final(self).spec_master_key() == old(self).spec_master_key(),
            old(self).spec_state() != WalletState::Unlocked <==> (r matches Err(e)
                && e is WalletLocked),
            r matches Ok(t) ==> (final(self).spec_session() matches Some(sess) && sess.token@
                == t@ && session_opens_to(sess, old(self).spec_master_key().unwrap()@)),
    {
        if !matches!(self.state, WalletState::Unlocked) {
            return Err(WalletError::WalletLocked);
        }
        let master_key = match self.store.master_key_copy() {
            Some(k) => k,
            None => {
                return Err(WalletError::WalletLocked);
            },
        };
        let session = Session::create(&master_key, duration_secs, now)?;
        let token = session.token.clone();
        self.session_manager.save_session(session);
        Ok(token)
    }

    /// Whether an unexpired session exists; an expired one is dropped.
    pub fn has_valid_session(&mut self, now: u64) -> (r: bool)
        requires
            old(self).wf(),
        ensures
            final(self).wf(),
            final(self).spec_state() == old(self).spec_state(),
    {
        self.session_manager.load_session(now).is_some()
    }

    /// Drop the session.
    pub fn clear_session(&mut self)
        requires
            old(self).wf(),
        ensures
            final(self).wf(),
            final(self).spec_session() is None,
            final(self).spec_state() == old(self).spec_state(),
    {
        self.session_manager.clear_session();
    }

    /// The current session, for persistence.
    pub fn session_snapshot(&self) -> (r: Option<&Session>) {
        self.session_manager_session()
    }

    fn session_manager_session(&self) -> (r: Option<&Session>)
        ensures
            match r {
                Some(s) => self.spec_session() == Some(*s),
                None => self.spec_session() is None,
            },
    {
        self.session_manager.session_ref()
    }

    /// Lock the wallet: the master key leaves storage and the session is
    /// dropped. Afterwards every decrypting operation fails with
    /// `WalletLocked` until an unlock installs a key again.
    pub fn lock(&mut self)
        requires
            old(self).wf(),
        ensures
            final(self).wf(),
            final(self).spec_state() == WalletState::Locked,
            final(self).spec_master_key() is None,
            final(self).spec_session() is None,
            final(self).spec_store().spec_entries() == old(self).spec_store().spec_entries(),
            final(self).spec_store().spec_salt() == old(self).spec_store().spec_salt(),
            final(self).spec_store().spec_verifier() == old(self).spec_store().spec_verifier(),
    {
        self.store.set_master_key(None);
        self.session_manager.clear_session();
        self.state = WalletState::Locked;
    }

    /// Change the password: verify the old one, derive a key from a fresh
    /// salt, rewrite the verifier, and re-encrypt every stored entry under
    /// the new key.
    #[verifier::loop_isolation(false)]
    pub fn change_password(&mut self, old_password: &str, new_password: &str) -> (r: Result<
        (),
        WalletError,
    >)
        requires
            old(self).wf(),
        ensures
            final(self).wf(),
            old(self).spec_state() == WalletState::NotInitialized <==> (r matches Err(e)
                && e is WalletNotInitialized),
            r is Ok ==> ({
                &&& final(self).spec_master_key() matches Some(k) && k.wf() && derived(
                    new_password@,
                    final(self).spec_store().spec_salt().unwrap()@,
                    KeyDerivationParams::spec_default().memory_cost,
                    KeyDerivationParams::spec_default().time_cost,
                    KeyDerivationParams::spec_default().parallelism,
                ) == Some(k@) && (final(self).spec_store().spec_verifier() matches Some(w)
                    && opens_to_verification(w@, k@))
                &&& final(self).password_accepted(new_password@)
                &&& final(self).spec_state() == WalletState::Unlocked
            }),
            old(self).spec_state() != WalletState::NotInitialized ==> ((r matches Err(e)
                && e is InvalidPassword) <==> (old(self).spec_store().spec_salt() matches Some(
                salt,
            ) && derived(
                old_password@,
                salt@,
                KeyDerivationParams::spec_default().memory_cost,
                KeyDerivationParams::spec_default().time_cost,
                KeyDerivationParams::spec_default().parallelism,
            ) is Some && !old(self).password_accepted(old_password@))),
            r matches Err(e) && e is InvalidPassword ==> ({
                &&& final(self).spec_master_key() is None
                &&& final(self).spec_state() == WalletState::Locked
                &&& final(self).spec_store().spec_entries() == old(
                    self,
                ).spec_store().spec_entries()
                &&& final(self).spec_store().spec_salt() == old(self).spec_store().spec_salt()
                &&& final(self).spec_store().spec_verifier() == old(
                    self,
                ).spec_store().spec_verifier()
            }),
    {
        if matches!(self.state, WalletState::NotInitialized) {
            return Err(WalletError::WalletNotInitialized);
        }
        let salt = match self.store.load_salt() {
            Some(s) => s.clone(),
            None => {
                return Err(WalletError::StorageError("no salt is stored".to_owned()));
            },
        };
        let old_key = match derive_key(old_password, salt.as_str(), None) {
            Ok(k) => k,
            Err(_) => {
                return Err(WalletError::StorageError("key derivation failed".to_owned()));
            },
        };
        self.store.set_master_key(Some(old_key));
        let ok = match self.store.verify_key() {
            Ok(b) => b,
            Err(_) => false,
        };
        if !ok {
            self.store.set_master_key(None);
            self.state = WalletState::Locked;
            return Err(WalletError::InvalidPassword);
        }
        // Decrypt every entry under the old key before touching anything.
        let keys = self.store.list_keys("");
        let mut plain: Vec<(String, Vec<u8>)> = Vec::new();
        let nk = keys.len();
        let mut i: usize = 0;
        while i < nk
            invariant
                i <= nk,
                nk == keys@.len(),
                self.store.wf(),
                self.store.spec_master_key() is Some,
                self.integrations.wf(),
            decreases nk - i,
        {
            match self.store.retrieve(keys[i].as_str()) {
                Ok(Some(p)) => {
                    plain.push((keys[i].clone(), p));
                },
                Ok(None) => {},
                Err(_) => {
                    self.store.set_master_key(None);
                    self.state = WalletState::Locked;
                    return Err(
                        WalletError::DecryptionError(
                            "an entry would not decrypt; the password stays unchanged".to_owned(),
                        ),
                    );
                },
            }
            i += 1;
        }
        let old_key_copy = match self.store.master_key_copy() {
            Some(k) => k,
            None => {
                return Err(WalletError::WalletLocked);
            },
        };
        // Install the new key and rewrite salt, verifier, and entries.
        let new_salt = generate_salt();
        let new_key = match derive_key(new_password, new_salt.as_str(), None) {
            Ok(k) => k,
            Err(_) => {
                self.store.set_master_key(None);
                self.state = WalletState::Locked;
                return Err(WalletError::StorageError("key derivation failed".to_owned()));
            },
        };
        self.store.save_salt(new_salt.as_str());
        self.store.set_master_key(Some(new_key));
        match self.store.save_verification() {
            Ok(()) => {},
            Err(_) => {
                self.store.set_master_key(None);
                self.state = WalletState::Locked;
                return Err(WalletError::StorageError("writing the verifier failed".to_owned()));
            },
        }
        let new_key_copy = match self.store.master_key_copy() {
            Some(k) => k,
            None => {
                return Err(WalletError::WalletLocked);
            },
        };
        let ghost key_after = self.store.spec_master_key();
        let ghost salt_after = self.store.spec_salt();
        let ghost verifier_after = self.store.spec_verifier();
        let np = plain.len();
        let mut j: usize = 0;
        while j < np
            invariant
                j <= np,
                np == plain@.len(),
                self.store.wf(),
                self.store.spec_master_key() == key_after,
                key_after is Some,
                self.store.spec_salt() == salt_after,
                self.store.spec_verifier() == verifier_after,
                verifier_after is Some,
                self.integrations.wf(),
                old_key_copy.wf(),
                new_key_copy.wf(),
            decreases np - j,
        {
            // Credential records carry inner blobs under the old key:
            // re-key them before writing the entry back.
            let is_credential = {
                let kc = crate::strutil::chars_of(plain[j].0.as_str());
                let pc = crate::strutil::chars_of("credential:");
                crate::strutil::starts_with_chars(&kc, &pc)
            };
            let mut written = false;
            if is_credential {
                if let Some(text) = crate::aead::utf8_to_string(
                    crate::keys::slice_to_vec(plain[j].1.as_slice()),
                ) {
                    if let Some(rekeyed) = crate::credential::reencrypt_record(
                        text.as_str(),
                        &old_key_copy,
                        &new_key_copy,
                    ) {
                        let _res = self.store.store(
                            plain[j].0.as_str(),
                            rekeyed.as_str().as_bytes(),
                        );
                        written = true;
                    }
                }
            }
            if !written {
                let _res = self.store.store(plain[j].0.as_str(), plain[j].1.as_slice());
            }
            j += 1;
        }
        self.state = WalletState::Unlocked;
        Ok(())
    }

    /// Reset the wallet: every entry, the session, the settings and the
    /// key are gone, and the wallet is uninitialized again.
    pub fn reset(&mut self)
        requires
            old(self).wf(),
        ensures
            final(self).wf(),
            final(self).spec_state() == WalletState::NotInitialized,
            final(self).spec_master_key() is None,
            final(self).spec_session() is None,
            final(self).spec_store().spec_entries().len() == 0,
    {
        self.store.clear();
        self.store.set_master_key(None);
        self.store.clear_salt();
        self.store.set_verifier(None);
        self.session_manager.clear_session();
        self.settings_manager.reset();
        self.state = WalletState::NotInitialized;
    }

    /// The current settings.
    pub fn get_settings(&self) -> (r: &Settings) {
        self.settings_manager.get()
    }

    /// Replace the settings.
    pub fn update_settings(&mut self, settings: Settings)
        requires
            old(self).wf(),
        ensures
            final(self).wf(),
            final(self).spec_state() == old(self).spec_state(),
    {
        self.settings_manager.update(settings);
    }

    /// The telemetry settings.
    pub fn get_otel_settings(&self) -> (r: &OtelSettings) {
        self.settings_manager.get_otel()
    }

    /// Replace the telemetry settings.
    pub fn update_otel_settings(&mut self, otel: OtelSettings)
        requires
            old(self).wf(),
        ensures
            final(self).wf(),
            final(self).spec_state() == old(self).spec_state(),
    {
        self.settings_manager.update_otel(otel);
    }

    /// The auto-lock timeout, in minutes.
    pub fn get_auto_lock_timeout(&self) -> (r: u32) {
        self.settings_manager.get_auto_lock_timeout()
    }

    /// Set the auto-lock timeout, in minutes.
    pub fn set_auto_lock_timeout(&mut self, minutes: u32)
        requires
            old(self).wf(),
        ensures
            final(self).wf(),
            final(self).spec_state() == old(self).spec_state(),
    {
        self.settings_manager.set_auto_lock_timeout(minutes);
    }

    /// Add an API key credential.
    pub fn add_api_key(&mut self, provider: &str, name: &str, api_key: &str) -> (r: Result<
        Credential,
        WalletError,
    >)
        requires
            old(self).wf(),
        ensures
            final(self).wf(),
            final(self).spec_state() == old(self).spec_state(),
            old(self).spec_state() != WalletState::Unlocked <==> (r matches Err(e)
                && e is WalletLocked),
    {
        if !matches!(self.state, WalletState::Unlocked) {
            return Err(WalletError::WalletLocked);
        }
        self.credentials.add_api_key(&mut self.store, provider, name, api_key)
    }

    /// Decrypt a credential's secret.
    ///
    /// While the wallet is locked this fails with `WalletLocked`, and only
    /// an unlock makes it succeed again.
    pub fn get_decrypted(&mut self, id: &str) -> (r: Result<DecryptedCredential, WalletError>)
        requires
            old(self).wf(),
        ensures
            final(self).wf(),
            final(self).spec_state() == old(self).spec_state(),
            old(self).spec_state() != WalletState::Unlocked <==> (r matches Err(e)
                && e is WalletLocked),
            old(self).spec_state() != WalletState::Unlocked ==> *final(self) == *old(self),
            r matches Ok(d) ==> some_blob_opens(old(self).spec_master_key().unwrap()@, d@),
            r matches Ok(d) ==> stored_secret_of(
                old(self).spec_store(),
                id@,
                old(self).spec_master_key().unwrap()@,
                d@,
            ),
            final(self).spec_integrations() == old(self).spec_integrations(),
            r matches Err(e) ==> e is WalletLocked || e is CredentialNotFound
                || e is DecryptionError || e is SerializationError || e is CryptoError,
    {
        if !matches!(self.state, WalletState::Unlocked) {
            return Err(WalletError::WalletLocked);
        }
        self.credentials.get_decrypted(&mut self.store, id)
    }

    /// Plan a tool call as an HTTP request: split the tool name, find the
    /// integration and operation, require a bound credential, decrypt it,
    /// and build the plan. The embedding program performs the exchange.
    ///
    /// Failures come in order: a locked wallet, a malformed tool name, a
    /// missing integration, a missing operation, an unbound credential.
    pub fn plan_tool_call(&mut self, tool_name: &str, arguments: Option<&JsonValue>) -> (r: Result<
        HttpRequestPlan,
        WalletError,
    >)
        requires
            old(self).wf(),
        ensures
            final(self).wf(),
            final(self).spec_state() == old(self).spec_state(),
            final(self).spec_integrations() == old(self).spec_integrations(),
            old(self).spec_state() != WalletState::Unlocked <==> (r matches Err(e)
                && e is WalletLocked),
            old(self).spec_state() == WalletState::Unlocked
                && spec_tool_name_parts(tool_name@) is None ==> (r matches Err(e)
                && e is OperationNotFound),
            old(self).spec_state() == WalletState::Unlocked ==> (spec_tool_name_parts(tool_name@)
                matches Some(p) ==> ((old(self).spec_integrations().spec_cached(p.0) is None) <==> (
            r matches Err(e) && e is IntegrationNotFound))),
            old(self).spec_state() == WalletState::Unlocked ==> (spec_tool_name_parts(tool_name@)
                matches Some(p) ==> (old(self).spec_integrations().spec_cached(p.0) matches Some(st)
                ==> ((spec_lookup(st.namespace, split_chars(p.1, '.')) is None ==> (r matches Err(
                e,
            ) && e is OperationNotFound)) && (spec_lookup(st.namespace, split_chars(p.1, '.'))
                is Some && st.integration.credential_id is None ==> (r matches Err(e2)
                && e2 is CredentialNotFound))))),
            r matches Ok(plan) ==> (spec_tool_name_parts(tool_name@) matches Some(p) && (old(
                self,
            ).spec_integrations().spec_cached(p.0) matches Some(st) && (spec_lookup(
                st.namespace,
                split_chars(p.1, '.'),
            ) matches Some(rf) && rf.index < st.operations@.len() && (st.integration.credential_id
                matches Some(cid) && ({
                let op = st.operations@[rf.index as int];
                let args = match arguments {
                    Some(a) => a.deep_view()->Object_0,
                    None => Seq::<(Seq<char>, Json)>::empty(),
                };
                &&& plan.method == op.method
                &&& plan.url@ == spec_trim_trailing(st.integration.server_url@, '/') + spec_subst(
                    op.path@,
                    0,
                    op.parameters@,
                    args,
                )
                &&& query_post(op.parameters@, args, plan.query@)
                &&& (exists|d: Seq<char>|
                    #[trigger] stored_secret_of(
                        old(self).spec_store(),
                        cid@,
                        old(self).spec_master_key().unwrap()@,
                        d,
                    ) && plan.headers@.len() == 1 && plan.headers@[0].0@ == "Authorization"@
                        && plan.headers@[0].1@ == "Bearer "@ + d)
                &&& (!carries_body(op.method) ==> plan.body is None)
                &&& (carries_body(op.method) ==> ({
                    let fields = spec_body_fields(op.parameters@, args);
                    if fields.len() == 0 {
                        plan.body is None
                    } else {
                        plan.body matches Some(b) && b.deep_view() == Json::Object(fields)
                    }
                }))
            }))))),
    {
        if !matches!(self.state, WalletState::Unlocked) {
            return Err(WalletError::WalletLocked);
        }
        let (integration_key, operation_path) = parse_tool_name(tool_name)?;
        let credential_id: String = match self.integrations.get_stored(integration_key.as_str()) {
            Some(stored) => {
                if stored.lookup_operation(operation_path.as_str()).is_none() {
                    return Err(WalletError::OperationNotFound(operation_path));
                }
                match &stored.integration.credential_id {
                    Some(cid) => cid.clone(),
                    None => {
                        return Err(WalletError::CredentialNotFound(integration_key));
                    },
                }
            },
            None => {
                return Err(WalletError::IntegrationNotFound(integration_key));
            },
        };
        let decrypted = self.get_decrypted(credential_id.as_str())?;
        let stored = match self.integrations.get_stored(integration_key.as_str()) {
            Some(s) => s,
            None => {
                return Err(WalletError::IntegrationNotFound(integration_key));
            },
        };
        let operation = match stored.lookup_operation(operation_path.as_str()) {
            Some(op) => op,
            None => {
                return Err(WalletError::OperationNotFound(operation_path));
            },
        };
        HttpRequestPlan::build(
            stored.integration.server_url.as_str(),
            operation,
            arguments,
            decrypted.expose(),
        )
    }

    /// A credential's metadata.
    pub fn get_credential(&self, id: &str) -> (r: Result<Option<Credential>, WalletError>)
        requires
            self.wf(),
    {
        self.credentials.get(&self.store, id)
    }

    /// Every credential's metadata.
    pub fn list_credentials(&self) -> (r: Result<Vec<Credential>, WalletError>)
        requires
            self.wf(),
        ensures
            self.spec_state() != WalletState::Unlocked ==> (r matches Err(e) && e is WalletLocked),
    {
        if !matches!(self.state, WalletState::Unlocked) {
            return Err(WalletError::WalletLocked);
        }
        self.credentials.list(&self.store)
    }

    /// Delete a credential.
    pub fn delete_credential(&mut self, id: &str)
        requires
            old(self).wf(),
        ensures
            final(self).wf(),
            final(self).spec_state() == old(self).spec_state(),
            final(self).spec_store().spec_entry(spec_cred_key(id@)) is None,
    {
        self.credentials.delete(&mut self.store, id);
    }

    /// Re-encrypt a credential's value and refresh its prefix.
    pub fn update_credential_value(&mut self, id: &str, new_value: &str) -> (r: Result<
        (),
        WalletError,
    >)
        requires
            old(self).wf(),
        ensures
            final(self).wf(),
            final(self).spec_state() == old(self).spec_state(),
            old(self).spec_state() != WalletState::Unlocked <==> (r matches Err(e)
                && e is WalletLocked),
    {
        if !matches!(self.state, WalletState::Unlocked) {
            return Err(WalletError::WalletLocked);
        }
        self.credentials.update_value(&mut self.store, id, new_value)
    }

    /// Add an integration from document text.
    pub fn add_integration_from_content(&mut self, key: &str, content: &str) -> (r: Result<
        crate::registry::Integration,
        WalletError,
    >)
        requires
            old(self).wf(),
        ensures
            final(self).wf(),
            final(self).spec_state() == old(self).spec_state(),
            old(self).spec_state() != WalletState::Unlocked ==> (r matches Err(e)
                && e is WalletLocked),
    {
        if !matches!(self.state, WalletState::Unlocked) {
            return Err(WalletError::WalletLocked);
        }
        self.integrations.add_from_content(&mut self.store, key, content)
    }

    /// Bind a credential to an integration.
    pub fn bind_credential(&mut self, key: &str, credential_id: &str) -> (r: Result<
        (),
        WalletError,
    >)
        requires
            old(self).wf(),
        ensures
            final(self).wf(),
            final(self).spec_state() == old(self).spec_state(),
    {
        self.integrations.set_credential(&mut self.store, key, credential_id)
    }
}

/// Whether a recovered key has the right length.
fn master_key_ok(k: &MasterKey) -> (r: bool)
    ensures
        r == k.wf(),
{
    k.as_bytes().len() == crate::keys::MASTER_KEY_LEN
}

} // verus!
