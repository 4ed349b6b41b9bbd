//! Session handoff: a bounded-time grant of the master key.
//!
//! A session holds 32 random bytes, hex-encoded, as its token; those same
//! bytes are the AEAD key under which a hex rendering of the master key is
//! encrypted. Whoever holds the token until `expires_at` recovers the
//! master key; the clock is always an explicit input here, so expiry is a
//! pure comparison.

use vstd::prelude::*;
use crate::aead::{
    encrypt_string, decrypt_string, opened, spec_parse_wire, random_bytes, EncryptedData,
};
use crate::errors::WalletError;
use crate::hexcode::{hex_encode, hex_decode, hex_of, spec_hex_decode, lemma_hex_round_trip};
use crate::keys::{MasterKey, MASTER_KEY_LEN, clone_byte_vec};
use crate::strutil::str_eq;

verus! {

/// The default session duration: 24 hours, in seconds.
pub const DEFAULT_SESSION_SECS: u64 = 86400;

/// A session blob: the token, the master key encrypted under the token's
/// bytes, the expiry, and an id for logging.
pub struct Session {
    /// 64 hex characters: 32 random bytes.
    pub token: String,
    /// The hex-encoded master key, AEAD-encrypted under the token bytes.
    pub encrypted_master_key: String,
    /// Expiry, as Unix seconds.
    pub expires_at: u64,
    /// Session id, for logging and revocation.
    pub session_id: String,
}

/// A session carries exactly this master key: its token decodes to a
/// 32-byte AEAD key under which the blob opens to the key's hex rendering.
pub open spec fn session_opens_to(sess: Session, key_bytes: Seq<u8>) -> bool {
    &&& spec_hex_decode(sess.token@) matches Some(tb) && tb.len() == 32 && (spec_parse_wire(
        sess.encrypted_master_key@,
    ) matches Some(t) && opened(tb, t.0, t.2 + t.1) == Some(
        vstd::utf8::encode_utf8(hex_of(key_bytes)),
    ))
}

/// What recovering a key from a session means: the token decodes, the blob
/// opens, and the plaintext is the hex rendering of the key.
pub open spec fn spec_recovers(sess: Session, kb: Seq<u8>) -> bool {
    &&& spec_hex_decode(sess.token@) matches Some(tb) && tb.len() == 32 && (spec_parse_wire(
        sess.encrypted_master_key@,
    ) matches Some(t) && opened(tb, t.0, t.2 + t.1) matches Some(ptb)
        && vstd::utf8::valid_utf8(ptb) && spec_hex_decode(vstd::utf8::decode_utf8(ptb)) == Some(
        kb,
    ))
}

/// A session whose key can be recovered at all: its token decodes to 32
/// bytes, the blob parses, fits the machine, opens under the token bytes,
/// and its plaintext is the hex of a 32-byte key.
pub open spec fn session_recoverable(sess: Session) -> bool {
    &&& spec_hex_decode(sess.token@) matches Some(tb) && tb.len() == 32 && (spec_parse_wire(
        sess.encrypted_master_key@,
    ) matches Some(t) && t.2.len() + crate::aead::TAG_LEN <= usize::MAX && (opened(
        tb,
        t.0,
        t.2 + t.1,
    ) matches Some(ptb) && vstd::utf8::valid_utf8(ptb) && (spec_hex_decode(
        vstd::utf8::decode_utf8(ptb),
    ) matches Some(kb) && kb.len() == 32)))
}

/// Handoff is lossless: a key recovered from a session is the key the
/// session was created for.
pub proof fn lemma_session_handoff(sess: Session, kb: Seq<u8>, kb2: Seq<u8>)
    requires
        session_opens_to(sess, kb),
        spec_recovers(sess, kb2),
    ensures
        kb2 == kb,
{
    broadcast use vstd::utf8::encode_utf8_decode_utf8;

    lemma_hex_round_trip(kb);
}

/// Relies on `uuid::Uuid::new_v4` and its hyphenated rendering: a random
/// 36-character identifier. Nothing is promised of its value.
#[verifier::external_body]
pub fn new_uuid_string() -> (r: String)
    ensures
        r@.len() == 36,
{
    uuid::Uuid::new_v4().to_string()
}

/// Relies on `chrono::Utc::now`: the clock's seconds since the Unix epoch.
/// Nothing is promised of the value.
#[verifier::external_body]
pub fn now_seconds() -> (r: i64) {
    chrono::Utc::now().timestamp()
}

/// The clock clamped to unsigned seconds.
pub fn now_unix() -> (r: u64) {
    let t = now_seconds();
    if t < 0 {
        0
    } else {
        t as u64
    }
}

impl Session {
    /// Create a session for a master key: random token, the key encrypted
    /// under the token bytes, expiry `now` plus the duration (24 hours
    /// where none is given).
    pub fn create(master_key: &MasterKey, duration_secs: Option<u64>, now: u64) -> (r: Result<
        Session,
        WalletError,
    >)
        requires
            master_key.wf(),
            now + (match duration_secs {
                Some(d) => d,
                None => DEFAULT_SESSION_SECS,
            }) <= u64::MAX,
        ensures
            r matches Ok(s) ==> ({
                &&& session_opens_to(s, master_key@)
                &&& s.expires_at == now + (match duration_secs {
                    Some(d) => d,
                    None => DEFAULT_SESSION_SECS,
                })
                &&& s.token@.len() == 64
            }),
            r matches Err(e) ==> e is EncryptionError,
    {
        let duration = match duration_secs {
            Some(d) => d,
            None => DEFAULT_SESSION_SECS,
        };
        let token_bytes = random_bytes(32);
        let token = hex_encode(token_bytes.as_slice());
        let session_id = new_uuid_string();
        let token_key = MasterKey::new(clone_byte_vec(&token_bytes));
        let master_key_hex = hex_encode(master_key.as_bytes().as_slice());
        let encrypted_master_key = encrypt_string(master_key_hex.as_str(), &token_key)?;
        proof {
            lemma_hex_round_trip(token_bytes@);
            crate::hexcode::lemma_hex_len(token_bytes@);
            let e = choose|e: EncryptedData|
                e.wf() && (#[trigger] e.spec_opens_to(token_key@)) == Some(
                    vstd::utf8::encode_utf8(master_key_hex@),
                ) && encrypted_master_key@ == e.spec_wire();
            crate::aead::lemma_wire_round_trip(e);
        }
        Ok(Session { token, encrypted_master_key, expires_at: now + duration, session_id })
    }

    /// Recover the master key: the session must be unexpired and the token
    /// must match; the blob then opens to the key.
    ///
    /// On an unexpired session, a mismatched token is exactly
    /// `InvalidSession`, and a matching token succeeds exactly when the
    /// session's key is recoverable.
    pub fn get_master_key(&self, token: &str, now: u64) -> (r: Result<MasterKey, WalletError>)
        ensures
            now > self.expires_at <==> (r matches Err(e) && e is SessionExpired),
            !(now > self.expires_at) && token@ != self.token@ <==> (r matches Err(e)
                && e is InvalidSession),
            !(now > self.expires_at) && token@ == self.token@ ==> (r is Ok
                <==> session_recoverable(*self)),
            r matches Ok(k) ==> k.wf() && token@ == self.token@ && spec_recovers(*self, k@),
            r matches Err(e) ==> e is SessionExpired || e is InvalidSession || e is CryptoError
                || e is DecryptionError,
    {
        if now > self.expires_at {
            return Err(WalletError::SessionExpired);
        }
        if !str_eq(token, self.token.as_str()) {
            return Err(WalletError::InvalidSession);
        }
        let token_vec = match hex_decode(token) {
            Some(v) => v,
            None => {
                return Err(WalletError::CryptoError("the session token is not hex".to_owned()));
            },
        };
        if token_vec.len() != 32 {
            return Err(WalletError::CryptoError("the session token has a wrong length".to_owned()));
        }
        let token_key = MasterKey::new(token_vec);
        let master_key_hex = decrypt_string(self.encrypted_master_key.as_str(), &token_key)?;
        proof {
            broadcast use vstd::utf8::encode_utf8_decode_utf8;

            assert(vstd::utf8::decode_utf8(vstd::utf8::encode_utf8(master_key_hex@))
                == master_key_hex@);
        }
        let master_key_bytes = match hex_decode(master_key_hex.as_str()) {
            Some(v) => v,
            None => {
                return Err(WalletError::CryptoError("the recovered key is not hex".to_owned()));
            },
        };
        if master_key_bytes.len() != MASTER_KEY_LEN {
            return Err(WalletError::CryptoError("the recovered key has a wrong length".to_owned()));
        }
        proof {
            broadcast use
                vstd::utf8::encode_utf8_decode_utf8,
                vstd::utf8::decode_utf8_encode_utf8,
                vstd::utf8::encode_utf8_valid_utf8;
        }
        Ok(MasterKey::new(master_key_bytes))
    }

    /// Whether the session is expired at the given time.
    pub fn is_expired(&self, now: u64) -> (r: bool)
        ensures
            r == (now > self.expires_at),
    {
        now > self.expires_at
    }

    /// Seconds remaining at the given time; zero once expired.
    pub fn remaining_secs(&self, now: u64) -> (r: u64)
        ensures
            self.expires_at >= now ==> r == self.expires_at - now,
            self.expires_at < now ==> r == 0,
    {
        if self.expires_at >= now {
            self.expires_at - now
        } else {
            0
        }
    }
}

/// The in-memory session slot; the embedding program mirrors it to the
/// session file.
pub struct SessionManager {
    /// The current session, if any.
    session: Option<Session>,
}

impl SessionManager {
    /// The current session, if any.
    pub closed spec fn spec_session(&self) -> Option<Session> {
        self.session
    }

    /// An empty manager.
    pub fn new() -> (r: SessionManager)
        ensures
            r.spec_session() is None,
    {
        SessionManager { session: None }
    }

    /// Record a session, as creating or loading one does.
    pub fn save_session(&mut self, session: Session)
        ensures
            final(self).spec_session() == Some(session),
    {
        self.session = Some(session);
    }

    /// The current session, dropped if expired: an expired session is
    /// deleted on load and callers observe none.
    pub fn load_session(&mut self, now: u64) -> (r: Option<&Session>)
        ensures
            match r {
                Some(s) => old(self).spec_session() == Some(*s) && !(now > s.expires_at)
                    && final(self).spec_session() == old(self).spec_session(),
                None => final(self).spec_session() is None && (old(self).spec_session() is None
                    || now > old(self).spec_session().unwrap().expires_at),
            },
    {
        let expired = match &self.session {
            Some(s) => s.is_expired(now),
            None => false,
        };
        if expired {
            self.session = None;
            return None;
        }
        match &self.session {
            Some(s) => Some(s),
            None => None,
        }
    }

    /// The current session, if any, without expiry handling.
    pub fn session_ref(&self) -> (r: Option<&Session>)
        ensures
            match r {
                Some(s) => self.spec_session() == Some(*s),
                None => self.spec_session() is None,
            },
    {
        match &self.session {
            Some(s) => Some(s),
            None => None,
        }
    }

    /// Drop the session, as locking does.
    pub fn clear_session(&mut self)
        ensures
            final(self).spec_session() is None,
    {
        self.session = None;
    }

    /// The current token, where an unexpired session exists.
    pub fn get_token(&mut self, now: u64) -> (r: Option<String>)
        ensures
            match r {
                Some(t) => old(self).spec_session() matches Some(s) && t@ == s.token@,
                None => final(self).spec_session() is None,
            },
    {
        match self.load_session(now) {
            Some(s) => Some(s.token.clone()),
            None => None,
        }
    }
}

} // verus!
