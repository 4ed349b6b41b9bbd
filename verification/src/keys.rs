//! Zeroizable wrappers for key and secret material.
//!
//! `MasterKey` holds the 32-byte AES-256 key; `SecretString` and
//! `DecryptedCredential` hold decrypted secret text. None of them reveal
//! their contents through a debug rendering: each offers a `debug_string`
//! method that emits a redacted placeholder instead.

use vstd::prelude::*;

verus! {

/// Length in bytes of the master encryption key (AES-256).
pub const MASTER_KEY_LEN: usize = 32;

/// Master encryption key.
pub struct MasterKey {
    key: Vec<u8>,
}

impl View for MasterKey {
    type V = Seq<u8>;

    closed spec fn view(&self) -> Seq<u8> {
        self.key@
    }
}

impl MasterKey {
    /// Whether the key holds exactly 32 bytes.
    pub open spec fn wf(&self) -> bool {
        self@.len() == MASTER_KEY_LEN
    }

    /// Create a new master key from raw bytes.
    pub fn new(key: Vec<u8>) -> (r: MasterKey)
        requires
            key@.len() == MASTER_KEY_LEN,
        ensures
            r.wf(),
            r@ == key@,
    {
        MasterKey { key }
    }

    /// Get the key bytes.
    pub fn as_bytes(&self) -> (r: &Vec<u8>)
        ensures
            r@ == self@,
    {
        &self.key
    }

    /// Create from a slice; `None` unless it is exactly 32 bytes.
    pub fn from_slice(slice: &[u8]) -> (r: Option<MasterKey>)
        ensures
            slice@.len() == MASTER_KEY_LEN ==> (r matches Some(k) && k@ == slice@ && k.wf()),
            slice@.len() != MASTER_KEY_LEN ==> r is None,
    {
        if slice.len() != MASTER_KEY_LEN {
            return None;
        }
        let key = slice_to_vec(slice);
        Some(MasterKey { key })
    }

    /// An independent copy of the key.
    pub fn clone_key(&self) -> (r: MasterKey)
        ensures
            r@ == self@,
    {
        MasterKey { key: clone_byte_vec(&self.key) }
    }

    /// Overwrite the key bytes with zeros.
    pub fn erase(&mut self)
        ensures
            final(self)@.len() == old(self)@.len(),
            forall|i: int| 0 <= i < final(self)@.len() ==> final(self)@[i] == 0u8,
    {
        let n = self.key.len();
        let mut i: usize = 0;
        while i < n
            invariant
                n == self.key@.len(),
                i <= n,
                forall|j: int| 0 <= j < i ==> self.key@[j] == 0u8,
            decreases n - i,
        {
            self.key.set(i, 0u8);
            i += 1;
        }
    }

    /// A rendering safe for logs: the key bytes are replaced by a
    /// placeholder.
    pub fn debug_string(&self) -> (r: String)
        ensures
            r@ == "MasterKey { key: [REDACTED] }"@,
    {
        "MasterKey { key: [REDACTED] }".to_owned()
    }
}

/// Decrypted secret text, held behind an explicit `expose` call.
pub struct SecretString {
    value: String,
}

impl View for SecretString {
    type V = Seq<char>;

    closed spec fn view(&self) -> Seq<char> {
        self.value@
    }
}

impl SecretString {
    /// Wrap a secret string.
    pub fn new(value: String) -> (r: SecretString)
        ensures
            r@ == value@,
    {
        SecretString { value }
    }

    /// Get the secret value.
    pub fn expose(&self) -> (r: &str)
        ensures
            r@ == self@,
    {
        self.value.as_str()
    }

    /// Consume the wrapper and return the inner value.
    pub fn into_inner(self) -> (r: String)
        ensures
            r@ == self@,
    {
        self.value
    }

    /// A rendering safe for logs.
    pub fn debug_string(&self) -> (r: String)
        ensures
            r@ == "SecretString { value: [REDACTED] }"@,
    {
        "SecretString { value: [REDACTED] }".to_owned()
    }
}

/// Decrypted credential value returned by the credential store.
pub struct DecryptedCredential {
    value: String,
}

impl View for DecryptedCredential {
    type V = Seq<char>;

    closed spec fn view(&self) -> Seq<char> {
        self.value@
    }
}

impl DecryptedCredential {
    /// Wrap a decrypted credential value.
    pub fn new(value: String) -> (r: DecryptedCredential)
        ensures
            r@ == value@,
    {
        DecryptedCredential { value }
    }

    /// Get the secret value.
    pub fn expose(&self) -> (r: &str)
        ensures
            r@ == self@,
    {
        self.value.as_str()
    }

    /// Consume the wrapper and return the inner value.
    pub fn into_inner(self) -> (r: String)
        ensures
            r@ == self@,
    {
        self.value
    }

    /// A rendering safe for logs.
    pub fn debug_string(&self) -> (r: String)
        ensures
            r@ == "DecryptedCredential { value: [REDACTED] }"@,
    {
        "DecryptedCredential { value: [REDACTED] }".to_owned()
    }
}

/// Copy a byte slice into a fresh vector.
pub fn slice_to_vec(s: &[u8]) -> (r: Vec<u8>)
    ensures
        r@ == s@,
{
    let n = s.len();
    let mut r: Vec<u8> = Vec::new();
    let mut i: usize = 0;
    while i < n
        invariant
            n == s@.len(),
            i <= n,
            r@ == s@.subrange(0, i as int),
        decreases n - i,
    {
        r.push(s[i]);
        assert(r@ == s@.subrange(0, i + 1 as int));
        i += 1;
    }
    assert(s@.subrange(0, n as int) == s@);
    r
}

/// Copy a byte vector.
pub fn clone_byte_vec(v: &Vec<u8>) -> (r: Vec<u8>)
    ensures
        r@ == v@,
{
    slice_to_vec(v.as_slice())
}

} // verus!
