//! The secure storage model: a key/value cache with per-value AEAD.
//!
//! Every value is encrypted under the current master key the moment it is
//! stored and decrypted on retrieval; keys are plaintext indices. Without a
//! master key every store or retrieve fails with `WalletLocked`. The salt
//! and the verifier — the AEAD blob of a fixed plaintext whose successful
//! decryption proves a candidate key — live beside the entries. Reading
//! and writing the disk files is the embedding program's job: it hands the
//! entries in and out as plain pairs.

use vstd::prelude::*;
use crate::aead::{encrypt_string, decrypt_string, opened, spec_parse_wire, wire_opens_clean,
    spec_seal_max, EncryptedData, TAG_LEN};
use crate::errors::WalletError;
use crate::keys::MasterKey;
use crate::strutil::{str_eq, chars_of, starts_with_chars};

verus! {

/// The fixed plaintext whose AEAD blob is the verifier.
pub open spec fn spec_verification_text() -> Seq<char> {
    "mcp-wallet-verification"@
}

/// The value stored under a key: the first match, as elsewhere keys are
/// unique.
pub open spec fn entry_val(es: Seq<(String, String)>, key: Seq<char>) -> Option<Seq<char>>
    decreases es.len(),
{
    if es.len() == 0 {
        None
    } else if es[0].0@ == key {
        Some(es[0].1@)
    } else {
        entry_val(es.skip(1), key)
    }
}

/// The index of the first entry under a key, or -1.
pub open spec fn entry_index(es: Seq<(String, String)>, key: Seq<char>) -> int
    decreases es.len(),
{
    if es.len() == 0 {
        -1
    } else if es[0].0@ == key {
        0
    } else {
        let r = entry_index(es.skip(1), key);
        if r < 0 {
            -1
        } else {
            r + 1
        }
    }
}

/// `entry_index` finds the first entry, and `entry_val` reads it.
pub proof fn lemma_entry_index(es: Seq<(String, String)>, key: Seq<char>)
    ensures
        ({
            let j = entry_index(es, key);
            &&& -1 <= j < es.len()
            &&& j >= 0 ==> es[j].0@ == key && entry_val(es, key) == Some(es[j].1@)
            &&& j < 0 ==> entry_val(es, key) is None
            &&& forall|k: int| 0 <= k < es.len() && es[k].0@ == key ==> j >= 0 && j <= k
        }),
    decreases es.len(),
{
    if es.len() == 0 {
    } else if es[0].0@ == key {
    } else {
        lemma_entry_index(es.skip(1), key);
        assert forall|k: int| 0 <= k < es.len() && es[k].0@ == key implies entry_index(es, key)
            >= 0 && entry_index(es, key) <= k by {
            assert(es.skip(1)[k - 1] == es[k]);
        }
    }
}

/// `entry_val` is unchanged by an update at a different key, and reads an
/// in-place update at the same key.
pub proof fn lemma_entry_val_update(
    es: Seq<(String, String)>,
    j: int,
    pair: (String, String),
    key: Seq<char>,
)
    requires
        0 <= j < es.len(),
        es[j].0@ == pair.0@,
        forall|k: int| 0 <= k < j ==> es[k].0@ != pair.0@,
    ensures
        key == pair.0@ ==> entry_val(es.update(j, pair), key) == Some(pair.1@),
        key != pair.0@ ==> entry_val(es.update(j, pair), key) == entry_val(es, key),
    decreases j,
{
    if j == 0 {
        assert(es.update(0, pair)[0] == pair);
        if key != pair.0@ {
            assert(es.update(0, pair).skip(1) =~= es.skip(1));
        }
    } else {
        lemma_entry_val_update(es.skip(1), j - 1, pair, key);
        assert(es.update(j, pair)[0] == es[0]);
        assert(es.update(j, pair).skip(1) =~= es.skip(1).update(j - 1, pair));
    }
}

/// `entry_val` of an appended pair.
pub proof fn lemma_entry_val_push(es: Seq<(String, String)>, pair: (String, String), key: Seq<
    char,
>)
    requires
        entry_index(es, pair.0@) < 0,
    ensures
        key == pair.0@ ==> entry_val(es.push(pair), key) == Some(pair.1@),
        key != pair.0@ ==> entry_val(es.push(pair), key) == entry_val(es, key),
    decreases es.len(),
{
    if es.len() == 0 {
        assert(es.push(pair)[0] == pair);
        if key != pair.0@ {
            assert(es.push(pair).skip(1) =~= Seq::<(String, String)>::empty());
            assert(entry_val(Seq::<(String, String)>::empty(), key) is None);
            assert(entry_val(es.push(pair), key) is None);
        }
    } else {
        lemma_entry_val_push(es.skip(1), pair, key);
        assert(es.push(pair)[0] == es[0]);
        assert(es.push(pair).skip(1) =~= es.skip(1).push(pair));
        if key != pair.0@ {
            if es[0].0@ == key {
                assert(entry_val(es.push(pair), key) == Some(es[0].1@));
            } else {
                assert(entry_val(es.push(pair), key) == entry_val(es.skip(1).push(pair), key));
                assert(entry_val(es, key) == entry_val(es.skip(1), key));
            }
        }
    }
}

/// `entry_val` of an appended pair, in general: an existing first match
/// shadows it, otherwise it answers for its own key.
pub proof fn lemma_entry_val_push_general(
    es: Seq<(String, String)>,
    pair: (String, String),
    key: Seq<char>,
)
    ensures
        entry_val(es.push(pair), key) == (if entry_val(es, key) is Some {
            entry_val(es, key)
        } else if key == pair.0@ {
            Some(pair.1@)
        } else {
            None
        }),
    decreases es.len(),
{
    if es.len() == 0 {
        assert(es.push(pair)[0] == pair);
        if key != pair.0@ {
            assert(es.push(pair).skip(1) =~= Seq::<(String, String)>::empty());
            assert(entry_val(Seq::<(String, String)>::empty(), key) is None);
            assert(entry_val(es.push(pair), key) is None);
        }
    } else {
        lemma_entry_val_push_general(es.skip(1), pair, key);
        assert(es.push(pair)[0] == es[0]);
        assert(es.push(pair).skip(1) =~= es.skip(1).push(pair));
        if es[0].0@ == key {
        } else {
            assert(entry_val(es.push(pair), key) == entry_val(es.skip(1).push(pair), key));
            assert(entry_val(es, key) == entry_val(es.skip(1), key));
        }
    }
}

/// `entry_val` after removing the entry at `j`.
pub proof fn lemma_entry_val_remove(es: Seq<(String, String)>, j: int, key: Seq<char>)
    requires
        0 <= j < es.len(),
        forall|k: int| 0 <= k < j ==> es[k].0@ != es[j].0@,
        forall|k: int| j < k < es.len() ==> es[k].0@ != es[j].0@,
    ensures
        key == es[j].0@ ==> entry_val(es.remove(j), key) is None,
        key != es[j].0@ ==> entry_val(es.remove(j), key) == entry_val(es, key),
    decreases j,
{
    if j == 0 {
        assert(es.remove(0) =~= es.skip(1));
        if key == es[0].0@ {
            lemma_entry_absent(es.skip(1), key);
        }
    } else {
        lemma_entry_val_remove(es.skip(1), j - 1, key);
        assert(es.remove(j)[0] == es[0]);
        assert(es.remove(j).skip(1) =~= es.skip(1).remove(j - 1));
    }
}

/// A key that appears on no entry reads as absent.
pub proof fn lemma_entry_absent(es: Seq<(String, String)>, key: Seq<char>)
    requires
        forall|k: int| 0 <= k < es.len() ==> es[k].0@ != key,
    ensures
        entry_val(es, key) is None,
    decreases es.len(),
{
    if es.len() > 0 {
        lemma_entry_absent(es.skip(1), key);
        assert(forall|k: int| 0 <= k < es.skip(1).len() ==> es.skip(1)[k].0@ != key);
    }
}

/// Secure storage: the entry cache, the master key, the salt, and the
/// verifier.
pub struct SecureStore {
    /// Entries: plaintext key to encrypted wire blob; keys unique.
    entries: Vec<(String, String)>,
    /// Whether the cache changed since it was last persisted.
    dirty: bool,
    /// The master key, present while unlocked.
    master_key: Option<MasterKey>,
    /// The KDF salt, present once initialized.
    salt: Option<String>,
    /// The verifier blob, present once initialized.
    verifier: Option<String>,
}

impl SecureStore {
    /// Entry keys are unique and the key, if present, is well-formed.
    pub closed spec fn wf(&self) -> bool {
        &&& (forall|a: int, b: int|
            0 <= a < b < self.entries@.len() ==> self.entries@[a].0@ != self.entries@[b].0@)
        &&& (self.spec_master_key() matches Some(k) ==> k.wf())
    }

    /// The current master key.
    pub closed spec fn spec_master_key(&self) -> Option<MasterKey> {
        self.master_key
    }

    /// The current entries.
    pub closed spec fn spec_entries(&self) -> Seq<(String, String)> {
        self.entries@
    }

    /// The value stored under a key.
    pub closed spec fn spec_entry(&self, key: Seq<char>) -> Option<Seq<char>> {
        entry_val(self.entries@, key)
    }

    /// The current salt.
    pub closed spec fn spec_salt(&self) -> Option<String> {
        self.salt
    }

    /// The current verifier blob.
    pub closed spec fn spec_verifier(&self) -> Option<String> {
        self.verifier
    }

    /// Whether the cache changed since it was last persisted.
    pub closed spec fn spec_dirty(&self) -> bool {
        self.dirty
    }

    /// An empty, locked store.
    pub fn new() -> (r: SecureStore)
        ensures
            r.wf(),
            r.spec_entries().len() == 0,
            r.spec_master_key() is None,
            r.spec_salt() is None,
            r.spec_verifier() is None,
            !r.spec_dirty(),
    {
        SecureStore {
            entries: Vec::new(),
            dirty: false,
            master_key: None,
            salt: None,
            verifier: None,
        }
    }

    /// Install or clear the master key.
    pub fn set_master_key(&mut self, key: Option<MasterKey>)
        requires
            old(self).wf(),
            key matches Some(k) ==> k.wf(),
        ensures
            final(self).wf(),
            final(self).spec_master_key() == key,
            final(self).spec_entries() == old(self).spec_entries(),
            final(self).spec_salt() == old(self).spec_salt(),
            final(self).spec_verifier() == old(self).spec_verifier(),
            final(self).spec_dirty() == old(self).spec_dirty(),
    {
        self.master_key = key;
    }

    /// A copy of the master key, where one is installed.
    pub fn master_key_copy(&self) -> (r: Option<MasterKey>)
        requires
            self.wf(),
        ensures
            match r {
                Some(k) => self.spec_master_key() matches Some(k0) && k@ == k0@ && k.wf(),
                None => self.spec_master_key() is None,
            },
    {
        match &self.master_key {
            Some(k) => Some(k.clone_key()),
            None => None,
        }
    }

    /// Whether a master key is installed.
    pub fn has_master_key(&self) -> (r: bool)
        ensures
            r == (self.spec_master_key() is Some),
    {
        self.master_key.is_some()
    }

    /// Store a value under a key, encrypted under the master key.
    ///
    /// Fails with `WalletLocked` exactly when no master key is installed.
    /// Succeeds on every UTF-8 value up to the AES-GCM message limit; the
    /// entry under `key` then decrypts back to the value and every other
    /// entry is unchanged.
    #[verifier::loop_isolation(false)]
    pub fn store(&mut self, key: &str, value: &[u8]) -> (r: Result<(), WalletError>)
        requires
            old(self).wf(),
        ensures
            final(self).wf(),
            old(self).spec_master_key() is None <==> (r matches Err(e) && e is WalletLocked),
            final(self).spec_master_key() == old(self).spec_master_key(),
            final(self).spec_salt() == old(self).spec_salt(),
            final(self).spec_verifier() == old(self).spec_verifier(),
            r is Ok ==> ({
                &&& final(self).spec_dirty()
                &&& final(self).spec_entry(key@) matches Some(w) && blob_opens_to(
                    w,
                    old(self).spec_master_key().unwrap()@,
                    value@,
                ) && wire_opens_clean(w, old(self).spec_master_key().unwrap()@)
                &&& forall|k2: Seq<char>|
                    k2 != key@ ==> final(self).spec_entry(k2) == old(self).spec_entry(k2)
            }),
            r is Err ==> final(self).spec_entries() == old(self).spec_entries(),
            r is Err ==> final(self).spec_dirty() == old(self).spec_dirty(),
            r matches Err(e) ==> e is WalletLocked || e is EncryptionError,
            old(self).spec_master_key() is Some && vstd::utf8::valid_utf8(value@) && value@.len()
                + TAG_LEN <= usize::MAX && value@.len() <= spec_seal_max() ==> r is Ok,
    {
        let mk = match &self.master_key {
            Some(k) => k,
            None => {
                return Err(WalletError::WalletLocked);
            },
        };
        let text = match crate::aead::utf8_to_string(crate::keys::slice_to_vec(value)) {
            Some(t) => t,
            None => {
                return Err(
                    WalletError::EncryptionError("value is not valid UTF-8 text".to_owned()),
                );
            },
        };
        proof {
            broadcast use
                vstd::utf8::encode_utf8_decode_utf8,
                vstd::utf8::decode_utf8_encode_utf8,
                vstd::utf8::encode_utf8_valid_utf8;

            assert(vstd::utf8::encode_utf8(text@) == value@);
        }
        let wire = match encrypt_string(text.as_str(), mk) {
            Ok(w) => w,
            Err(e) => {
                return Err(e);
            },
        };
        proof {
            broadcast use vstd::utf8::encode_utf8_decode_utf8, vstd::utf8::decode_utf8_encode_utf8;
            broadcast use vstd::utf8::encode_utf8_valid_utf8;
            let e = choose|e: EncryptedData|
                e.wf() && (#[trigger] e.spec_opens_to(self.master_key.unwrap()@)) == Some(
                    vstd::utf8::encode_utf8(text@),
                ) && wire@ == e.spec_wire() && e.ciphertext@.len() == vstd::utf8::encode_utf8(
                    text@,
                ).len();
            crate::aead::lemma_wire_round_trip(e);
        }
        self.set_entry(key, wire);
        self.dirty = true;
        Ok(())
    }

    /// Replace or append the entry under a key.
    #[verifier::loop_isolation(false)]
    fn set_entry(&mut self, key: &str, value: String)
        requires
            old(self).wf(),
        ensures
            final(self).wf(),
            final(self).spec_entry(key@) == Some(value@),
            forall|k2: Seq<char>|
                k2 != key@ ==> final(self).spec_entry(k2) == old(self).spec_entry(k2),
            final(self).spec_master_key() == old(self).spec_master_key(),
            final(self).spec_salt() == old(self).spec_salt(),
            final(self).spec_verifier() == old(self).spec_verifier(),
    {
        let ghost es0 = self.entries@;
        let n = self.entries.len();
        let mut i: usize = 0;
        while i < n
            invariant
                i <= n,
                n == self.entries@.len(),
                self.entries@ == es0,
                self.master_key == old(self).master_key,
                self.salt == old(self).salt,
                self.verifier == old(self).verifier,
                self.dirty == old(self).dirty,
                forall|k: int| 0 <= k < i ==> es0[k].0@ != key@,
            decreases n - i,
        {
            if str_eq(self.entries[i].0.as_str(), key) {
                let _old = self.entries.remove(i);
                self.entries.insert(i, (key.to_owned(), value));
                proof {
                    let es1 = self.entries@;
                    assert(es1 =~= es0.update(i as int, es1[i as int]));
                    assert forall|k2: Seq<char>| true implies (k2 == key@
                        ==> entry_val(es1, k2) == Some(es1[i as int].1@)) && (k2 != key@
                        ==> entry_val(es1, k2) == entry_val(es0, k2)) by {
                        lemma_entry_val_update(es0, i as int, es1[i as int], k2);
                    }
                }
                return ;
            }
            i += 1;
        }
        self.entries.push((key.to_owned(), value));
        proof {
            let es1 = self.entries@;
            let pair = es1[es1.len() - 1];
            assert(es1 =~= es0.push(pair));
            lemma_entry_index(es0, key@);
            assert forall|k2: Seq<char>| true implies (k2 == key@ ==> entry_val(es1, k2) == Some(
                pair.1@,
            )) && (k2 != key@ ==> entry_val(es1, k2) == entry_val(es0, k2)) by {
                lemma_entry_val_push(es0, pair, k2);
            }
            assert forall|a: int, b: int|
                0 <= a < b < es1.len() implies es1[a].0@ != es1[b].0@ by {
                if b == es1.len() - 1 {
                    lemma_entry_index(es0, es1[a].0@);
                }
            }
        }
    }

    /// Retrieve and decrypt the value under a key.
    ///
    /// Fails with `WalletLocked` exactly when no master key is installed;
    /// an absent key reads `None`; a present entry decrypts exactly when
    /// its blob parses, opens under the master key, and decodes as UTF-8 —
    /// to the very bytes it opens to.
    #[verifier::loop_isolation(false)]
    pub fn retrieve(&self, key: &str) -> (r: Result<Option<Vec<u8>>, WalletError>)
        requires
            self.wf(),
        ensures
            self.spec_master_key() is None <==> (r matches Err(e) && e is WalletLocked),
            r matches Ok(o) ==> (o is None <==> self.spec_entry(key@) is None),
            r matches Ok(Some(p)) ==> (self.spec_entry(key@) matches Some(w) && blob_opens_to(
                w,
                self.spec_master_key().unwrap()@,
                p@,
            )),
            r matches Err(e) ==> e is WalletLocked || e is DecryptionError,
            r matches Err(e) && e is DecryptionError ==> self.spec_entry(key@) is Some,
            self.spec_master_key() is Some ==> (self.spec_entry(key@) matches Some(w) ==> (
            r is Ok <==> wire_opens_clean(w, self.spec_master_key().unwrap()@))),
    {
        let mk = match &self.master_key {
            Some(k) => k,
            None => {
                return Err(WalletError::WalletLocked);
            },
        };
        let ghost es0 = self.entries@;
        let n = self.entries.len();
        let mut i: usize = 0;
        while i < n
            invariant
                i <= n,
                n == self.entries@.len(),
                self.entries@ == es0,
                forall|k: int| 0 <= k < i ==> es0[k].0@ != key@,
            decreases n - i,
        {
            if str_eq(self.entries[i].0.as_str(), key) {
                proof {
                    lemma_entry_index(es0, key@);
                }
                let text = decrypt_string(self.entries[i].1.as_str(), mk)?;
                proof {
                    broadcast use vstd::utf8::encode_utf8_decode_utf8;
                }
                let bytes = text.as_str().as_bytes_vec();
                return Ok(Some(bytes));
            }
            i += 1;
        }
        proof {
            lemma_entry_absent(es0, key@);
        }
        Ok(None)
    }

    /// Delete the entry under a key, if any; other entries are unchanged.
    #[verifier::loop_isolation(false)]
    pub fn delete(&mut self, key: &str)
        requires
            old(self).wf(),
        ensures
            final(self).wf(),
            final(self).spec_entry(key@) is None,
            forall|k2: Seq<char>|
                k2 != key@ ==> final(self).spec_entry(k2) == old(self).spec_entry(k2),
            final(self).spec_master_key() == old(self).spec_master_key(),
            final(self).spec_salt() == old(self).spec_salt(),
            final(self).spec_verifier() == old(self).spec_verifier(),
    {
        let ghost es0 = self.entries@;
        let n = self.entries.len();
        let mut i: usize = 0;
        while i < n
            invariant
                i <= n,
                n == self.entries@.len(),
                self.entries@ == es0,
                self.master_key == old(self).master_key,
                self.salt == old(self).salt,
                self.verifier == old(self).verifier,
                forall|k: int| 0 <= k < i ==> es0[k].0@ != key@,
            decreases n - i,
        {
            if str_eq(self.entries[i].0.as_str(), key) {
                let _removed = self.entries.remove(i);
                self.dirty = true;
                proof {
                    let es1 = self.entries@;
                    assert(es1 =~= es0.remove(i as int));
                    assert forall|k2: Seq<char>| true implies (k2 == key@ ==> entry_val(
                        es1,
                        k2,
                    ) is None) && (k2 != key@ ==> entry_val(es1, k2) == entry_val(es0, k2)) by {
                        lemma_entry_val_remove(es0, i as int, k2);
                    }
                }
                return ;
            }
            i += 1;
        }
        proof {
            lemma_entry_absent(es0, key@);
        }
    }

    /// Whether an entry exists under a key.
    #[verifier::loop_isolation(false)]
    pub fn contains_key(&self, key: &str) -> (r: bool)
        ensures
            r == (self.spec_entry(key@) is Some),
    {
        let ghost es0 = self.entries@;
        let n = self.entries.len();
        let mut i: usize = 0;
        while i < n
            invariant
                i <= n,
                n == self.entries@.len(),
                self.entries@ == es0,
                forall|k: int| 0 <= k < i ==> es0[k].0@ != key@,
            decreases n - i,
        {
            if str_eq(self.entries[i].0.as_str(), key) {
                proof {
                    lemma_entry_index(es0, key@);
                }
                return true;
            }
            i += 1;
        }
        proof {
            lemma_entry_absent(es0, key@);
        }
        false
    }

    /// The keys that begin with a prefix, in entry order.
    #[verifier::loop_isolation(false)]
    pub fn list_keys(&self, prefix: &str) -> (r: Vec<String>)
        ensures
            r.deep_view() == self.spec_entries().map_values(|e: (String, String)| e.0@).filter(
                |k: Seq<char>|
                    k.len() >= prefix@.len() && k.subrange(0, prefix@.len() as int) == prefix@,
            ),
    {
        let pc = chars_of(prefix);
        let n = self.entries.len();
        let mut out: Vec<String> = Vec::new();
        let mut i: usize = 0;
        let ghost keys = self.entries@.map_values(|e: (String, String)| e.0@);
        let ghost pred = |k: Seq<char>|
            k.len() >= prefix@.len() && k.subrange(0, prefix@.len() as int) == prefix@;
        proof {
            assert(keys.take(0).filter(pred) =~= Seq::<Seq<char>>::empty()) by {
                reveal(Seq::filter);
            }
        }
        while i < n
            invariant
                i <= n,
                n == self.entries@.len(),
                keys == self.entries@.map_values(|e: (String, String)| e.0@),
                pred == (|k: Seq<char>|
                    k.len() >= prefix@.len() && k.subrange(0, prefix@.len() as int) == prefix@),
                pc@ == prefix@,
                out.deep_view() == keys.take(i as int).filter(pred),
            decreases n - i,
        {
            let kc = chars_of(self.entries[i].0.as_str());
            let keep = starts_with_chars(&kc, &pc);
            let ghost pre = out.deep_view();
            if keep {
                out.push(self.entries[i].0.clone());
            }
            proof {
                reveal(Seq::filter);
                assert(keys.take(i + 1).drop_last() =~= keys.take(i as int));
                assert(keys.take(i + 1).last() == keys[i as int]);
                assert(keep == pred(keys[i as int]));
                if keep {
                    assert(out.deep_view() =~= pre.push(keys[i as int]));
                }
                assert(out.deep_view() =~= keys.take(i + 1).filter(pred));
            }
            i += 1;
        }
        proof {
            assert(keys.take(n as int) =~= keys);
        }
        out
    }

    /// Remove every entry.
    pub fn clear(&mut self)
        requires
            old(self).wf(),
        ensures
            final(self).wf(),
            final(self).spec_entries().len() == 0,
            final(self).spec_dirty(),
            final(self).spec_master_key() == old(self).spec_master_key(),
            final(self).spec_salt() == old(self).spec_salt(),
            final(self).spec_verifier() == old(self).spec_verifier(),
    {
        self.entries.clear();
        self.dirty = true;
    }

    /// Record the KDF salt.
    pub fn save_salt(&mut self, salt: &str)
        requires
            old(self).wf(),
        ensures
            final(self).wf(),
            final(self).spec_salt() matches Some(s) && s@ == salt@,
            final(self).spec_entries() == old(self).spec_entries(),
            final(self).spec_master_key() == old(self).spec_master_key(),
            final(self).spec_verifier() == old(self).spec_verifier(),
    {
        self.salt = Some(salt.to_owned());
    }

    /// Drop the salt, as a reset does.
    pub fn clear_salt(&mut self)
        requires
            old(self).wf(),
        ensures
            final(self).wf(),
            final(self).spec_salt() is None,
            final(self).spec_entries() == old(self).spec_entries(),
            final(self).spec_master_key() == old(self).spec_master_key(),
            final(self).spec_verifier() == old(self).spec_verifier(),
    {
        self.salt = None;
    }

    /// The KDF salt, if initialized.
    pub fn load_salt(&self) -> (r: Option<&String>)
        ensures
            match r {
                Some(s) => self.spec_salt() == Some(*s),
                None => self.spec_salt() is None,
            },
    {
        match &self.salt {
            Some(s) => Some(s),
            None => None,
        }
    }

    /// Encrypt the verification plaintext under the master key and record
    /// it as the verifier.
    ///
    /// Succeeds whenever a master key is installed: the verifier then
    /// opens under exactly that key.
    pub fn save_verification(&mut self) -> (r: Result<(), WalletError>)
        requires
            old(self).wf(),
        ensures
            final(self).wf(),
            old(self).spec_master_key() is None <==> (r matches Err(e) && e is WalletLocked),
            old(self).spec_master_key() is Some <==> r is Ok,
            final(self).spec_master_key() == old(self).spec_master_key(),
            final(self).spec_entries() == old(self).spec_entries(),
            final(self).spec_salt() == old(self).spec_salt(),
            r is Ok ==> (final(self).spec_verifier() matches Some(w) && opens_to_verification(
                w@,
                old(self).spec_master_key().unwrap()@,
            )),
            r is Err ==> final(self).spec_verifier() == old(self).spec_verifier(),
            r matches Err(e) ==> e is WalletLocked,
    {
        let mk = match &self.master_key {
            Some(k) => k,
            None => {
                return Err(WalletError::WalletLocked);
            },
        };
        proof {
            reveal_strlit("mcp-wallet-verification");
            assert("mcp-wallet-verification"@.len() == 23);
            vstd::utf8::is_ascii_chars_encode_utf8("mcp-wallet-verification"@);
        }
        let wire = encrypt_string("mcp-wallet-verification", mk)?;
        proof {
            let e = choose|e: EncryptedData|
                e.wf() && (#[trigger] e.spec_opens_to(self.master_key.unwrap()@)) == Some(
                    vstd::utf8::encode_utf8("mcp-wallet-verification"@),
                ) && wire@ == e.spec_wire() && e.ciphertext@.len() == vstd::utf8::encode_utf8(
                    "mcp-wallet-verification"@,
                ).len() && e.ciphertext@.len() + TAG_LEN <= usize::MAX;
            crate::aead::lemma_wire_round_trip(e);
        }
        self.verifier = Some(wire);
        Ok(())
    }

    /// Install a verifier blob, as loading from disk does.
    pub fn set_verifier(&mut self, verifier: Option<String>)
        requires
            old(self).wf(),
        ensures
            final(self).wf(),
            final(self).spec_verifier() == verifier,
            final(self).spec_entries() == old(self).spec_entries(),
            final(self).spec_master_key() == old(self).spec_master_key(),
            final(self).spec_salt() == old(self).spec_salt(),
    {
        self.verifier = verifier;
    }

    /// Check the installed master key against the verifier.
    ///
    /// With a key installed this never fails: it answers `Ok(true)`
    /// exactly when a verifier exists and opens under the key to the
    /// verification plaintext, and `Ok(false)` on any other verifier — a
    /// wrong key is an answer, not an error.
    pub fn verify_key(&self) -> (r: Result<bool, WalletError>)
        requires
            self.wf(),
        ensures
            self.spec_verifier() is None ==> r == Ok::<bool, WalletError>(false),
            self.spec_verifier() is Some && self.spec_master_key() is None <==> (r matches Err(e)
                && e is WalletLocked),
            self.spec_master_key() is Some ==> r is Ok,
            r == Ok::<bool, WalletError>(true) <==> (self.spec_verifier() matches Some(w)
                && self.spec_master_key() is Some && opens_to_verification(
                w@,
                self.spec_master_key().unwrap()@,
            )),
    {
        let wire = match &self.verifier {
            Some(w) => w,
            None => {
                return Ok(false);
            },
        };
        let mk = match &self.master_key {
            Some(k) => k,
            None => {
                return Err(WalletError::WalletLocked);
            },
        };
        proof {
            reveal_strlit("mcp-wallet-verification");
            broadcast use vstd::utf8::encode_utf8_decode_utf8, vstd::utf8::encode_utf8_valid_utf8;

            assert(vstd::utf8::valid_utf8(
                vstd::utf8::encode_utf8(spec_verification_text()),
            ));
            assert(vstd::utf8::decode_utf8(vstd::utf8::encode_utf8(spec_verification_text()))
                == spec_verification_text());
        }
        match decrypt_string(wire.as_str(), mk) {
            Ok(text) => {
                let ok = str_eq(text.as_str(), "mcp-wallet-verification");
                proof {
                    broadcast use vstd::utf8::encode_utf8_decode_utf8;

                    assert(vstd::utf8::decode_utf8(vstd::utf8::encode_utf8(text@)) == text@);
                }
                Ok(ok)
            },
            Err(_) => Ok(false),
        }
    }

    /// Whether the wallet is initialized: both salt and verifier exist.
    pub fn is_initialized(&self) -> (r: bool)
        ensures
            r == (self.spec_salt() is Some && self.spec_verifier() is Some),
    {
        self.salt.is_some() && self.verifier.is_some()
    }

    /// The entries, for persistence.
    pub fn entries_snapshot(&self) -> (r: &Vec<(String, String)>)
        ensures
            r@ == self.spec_entries(),
    {
        &self.entries
    }

    /// The verifier blob, for persistence.
    pub fn verifier_snapshot(&self) -> (r: Option<&String>)
        ensures
            match r {
                Some(w) => self.spec_verifier() == Some(*w),
                None => self.spec_verifier() is None,
            },
    {
        match &self.verifier {
            Some(w) => Some(w),
            None => None,
        }
    }

    /// Replace the entries with loaded ones; on duplicate keys the first
    /// occurrence wins, so the cache reads exactly as the loaded list does
    /// and stays well-formed.
    #[verifier::loop_isolation(false)]
    pub fn load_entries(&mut self, entries: Vec<(String, String)>)
        requires
            old(self).wf(),
        ensures
            final(self).wf(),
            final(self).spec_master_key() == old(self).spec_master_key(),
            final(self).spec_salt() == old(self).spec_salt(),
            final(self).spec_verifier() == old(self).spec_verifier(),
            !final(self).spec_dirty(),
            forall|k: Seq<char>| final(self).spec_entry(k) == entry_val(entries@, k),
    {
        let ghost all = entries@;
        let n = entries.len();
        let mut cleaned: Vec<(String, String)> = Vec::new();
        let mut incoming = entries;
        proof {
            assert(all.take(0) =~= Seq::<(String, String)>::empty());
            assert(all.skip(0) =~= all);
        }
        while incoming.len() > 0
            invariant
                incoming@.len() <= all.len(),
                incoming@ == all.skip(all.len() - incoming@.len()),
                forall|a: int, b: int|
                    0 <= a < b < cleaned@.len() ==> cleaned@[a].0@ != cleaned@[b].0@,
                forall|k: Seq<char>|
                    entry_val(cleaned@, k) == entry_val(
                        all.take(all.len() - incoming@.len()),
                        k,
                    ),
            decreases incoming@.len(),
        {
            let ghost consumed = all.len() - incoming@.len();
            let pair = incoming.remove(0);
            proof {
                assert(pair == all[consumed]);
                assert(incoming@ =~= all.skip(consumed + 1));
            }
            let m = cleaned.len();
            let mut dup = false;
            let mut j: usize = 0;
            while j < m
                invariant
                    j <= m,
                    m == cleaned@.len(),
                    dup ==> exists|k: int| 0 <= k < m && cleaned@[k].0@ == pair.0@,
                    !dup ==> forall|k: int| 0 <= k < j ==> cleaned@[k].0@ != pair.0@,
                decreases m - j,
            {
                if str_eq(cleaned[j].0.as_str(), pair.0.as_str()) {
                    dup = true;
                    proof {
                        assert(cleaned@[j as int].0@ == pair.0@);
                    }
                    j = m;
                } else {
                    j += 1;
                }
            }
            let ghost cleaned0 = cleaned@;
            proof {
                lemma_entry_index(cleaned0, pair.0@);
                if dup {
                    assert(entry_val(cleaned0, pair.0@) is Some);
                } else {
                    lemma_entry_absent(cleaned0, pair.0@);
                }
            }
            if !dup {
                cleaned.push(pair);
            }
            proof {
                assert(all.take(consumed + 1) =~= all.take(consumed).push(all[consumed]));
                assert forall|k: Seq<char>| true implies entry_val(cleaned@, k) == entry_val(
                    all.take(consumed + 1),
                    k,
                ) by {
                    lemma_entry_val_push_general(all.take(consumed), all[consumed], k);
                    if !dup {
                        lemma_entry_val_push_general(cleaned0, all[consumed], k);
                    }
                }
            }
        }
        proof {
            assert(all.take(all.len() as int) =~= all);
        }
        self.entries = cleaned;
        self.dirty = false;
    }

    /// Mark the cache clean, after it was persisted.
    pub fn mark_clean(&mut self)
        requires
            old(self).wf(),
        ensures
            final(self).wf(),
            !final(self).spec_dirty(),
            final(self).spec_entries() == old(self).spec_entries(),
            final(self).spec_master_key() == old(self).spec_master_key(),
            final(self).spec_salt() == old(self).spec_salt(),
            final(self).spec_verifier() == old(self).spec_verifier(),
    {
        self.dirty = false;
    }

    /// Whether the backend is hardware backed: the encrypted file is not.
    pub fn is_hardware_backed(&self) -> (r: bool)
        ensures
            !r,
    {
        false
    }

    /// The backend's name.
    pub fn backend_name(&self) -> (r: &'static str)
        ensures
            r@ == "Encrypted File Storage"@,
    {
        "Encrypted File Storage"
    }
}

/// A stored wire blob decrypts under a key to given plaintext bytes.
pub open spec fn blob_opens_to(w: Seq<char>, key: Seq<u8>, plaintext: Seq<u8>) -> bool {
    spec_parse_wire(w) matches Some(t) && opened(key, t.0, t.2 + t.1) == Some(plaintext)
}

/// A verifier blob that proves a key: it parses, fits the machine, and
/// opens under the key to the verification plaintext.
pub open spec fn opens_to_verification(w: Seq<char>, key: Seq<u8>) -> bool {
    spec_parse_wire(w) matches Some(t) && t.2.len() + TAG_LEN <= usize::MAX && opened(
        key,
        t.0,
        t.2 + t.1,
    ) == Some(vstd::utf8::encode_utf8(spec_verification_text()))
}

} // verus!
