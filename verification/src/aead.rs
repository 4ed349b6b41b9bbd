//! AES-256-GCM authenticated encryption and its wire format.
//!
//! An encrypted value is the triple (12-byte IV, 16-byte tag, ciphertext),
//! persisted as `hex(iv) ":" hex(tag) ":" hex(ciphertext)`. What AES-GCM
//! itself computes is named by the uninterpreted function [`opened`]: a
//! ciphertext-with-tag opens under a key and IV to at most one plaintext,
//! and sealing a plaintext yields a ciphertext that opens back to it. That
//! is all the proofs rely on; wrong keys or tampered bytes simply fail to
//! open.

use vstd::prelude::*;
use aes_gcm::aead::{Aead, KeyInit};
use rand::RngCore;
use crate::errors::WalletError;
use crate::hexcode::{hex_of, spec_hex_decode, hex_encode_chars, hex_decode_chars};
use crate::keys::MasterKey;
use crate::strutil::{
    chars_of, string_of, find_char, subrange_chars, split_chars, lemma_split_no_sep,
    lemma_split_glue, lemma_split_has_sep,
};

verus! {

/// Length in bytes of the AES-GCM initialization vector.
pub const IV_LEN: usize = 12;

/// Length in bytes of the AES-GCM authentication tag.
pub const TAG_LEN: usize = 16;

/// What AES-256-GCM decryption returns for a key, an IV and a
/// ciphertext-with-trailing-tag: the unique plaintext it authenticates, or
/// nothing.
pub uninterp spec fn opened(key: Seq<u8>, iv: Seq<u8>, ciphertext_and_tag: Seq<u8>) -> Option<
    Seq<u8>,
>;

/// The longest plaintext AES-GCM seals: 2^36 bytes.
pub open spec fn spec_seal_max() -> int {
    0x10_0000_0000
}

/// Relies on `aes_gcm::Aes256Gcm` (`KeyInit::new_from_slice` and
/// `Aead::encrypt`): encryption appends the 16-byte tag to the ciphertext,
/// decrypting the result under the same key and nonce returns the
/// plaintext, and sealing fails only past the 2^36-byte message limit.
#[verifier::external_body]
fn aes_seal(key: &[u8], iv: &[u8], plaintext: &[u8]) -> (r: Result<Vec<u8>, ()>)
    requires
        key@.len() == 32,
        iv@.len() == IV_LEN,
    ensures
        r matches Ok(c) ==> c@.len() == plaintext@.len() + TAG_LEN && opened(key@, iv@, c@)
            == Some(plaintext@),
        plaintext@.len() <= spec_seal_max() ==> r is Ok,
{
    let cipher = aes_gcm::Aes256Gcm::new_from_slice(key).map_err(|_| ())?;
    cipher.encrypt(aes_gcm::Nonce::from_slice(iv), plaintext).map_err(|_| ())
}

/// Relies on `aes_gcm::Aes256Gcm` (`KeyInit::new_from_slice` and
/// `Aead::decrypt`): decryption of a ciphertext-with-trailing-tag is a
/// function of key, nonce and input; it fails whenever the tag does not
/// authenticate.
#[verifier::external_body]
fn aes_open(key: &[u8], iv: &[u8], ciphertext_and_tag: &[u8]) -> (r: Result<Vec<u8>, ()>)
    requires
        key@.len() == 32,
        iv@.len() == IV_LEN,
    ensures
        r matches Ok(p) ==> opened(key@, iv@, ciphertext_and_tag@) == Some(p@),
        r is Err ==> opened(key@, iv@, ciphertext_and_tag@) is None,
{
    let cipher = aes_gcm::Aes256Gcm::new_from_slice(key).map_err(|_| ())?;
    cipher.decrypt(aes_gcm::Nonce::from_slice(iv), ciphertext_and_tag).map_err(|_| ())
}

/// Relies on `rand::thread_rng` and `RngCore::fill_bytes`: fills the buffer
/// with random bytes. Nothing is promised of the values.
#[verifier::external_body]
pub fn random_bytes(n: usize) -> (r: Vec<u8>)
    ensures
        r@.len() == n,
{
    let mut buf = vec![0u8; n];
    rand::thread_rng().fill_bytes(&mut buf);
    buf
}

/// Relies on `String::from_utf8`: succeeds exactly on valid UTF-8 and
/// decodes it.
#[verifier::external_body]
pub fn utf8_to_string(v: Vec<u8>) -> (r: Option<String>)
    ensures
        r matches Some(s) ==> vstd::utf8::valid_utf8(v@) && s@ == vstd::utf8::decode_utf8(v@),
        r is None ==> !vstd::utf8::valid_utf8(v@),
{
    String::from_utf8(v).ok()
}

/// Encrypted data: IV, authentication tag, and ciphertext.
pub struct EncryptedData {
    /// Initialization vector (12 bytes).
    pub iv: Vec<u8>,
    /// Authentication tag (16 bytes).
    pub auth_tag: Vec<u8>,
    /// Encrypted ciphertext.
    pub ciphertext: Vec<u8>,
}

impl EncryptedData {
    /// The IV and tag have their fixed lengths.
    pub open spec fn wf(&self) -> bool {
        self.iv@.len() == IV_LEN && self.auth_tag@.len() == TAG_LEN
    }

    /// The plaintext this blob decrypts to under `key`, if any.
    pub open spec fn spec_opens_to(&self, key: Seq<u8>) -> Option<Seq<u8>> {
        opened(key, self.iv@, self.ciphertext@ + self.auth_tag@)
    }

    /// The wire rendering `hex(iv):hex(tag):hex(ciphertext)`.
    pub open spec fn spec_wire(&self) -> Seq<char> {
        wire_of(self.iv@, self.auth_tag@, self.ciphertext@)
    }
}

/// The wire rendering of an encrypted triple.
pub open spec fn wire_of(iv: Seq<u8>, tag: Seq<u8>, ct: Seq<u8>) -> Seq<char> {
    hex_of(iv) + seq![':'] + hex_of(tag) + seq![':'] + hex_of(ct)
}

/// The triple a wire string denotes: three hex fields joined by `:`, the
/// first decoding to 12 bytes and the second to 16.
pub open spec fn spec_parse_wire(s: Seq<char>) -> Option<(Seq<u8>, Seq<u8>, Seq<u8>)> {
    let parts = split_chars(s, ':');
    if parts.len() != 3 {
        None
    } else {
        match (spec_hex_decode(parts[0]), spec_hex_decode(parts[1]), spec_hex_decode(parts[2])) {
            (Some(iv), Some(tag), Some(ct)) => if iv.len() == IV_LEN && tag.len() == TAG_LEN {
                Some((iv, tag, ct))
            } else {
                None
            },
            _ => None,
        }
    }
}

/// Decryption inverts encryption: a blob produced for a plaintext opens to
/// that plaintext and nothing else, so whatever a successful decryption
/// under the same key returns is the original plaintext.
pub proof fn lemma_decrypt_inverts_encrypt(
    e: EncryptedData,
    key: Seq<u8>,
    plaintext: Seq<u8>,
    returned: Seq<u8>,
)
    requires
        e.spec_opens_to(key) == Some(plaintext),
        e.spec_opens_to(key) == Some(returned),
    ensures
        returned == plaintext,
{
}

/// Encrypt plaintext under a master key with a random IV.
///
/// The result opens back to the plaintext under the same key: decryption
/// inverts encryption. Succeeds on every plaintext up to the AES-GCM
/// message limit.
pub fn encrypt(plaintext: &[u8], key: &MasterKey) -> (r: Result<EncryptedData, WalletError>)
    requires
        key.wf(),
        plaintext@.len() + TAG_LEN <= usize::MAX,
    ensures
        r matches Ok(e) ==> e.wf() && e.spec_opens_to(key@) == Some(plaintext@)
            && e.ciphertext@.len() == plaintext@.len(),
        r matches Err(e) ==> e is EncryptionError,
        plaintext@.len() <= spec_seal_max() ==> r is Ok,
{
    let iv = random_bytes(IV_LEN);
    match aes_seal(key.as_bytes().as_slice(), iv.as_slice(), plaintext) {
        Ok(mut sealed) => {
            let ghost sealed0 = sealed@;
            let split_at = sealed.len() - TAG_LEN;
            let mut auth_tag: Vec<u8> = Vec::new();
            let mut i: usize = split_at;
            let n = sealed.len();
            while i < n
                invariant
                    split_at <= i <= n,
                    n == sealed@.len(),
                    sealed@ == sealed0,
                    auth_tag@ == sealed@.subrange(split_at as int, i as int),
                decreases n - i,
            {
                auth_tag.push(sealed[i]);
                assert(auth_tag@ == sealed@.subrange(split_at as int, i + 1 as int));
                i += 1;
            }
            sealed.truncate(split_at);
            proof {
                assert(sealed@ + auth_tag@ =~= sealed0);
            }
            let e = EncryptedData { iv, auth_tag, ciphertext: sealed };
            Ok(e)
        },
        Err(_) => Err(WalletError::EncryptionError("AEAD encryption failed".to_owned())),
    }
}

/// Decrypt an encrypted blob under a master key.
pub fn decrypt(encrypted: &EncryptedData, key: &MasterKey) -> (r: Result<Vec<u8>, WalletError>)
    requires
        key.wf(),
        encrypted.wf(),
        encrypted.ciphertext@.len() + TAG_LEN <= usize::MAX,
    ensures
        r matches Ok(p) ==> encrypted.spec_opens_to(key@) == Some(p@),
        r is Err ==> encrypted.spec_opens_to(key@) is None,
        r matches Err(e) ==> e is DecryptionError,
{
    let mut joined: Vec<u8> = Vec::new();
    let nc = encrypted.ciphertext.len();
    let mut i: usize = 0;
    while i < nc
        invariant
            i <= nc,
            nc == encrypted.ciphertext@.len(),
            joined@ == encrypted.ciphertext@.subrange(0, i as int),
        decreases nc - i,
    {
        joined.push(encrypted.ciphertext[i]);
        assert(joined@ == encrypted.ciphertext@.subrange(0, i + 1 as int));
        i += 1;
    }
    assert(joined@ =~= encrypted.ciphertext@);
    let nt = encrypted.auth_tag.len();
    let mut j: usize = 0;
    while j < nt
        invariant
            j <= nt,
            nt == encrypted.auth_tag@.len(),
            nc == encrypted.ciphertext@.len(),
            joined@ == encrypted.ciphertext@ + encrypted.auth_tag@.subrange(0, j as int),
        decreases nt - j,
    {
        joined.push(encrypted.auth_tag[j]);
        assert(joined@ == encrypted.ciphertext@ + encrypted.auth_tag@.subrange(0, j + 1 as int));
        j += 1;
    }
    assert(joined@ =~= encrypted.ciphertext@ + encrypted.auth_tag@);
    match aes_open(key.as_bytes().as_slice(), encrypted.iv.as_slice(), joined.as_slice()) {
        Ok(p) => Ok(p),
        Err(_) => Err(WalletError::DecryptionError("AEAD authentication failed".to_owned())),
    }
}

/// Encrypt a string and return the serialized wire format.
///
/// Succeeds on every string whose UTF-8 encoding fits the AES-GCM message
/// limit; the result is the wire rendering of a blob that opens back to
/// the encoded string.
pub fn encrypt_string(plaintext: &str, key: &MasterKey) -> (r: Result<String, WalletError>)
    requires
        key.wf(),
    ensures
        r matches Ok(s) ==> exists|e: EncryptedData|
            e.wf() && (#[trigger] e.spec_opens_to(key@)) == Some(
                vstd::utf8::encode_utf8(plaintext@),
            ) && s@ == e.spec_wire() && e.ciphertext@.len() == vstd::utf8::encode_utf8(
                plaintext@,
            ).len() && e.ciphertext@.len() + TAG_LEN <= usize::MAX,
        r matches Err(e) ==> e is EncryptionError,
        vstd::utf8::encode_utf8(plaintext@).len() + TAG_LEN <= usize::MAX && vstd::utf8::encode_utf8(
            plaintext@,
        ).len() <= spec_seal_max() ==> r is Ok,
{
    let bytes = plaintext.as_bytes();
    if bytes.len() > usize::MAX - TAG_LEN {
        return Err(WalletError::EncryptionError("plaintext too long".to_owned()));
    }
    let e = encrypt(bytes, key)?;
    let s = to_wire_string(&e);
    Ok(s)
}

/// Serialize an encrypted blob as `hex(iv):hex(tag):hex(ciphertext)`.
pub fn to_wire_string(e: &EncryptedData) -> (r: String)
    ensures
        r@ == e.spec_wire(),
{
    let mut chars = hex_encode_chars(e.iv.as_slice());
    chars.push(':');
    let mut tag_chars = hex_encode_chars(e.auth_tag.as_slice());
    chars.append(&mut tag_chars);
    chars.push(':');
    let mut ct_chars = hex_encode_chars(e.ciphertext.as_slice());
    chars.append(&mut ct_chars);
    proof {
        assert(chars@ =~= e.spec_wire());
    }
    string_of(&chars)
}

/// Hex renderings never hold the field separator.
proof fn lemma_hex_no_colon(bytes: Seq<u8>)
    ensures
        forall|i: int| 0 <= i < hex_of(bytes).len() ==> hex_of(bytes)[i] != ':',
    decreases bytes.len(),
{
    if bytes.len() == 0 {
    } else {
        lemma_hex_no_colon(bytes.skip(1));
        let s = hex_of(bytes);
        assert forall|i: int| 0 <= i < s.len() implies s[i] != ':' by {
            if i >= 2 {
                assert(s[i] == hex_of(bytes.skip(1))[i - 2]);
            }
        }
    }
}

/// Serialization round trip: parsing the wire rendering of a well-formed
/// blob yields its fields back.
pub proof fn lemma_wire_round_trip(e: EncryptedData)
    requires
        e.wf(),
    ensures
        spec_parse_wire(e.spec_wire()) == Some((e.iv@, e.auth_tag@, e.ciphertext@)),
{
    let a = hex_of(e.iv@);
    let b = hex_of(e.auth_tag@);
    let c = hex_of(e.ciphertext@);
    lemma_hex_no_colon(e.iv@);
    lemma_hex_no_colon(e.auth_tag@);
    lemma_hex_no_colon(e.ciphertext@);
    assert(e.spec_wire() =~= a + seq![':'] + (b + seq![':'] + c));
    lemma_split_glue(a, b + seq![':'] + c, ':');
    lemma_split_glue(b, c, ':');
    lemma_split_no_sep(c, ':');
    let parts = split_chars(e.spec_wire(), ':');
    assert(parts =~~= seq![a, b, c]);
    crate::hexcode::lemma_hex_round_trip(e.iv@);
    crate::hexcode::lemma_hex_round_trip(e.auth_tag@);
    crate::hexcode::lemma_hex_round_trip(e.ciphertext@);
}

/// Parse the wire format `hex(iv):hex(tag):hex(ciphertext)`.
pub fn from_string(s: &str) -> (r: Result<EncryptedData, WalletError>)
    ensures
        r matches Ok(e) ==> spec_parse_wire(s@) == Some((e.iv@, e.auth_tag@, e.ciphertext@))
            && e.wf(),
        r is Err ==> spec_parse_wire(s@) is None,
        r matches Err(e) ==> e is DecryptionError,
{
    let chars = chars_of(s);
    let n = chars.len();
    let i1 = match find_char(&chars, 0, ':') {
        Some(i) => i,
        None => {
            proof {
                lemma_split_no_sep(s@, ':');
            }
            return Err(
                WalletError::DecryptionError(
                    "Invalid encrypted data format: expected iv:tag:ciphertext".to_owned(),
                ),
            );
        },
    };
    let a = subrange_chars(&chars, 0, i1);
    proof {
        assert(s@ =~= a@ + seq![':'] + s@.skip(i1 + 1));
        lemma_split_glue(a@, s@.skip(i1 + 1), ':');
    }
    let i2 = match find_char(&chars, i1 + 1, ':') {
        Some(i) => i,
        None => {
            proof {
                lemma_split_no_sep(s@.skip(i1 + 1), ':');
            }
            return Err(
                WalletError::DecryptionError(
                    "Invalid encrypted data format: expected iv:tag:ciphertext".to_owned(),
                ),
            );
        },
    };
    let b = subrange_chars(&chars, i1 + 1, i2);
    let c = subrange_chars(&chars, i2 + 1, n);
    proof {
        assert(s@.skip(i1 + 1) =~= b@ + seq![':'] + c@);
        lemma_split_glue(b@, c@, ':');
    }
    if let Some(i3) = find_char(&chars, i2 + 1, ':') {
        proof {
            assert(c@[i3 - (i2 + 1)] == ':');
            lemma_split_has_sep(c@, ':');
        }
        return Err(
            WalletError::DecryptionError(
                "Invalid encrypted data format: expected iv:tag:ciphertext".to_owned(),
            ),
        );
    }
    proof {
        lemma_split_no_sep(c@, ':');
        assert(split_chars(s@, ':') =~~= seq![a@, b@, c@]);
    }
    let iv = match hex_decode_chars(&a) {
        Some(v) => v,
        None => {
            return Err(WalletError::DecryptionError("Invalid IV hex".to_owned()));
        },
    };
    let auth_tag = match hex_decode_chars(&b) {
        Some(v) => v,
        None => {
            return Err(WalletError::DecryptionError("Invalid auth tag hex".to_owned()));
        },
    };
    let ciphertext = match hex_decode_chars(&c) {
        Some(v) => v,
        None => {
            return Err(WalletError::DecryptionError("Invalid ciphertext hex".to_owned()));
        },
    };
    if iv.len() != IV_LEN {
        return Err(WalletError::DecryptionError("Invalid IV length".to_owned()));
    }
    if auth_tag.len() != TAG_LEN {
        return Err(WalletError::DecryptionError("Invalid auth tag length".to_owned()));
    }
    Ok(EncryptedData { iv, auth_tag, ciphertext })
}

/// A wire blob that decrypts cleanly under a key: it parses, the machine
/// can hold its joined form, it opens, and the plaintext is valid UTF-8.
pub open spec fn wire_opens_clean(w: Seq<char>, key: Seq<u8>) -> bool {
    spec_parse_wire(w) matches Some(t) && t.2.len() + TAG_LEN <= usize::MAX && (opened(
        key,
        t.0,
        t.2 + t.1,
    ) matches Some(p) && vstd::utf8::valid_utf8(p))
}

/// Decrypt from the serialized wire format and return the plaintext
/// string.
///
/// Succeeds exactly on blobs that parse, open under the key, and decode as
/// UTF-8; the result is then the plaintext the blob opens to.
pub fn decrypt_string(encrypted_str: &str, key: &MasterKey) -> (r: Result<String, WalletError>)
    requires
        key.wf(),
    ensures
        r is Ok <==> wire_opens_clean(encrypted_str@, key@),
        r matches Ok(p) ==> (spec_parse_wire(encrypted_str@) matches Some(t) && opened(
            key@,
            t.0,
            t.2 + t.1,
        ) == Some(vstd::utf8::encode_utf8(p@))),
        r matches Err(e) ==> e is DecryptionError,
{
    let e = from_string(encrypted_str)?;
    if e.ciphertext.len() > usize::MAX - TAG_LEN {
        return Err(WalletError::DecryptionError("ciphertext too long".to_owned()));
    }
    let bytes = decrypt(&e, key)?;
    proof {
        broadcast use vstd::utf8::encode_utf8_decode_utf8;
        broadcast use vstd::utf8::decode_utf8_encode_utf8;
    }
    match utf8_to_string(bytes) {
        Some(s) => Ok(s),
        None => Err(WalletError::DecryptionError("Invalid UTF-8".to_owned())),
    }
}

} // verus!
