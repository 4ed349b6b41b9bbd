//! The credential store: CRUD over secret material.
//!
//! Records live in storage under `credential:{id}`, as JSON text whose
//! `encrypted_value` field is itself an AEAD blob of the secret. The
//! display prefix never carries more than eight characters of the secret.
//! Every operation that touches secret material demands the master key and
//! fails with `WalletLocked` without one.

use vstd::prelude::*;
use crate::aead::{encrypt_string, decrypt_string, EncryptedData};
use crate::errors::WalletError;
use crate::json::{Json, JsonValue, json_view, json_text, spec_get, to_json_string, obj_get};
use crate::jsontext::parse_json;
use crate::keys::DecryptedCredential;
use crate::session::{new_uuid_string, now_unix};
use crate::store::{SecureStore, blob_opens_to};
use crate::strutil::{chars_of, string_of, subrange_chars, str_eq};

verus! {

/// The kind of credential.
#[derive(Clone, Copy, PartialEq, Eq, Structural, Debug)]
pub enum CredentialType {
    /// A static API key.
    ApiKey,
    /// An OAuth2 access token.
    OAuth2Token,
    /// Basic authentication material.
    BasicAuth,
}

/// Credential metadata, safe to display.
pub struct Credential {
    /// Unique identifier.
    pub id: String,
    /// Provider name (e.g. `openai`).
    pub provider: String,
    /// User-facing name.
    pub name: String,
    /// The kind of credential.
    pub credential_type: CredentialType,
    /// A display sliver: at most eight characters of the secret, with an
    /// ellipsis.
    pub prefix: Option<String>,
    /// The bound integration, if any.
    pub integration_id: Option<String>,
    /// When the credential was last used, as Unix seconds.
    pub last_used_at: Option<u64>,
    /// When the credential was created, as Unix seconds.
    pub created_at: u64,
}

/// A stored credential: metadata plus encrypted material.
pub struct StoredCredential {
    /// The metadata.
    pub credential: Credential,
    /// The AEAD blob of the secret, in wire format.
    pub encrypted_value: String,
    /// The AEAD blob of the refresh token, for OAuth2.
    pub encrypted_refresh_token: Option<String>,
    /// Token expiry, for OAuth2, as Unix seconds.
    pub expires_at: Option<u64>,
}

/// The display prefix of a secret: its first eight characters (or all of a
/// shorter secret) followed by an ellipsis.
pub open spec fn spec_prefix_of(secret: Seq<char>) -> Seq<char> {
    (if secret.len() >= 8 {
        secret.take(8)
    } else {
        secret
    }) + "..."@
}

/// Compute the display prefix of a secret.
pub fn prefix_of(secret: &str) -> (r: String)
    ensures
        r@ == spec_prefix_of(secret@),
{
    proof {
        reveal_strlit("...");
    }
    let cs = chars_of(secret);
    let keep = if cs.len() >= 8 {
        8
    } else {
        cs.len()
    };
    let mut out = subrange_chars(&cs, 0, keep);
    out.push('.');
    out.push('.');
    out.push('.');
    proof {
        if secret@.len() >= 8 {
            assert(out@ =~= secret@.take(8) + "..."@);
        } else {
            assert(cs@.subrange(0, keep as int) =~= secret@);
            assert(out@ =~= secret@ + "..."@);
        }
    }
    string_of(&out)
}

impl Credential {
    /// A fresh API key credential: new id, now as the creation time, the
    /// prefix computed from the secret.
    pub fn new_api_key(provider: &str, name: &str, api_key: &str) -> (r: Credential)
        ensures
            r.provider@ == provider@,
            r.name@ == name@,
            r.credential_type == CredentialType::ApiKey,
            r.prefix matches Some(p) && p@ == spec_prefix_of(api_key@),
            r.integration_id is None,
            r.last_used_at is None,
    {
        Credential {
            id: new_uuid_string(),
            provider: provider.to_owned(),
            name: name.to_owned(),
            credential_type: CredentialType::ApiKey,
            prefix: Some(prefix_of(api_key)),
            integration_id: None,
            last_used_at: None,
            created_at: now_unix(),
        }
    }

    /// A fresh OAuth2 credential: no prefix is kept.
    pub fn new_oauth2(provider: &str, name: &str) -> (r: Credential)
        ensures
            r.provider@ == provider@,
            r.name@ == name@,
            r.credential_type == CredentialType::OAuth2Token,
            r.prefix is None,
            r.integration_id is None,
            r.last_used_at is None,
    {
        Credential {
            id: new_uuid_string(),
            provider: provider.to_owned(),
            name: name.to_owned(),
            credential_type: CredentialType::OAuth2Token,
            prefix: None,
            integration_id: None,
            last_used_at: None,
            created_at: now_unix(),
        }
    }
}

/// The storage key of a credential id.
pub open spec fn spec_cred_key(id: Seq<char>) -> Seq<char> {
    "credential:"@ + id
}

/// Build the storage key of a credential id.
pub fn cred_key(id: &str) -> (r: String)
    ensures
        r@ == spec_cred_key(id@),
{
    proof {
        reveal_strlit("credential:");
    }
    "credential:".to_owned().concat(id)
}

/// Some stored blob opens under the key to the given text.
pub open spec fn some_blob_opens(key: Seq<u8>, text: Seq<char>) -> bool {
    exists|w: Seq<char>| #[trigger] blob_opens_to(w, key, vstd::utf8::encode_utf8(text))
}

/// The secret `text` is what the record stored under `credential:{id}`
/// holds: the entry's blob opens under the key to a UTF-8 JSON text whose
/// parsed record's `encryptedValue` blob opens under the same key to the
/// encoded secret.
pub open spec fn stored_secret_of(
    store: &crate::store::SecureStore,
    id: Seq<char>,
    key: Seq<u8>,
    text: Seq<char>,
) -> bool {
    store.spec_entry(spec_cred_key(id)) matches Some(w) && (exists|record_bytes: Seq<u8>|
        #[trigger] blob_opens_to(w, key, record_bytes) && vstd::utf8::valid_utf8(record_bytes)
            && (crate::jsontext::json_value_of(vstd::utf8::decode_utf8(record_bytes))
            matches Some(v) && (exists|sc: StoredCredential|
            #[trigger] stored_decode_post(v, sc) && blob_opens_to(
                sc.encrypted_value@,
                key,
                vstd::utf8::encode_utf8(text),
            ))))
}

/// The record text of a credential type.
pub open spec fn spec_type_word(t: CredentialType) -> Seq<char> {
    match t {
        CredentialType::ApiKey => "api_key"@,
        CredentialType::OAuth2Token => "oauth2_token"@,
        CredentialType::BasicAuth => "basic_auth"@,
    }
}

/// An optional string field reads back the optional value; an absent
/// option is written as `null` and reads back from `null` or a missing
/// field alike.
pub open spec fn opt_field_post(o: Option<Json>, x: Option<String>) -> bool {
    match x {
        Some(s) => o == Some(Json::Text(s@)),
        None => o is None || o == Some(Json::Null),
    }
}

/// A written credential record whose display prefix is the secret's: what
/// adding or re-encrypting an API key leaves in storage.
pub open spec fn written_record_prefixed(
    store: &crate::store::SecureStore,
    id: Seq<char>,
    key: Seq<u8>,
    secret: Seq<char>,
) -> bool {
    store.spec_entry(spec_cred_key(id)) matches Some(w) && (exists|v: Json, sc: StoredCredential|
        blob_opens_to(w, key, vstd::utf8::encode_utf8(json_text(v))) && #[trigger]
        stored_decode_post(v, sc) && blob_opens_to(
            sc.encrypted_value@,
            key,
            vstd::utf8::encode_utf8(secret),
        ) && (sc.credential.prefix matches Some(p) && p@ == spec_prefix_of(secret)))
}

/// A credential that some decodable stored record yields: an entry's blob
/// opens to UTF-8 JSON whose parsed record decodes to it.
pub open spec fn some_record_yields(
    store: &crate::store::SecureStore,
    key: Seq<u8>,
    c: Credential,
) -> bool {
    exists|entry_key: Seq<char>, v: Json, sc: StoredCredential|
        #![trigger store.spec_entry(entry_key), stored_decode_post(v, sc)]
        store.spec_entry(entry_key) matches Some(w) && (exists|bytes: Seq<u8>|
            #[trigger] blob_opens_to(w, key, bytes) && vstd::utf8::valid_utf8(bytes)
                && crate::jsontext::json_value_of(vstd::utf8::decode_utf8(bytes)) == Some(v))
            && stored_decode_post(v, sc) && c == sc.credential
}

/// How a decoded stored credential relates to its JSON record: every text
/// field of the record is pinned to the credential's fields.
pub open spec fn stored_decode_post(v: Json, sc: StoredCredential) -> bool {
    &&& (spec_get(v, "id"@) matches Some(Json::Text(t)) && sc.credential.id@ == t)
    &&& (spec_get(v, "provider"@) matches Some(Json::Text(t)) && sc.credential.provider@ == t)
    &&& (spec_get(v, "name"@) matches Some(Json::Text(t)) && sc.credential.name@ == t)
    &&& (spec_get(v, "encryptedValue"@) matches Some(Json::Text(t)) && sc.encrypted_value@ == t)
    &&& (spec_get(v, "credentialType"@) matches Some(Json::Text(t)) && spec_type_word(
        sc.credential.credential_type,
    ) == t)
    &&& opt_field_post(spec_get(v, "prefix"@), sc.credential.prefix)
    &&& opt_field_post(spec_get(v, "integrationId"@), sc.credential.integration_id)
    &&& opt_field_post(spec_get(v, "encryptedRefreshToken"@), sc.encrypted_refresh_token)
}

/// A written credential record: the entry under `credential:{id}` opens
/// under the key to the rendered JSON text of a record whose fields are the
/// stored credential's, and whose inner blob opens to the secret.
pub open spec fn written_record_of(
    store: &crate::store::SecureStore,
    id: Seq<char>,
    key: Seq<u8>,
    secret: Seq<char>,
) -> bool {
    store.spec_entry(spec_cred_key(id)) matches Some(w) && (exists|v: Json, sc: StoredCredential|
        blob_opens_to(w, key, vstd::utf8::encode_utf8(json_text(v))) && #[trigger]
        stored_decode_post(v, sc) && blob_opens_to(
            sc.encrypted_value@,
            key,
            vstd::utf8::encode_utf8(secret),
        ))
}

/// Encode a stored credential as a JSON record: eleven fields in a fixed
/// order, absent options written as `null`.
pub fn encode_stored_credential(sc: &StoredCredential) -> (r: JsonValue)
    ensures
        stored_decode_post(r.deep_view(), *sc),
        spec_get(r.deep_view(), "createdAt"@) == Some(
            Json::Number(spec_decimal(sc.credential.created_at as int)),
        ),
        spec_get(r.deep_view(), "lastUsedAt"@) == (match sc.credential.last_used_at {
            Some(n) => Some(Json::Number(spec_decimal(n as int))),
            None => Some(Json::Null),
        }),
        spec_get(r.deep_view(), "expiresAt"@) == (match sc.expires_at {
            Some(n) => Some(Json::Number(spec_decimal(n as int))),
            None => Some(Json::Null),
        }),
{
    let mut fields: Vec<(String, JsonValue)> = Vec::new();
    fields.push(("id".to_owned(), JsonValue::Text(sc.credential.id.clone())));
    fields.push(("provider".to_owned(), JsonValue::Text(sc.credential.provider.clone())));
    fields.push(("name".to_owned(), JsonValue::Text(sc.credential.name.clone())));
    fields.push(("encryptedValue".to_owned(), JsonValue::Text(sc.encrypted_value.clone())));
    fields.push(
        (
            "credentialType".to_owned(),
            JsonValue::Text(
                match sc.credential.credential_type {
                    CredentialType::ApiKey => "api_key".to_owned(),
                    CredentialType::OAuth2Token => "oauth2_token".to_owned(),
                    CredentialType::BasicAuth => "basic_auth".to_owned(),
                },
            ),
        ),
    );
    fields.push(
        (
            "prefix".to_owned(),
            match &sc.credential.prefix {
                Some(p) => JsonValue::Text(p.clone()),
                None => JsonValue::Null,
            },
        ),
    );
    fields.push(
        (
            "integrationId".to_owned(),
            match &sc.credential.integration_id {
                Some(iid) => JsonValue::Text(iid.clone()),
                None => JsonValue::Null,
            },
        ),
    );
    fields.push(
        (
            "lastUsedAt".to_owned(),
            match sc.credential.last_used_at {
                Some(t) => JsonValue::Number(u64_string(t)),
                None => JsonValue::Null,
            },
        ),
    );
    fields.push(("createdAt".to_owned(), JsonValue::Number(u64_string(sc.credential.created_at))));
    fields.push(
        (
            "encryptedRefreshToken".to_owned(),
            match &sc.encrypted_refresh_token {
                Some(rt) => JsonValue::Text(rt.clone()),
                None => JsonValue::Null,
            },
        ),
    );
    fields.push(
        (
            "expiresAt".to_owned(),
            match sc.expires_at {
                Some(t) => JsonValue::Number(u64_string(t)),
                None => JsonValue::Null,
            },
        ),
    );
    proof {
        reveal_strlit("id");
        reveal_strlit("provider");
        reveal_strlit("name");
        reveal_strlit("encryptedValue");
        reveal_strlit("credentialType");
        reveal_strlit("prefix");
        reveal_strlit("integrationId");
        reveal_strlit("lastUsedAt");
        reveal_strlit("createdAt");
        reveal_strlit("encryptedRefreshToken");
        reveal_strlit("expiresAt");
        assert("id"@.len() == 2 && "provider"@.len() == 8 && "name"@.len() == 4
            && "encryptedValue"@.len() == 14 && "credentialType"@.len() == 14 && "prefix"@.len()
            == 6 && "integrationId"@.len() == 13 && "lastUsedAt"@.len() == 10
            && "createdAt"@.len() == 9 && "encryptedRefreshToken"@.len() == 21
            && "expiresAt"@.len() == 9);
        assert("encryptedValue"@[0] == 'e' && "credentialType"@[0] == 'c' && "createdAt"@[0]
            == 'c' && "expiresAt"@[0] == 'e');
        crate::json::lemma_object_deep_view(fields);
        assert(fields@[0].0@ == "id"@);
        assert(fields@[1].0@ == "provider"@);
        assert(fields@[2].0@ == "name"@);
        assert(fields@[3].0@ == "encryptedValue"@);
        assert(fields@[4].0@ == "credentialType"@);
        assert(fields@[5].0@ == "prefix"@);
        assert(fields@[6].0@ == "integrationId"@);
        assert(fields@[7].0@ == "lastUsedAt"@);
        assert(fields@[8].0@ == "createdAt"@);
        assert(fields@[9].0@ == "encryptedRefreshToken"@);
        assert(fields@[10].0@ == "expiresAt"@);
        let dv = fields.deep_view();
        assert(dv[0].0 == "id"@);
        assert(dv[1].0 == "provider"@);
        assert(dv[2].0 == "name"@);
        assert(dv[3].0 == "encryptedValue"@);
        assert(dv[4].0 == "credentialType"@);
        assert(dv[5].0 == "prefix"@);
        assert(dv[6].0 == "integrationId"@);
        assert(dv[7].0 == "lastUsedAt"@);
        assert(dv[8].0 == "createdAt"@);
        assert(dv[9].0 == "encryptedRefreshToken"@);
        assert(dv[10].0 == "expiresAt"@);
        crate::json::lemma_obj_get_at(dv, "id"@, 0);
        crate::json::lemma_obj_get_at(dv, "provider"@, 1);
        crate::json::lemma_obj_get_at(dv, "name"@, 2);
        crate::json::lemma_obj_get_at(dv, "encryptedValue"@, 3);
        crate::json::lemma_obj_get_at(dv, "credentialType"@, 4);
        crate::json::lemma_obj_get_at(dv, "prefix"@, 5);
        crate::json::lemma_obj_get_at(dv, "integrationId"@, 6);
        crate::json::lemma_obj_get_at(dv, "lastUsedAt"@, 7);
        crate::json::lemma_obj_get_at(dv, "createdAt"@, 8);
        crate::json::lemma_obj_get_at(dv, "encryptedRefreshToken"@, 9);
        crate::json::lemma_obj_get_at(dv, "expiresAt"@, 10);
    }
    let r = JsonValue::Object(fields);
    r
}

/// The decimal digits of an unsigned number.
pub open spec fn spec_decimal(n: int) -> Seq<char>
    decreases n,
{
    if n < 0 {
        Seq::<char>::empty()
    } else if n < 10 {
        seq![((48 + n) as u8) as char]
    } else {
        spec_decimal(n / 10) + seq![((48 + (n % 10)) as u8) as char]
    }
}

/// Render an unsigned number in decimal.
pub fn u64_string(n: u64) -> (r: String)
    ensures
        r@ == spec_decimal(n as int),
{
    let mut digits: Vec<char> = Vec::new();
    let mut rest: u64 = n;
    if rest < 10 {
        digits.push((48 + (rest as u8)) as char);
        return string_of(&digits);
    }
    let mut rev: Vec<char> = Vec::new();
    let ghost n0 = n as int;
    let ghost mut written: Seq<char> = Seq::empty();
    proof {
        assert(spec_decimal(n as int) =~= spec_decimal(rest as int) + written);
    }
    while rest >= 10
        invariant
            spec_decimal(n as int) == spec_decimal(rest as int) + written,
            rev@.len() == written.len(),
            forall|k: int| 0 <= k < rev@.len() ==> rev@[k] == written[written.len() - 1 - k],
        decreases rest,
    {
        let d = (rest % 10) as u8;
        rev.push((48 + d) as char);
        proof {
            written = seq![((48 + ((rest as int) % 10)) as u8) as char] + written;
            assert(spec_decimal(rest as int) == spec_decimal((rest as int) / 10) + seq![
                ((48 + ((rest as int) % 10)) as u8) as char,
            ]);
            assert(spec_decimal(n as int) =~= spec_decimal((rest as int) / 10) + written);
        }
        rest = rest / 10;
    }
    digits.push((48 + (rest as u8)) as char);
    let m = rev.len();
    let mut k: usize = 0;
    while k < m
        invariant
            k <= m,
            m == rev@.len(),
            m == written.len(),
            forall|b: int| 0 <= b < m ==> rev@[b] == written[m - 1 - b],
            digits@.len() == 1 + k,
            digits@[0] == ((48 + ((rest as int) % 10)) as u8) as char,
            rest < 10,
            forall|b: int| 0 <= b < k ==> digits@[1 + b] == written[b],
        decreases m - k,
    {
        digits.push(rev[m - 1 - k]);
        k += 1;
    }
    proof {
        assert(spec_decimal(rest as int) == seq![((48 + ((rest as int) % 10)) as u8) as char]);
        assert(digits@ =~= spec_decimal(rest as int) + written);
    }
    string_of(&digits)
}

/// Decode a stored credential from its JSON record; absent where a
/// required text field is missing or the credential type word is unknown.
pub fn decode_stored_credential(v: &JsonValue) -> (r: Option<StoredCredential>)
    ensures
        r matches Some(sc) ==> stored_decode_post(v.deep_view(), sc),
{
    proof {
        reveal_strlit("api_key");
        reveal_strlit("oauth2_token");
        reveal_strlit("basic_auth");
    }
    let id = get_text_field(v, "id")?;
    let provider = get_text_field(v, "provider")?;
    let name = get_text_field(v, "name")?;
    let encrypted_value = get_text_field(v, "encryptedValue")?;
    let type_word = get_text_field(v, "credentialType")?;
    let credential_type = if str_eq(type_word.as_str(), "api_key") {
        CredentialType::ApiKey
    } else if str_eq(type_word.as_str(), "oauth2_token") {
        CredentialType::OAuth2Token
    } else if str_eq(type_word.as_str(), "basic_auth") {
        CredentialType::BasicAuth
    } else {
        return None;
    };
    let credential = Credential {
        id,
        provider,
        name,
        credential_type,
        prefix: get_opt_text_field(v, "prefix")?,
        integration_id: get_opt_text_field(v, "integrationId")?,
        last_used_at: get_number_field(v, "lastUsedAt"),
        created_at: match get_number_field(v, "createdAt") {
            Some(t) => t,
            None => 0,
        },
    };
    Some(
        StoredCredential {
            credential,
            encrypted_value,
            encrypted_refresh_token: get_opt_text_field(v, "encryptedRefreshToken")?,
            expires_at: get_number_field(v, "expiresAt"),
        },
    )
}

/// Read an optional string field: text reads as the value, a missing field
/// or `null` reads as absent, anything else makes the record unreadable.
fn get_opt_text_field(v: &JsonValue, name: &str) -> (r: Option<Option<String>>)
    ensures
        r matches Some(x) ==> opt_field_post(spec_get(v.deep_view(), name@), x),
{
    match v.get(name) {
        Some(f) => match f {
            JsonValue::Text(t) => Some(Some(t.clone())),
            JsonValue::Null => Some(None),
            _ => None,
        },
        None => Some(None),
    }
}

/// Read a field's string content, if the field is a string.
fn get_text_field(v: &JsonValue, name: &str) -> (r: Option<String>)
    ensures
        r matches Some(s) ==> spec_get(v.deep_view(), name@) == Some(Json::Text(s@)),
{
    match v.get(name) {
        Some(f) => match f.as_text() {
            Some(t) => Some(t.clone()),
            None => None,
        },
        None => None,
    }
}

/// Read a field's number token as unsigned seconds, if it parses.
fn get_number_field(v: &JsonValue, name: &str) -> (r: Option<u64>) {
    match v.get(name) {
        Some(f) => match f {
            JsonValue::Number(tok) => parse_u64(tok.as_str()),
            _ => None,
        },
        None => None,
    }
}

/// Parse a decimal number below 2^63; `None` on anything else.
pub fn parse_u64(s: &str) -> (r: Option<u64>) {
    let cs = chars_of(s);
    let n = cs.len();
    if n == 0 || n > 19 {
        return None;
    }
    let mut acc: u64 = 0;
    let mut i: usize = 0;
    while i < n
        invariant
            i <= n,
            n == cs@.len(),
            n <= 19,
            acc < 0x8000_0000_0000_0000u64,
        decreases n - i,
    {
        let c = cs[i];
        let u = c as u32;
        if !(48 <= u && u <= 57) {
            return None;
        }
        let d = (u - 48) as u64;
        if acc >= 0x0CCC_CCCC_CCCC_CCCCu64 {
            return None;
        }
        acc = acc * 10 + d;
        i += 1;
    }
    Some(acc)
}

/// The credential store; storage is handed in per call, so the master key
/// lives in one place.
pub struct CredentialManager;

impl CredentialManager {
    /// A credential manager.
    pub fn new() -> (r: CredentialManager) {
        CredentialManager
    }

    /// Add an API key credential: the secret is encrypted under the master
    /// key and the record is written under `credential:{id}`.
    ///
    /// Fails with `WalletLocked` exactly when the store has no master key.
    pub fn add_api_key(
        &self,
        store: &mut SecureStore,
        provider: &str,
        name: &str,
        api_key: &str,
    ) -> (r: Result<Credential, WalletError>)
        requires
            old(store).wf(),
        ensures
            final(store).wf(),
            final(store).spec_master_key() == old(store).spec_master_key(),
            final(store).spec_salt() == old(store).spec_salt(),
            final(store).spec_verifier() == old(store).spec_verifier(),
            old(store).spec_master_key() is None <==> (r matches Err(e) && e is WalletLocked),
            r matches Ok(c) ==> ({
                &&& c.provider@ == provider@
                &&& c.name@ == name@
                &&& c.credential_type == CredentialType::ApiKey
                &&& c.prefix matches Some(p) && p@ == spec_prefix_of(api_key@)
                &&& written_record_prefixed(
                    final(store),
                    c.id@,
                    old(store).spec_master_key().unwrap()@,
                    api_key@,
                )
            }),
            r matches Err(e) ==> e is WalletLocked || e is EncryptionError,
    {
        let mk = match store_key_view(store) {
            Some(k) => k,
            None => {
                return Err(WalletError::WalletLocked);
            },
        };
        let credential = Credential::new_api_key(provider, name, api_key);
        let encrypted_value = encrypt_string(api_key, &mk)?;
        let stored = StoredCredential {
            credential,
            encrypted_value,
            encrypted_refresh_token: None,
            expires_at: None,
        };
        proof {
            let e = choose|e: EncryptedData|
                e.wf() && (#[trigger] e.spec_opens_to(mk@)) == Some(
                    vstd::utf8::encode_utf8(api_key@),
                ) && stored.encrypted_value@ == e.spec_wire();
            crate::aead::lemma_wire_round_trip(e);
        }
        let record = encode_stored_credential(&stored);
        let ghost record_v = record.deep_view();
        let text = to_json_string(&record);
        let key = cred_key(stored.credential.id.as_str());
        let ghost sc_ghost = StoredCredential {
            credential: Credential {
                id: stored.credential.id,
                provider: stored.credential.provider,
                name: stored.credential.name,
                credential_type: stored.credential.credential_type,
                prefix: stored.credential.prefix,
                integration_id: stored.credential.integration_id,
                last_used_at: stored.credential.last_used_at,
                created_at: stored.credential.created_at,
            },
            encrypted_value: stored.encrypted_value,
            encrypted_refresh_token: stored.encrypted_refresh_token,
            expires_at: stored.expires_at,
        };
        store.store(key.as_str(), text.as_str().as_bytes())?;
        proof {
            assert(stored_decode_post(record_v, sc_ghost));
            assert(written_record_prefixed(
                store,
                sc_ghost.credential.id@,
                old(store).spec_master_key().unwrap()@,
                api_key@,
            ));
        }
        Ok(stored.credential)
    }

    /// Add an OAuth2 token credential, with an optional encrypted refresh
    /// token and expiry.
    pub fn add_oauth2_token(
        &self,
        store: &mut SecureStore,
        provider: &str,
        name: &str,
        access_token: &str,
        refresh_token: Option<&str>,
        expires_at: Option<u64>,
    ) -> (r: Result<Credential, WalletError>)
        requires
            old(store).wf(),
        ensures
            final(store).wf(),
            final(store).spec_master_key() == old(store).spec_master_key(),
            final(store).spec_salt() == old(store).spec_salt(),
            final(store).spec_verifier() == old(store).spec_verifier(),
            old(store).spec_master_key() is None <==> (r matches Err(e) && e is WalletLocked),
            r matches Ok(c) ==> ({
                &&& c.provider@ == provider@
                &&& c.name@ == name@
                &&& c.credential_type == CredentialType::OAuth2Token
                &&& c.prefix is None
                &&& written_record_of(
                    final(store),
                    c.id@,
                    old(store).spec_master_key().unwrap()@,
                    access_token@,
                )
            }),
            r matches Err(e) ==> e is WalletLocked || e is EncryptionError,
    {
        let mk = match store_key_view(store) {
            Some(k) => k,
            None => {
                return Err(WalletError::WalletLocked);
            },
        };
        let credential = Credential::new_oauth2(provider, name);
        let encrypted_value = encrypt_string(access_token, &mk)?;
        proof {
            let e = choose|e: EncryptedData|
                e.wf() && (#[trigger] e.spec_opens_to(mk@)) == Some(
                    vstd::utf8::encode_utf8(access_token@),
                ) && encrypted_value@ == e.spec_wire();
            crate::aead::lemma_wire_round_trip(e);
        }
        let encrypted_refresh_token = match refresh_token {
            Some(rt) => Some(encrypt_string(rt, &mk)?),
            None => None,
        };
        let stored = StoredCredential {
            credential,
            encrypted_value,
            encrypted_refresh_token,
            expires_at,
        };
        let record = encode_stored_credential(&stored);
        let ghost record_v = record.deep_view();
        let ghost sc_ghost = stored;
        let text = to_json_string(&record);
        let key = cred_key(stored.credential.id.as_str());
        store.store(key.as_str(), text.as_str().as_bytes())?;
        proof {
            assert(stored_decode_post(record_v, sc_ghost));
            assert(written_record_of(
                store,
                sc_ghost.credential.id@,
                old(store).spec_master_key().unwrap()@,
                access_token@,
            ));
        }
        Ok(stored.credential)
    }

    /// Read a credential's metadata; no decryption of the secret.
    pub fn get(&self, store: &SecureStore, id: &str) -> (r: Result<
        Option<Credential>,
        WalletError,
    >)
        requires
            store.wf(),
        ensures
            store.spec_master_key() is None <==> (r matches Err(e) && e is WalletLocked),
            r matches Ok(Some(c)) ==> store.spec_entry(spec_cred_key(id@)) is Some,
    {
        let key = cred_key(id);
        let data = match store.retrieve(key.as_str())? {
            Some(d) => d,
            None => {
                return Ok(None);
            },
        };
        let text = match crate::aead::utf8_to_string(data) {
            Some(t) => t,
            None => {
                return Ok(None);
            },
        };
        match parse_json(text.as_str()) {
            Some(v) => match decode_stored_credential(&v) {
                Some(sc) => {
                    proof {
                        assert(some_record_yields(
                            store,
                            store.spec_master_key().unwrap()@,
                            sc.credential,
                        )) by {
                            assert(store.spec_entry(spec_cred_key(id@)) is Some);
                            assert(stored_decode_post(v.deep_view(), sc));
                        }
                    }
                    Ok(Some(sc.credential))
                },
                None => Ok(None),
            },
            None => Ok(None),
        }
    }

    /// Decrypt a credential's secret and touch its last-used time.
    ///
    /// Fails with `WalletLocked` exactly when the store has no master key,
    /// and with `CredentialNotFound` where no record exists under the id.
    #[verifier::rlimit(80)]
    pub fn get_decrypted(&self, store: &mut SecureStore, id: &str) -> (r: Result<
        DecryptedCredential,
        WalletError,
    >)
        requires
            old(store).wf(),
        ensures
            final(store).wf(),
            final(store).spec_master_key() == old(store).spec_master_key(),
            final(store).spec_salt() == old(store).spec_salt(),
            final(store).spec_verifier() == old(store).spec_verifier(),
            old(store).spec_master_key() is None <==> (r matches Err(e) && e is WalletLocked),
            old(store).spec_master_key() is None ==> *final(store) == *old(store),
            old(store).spec_master_key() is Some && old(store).spec_entry(
                spec_cred_key(id@),
            ) is None <==> (r matches Err(e) && e is CredentialNotFound),
            r matches Ok(d) ==> some_blob_opens(old(store).spec_master_key().unwrap()@, d@),
            r matches Ok(d) ==> stored_secret_of(
                old(store),
                id@,
                old(store).spec_master_key().unwrap()@,
                d@,
            ),
            r matches Err(e) ==> e is WalletLocked || e is CredentialNotFound
                || e is DecryptionError || e is SerializationError || e is CryptoError,
    {
        let mk = match store_key_view(store) {
            Some(k) => k,
            None => {
                return Err(WalletError::WalletLocked);
            },
        };
        let key = cred_key(id);
        let data = match store.retrieve(key.as_str())? {
            Some(d) => d,
            None => {
                return Err(WalletError::CredentialNotFound(id.to_owned()));
            },
        };
        let ghost record_bytes = data@;
        let text = match crate::aead::utf8_to_string(data) {
            Some(t) => t,
            None => {
                return Err(WalletError::DecryptionError("the record is not UTF-8".to_owned()));
            },
        };
        let record = match parse_json(text.as_str()) {
            Some(v) => v,
            None => {
                return Err(
                    WalletError::SerializationError("the record is not valid JSON".to_owned()),
                );
            },
        };
        let mut sc = match decode_stored_credential(&record) {
            Some(sc) => sc,
            None => {
                return Err(
                    WalletError::SerializationError("the record is not a credential".to_owned()),
                );
            },
        };
        let secret = decrypt_string(sc.encrypted_value.as_str(), &mk)?;
        proof {
            broadcast use vstd::utf8::encode_utf8_decode_utf8;
        }
        // Touch the last-used time, best effort.
        sc.credential.last_used_at = Some(now_unix());
        let updated = encode_stored_credential(&sc);
        let updated_text = to_json_string(&updated);
        let _ignore = store.store(key.as_str(), updated_text.as_str().as_bytes());
        let d = DecryptedCredential::new(secret);
        proof {
            assert(blob_opens_to(
                sc.encrypted_value@,
                old(store).spec_master_key().unwrap()@,
                vstd::utf8::encode_utf8(d@),
            ));
            assert(some_blob_opens(old(store).spec_master_key().unwrap()@, d@));
            assert(stored_secret_of(
                old(store),
                id@,
                old(store).spec_master_key().unwrap()@,
                d@,
            )) by {
                assert(old(store).spec_entry(spec_cred_key(id@)) matches Some(w)
                    && blob_opens_to(w, old(store).spec_master_key().unwrap()@, record_bytes));
                assert(vstd::utf8::valid_utf8(record_bytes));
                assert(crate::jsontext::json_value_of(vstd::utf8::decode_utf8(record_bytes))
                    matches Some(v) && stored_decode_post(v, sc));
            }
        }
        Ok(d)
    }

    /// The ids and metadata of every stored credential, in storage order.
    pub fn list(&self, store: &SecureStore) -> (r: Result<Vec<Credential>, WalletError>)
        requires
            store.wf(),
        ensures
            store.spec_master_key() is None <==> (r matches Err(e) && e is WalletLocked),
            r matches Ok(cs) ==> forall|i: int|
                0 <= i < cs@.len() ==> some_record_yields(
                    store,
                    store.spec_master_key().unwrap()@,
                    #[trigger] cs@[i],
                ),
    {
        if !store.has_master_key() {
            return Err(WalletError::WalletLocked);
        }
        let keys = store.list_keys("credential:");
        let n = keys.len();
        let mut out: Vec<Credential> = Vec::new();
        let mut i: usize = 0;
        while i < n
            invariant
                i <= n,
                n == keys@.len(),
                store.wf(),
                store.spec_master_key() is Some,
                forall|k: int|
                    0 <= k < out@.len() ==> some_record_yields(
                        store,
                        store.spec_master_key().unwrap()@,
                        #[trigger] out@[k],
                    ),
            decreases n - i,
        {
            match store.retrieve(keys[i].as_str()) {
                Ok(Some(data)) => {
                    let ghost bytes = data@;
                    match crate::aead::utf8_to_string(data) {
                        Some(text) => match parse_json(text.as_str()) {
                            Some(v) => match decode_stored_credential(&v) {
                                Some(sc) => {
                                    proof {
                                        assert(some_record_yields(
                                            store,
                                            store.spec_master_key().unwrap()@,
                                            sc.credential,
                                        )) by {
                                            assert(store.spec_entry(keys@[i as int]@) is Some);
                                            assert(stored_decode_post(v.deep_view(), sc));
                                        }
                                    }
                                    out.push(sc.credential);
                                },
                                None => {},
                            },
                            None => {},
                        },
                        None => {},
                    }
                },
                _ => {},
            }
            i += 1;
        }
        Ok(out)
    }

    /// The credentials of one provider.
    pub fn list_by_provider(&self, store: &SecureStore, provider: &str) -> (r: Result<
        Vec<Credential>,
        WalletError,
    >)
        requires
            store.wf(),
        ensures
            store.spec_master_key() is None <==> (r matches Err(e) && e is WalletLocked),
            r matches Ok(cs) ==> forall|k: int|
                0 <= k < cs@.len() ==> (#[trigger] cs@[k]).provider@ == provider@,
    {
        let all = self.list(store)?;
        let mut out: Vec<Credential> = Vec::new();
        let mut incoming = all;
        while incoming.len() > 0
            invariant
                forall|k: int| 0 <= k < out@.len() ==> (#[trigger] out@[k]).provider@ == provider@,
            decreases incoming@.len(),
        {
            let c = incoming.remove(0);
            if str_eq(c.provider.as_str(), provider) {
                out.push(c);
            }
        }
        Ok(out)
    }

    /// Delete the record under an id; other records are untouched.
    pub fn delete(&self, store: &mut SecureStore, id: &str)
        requires
            old(store).wf(),
        ensures
            final(store).wf(),
            final(store).spec_entry(spec_cred_key(id@)) is None,
            forall|k2: Seq<char>|
                k2 != spec_cred_key(id@) ==> final(store).spec_entry(k2) == old(store).spec_entry(
                    k2,
                ),
            final(store).spec_master_key() == old(store).spec_master_key(),
            final(store).spec_salt() == old(store).spec_salt(),
            final(store).spec_verifier() == old(store).spec_verifier(),
    {
        let key = cred_key(id);
        store.delete(key.as_str());
    }

    /// Re-encrypt a credential's value and refresh its prefix.
    pub fn update_value(&self, store: &mut SecureStore, id: &str, new_value: &str) -> (r: Result<
        (),
        WalletError,
    >)
        requires
            old(store).wf(),
        ensures
            final(store).wf(),
            final(store).spec_master_key() == old(store).spec_master_key(),
            final(store).spec_salt() == old(store).spec_salt(),
            final(store).spec_verifier() == old(store).spec_verifier(),
            old(store).spec_master_key() is None <==> (r matches Err(e) && e is WalletLocked),
            old(store).spec_master_key() is Some && old(store).spec_entry(
                spec_cred_key(id@),
            ) is None <==> (r matches Err(e) && e is CredentialNotFound),
            r is Ok ==> written_record_prefixed(
                final(store),
                id@,
                old(store).spec_master_key().unwrap()@,
                new_value@,
            ),
    {
        let mk = match store_key_view(store) {
            Some(k) => k,
            None => {
                return Err(WalletError::WalletLocked);
            },
        };
        let key = cred_key(id);
        let data = match store.retrieve(key.as_str())? {
            Some(d) => d,
            None => {
                return Err(WalletError::CredentialNotFound(id.to_owned()));
            },
        };
        let text = match crate::aead::utf8_to_string(data) {
            Some(t) => t,
            None => {
                return Err(WalletError::DecryptionError("the record is not UTF-8".to_owned()));
            },
        };
        let record = match parse_json(text.as_str()) {
            Some(v) => v,
            None => {
                return Err(
                    WalletError::SerializationError("the record is not valid JSON".to_owned()),
                );
            },
        };
        let mut sc = match decode_stored_credential(&record) {
            Some(sc) => sc,
            None => {
                return Err(
                    WalletError::SerializationError("the record is not a credential".to_owned()),
                );
            },
        };
        sc.encrypted_value = encrypt_string(new_value, &mk)?;
        proof {
            let e = choose|e: EncryptedData|
                e.wf() && (#[trigger] e.spec_opens_to(mk@)) == Some(
                    vstd::utf8::encode_utf8(new_value@),
                ) && sc.encrypted_value@ == e.spec_wire();
            crate::aead::lemma_wire_round_trip(e);
        }
        sc.credential.prefix = Some(prefix_of(new_value));
        let ghost sc_ghost = sc;
        let updated = encode_stored_credential(&sc);
        let ghost record_v = updated.deep_view();
        let updated_text = to_json_string(&updated);
        store.store(key.as_str(), updated_text.as_str().as_bytes())?;
        proof {
            assert(stored_decode_post(record_v, sc_ghost));
            assert(written_record_prefixed(
                store,
                id@,
                old(store).spec_master_key().unwrap()@,
                new_value@,
            ));
        }
        Ok(())
    }
}

/// Re-key one credential record: decrypt its inner blobs under the old
/// key and re-encrypt them under the new one; `None` where the text is not
/// a credential record or an inner blob does not decrypt.
pub fn reencrypt_record(
    text: &str,
    old_key: &crate::keys::MasterKey,
    new_key: &crate::keys::MasterKey,
) -> (r: Option<String>)
    requires
        old_key.wf(),
        new_key.wf(),
    ensures
        r matches Some(t) ==> exists|v: Json, sc: StoredCredential|
            t@ == json_text(v) && #[trigger] stored_decode_post(v, sc) && (exists|p: Seq<u8>|
                #[trigger] blob_opens_to(sc.encrypted_value@, new_key@, p)),
{
    let record = parse_json(text)?;
    let mut sc = decode_stored_credential(&record)?;
    let secret = match decrypt_string(sc.encrypted_value.as_str(), old_key) {
        Ok(s) => s,
        Err(_) => {
            return None;
        },
    };
    sc.encrypted_value = match encrypt_string(secret.as_str(), new_key) {
        Ok(w) => w,
        Err(_) => {
            return None;
        },
    };
    proof {
        let e = choose|e: EncryptedData|
            e.wf() && (#[trigger] e.spec_opens_to(new_key@)) == Some(
                vstd::utf8::encode_utf8(secret@),
            ) && sc.encrypted_value@ == e.spec_wire();
        crate::aead::lemma_wire_round_trip(e);
    }
    let new_refresh: Option<String> = match &sc.encrypted_refresh_token {
        Some(rt) => {
            let plain = match decrypt_string(rt.as_str(), old_key) {
                Ok(s) => s,
                Err(_) => {
                    return None;
                },
            };
            match encrypt_string(plain.as_str(), new_key) {
                Ok(w) => Some(w),
                Err(_) => {
                    return None;
                },
            }
        },
        None => None,
    };
    sc.encrypted_refresh_token = new_refresh;
    let ghost sc_ghost = sc;
    let encoded = encode_stored_credential(&sc);
    let ghost record_v = encoded.deep_view();
    let out = to_json_string(&encoded);
    proof {
        assert(stored_decode_post(record_v, sc_ghost));
        assert(blob_opens_to(
            sc_ghost.encrypted_value@,
            new_key@,
            vstd::utf8::encode_utf8(secret@),
        ));
    }
    Some(out)
}

/// A copy of the store's master key, for encryption within one call.
fn store_key_view(store: &SecureStore) -> (r: Option<crate::keys::MasterKey>)
    requires
        store.wf(),
    ensures
        match r {
            Some(k) => store.spec_master_key() matches Some(k0) && k@ == k0@ && k.wf(),
            None => store.spec_master_key() is None,
        },
{
    store.master_key_copy()
}

} // verus!
