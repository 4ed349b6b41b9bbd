//! The integration registry: configured APIs with their operations.
//!
//! An integration bundles a parsed document's operations, a namespace trie
//! over their normalized ids, and an optional credential binding, keyed by
//! a short slug. The cache lives here; persistence stores the metadata and
//! the raw document text under `integration:{slug}`, and loading re-parses
//! the text, which rebuilds operations and trie alike.

use vstd::prelude::*;
use crate::errors::WalletError;
use crate::json::{Json, JsonValue, spec_get, to_json_string};
use crate::jsontext::parse_json;
use crate::namespace::{NamespaceTree, spec_lookup, build_post, wf_tree};
use crate::optypes::{ApiOperation, ParsedSpec};
use crate::parser::{OpenApiParser, convert_post, spec_parse_doc, doc_version_ok};
use crate::session::{new_uuid_string, now_unix};
use crate::store::SecureStore;
use crate::strutil::{split_chars, str_eq};

verus! {

/// The status of an integration.
#[derive(Clone, Copy, PartialEq, Eq, Structural, Debug)]
pub enum IntegrationStatus {
    /// No credential bound yet.
    Pending,
    /// Bound and ready.
    Active,
    /// The last operation on it failed.
    Error,
    /// Disabled by the user.
    Disabled,
}

/// A configured API: metadata and binding.
pub struct Integration {
    /// Provenance id.
    pub id: String,
    /// The lookup slug.
    pub key: String,
    /// Human-readable name, from the document title.
    pub name: String,
    /// Description, from the document.
    pub description: Option<String>,
    /// Where the document came from, if fetched.
    pub spec_url: Option<String>,
    /// The base server URL.
    pub server_url: String,
    /// Current status.
    pub status: IntegrationStatus,
    /// The bound credential, if any.
    pub credential_id: Option<String>,
    /// How many operations the document defines.
    pub operation_count: usize,
    /// When the document was last synced, as Unix seconds.
    pub last_synced_at: Option<u64>,
    /// The last error, where status is `Error`.
    pub error: Option<String>,
    /// Created, as Unix seconds.
    pub created_at: u64,
    /// Updated, as Unix seconds.
    pub updated_at: u64,
}

impl Integration {
    /// Fresh metadata from a parsed document: the name is the title, the
    /// server URL is the first server's, the status is pending.
    pub fn from_spec(key: String, spec: &ParsedSpec) -> (r: Integration)
        ensures
            r.key@ == key@,
            r.name@ == spec.title@,
            r.server_url@ == (if spec.servers@.len() > 0 {
                spec.servers@[0].url@
            } else {
                Seq::<char>::empty()
            }),
            r.status == IntegrationStatus::Pending,
            r.credential_id is None,
            r.operation_count == spec.operations@.len(),
    {
        let server_url = if spec.servers.len() > 0 {
            spec.servers[0].url.clone()
        } else {
            String::new()
        };
        let now = now_unix();
        Integration {
            id: new_uuid_string(),
            key,
            name: spec.title.clone(),
            description: match &spec.description {
                Some(d) => Some(d.clone()),
                None => None,
            },
            spec_url: None,
            server_url,
            status: IntegrationStatus::Pending,
            credential_id: None,
            operation_count: spec.operations.len(),
            last_synced_at: Some(now),
            error: None,
            created_at: now,
            updated_at: now,
        }
    }
}

/// A stored integration: metadata, operations, and the namespace trie.
pub struct StoredIntegration {
    /// The metadata.
    pub integration: Integration,
    /// The parsed operations, in document order.
    pub operations: Vec<ApiOperation>,
    /// The trie from normalized ids to operation indices.
    pub namespace: NamespaceTree,
    /// The raw document text, for re-parsing.
    pub spec_content: Option<String>,
}

impl StoredIntegration {
    /// The namespace indexes the operations vector.
    pub open spec fn wf(&self) -> bool {
        &&& wf_tree(self.namespace)
        &&& build_post(self.operations@, self.namespace)
        &&& self.integration.operation_count == self.operations@.len()
    }

    /// Build from a parsed document: the trie is built over the
    /// operations, and the raw text is kept for re-parsing.
    pub fn from_spec(key: String, spec: ParsedSpec, spec_content: Option<String>) -> (r:
        StoredIntegration)
        ensures
            r.wf(),
            r.integration.key@ == key@,
            r.integration.status == IntegrationStatus::Pending,
            r.integration.credential_id is None,
            r.operations@ == spec.operations@,
            r.integration.name@ == spec.title@,
            r.spec_content == spec_content,
    {
        let integration = Integration::from_spec(key, &spec);
        let namespace = NamespaceTree::build(&spec.operations);
        StoredIntegration { integration, operations: spec.operations, namespace, spec_content }
    }

    /// Look up an operation by its dotted namespace path.
    pub fn lookup_operation<'a>(&'a self, path: &str) -> (r: Option<&'a ApiOperation>)
        requires
            self.wf(),
        ensures
            match r {
                Some(op) => spec_lookup(self.namespace, split_chars(path@, '.')) matches Some(rf)
                    && rf.index < self.operations@.len() && *op == self.operations@[
                    rf.index as int
                ],
                None => spec_lookup(self.namespace, split_chars(path@, '.')) is None,
            },
    {
        match self.namespace.lookup(path) {
            Some(rf) => {
                proof {
                    assert(spec_lookup(self.namespace, split_chars(path@, '.')) matches Some(rf2)
                        && 0 <= rf2.index < self.operations@.len());
                }
                Some(&self.operations[rf.index])
            },
            None => None,
        }
    }

    /// All dotted namespace paths with an operation: complete and sound
    /// for the trie.
    pub fn operation_paths(&self) -> (r: Vec<String>)
        requires
            self.wf(),
        ensures
            crate::namespace::paths_post(self.namespace, r.deep_view()),
            forall|k: int|
                0 <= k < r.deep_view().len() ==> crate::namespace::sound_entry(
                    self.namespace,
                    Seq::<char>::empty(),
                    true,
                    #[trigger] r.deep_view()[k],
                ),
    {
        self.namespace.paths()
    }
}

/// The storage key of an integration slug.
pub open spec fn spec_integration_key(slug: Seq<char>) -> Seq<char> {
    "integration:"@ + slug
}

/// Build the storage key of an integration slug.
pub fn integration_key(slug: &str) -> (r: String)
    ensures
        r@ == spec_integration_key(slug@),
{
    proof {
        reveal_strlit("integration:");
    }
    "integration:".to_owned().concat(slug)
}

/// The first cached integration under a slug, if any.
pub open spec fn cache_lookup(
    entries: Seq<(String, StoredIntegration)>,
    key: Seq<char>,
) -> Option<StoredIntegration>
    decreases entries.len(),
{
    if entries.len() == 0 {
        None
    } else if entries[0].0@ == key {
        Some(entries[0].1)
    } else {
        cache_lookup(entries.skip(1), key)
    }
}

/// `cache_lookup` reads the first entry under a slug.
proof fn lemma_cache_at(entries: Seq<(String, StoredIntegration)>, key: Seq<char>, i: int)
    requires
        0 <= i < entries.len(),
        entries[i].0@ == key,
        forall|k: int| 0 <= k < i ==> entries[k].0@ != key,
    ensures
        cache_lookup(entries, key) == Some(entries[i].1),
    decreases i,
{
    if i > 0 {
        lemma_cache_at(entries.skip(1), key, i - 1);
        assert(entries.skip(1)[i - 1] == entries[i]);
        assert(forall|k: int| 0 <= k < i - 1 ==> entries.skip(1)[k] == entries[k + 1]);
    }
}

/// A slug none of the entries carries is not cached.
proof fn lemma_cache_none(entries: Seq<(String, StoredIntegration)>, key: Seq<char>)
    requires
        forall|k: int| 0 <= k < entries.len() ==> (#[trigger] entries[k]).0@ != key,
    ensures
        cache_lookup(entries, key) is None,
    decreases entries.len(),
{
    if entries.len() > 0 {
        assert(forall|k: int|
            0 <= k < entries.skip(1).len() ==> (#[trigger] entries.skip(1)[k]) == entries[k + 1]);
        lemma_cache_none(entries.skip(1), key);
    }
}

/// The registry: a cache of stored integrations, keyed by slug.
pub struct IntegrationRegistry {
    integrations: Vec<(String, StoredIntegration)>,
}

impl IntegrationRegistry {
    /// Every cached integration is well-formed, and slugs are unique.
    pub closed spec fn wf(&self) -> bool {
        &&& forall|k: int|
            0 <= k < self.integrations@.len() ==> (#[trigger] self.integrations@[k]).1.wf()
        &&& forall|k1: int, k2: int|
            0 <= k1 < k2 < self.integrations@.len() ==> (#[trigger] self.integrations@[k1]).0@ != (
            #[trigger] self.integrations@[k2]).0@
    }

    /// The cached integration under a slug: the first cache entry with it.
    pub closed spec fn spec_cached(&self, key: Seq<char>) -> Option<StoredIntegration> {
        cache_lookup(self.integrations@, key)
    }

    /// An empty registry.
    pub fn new() -> (r: IntegrationRegistry)
        ensures
            r.wf(),
    {
        IntegrationRegistry { integrations: Vec::new() }
    }

    /// The cached integration under a slug, if any.
    #[verifier::loop_isolation(false)]
    pub fn get_stored<'a>(&'a self, key: &str) -> (r: Option<&'a StoredIntegration>)
        requires
            self.wf(),
        ensures
            r matches Some(s) ==> s.wf() && self.spec_cached(key@) == Some(*s),
            r is None ==> self.spec_cached(key@) is None,
    {
        let n = self.integrations.len();
        let mut i: usize = 0;
        while i < n
            invariant
                i <= n,
                n == self.integrations@.len(),
                self.wf(),
                forall|k: int| 0 <= k < i ==> (#[trigger] self.integrations@[k]).0@ != key@,
            decreases n - i,
        {
            if str_eq(self.integrations[i].0.as_str(), key) {
                proof {
                    assert(self.integrations@[i as int].1.wf());
                    lemma_cache_at(self.integrations@, key@, i as int);
                }
                return Some(&self.integrations[i].1);
            }
            i += 1;
        }
        proof {
            lemma_cache_none(self.integrations@, key@);
        }
        None
    }

    /// The metadata of the cached integration under a slug, if any.
    pub fn get<'a>(&'a self, key: &str) -> (r: Option<&'a Integration>)
        requires
            self.wf(),
        ensures
            r matches Some(x) ==> (self.spec_cached(key@) matches Some(st) && *x
                == st.integration),
            r is None ==> self.spec_cached(key@) is None,
    {
        match self.get_stored(key) {
            Some(s) => Some(&s.integration),
            None => None,
        }
    }

    /// The metadata of every cached integration, in cache order.
    pub fn list<'a>(&'a self) -> (r: Vec<&'a Integration>)
        requires
            self.wf(),
    {
        let n = self.integrations.len();
        let mut out: Vec<&'a Integration> = Vec::new();
        let mut i: usize = 0;
        while i < n
            invariant
                i <= n,
                n == self.integrations@.len(),
            decreases n - i,
        {
            out.push(&self.integrations[i].1.integration);
            i += 1;
        }
        out
    }

    /// The slugs of every cached integration, in cache order.
    pub fn keys(&self) -> (r: Vec<String>)
        requires
            self.wf(),
    {
        let n = self.integrations.len();
        let mut out: Vec<String> = Vec::new();
        let mut i: usize = 0;
        while i < n
            invariant
                i <= n,
                n == self.integrations@.len(),
            decreases n - i,
        {
            out.push(self.integrations[i].0.clone());
            i += 1;
        }
        out
    }

    /// Put a stored integration into the cache, replacing any entry under
    /// the same slug.
    #[verifier::loop_isolation(false)]
    fn cache_put(&mut self, key: &str, stored: StoredIntegration)
        requires
            old(self).wf(),
            stored.wf(),
        ensures
            final(self).wf(),
            final(self).spec_cached(key@) == Some(stored),
    {
        let n = self.integrations.len();
        let mut i: usize = 0;
        while i < n
            invariant
                i <= n,
                n == self.integrations@.len(),
                self.wf(),
                stored.wf(),
                self.integrations@ == old(self).integrations@,
                forall|k: int| 0 <= k < i ==> (#[trigger] self.integrations@[k]).0@ != key@,
            decreases n - i,
        {
            if str_eq(self.integrations[i].0.as_str(), key) {
                let _old = self.integrations.remove(i);
                self.integrations.insert(i, (key.to_owned(), stored));
                proof {
                    assert(self.integrations@ =~= old(self).integrations@.update(
                        i as int,
                        (self.integrations@[i as int].0, stored),
                    ));
                    assert forall|k: int|
                        0 <= k < self.integrations@.len() implies (#[trigger] self.integrations@[
                        k
                    ]).1.wf() by {
                        if k != i {
                            assert(self.integrations@[k] == old(self).integrations@[k]);
                        }
                    }
                    assert forall|k1: int, k2: int|
                        0 <= k1 < k2 < self.integrations@.len() implies (
                    #[trigger] self.integrations@[k1]).0@ != (
                    #[trigger] self.integrations@[k2]).0@ by {
                        assert(old(self).integrations@[k1].0@ != old(self).integrations@[k2].0@);
                        assert(self.integrations@[k1].0@ == old(self).integrations@[k1].0@);
                        assert(self.integrations@[k2].0@ == old(self).integrations@[k2].0@);
                    }
                    lemma_cache_at(self.integrations@, key@, i as int);
                }
                return ;
            }
            i += 1;
        }
        self.integrations.push((key.to_owned(), stored));
        proof {
            assert forall|k: int|
                0 <= k < self.integrations@.len() implies (#[trigger] self.integrations@[
                k
            ]).1.wf() by {
                if k < self.integrations@.len() - 1 {
                    assert(self.integrations@[k] == old(self).integrations@[k]);
                }
            }
            assert forall|k1: int, k2: int|
                0 <= k1 < k2 < self.integrations@.len() implies (
            #[trigger] self.integrations@[k1]).0@ != (#[trigger] self.integrations@[k2]).0@ by {
                if k2 < self.integrations@.len() - 1 {
                    assert(old(self).integrations@[k1].0@ != old(self).integrations@[k2].0@);
                }
            }
            lemma_cache_at(self.integrations@, key@, self.integrations@.len() - 1);
        }
    }

    /// Persist an integration: metadata and raw document text, under
    /// `integration:{slug}`.
    fn persist(&self, store: &mut SecureStore, stored: &StoredIntegration) -> (r: Result<
        (),
        WalletError,
    >)
        requires
            old(store).wf(),
        ensures
            final(store).wf(),
            final(store).spec_master_key() == old(store).spec_master_key(),
            final(store).spec_salt() == old(store).spec_salt(),
            final(store).spec_verifier() == old(store).spec_verifier(),
            old(store).spec_master_key() is None <==> (r matches Err(e) && e is WalletLocked),
            r matches Err(e) ==> e is WalletLocked || e is EncryptionError,
    {
        let record = encode_integration(stored);
        let text = to_json_string(&record);
        let key = integration_key(stored.integration.key.as_str());
        store.store(key.as_str(), text.as_str().as_bytes())
    }

    /// Add an integration from document text: parse, build, persist,
    /// cache. The raw text is retained for re-parsing.
    pub fn add_from_content(&mut self, store: &mut SecureStore, key: &str, content: &str) -> (r:
        Result<Integration, WalletError>)
        requires
            old(self).wf(),
            old(store).wf(),
        ensures
            final(self).wf(),
            final(store).wf(),
            final(store).spec_master_key() == old(store).spec_master_key(),
            final(store).spec_salt() == old(store).spec_salt(),
            final(store).spec_verifier() == old(store).spec_verifier(),
            r matches Ok(x) ==> x.key@ == key@ && x.status == IntegrationStatus::Pending,
            !(spec_parse_doc(content@) matches Some(doc) && doc_version_ok(doc)) <==> (r matches
                Err(e) && e is InvalidSpec),
            (spec_parse_doc(content@) matches Some(doc) && doc_version_ok(doc)) && old(
                store,
            ).spec_master_key() is None <==> (r matches Err(e) && e is WalletLocked),
            r matches Err(e) ==> e is InvalidSpec || e is WalletLocked || e is EncryptionError,
            r is Err ==> *final(self) == *old(self),
            r is Ok ==> (final(self).spec_cached(key@) matches Some(st) && st.wf() && (
            st.spec_content matches Some(c) && c@ == content@) && st.integration.key@ == key@
                && st.integration.status == IntegrationStatus::Pending
                && st.integration.credential_id is None && (exists|sp: ParsedSpec|
                #[trigger] convert_post(spec_parse_doc(content@)->Some_0, sp) && st.operations@
                    == sp.operations@ && st.integration.name@ == sp.title@)),
    {
        let spec = match OpenApiParser::parse(content) {
            Ok(sp) => sp,
            Err(e) => {
                return Err(crate::errors::parse_to_wallet_error(e));
            },
        };
        let ghost gsp = spec;
        let stored = StoredIntegration::from_spec(
            key.to_owned(),
            spec,
            Some(content.to_owned()),
        );
        self.persist(store, &stored)?;
        let summary = clone_integration(&stored.integration);
        self.cache_put(key, stored);
        proof {
            assert(convert_post(spec_parse_doc(content@)->Some_0, gsp));
        }
        Ok(summary)
    }

    /// Re-parse new document text for an existing integration, preserving
    /// its id, creation time, credential binding and status.
    pub fn sync(&mut self, store: &mut SecureStore, key: &str, content: &str) -> (r: Result<
        (),
        WalletError,
    >)
        requires
            old(self).wf(),
            old(store).wf(),
        ensures
            final(self).wf(),
            final(store).wf(),
            final(store).spec_master_key() == old(store).spec_master_key(),
            final(store).spec_salt() == old(store).spec_salt(),
            final(store).spec_verifier() == old(store).spec_verifier(),
            old(self).spec_cached(key@) is None <==> (r matches Err(e)
                && e is IntegrationNotFound),
            old(self).spec_cached(key@) is Some ==> (!(spec_parse_doc(content@) matches Some(doc)
                && doc_version_ok(doc)) <==> (r matches Err(e) && e is InvalidSpec)),
            r matches Err(e) ==> e is IntegrationNotFound || e is InvalidSpec || e is WalletLocked
                || e is EncryptionError,
            r is Err ==> *final(self) == *old(self),
            r is Ok ==> (old(self).spec_cached(key@) matches Some(prev) && (final(self)
                .spec_cached(key@) matches Some(st) && st.wf() && st.integration.id@
                == prev.integration.id@ && st.integration.created_at
                == prev.integration.created_at && st.integration.status == prev.integration.status
                && (match prev.integration.credential_id {
                Some(c) => st.integration.credential_id matches Some(c2) && c2@ == c@,
                None => st.integration.credential_id is None,
            }) && (match prev.integration.spec_url {
                Some(u) => st.integration.spec_url matches Some(u2) && u2@ == u@,
                None => st.integration.spec_url is None,
            }) && (st.spec_content matches Some(c) && c@ == content@) && (exists|sp: ParsedSpec|
                #[trigger] convert_post(spec_parse_doc(content@)->Some_0, sp) && st.operations@
                    == sp.operations@ && st.integration.name@ == sp.title@))),
    {
        let (id, created_at, credential_id, status, spec_url): (
            String,
            u64,
            Option<String>,
            IntegrationStatus,
            Option<String>,
        ) = match self.get_stored(key) {
            Some(old_stored) => (
                old_stored.integration.id.clone(),
                old_stored.integration.created_at,
                match &old_stored.integration.credential_id {
                    Some(c) => Some(c.clone()),
                    None => None,
                },
                old_stored.integration.status,
                match &old_stored.integration.spec_url {
                    Some(u) => Some(u.clone()),
                    None => None,
                },
            ),
            None => {
                return Err(WalletError::IntegrationNotFound(key.to_owned()));
            },
        };
        let spec = match OpenApiParser::parse(content) {
            Ok(sp) => sp,
            Err(e) => {
                return Err(crate::errors::parse_to_wallet_error(e));
            },
        };
        let ghost gsp = spec;
        let mut stored = StoredIntegration::from_spec(
            key.to_owned(),
            spec,
            Some(content.to_owned()),
        );
        stored.integration.id = id;
        stored.integration.created_at = created_at;
        stored.integration.credential_id = credential_id;
        stored.integration.status = status;
        stored.integration.spec_url = spec_url;
        self.persist(store, &stored)?;
        self.cache_put(key, stored);
        proof {
            assert(convert_post(spec_parse_doc(content@)->Some_0, gsp));
        }
        Ok(())
    }

    /// Bind a credential to an integration and mark it active.
    #[verifier::loop_isolation(false)]
    pub fn set_credential(&mut self, store: &mut SecureStore, key: &str, credential_id: &str) -> (
        r: Result<(), WalletError>)
        requires
            old(self).wf(),
            old(store).wf(),
        ensures
            final(self).wf(),
            final(store).wf(),
            final(store).spec_master_key() == old(store).spec_master_key(),
            final(store).spec_salt() == old(store).spec_salt(),
            final(store).spec_verifier() == old(store).spec_verifier(),
            old(self).spec_cached(key@) is None <==> (r matches Err(e)
                && e is IntegrationNotFound),
            old(self).spec_cached(key@) is Some && old(store).spec_master_key() is None <==> (
            r matches Err(e) && e is WalletLocked),
            r matches Err(e) ==> e is IntegrationNotFound || e is WalletLocked
                || e is EncryptionError,
            old(self).spec_cached(key@) matches Some(prev) ==> (final(self).spec_cached(key@)
                matches Some(st) && (st.integration.credential_id matches Some(c) && c@
                == credential_id@) && st.integration.status == IntegrationStatus::Active
                && st.integration.id@ == prev.integration.id@ && st.operations@
                == prev.operations@),
            old(self).spec_cached(key@) is None ==> *final(self) == *old(self),
    {
        let n = self.integrations.len();
        let mut i: usize = 0;
        while i < n
            invariant
                i <= n,
                n == self.integrations@.len(),
                self.wf(),
                self.integrations@ == old(self).integrations@,
                old(store).wf(),
                *store == *old(store),
                *self == *old(self),
                forall|k: int| 0 <= k < i ==> (#[trigger] self.integrations@[k]).0@ != key@,
            decreases n - i,
        {
            if str_eq(self.integrations[i].0.as_str(), key) {
                proof {
                    lemma_cache_at(self.integrations@, key@, i as int);
                }
                let slot = self.integrations.remove(i);
                let (slug, mut stored) = slot;
                stored.integration.credential_id = Some(credential_id.to_owned());
                stored.integration.status = IntegrationStatus::Active;
                stored.integration.updated_at = now_unix();
                let res = self.persist(store, &stored);
                self.integrations.insert(i, (slug, stored));
                proof {
                    assert(self.integrations@ =~= old(self).integrations@.update(
                        i as int,
                        self.integrations@[i as int],
                    ));
                    assert forall|k: int|
                        0 <= k < self.integrations@.len() implies (#[trigger] self.integrations@[
                        k
                    ]).1.wf() by {
                        if k < i {
                            assert(self.integrations@[k] == old(self).integrations@[k]);
                        } else if k > i {
                            assert(self.integrations@[k] == old(self).integrations@[k]);
                        }
                    }
                    assert forall|k1: int, k2: int|
                        0 <= k1 < k2 < self.integrations@.len() implies (
                    #[trigger] self.integrations@[k1]).0@ != (
                    #[trigger] self.integrations@[k2]).0@ by {
                        assert(old(self).integrations@[k1].0@ != old(self).integrations@[k2].0@);
                        assert(self.integrations@[k1].0@ == old(self).integrations@[k1].0@);
                        assert(self.integrations@[k2].0@ == old(self).integrations@[k2].0@);
                    }
                    lemma_cache_at(self.integrations@, key@, i as int);
                }
                return res;
            }
            i += 1;
        }
        proof {
            lemma_cache_none(self.integrations@, key@);
        }
        Err(WalletError::IntegrationNotFound(key.to_owned()))
    }

    /// Remove an integration from storage and cache.
    #[verifier::loop_isolation(false)]
    pub fn remove(&mut self, store: &mut SecureStore, key: &str)
        requires
            old(self).wf(),
            old(store).wf(),
        ensures
            final(self).wf(),
            final(store).wf(),
            final(store).spec_master_key() == old(store).spec_master_key(),
            final(store).spec_salt() == old(store).spec_salt(),
            final(store).spec_verifier() == old(store).spec_verifier(),
            final(self).spec_cached(key@) is None,
            final(store).spec_entry(spec_integration_key(key@)) is None,
            forall|k2: Seq<char>|
                k2 != spec_integration_key(key@) ==> final(store).spec_entry(k2) == old(
                    store,
                ).spec_entry(k2),
    {
        let skey = integration_key(key);
        store.delete(skey.as_str());
        let n = self.integrations.len();
        let mut i: usize = 0;
        while i < n
            invariant
                i <= n,
                n == self.integrations@.len(),
                self.wf(),
                self.integrations@ == old(self).integrations@,
                forall|k: int| 0 <= k < i ==> (#[trigger] self.integrations@[k]).0@ != key@,
            decreases n - i,
        {
            if str_eq(self.integrations[i].0.as_str(), key) {
                let ghost before = self.integrations@;
                let _removed = self.integrations.remove(i);
                proof {
                    assert forall|k: int|
                        0 <= k < self.integrations@.len() implies (#[trigger] self.integrations@[
                        k
                    ]).1.wf() by {
                        if k < i {
                            assert(self.integrations@[k] == old(self).integrations@[k]);
                        } else {
                            assert(self.integrations@[k] == old(self).integrations@[k + 1]);
                        }
                    }
                    assert forall|k1: int, k2: int|
                        0 <= k1 < k2 < self.integrations@.len() implies (
                    #[trigger] self.integrations@[k1]).0@ != (
                    #[trigger] self.integrations@[k2]).0@ by {
                        let a1: int = if k1 < i {
                            k1
                        } else {
                            k1 + 1
                        };
                        let a2: int = if k2 < i {
                            k2
                        } else {
                            k2 + 1
                        };
                        assert(self.integrations@[k1] == before[a1]);
                        assert(self.integrations@[k2] == before[a2]);
                        assert(before[a1].0@ != before[a2].0@);
                    }
                    assert forall|k: int|
                        0 <= k < self.integrations@.len() implies (#[trigger] self.integrations@[
                        k
                    ]).0@ != key@ by {
                        if k < i {
                            assert(self.integrations@[k] == before[k]);
                        } else {
                            assert(self.integrations@[k] == before[k + 1]);
                            assert(before[i as int].0@ == key@);
                            assert(before[i as int].0@ != before[k + 1].0@);
                        }
                    }
                    lemma_cache_none(self.integrations@, key@);
                }
                return ;
            }
            i += 1;
        }
        proof {
            lemma_cache_none(self.integrations@, key@);
        }
    }

    /// Look up an operation by slug and dotted path.
    pub fn lookup_operation<'a>(&'a self, key: &str, path: &str) -> (r: Option<&'a ApiOperation>)
        requires
            self.wf(),
        ensures
            r matches Some(op) ==> (self.spec_cached(key@) matches Some(st) && (spec_lookup(
                st.namespace,
                split_chars(path@, '.'),
            ) matches Some(rf) && rf.index < st.operations@.len() && *op == st.operations@[
                rf.index as int
            ])),
            r is None ==> (self.spec_cached(key@) is None || (self.spec_cached(key@) matches Some(
                st,
            ) && spec_lookup(st.namespace, split_chars(path@, '.')) is None)),
    {
        match self.get_stored(key) {
            Some(stored) => stored.lookup_operation(path),
            None => None,
        }
    }

    /// Load the cache from storage: every `integration:` entry is decoded
    /// and its document text re-parsed, rebuilding operations and trie.
    #[verifier::loop_isolation(false)]
    pub fn load(&mut self, store: &SecureStore) -> (r: Result<(), WalletError>)
        requires
            old(self).wf(),
            store.wf(),
        ensures
            final(self).wf(),
            store.spec_master_key() is None <==> (r matches Err(e) && e is WalletLocked),
    {
        if !store.has_master_key() {
            return Err(WalletError::WalletLocked);
        }
        let keys = store.list_keys("integration:");
        let n = keys.len();
        let mut i: usize = 0;
        while i < n
            invariant
                i <= n,
                n == keys@.len(),
                self.wf(),
                store.wf(),
                store.spec_master_key() is Some,
            decreases n - i,
        {
            match store.retrieve(keys[i].as_str()) {
                Ok(Some(data)) => {
                    match crate::aead::utf8_to_string(data) {
                        Some(text) => match parse_json(text.as_str()) {
                            Some(v) => {
                                self.load_record(&v);
                            },
                            None => {},
                        },
                        None => {},
                    }
                },
                _ => {},
            }
            i += 1;
        }
        Ok(())
    }

    /// Decode one persisted record and cache it, where its document text
    /// still parses.
    fn load_record(&mut self, v: &JsonValue)
        requires
            old(self).wf(),
        ensures
            final(self).wf(),
    {
        let key = match rec_text(v, "key") {
            Some(t) => t,
            None => {
                return ;
            },
        };
        let content = match rec_text(v, "specContent") {
            Some(t) => t,
            None => {
                return ;
            },
        };
        let spec = match OpenApiParser::parse(content.as_str()) {
            Ok(sp) => sp,
            Err(_) => {
                return ;
            },
        };
        let mut stored = StoredIntegration::from_spec(key.clone(), spec, Some(content));
        match rec_text(v, "id") {
            Some(t) => {
                stored.integration.id = t;
            },
            None => {},
        }
        match rec_text(v, "credentialId") {
            Some(t) => {
                stored.integration.credential_id = Some(t);
            },
            None => {},
        }
        match rec_text(v, "specUrl") {
            Some(t) => {
                stored.integration.spec_url = Some(t);
            },
            None => {},
        }
        match rec_text(v, "status") {
            Some(t) => {
                stored.integration.status = if str_eq(t.as_str(), "active") {
                    IntegrationStatus::Active
                } else if str_eq(t.as_str(), "error") {
                    IntegrationStatus::Error
                } else if str_eq(t.as_str(), "disabled") {
                    IntegrationStatus::Disabled
                } else {
                    IntegrationStatus::Pending
                };
            },
            None => {},
        }
        let slug = key;
        self.cache_put(slug.as_str(), stored);
    }
}

/// Copy integration metadata, preserving field views.
pub fn clone_integration(x: &Integration) -> (r: Integration)
    ensures
        r.key@ == x.key@,
        r.name@ == x.name@,
        r.server_url@ == x.server_url@,
        r.status == x.status,
        r.operation_count == x.operation_count,
        r.credential_id is Some <==> x.credential_id is Some,
{
    Integration {
        id: x.id.clone(),
        key: x.key.clone(),
        name: x.name.clone(),
        description: match &x.description {
            Some(d) => Some(d.clone()),
            None => None,
        },
        spec_url: match &x.spec_url {
            Some(u) => Some(u.clone()),
            None => None,
        },
        server_url: x.server_url.clone(),
        status: x.status,
        credential_id: match &x.credential_id {
            Some(c) => Some(c.clone()),
            None => None,
        },
        operation_count: x.operation_count,
        last_synced_at: x.last_synced_at,
        error: match &x.error {
            Some(e) => Some(e.clone()),
            None => None,
        },
        created_at: x.created_at,
        updated_at: x.updated_at,
    }
}

/// Encode an integration's persisted record: metadata and document text.
fn encode_integration(stored: &StoredIntegration) -> (r: JsonValue) {
    let mut fields: Vec<(String, JsonValue)> = Vec::new();
    fields.push(("id".to_owned(), JsonValue::Text(stored.integration.id.clone())));
    fields.push(("key".to_owned(), JsonValue::Text(stored.integration.key.clone())));
    fields.push(("name".to_owned(), JsonValue::Text(stored.integration.name.clone())));
    fields.push(("serverUrl".to_owned(), JsonValue::Text(stored.integration.server_url.clone())));
    fields.push(
        (
            "status".to_owned(),
            JsonValue::Text(
                match stored.integration.status {
                    IntegrationStatus::Pending => "pending".to_owned(),
                    IntegrationStatus::Active => "active".to_owned(),
                    IntegrationStatus::Error => "error".to_owned(),
                    IntegrationStatus::Disabled => "disabled".to_owned(),
                },
            ),
        ),
    );
    match &stored.integration.credential_id {
        Some(c) => {
            fields.push(("credentialId".to_owned(), JsonValue::Text(c.clone())));
        },
        None => {},
    }
    match &stored.integration.spec_url {
        Some(u) => {
            fields.push(("specUrl".to_owned(), JsonValue::Text(u.clone())));
        },
        None => {},
    }
    fields.push(
        (
            "operationCount".to_owned(),
            JsonValue::Number(crate::credential::u64_string(stored.integration.operation_count as u64)),
        ),
    );
    fields.push(
        (
            "createdAt".to_owned(),
            JsonValue::Number(crate::credential::u64_string(stored.integration.created_at)),
        ),
    );
    match &stored.spec_content {
        Some(c) => {
            fields.push(("specContent".to_owned(), JsonValue::Text(c.clone())));
        },
        None => {},
    }
    JsonValue::Object(fields)
}

/// Read a field's string content, if the field is a string.
fn rec_text(v: &JsonValue, name: &str) -> (r: Option<String>)
    ensures
        r matches Some(s) ==> spec_get(v.deep_view(), name@) == Some(Json::Text(s@)),
{
    match v.get(name) {
        Some(f) => match f.as_text() {
            Some(t) => Some(t.clone()),
            None => None,
        },
        None => None,
    }
}

} // verus!
