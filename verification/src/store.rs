use vstd::prelude::*;

use std::collections::hash_map::RandomState;

use crate::errors::ServiceError;
use crate::ids::BlobId;
use crate::ids::fresh_blob_id;

verus! {

#[verifier::external_type_specification]
#[verifier::external_body]
#[verifier::reject_recursive_types(K)]
#[verifier::reject_recursive_types(V)]
#[verifier::reject_recursive_types(S)]
pub struct ExDashMap<K, V, S>(dashmap::DashMap<K, V, S>);

/// What the volatile tier holds: each cached identifier with its bytes.
pub uninterp spec fn cache_entries(m: dashmap::DashMap<u128, Vec<u8>, RandomState>) -> Map<
    u128,
    Seq<u8>,
>;

/// The contents of a cache tier that holds nothing.
pub open spec fn no_cache_entries() -> Map<u128, Seq<u8>> {
    Map::<u128, Seq<u8>>::empty()
}

/// Relies on dashmap::DashMap::new: the new map is empty.
#[verifier::external_body]
fn cache_new() -> (m: dashmap::DashMap<u128, Vec<u8>, RandomState>)
    ensures
        cache_entries(m) == no_cache_entries(),
{
    dashmap::DashMap::new()
}

/// Relies on dashmap::DashMap::insert: maps the key to the value,
/// replacing any earlier entry for the key.
#[verifier::external_body]
fn cache_insert(m: &mut dashmap::DashMap<u128, Vec<u8>, RandomState>, key: u128, value: Vec<u8>)
    ensures
        cache_entries(*final(m)) == cache_entries(*old(m)).insert(key, value@),
{
    m.insert(key, value);
}

/// Relies on dashmap::DashMap::get: returns the entry for the key, if any.
#[verifier::external_body]
fn cache_get(m: &dashmap::DashMap<u128, Vec<u8>, RandomState>, key: u128) -> (r: Option<Vec<u8>>)
    ensures
        match r {
            Some(v) => cache_entries(*m).contains_key(key) && v@ == cache_entries(*m)[key],
            None => !cache_entries(*m).contains_key(key),
        },
{
    match m.get(&key) {
        Some(entry) => Some(entry.value().clone()),
        None => None,
    }
}

/// Relies on dashmap::DashMap::clear: removes every entry.
#[verifier::external_body]
fn cache_clear(m: &mut dashmap::DashMap<u128, Vec<u8>, RandomState>)
    ensures
        cache_entries(*final(m)) == no_cache_entries(),
{
    m.clear();
}

/// An element-wise copy of a byte vector.
fn copy_bytes(v: &Vec<u8>) -> (r: Vec<u8>)
    ensures
        r@ == v@,
{
    let mut r: Vec<u8> = Vec::new();
    let mut i: usize = 0;
    while i < v.len()
        invariant
            i <= v@.len(),
            r@ == v@.subrange(0, i as int),
        decreases v@.len() - i,
    {
        r.push(v[i]);
        proof {
            assert(r@ =~= v@.subrange(0, i + 1));
        }
        i += 1;
    }
    proof {
        assert(r@ =~= v@);
    }
    r
}

/// The map that a sequence of records denotes: a later record for the
/// same identifier overrides an earlier one.
spec fn records_map(s: Seq<(BlobId, Vec<u8>)>) -> Map<u128, Seq<u8>>
    decreases s.len(),
{
    if s.len() == 0 {
        Map::<u128, Seq<u8>>::empty()
    } else {
        records_map(s.drop_last()).insert(s.last().0.value, s.last().1@)
    }
}

proof fn lemma_records_map_absent(s: Seq<(BlobId, Vec<u8>)>, key: u128)
    requires
        forall|j: int| 0 <= j < s.len() ==> s[j].0.value != key,
    ensures
        !records_map(s).contains_key(key),
    decreases s.len(),
{
    if s.len() > 0 {
        lemma_records_map_absent(s.drop_last(), key);
    }
}

proof fn lemma_records_map_last(s: Seq<(BlobId, Vec<u8>)>, i: int)
    requires
        0 <= i < s.len(),
        forall|j: int| i < j < s.len() ==> s[j].0.value != s[i].0.value,
    ensures
        records_map(s).contains_key(s[i].0.value),
        records_map(s)[s[i].0.value] == s[i].1@,
    decreases s.len(),
{
    if i + 1 < s.len() {
        lemma_records_map_last(s.drop_last(), i);
    }
}

/// Two-tier store for uploaded blobs: a durable tier that is the source
/// of truth, and a volatile cache that is refilled on demand and may be
/// lost on restart. Neither tier ever evicts an entry on its own.
pub struct BlobStore {
    durable: Vec<(BlobId, Vec<u8>)>,
    cache: dashmap::DashMap<u128, Vec<u8>, RandomState>,
}

impl BlobStore {
    /// The durable tier, as a map from identifier to bytes.
    pub closed spec fn durable_view(self) -> Map<u128, Seq<u8>> {
        records_map(self.durable@)
    }

    /// The volatile tier, as a map from identifier to bytes.
    pub closed spec fn cache_view(self) -> Map<u128, Seq<u8>> {
        cache_entries(self.cache)
    }

    /// Every cached entry is durably stored, with the same bytes: a
    /// write becomes durable before it becomes visible in the cache.
    pub open spec fn wf(self) -> bool {
        forall|k: u128| #[trigger]
            self.cache_view().contains_key(k) ==> self.durable_view().contains_key(k)
                && self.cache_view()[k] == self.durable_view()[k]
    }

    /// An empty store: nothing durable, nothing cached.
    pub fn new() -> (s: BlobStore)
        ensures
            s.durable_view() == Map::<u128, Seq<u8>>::empty(),
            s.cache_view() == Map::<u128, Seq<u8>>::empty(),
            s.wf(),
    {
        BlobStore { durable: Vec::new(), cache: cache_new() }
    }

    /// The index of the authoritative (latest) durable record for the
    /// key, if the key is durably stored at all.
    fn find_durable(&self, key: u128) -> (r: Option<usize>)
        ensures
            match r {
                Some(i) => i < self.durable@.len() && self.durable@[i as int].0.value == key
                    && self.durable_view().contains_key(key) && self.durable_view()[key]
                    == self.durable@[i as int].1@,
                None => !self.durable_view().contains_key(key),
            },
    {
        let mut found: Option<usize> = None;
        let mut i: usize = 0;
        while i < self.durable.len()
            invariant
                i <= self.durable@.len(),
                match found {
                    Some(f) => f < i && self.durable@[f as int].0.value == key && forall|j: int|
                        f < j < i ==> self.durable@[j].0.value != key,
                    None => forall|j: int| 0 <= j < i ==> self.durable@[j].0.value != key,
                },
            decreases self.durable@.len() - i,
        {
            if self.durable[i].0.value == key {
                found = Some(i);
            }
            i += 1;
        }
        proof {
            match found {
                Some(f) => lemma_records_map_last(self.durable@, f as int),
                None => lemma_records_map_absent(self.durable@, key),
            }
        }
        found
    }

    /// Store uploaded bytes: draw a fresh identifier, write the durable
    /// tier first, and only then make the entry visible in the cache.
    /// A durable-write failure surfaces as a storage failure and leaves
    /// no trace in either tier.
    pub fn put(&mut self, data: Vec<u8>, durable_write_ok: bool) -> (r: Result<
        BlobId,
        ServiceError,
    >)
        requires
            old(self).wf(),
        ensures
            final(self).wf(),
            durable_write_ok ==> match r {
                Ok(id) => final(self).durable_view() == old(self).durable_view().insert(
                    id.value,
                    data@,
                ) && final(self).cache_view() == old(self).cache_view().insert(id.value, data@),
                Err(_) => false,
            },
            !durable_write_ok ==> (r matches Err(e) && e == (ServiceError::StorageFailure)
                && final(self).durable_view() == old(self).durable_view()
                && final(self).cache_view() == old(self).cache_view()),
    {
        let id = fresh_blob_id();
        if !durable_write_ok {
            return Err(ServiceError::StorageFailure);
        }
        let cached = copy_bytes(&data);
        self.durable.push((id, data));
        cache_insert(&mut self.cache, id.value, cached);
        proof {
            assert(self.durable@.drop_last() =~= old(self).durable@);
            assert forall|k: u128| #[trigger] self.cache_view().contains_key(k) implies self
                .durable_view().contains_key(k) && self.cache_view()[k] == self.durable_view()[k] by {
                if k != id.value {
                    assert(old(self).cache_view().contains_key(k));
                }
            }
        }
        Ok(id)
    }

    /// Look a blob up: serve a cache hit directly; on a miss, read the
    /// durable tier and, on success, repopulate the cache. An identifier
    /// in neither tier yields `None`.
    pub fn get(&mut self, id: BlobId) -> (r: Option<Vec<u8>>)
        requires
            old(self).wf(),
        ensures
            final(self).wf(),
            final(self).durable_view() == old(self).durable_view(),
            match r {
                Some(data) => get_result(*old(self), id) == Some(data@)
                    && final(self).cache_view() == old(self).cache_view().insert(id.value, data@),
                None => get_result(*old(self), id) is None && final(self).cache_view() == old(
                    self,
                ).cache_view(),
            },
    {
        match cache_get(&self.cache, id.value) {
            Some(data) => {
                proof {
                    assert(self.cache_view() =~= old(self).cache_view().insert(id.value, data@));
                }
                Some(data)
            },
            None => {
                match self.find_durable(id.value) {
                    Some(i) => {
                        let data = copy_bytes(&self.durable[i].1);
                        let cached = copy_bytes(&data);
                        cache_insert(&mut self.cache, id.value, cached);
                        proof {
            assert forall|k: u128| #[trigger] self.cache_view().contains_key(k) implies self
                .durable_view().contains_key(k) && self.cache_view()[k] == self.durable_view()[k] by {
                if k != id.value {
                    assert(old(self).cache_view().contains_key(k));
                }
            }
                        }
                        Some(data)
                    },
                    None => None,
                }
            },
        }
    }

    /// Drop every cache entry while leaving the durable tier intact, as
    /// a process restart would.
    pub fn clear_cache(&mut self)
        ensures
            final(self).wf(),
            final(self).durable_view() == old(self).durable_view(),
            final(self).cache_view() == no_cache_entries(),
    {
        cache_clear(&mut self.cache);
    }

    /// Admit a blob that is already durably stored (for instance one
    /// found on the durable medium at startup) into both tiers.
    pub fn preload(&mut self, id: BlobId, data: Vec<u8>)
        requires
            old(self).wf(),
        ensures
            final(self).wf(),
            final(self).durable_view() == old(self).durable_view().insert(id.value, data@),
            final(self).cache_view() == old(self).cache_view().insert(id.value, data@),
    {
        let cached = copy_bytes(&data);
        self.durable.push((id, data));
        cache_insert(&mut self.cache, id.value, cached);
        proof {
            assert(self.durable@.drop_last() =~= old(self).durable@);
            assert forall|k: u128| #[trigger] self.cache_view().contains_key(k) implies self
                .durable_view().contains_key(k) && self.cache_view()[k] == self.durable_view()[k] by {
                if k != id.value {
                    assert(old(self).cache_view().contains_key(k));
                }
            }
        }
    }
}

/// What a lookup returns, as a function of the durable tier alone.
pub open spec fn get_result(s: BlobStore, id: BlobId) -> Option<Seq<u8>> {
    if s.durable_view().contains_key(id.value) {
        Some(s.durable_view()[id.value])
    } else {
        None
    }
}

/// A stored blob reads back byte-identical: once the durable tier maps
/// the identifier to some bytes, a lookup returns exactly those bytes,
/// for any byte sequence including the empty one.
pub proof fn lemma_round_trip(pre: BlobStore, post: BlobStore, id: BlobId, data: Seq<u8>)
    requires
        post.durable_view() == pre.durable_view().insert(id.value, data),
    ensures
        get_result(post, id) == Some(data),
{
}

/// Lookups are decided by the durable tier alone: two stores with the
/// same durable tier answer every lookup alike, however their caches
/// differ. In particular a store heals after losing its cache.
pub proof fn lemma_get_ignores_cache(a: BlobStore, b: BlobStore, id: BlobId)
    requires
        a.durable_view() == b.durable_view(),
    ensures
        get_result(a, id) == get_result(b, id),
{
}

/// An identifier that was never durably stored is not found, with or
/// without a cache.
pub proof fn lemma_unknown_id(s: BlobStore, id: BlobId)
    requires
        !s.durable_view().contains_key(id.value),
    ensures
        get_result(s, id) is None,
{
}

} // verus!
