//! The fetch cache: a bounded, least-recently-used mapping from a fixed-width
//! fingerprint of a source identifier to the raw bytes fetched for it.
//! `retrieve` combines lookup and on-miss fetch-and-store: a hit returns the
//! cached bytes without consulting the fetch collaborator; a miss fetches,
//! stores the result (evicting the least-recently-used entry when the cache
//! is full) and returns it; a failed fetch leaves the cache unchanged.
//!
//! The fingerprint is a fast, non-cryptographic hash: collisions are an
//! accepted, extremely low-probability tradeoff, not a security boundary.

use vstd::prelude::*;

use core::hash::Hasher;
use std::collections::hash_map::DefaultHasher;
use std::collections::hash_map::RandomState;
use vstd::std_specs::hash::DefaultHasherAdditionalSpecFns;
use vstd::string::StringSliceAdditionalSpecFns;

verus! {

/// Failure of the external fetch collaborator; the cause stays with the
/// collaborator.
#[derive(Clone, Copy, Debug, PartialEq, Eq, Structural)]
pub enum FetchError {
    Failed,
}

/// The external fetch collaborator: delivers the raw bytes behind a source
/// identifier. Implementations live outside the library (a network client, a
/// counting test double); nothing is assumed of their outcome, and the cache
/// states what holds whatever they return.
pub trait Fetcher {
    fn fetch(&mut self, url: &str) -> Result<Vec<u8>, FetchError>;
}

/// The fingerprint of a source identifier: what std's `DefaultHasher` yields
/// after one write of the identifier's bytes. It depends on those bytes
/// alone.
pub open spec fn fingerprint_of(url: Seq<u8>) -> u64 {
    DefaultHasher::spec_finish(seq![url])
}

/// Computes the fingerprint of a source identifier.
pub fn fingerprint(url: &str) -> (r: u64)
    ensures
        r == fingerprint_of(url.spec_bytes()),
{
    let mut h = DefaultHasher::new();
    h.write(url.as_bytes());
    proof {
        assert(h@ =~= seq![url.spec_bytes()]);
    }
    h.finish()
}

/// The recency order after key `k` is used: `k` moves to the front.
pub open spec fn promote(order: Seq<u64>, k: u64) -> Seq<u64> {
    seq![k] + order.remove_value(k)
}

/// The entries after `k` is bound to `v` in a cache whose entries, order and
/// capacity are given: an update when `k` is present, an insertion when there
/// is room, otherwise an insertion displacing the least-recently-used key.
pub open spec fn put_entries(
    entries: Map<u64, Seq<u8>>,
    order: Seq<u64>,
    cap: nat,
    k: u64,
    v: Seq<u8>,
) -> Map<u64, Seq<u8>> {
    if entries.contains_key(k) || order.len() < cap {
        entries.insert(k, v)
    } else {
        entries.remove(order.last()).insert(k, v)
    }
}

/// The recency order after `k` is bound: `k` moves to the front; when the
/// binding displaced the least-recently-used key, that key leaves the order.
pub open spec fn put_order(
    entries: Map<u64, Seq<u8>>,
    order: Seq<u64>,
    cap: nat,
    k: u64,
) -> Seq<u64> {
    if entries.contains_key(k) {
        promote(order, k)
    } else if order.len() < cap {
        seq![k] + order
    } else {
        seq![k] + order.drop_last()
    }
}

/// A bounded cache from source-identifier fingerprints to raw fetched bytes,
/// backed by an LRU structure.
#[verifier::external_body]
pub struct ImageCache {
    inner: lru::LruCache<u64, Vec<u8>, RandomState>,
}

/// What the cache holds: the entries, by fingerprint.
pub uninterp spec fn cache_entries(c: ImageCache) -> Map<u64, Seq<u8>>;

/// What the cache holds: the fingerprints, most recently used first.
pub uninterp spec fn cache_order(c: ImageCache) -> Seq<u64>;

/// The capacity the cache was created with; it never changes.
pub uninterp spec fn cache_cap(c: ImageCache) -> nat;

/// The mathematical state of an [`ImageCache`]: its entries, its keys in
/// recency order (most recent first), and its fixed capacity.
pub ghost struct CacheModel {
    pub entries: Map<u64, Seq<u8>>,
    pub order: Seq<u64>,
    pub cap: nat,
}

impl View for ImageCache {
    type V = CacheModel;

    open spec fn view(&self) -> CacheModel {
        CacheModel {
            entries: cache_entries(*self),
            order: cache_order(*self),
            cap: cache_cap(*self),
        }
    }
}

impl ImageCache {
    /// The structural facts the LRU library maintains: each key appears once
    /// in the recency order, the order lists exactly the stored keys, and
    /// the entry count never passes the capacity fixed at construction.
    pub open spec fn wf(&self) -> bool {
        &&& self@.order.no_duplicates()
        &&& (forall|k: u64| #[trigger] self@.entries.contains_key(k) <==> self@.order.contains(k))
        &&& self@.order.len() <= self@.cap
        &&& 1 <= self@.cap
    }

    /// An empty cache that holds at most `capacity` entries; the capacity is
    /// fixed for the cache's lifetime.
    ///
    /// Relies on `lru::LruCache::new`.
    #[verifier::external_body]
    pub fn new(capacity: usize) -> (r: Self)
        requires
            1 <= capacity,
        ensures
            r.wf(),
            cache_cap(r) == capacity,
            (cache_entries(r) == Map::<u64, Seq<u8>>::empty()),
            cache_order(r) == Seq::<u64>::empty(),
    {
        ImageCache { inner: lru::LruCache::new(core::num::NonZeroUsize::new(capacity).unwrap()) }
    }

    /// Looks a fingerprint up: a hit returns the stored bytes and marks the
    /// fingerprint most recently used; a miss changes nothing.
    ///
    /// Relies on `lru::LruCache::get`.
    #[verifier::external_body]
    pub fn lookup(&mut self, key: u64) -> (r: Option<Vec<u8>>)
        ensures
            cache_cap(*final(self)) == cache_cap(*old(self)),
            old(self).wf() ==> final(self).wf(),
            match r {
                Some(v) => {
                    &&& cache_entries(*old(self)).contains_key(key)
                    &&& v@ == cache_entries(*old(self))[key]
                    &&& cache_entries(*final(self)) == cache_entries(*old(self))
                    &&& cache_order(*final(self)) == promote(cache_order(*old(self)), key)
                },
                None => {
                    &&& !cache_entries(*old(self)).contains_key(key)
                    &&& *final(self) == *old(self)
                },
            },
    {
        self.inner.get(&key).cloned()
    }

    /// Binds a fingerprint to bytes and marks it most recently used,
    /// evicting the least-recently-used entry when a new fingerprint arrives
    /// with the cache full.
    ///
    /// Relies on `lru::LruCache::put`.
    #[verifier::external_body]
    pub fn store(&mut self, key: u64, value: &Vec<u8>)
        ensures
            cache_cap(*final(self)) == cache_cap(*old(self)),
            old(self).wf() ==> final(self).wf(),
            (cache_entries(*final(self)) == put_entries(
                cache_entries(*old(self)),
                cache_order(*old(self)),
                cache_cap(*old(self)),
                key,
                value@,
            )),
            (cache_order(*final(self)) == put_order(
                cache_entries(*old(self)),
                cache_order(*old(self)),
                cache_cap(*old(self)),
                key,
            )),
    {
        self.inner.put(key, value.clone());
    }

    /// The single logical cache operation: look the identifier's fingerprint
    /// up; on a hit return the cached bytes without consulting the fetcher;
    /// on a miss ask the fetcher, store what it delivered under the
    /// fingerprint and return it; propagate a fetch failure with the cache
    /// left unchanged.
    pub fn retrieve<F: Fetcher>(&mut self, url: &str, fetcher: &mut F) -> (r: Result<
        Vec<u8>,
        FetchError,
    >)
        requires
            old(self).wf(),
        ensures
            final(self).wf(),
            final(self)@.cap == old(self)@.cap,
            ({
                let fp = fingerprint_of(url.spec_bytes());
                if old(self)@.entries.contains_key(fp) {
                    &&& r is Ok
                    &&& r->Ok_0@ == old(self)@.entries[fp]
                    &&& final(self)@.entries == old(self)@.entries
                    &&& final(self)@.order == promote(old(self)@.order, fp)
                    &&& *final(fetcher) == *old(fetcher)
                } else {
                    match r {
                        Ok(v) => {
                            &&& final(self)@.entries == put_entries(
                                old(self)@.entries,
                                old(self)@.order,
                                old(self)@.cap,
                                fp,
                                v@,
                            )
                            &&& final(self)@.entries[fp] == v@
                            &&& final(self)@.order == put_order(
                                old(self)@.entries,
                                old(self)@.order,
                                old(self)@.cap,
                                fp,
                            )
                        },
                        Err(_) => *final(self) == *old(self),
                    }
                }
            }),
    {
        let fp = fingerprint(url);
        match self.lookup(fp) {
            Some(v) => Ok(v),
            None => {
                match fetcher.fetch(url) {
                    Ok(bytes) => {
                        self.store(fp, &bytes);
                        Ok(bytes)
                    },
                    Err(e) => Err(e),
                }
            },
        }
    }
}

/// Law: after bytes are stored under a fingerprint, the cache holds exactly
/// those bytes for it — so the next retrieval of the same fingerprint is a
/// hit and returns them unchanged, without consulting the fetch
/// collaborator.
pub proof fn lemma_store_then_hit(
    entries: Map<u64, Seq<u8>>,
    order: Seq<u64>,
    cap: nat,
    k: u64,
    v: Seq<u8>,
)
    ensures
        put_entries(entries, order, cap, k, v).contains_key(k),
        put_entries(entries, order, cap, k, v)[k] == v,
{
}

/// Law: when a fresh fingerprint is stored into a full cache, exactly the
/// least-recently-used entry is evicted: the evicted key is gone (a later
/// retrieval of it must fetch anew), the fresh key is present, and every
/// other entry survives unchanged.
pub proof fn lemma_eviction(
    entries: Map<u64, Seq<u8>>,
    order: Seq<u64>,
    cap: nat,
    k: u64,
    v: Seq<u8>,
)
    requires
        order.no_duplicates(),
        forall|j: u64| #[trigger] entries.contains_key(j) <==> order.contains(j),
        order.len() == cap,
        1 <= cap,
        !entries.contains_key(k),
    ensures
        !put_entries(entries, order, cap, k, v).contains_key(order.last()),
        put_entries(entries, order, cap, k, v).contains_key(k),
        put_entries(entries, order, cap, k, v)[k] == v,
        forall|j: u64|
            #[trigger] entries.contains_key(j) && j != order.last() ==> put_entries(
                entries,
                order,
                cap,
                k,
                v,
            ).contains_key(j) && put_entries(entries, order, cap, k, v)[j] == entries[j],
        put_order(entries, order, cap, k) == seq![k] + order.drop_last(),
{
    let e = order.last();
    assert(order.contains(e)) by {
        assert(order[order.len() - 1] == e);
    }
    assert(entries.contains_key(e));
    assert(e != k);
}

} // verus!
