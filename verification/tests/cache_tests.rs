use thumbor::cache::{FetchError, Fetcher, ImageCache};

struct CountingFetcher {
    calls: usize,
    payload: Vec<u8>,
    fail: bool,
}

impl Fetcher for CountingFetcher {
    fn fetch(&mut self, _url: &str) -> Result<Vec<u8>, FetchError> {
        self.calls += 1;
        if self.fail {
            Err(FetchError::Failed)
        } else {
            Ok(self.payload.clone())
        }
    }
}

#[test]
fn second_retrieve_hits_cache_without_fetching() {
    let mut cache = ImageCache::new(16);
    let mut fetcher = CountingFetcher {
        calls: 0,
        payload: vec![1, 2, 3, 4],
        fail: false,
    };
    let first = cache.retrieve("http://images.test/a.jpg", &mut fetcher).unwrap();
    assert_eq!(first, vec![1, 2, 3, 4]);
    assert_eq!(fetcher.calls, 1);
    let second = cache.retrieve("http://images.test/a.jpg", &mut fetcher).unwrap();
    assert_eq!(second, first);
    assert_eq!(fetcher.calls, 1);
}

#[test]
fn eviction_removes_least_recently_used_entry() {
    let mut cache = ImageCache::new(2);
    cache.store(1, &vec![10]);
    cache.store(2, &vec![20]);
    // One over capacity: fingerprint 1 is the least recently used.
    cache.store(3, &vec![30]);
    assert_eq!(cache.lookup(1), None);
    assert_eq!(cache.lookup(2), Some(vec![20]));
    assert_eq!(cache.lookup(3), Some(vec![30]));
}

#[test]
fn lookup_refreshes_recency() {
    let mut cache = ImageCache::new(2);
    cache.store(1, &vec![10]);
    cache.store(2, &vec![20]);
    // Using 1 makes 2 the least recently used; the next insertion evicts 2.
    assert_eq!(cache.lookup(1), Some(vec![10]));
    cache.store(3, &vec![30]);
    assert_eq!(cache.lookup(2), None);
    assert_eq!(cache.lookup(1), Some(vec![10]));
    assert_eq!(cache.lookup(3), Some(vec![30]));
}

#[test]
fn evicted_key_is_fetched_anew() {
    let mut cache = ImageCache::new(1);
    let mut fetcher = CountingFetcher {
        calls: 0,
        payload: vec![7],
        fail: false,
    };
    cache.retrieve("http://images.test/a", &mut fetcher).unwrap();
    assert_eq!(fetcher.calls, 1);
    cache.retrieve("http://images.test/b", &mut fetcher).unwrap();
    assert_eq!(fetcher.calls, 2);
    // The first identifier was evicted by the second, so it fetches again.
    cache.retrieve("http://images.test/a", &mut fetcher).unwrap();
    assert_eq!(fetcher.calls, 3);
}

#[test]
fn fetch_failure_leaves_cache_unchanged() {
    let mut cache = ImageCache::new(4);
    let mut fetcher = CountingFetcher {
        calls: 0,
        payload: vec![9, 9],
        fail: true,
    };
    let r = cache.retrieve("http://images.test/x", &mut fetcher);
    assert_eq!(r, Err(FetchError::Failed));
    assert_eq!(fetcher.calls, 1);
    // The failure was not cached: the next retrieval fetches again and,
    // once the collaborator recovers, succeeds.
    fetcher.fail = false;
    let r2 = cache.retrieve("http://images.test/x", &mut fetcher).unwrap();
    assert_eq!(r2, vec![9, 9]);
    assert_eq!(fetcher.calls, 2);
    let r3 = cache.retrieve("http://images.test/x", &mut fetcher).unwrap();
    assert_eq!(r3, vec![9, 9]);
    assert_eq!(fetcher.calls, 2);
}

#[test]
fn fingerprints_are_deterministic() {
    let a1 = thumbor::cache::fingerprint("http://images.test/a");
    let a2 = thumbor::cache::fingerprint("http://images.test/a");
    let b = thumbor::cache::fingerprint("http://images.test/b");
    assert_eq!(a1, a2);
    assert_ne!(a1, b);
}
