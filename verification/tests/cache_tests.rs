use softerworld::cache::MemoCache;
use softerworld::errors::ServiceError;

const TTL: u64 = 36000;

#[test]
fn miss_then_store_then_hit() {
    let mut c: MemoCache<String> = MemoCache::new(TTL);
    assert!(c.lookup(7, 100).is_none());
    assert!(c.begin(7, 100));
    c.complete(7, Ok("seven".to_string()), 120);
    let got = c.lookup(7, 130);
    assert_eq!(got, Some(&Ok("seven".to_string())));
}

#[test]
fn single_flight_second_caller_waits() {
    let mut c: MemoCache<String> = MemoCache::new(TTL);
    // First caller claims the flight for the key.
    assert!(c.begin(1, 0));
    // Every further caller for the same key is told not to compute.
    assert!(!c.begin(1, 0));
    assert!(!c.begin(1, 500));
    assert!(c.is_in_flight(1));
    // After completion, all of them read the one stored outcome.
    c.complete(1, Ok("shared".to_string()), 600);
    assert!(!c.is_in_flight(1));
    assert_eq!(c.lookup(1, 700), Some(&Ok("shared".to_string())));
    assert_eq!(c.lookup(1, 700 + TTL / 2), Some(&Ok("shared".to_string())));
}

#[test]
fn ttl_expiry_boundary() {
    let mut c: MemoCache<String> = MemoCache::new(TTL);
    assert!(c.begin(3, 1000));
    c.complete(3, Ok("v".to_string()), 1000);
    // Served without recomputation strictly inside the window.
    assert!(c.lookup(3, 1000).is_some());
    assert!(c.lookup(3, 1000 + TTL - 1).is_some());
    assert!(!c.begin(3, 1000 + TTL - 1));
    // The first access at the boundary triggers exactly one recomputation.
    assert!(c.lookup(3, 1000 + TTL).is_none());
    assert!(c.begin(3, 1000 + TTL));
    assert!(!c.begin(3, 1000 + TTL));
}

#[test]
fn independent_keys_do_not_block() {
    let mut c: MemoCache<String> = MemoCache::new(TTL);
    // A slow producer for key 10 is in flight...
    assert!(c.begin(10, 0));
    // ...and a caller for key 11 still gets to compute at once.
    assert!(c.begin(11, 0));
    c.complete(11, Ok("b".to_string()), 1);
    assert_eq!(c.lookup(11, 2), Some(&Ok("b".to_string())));
    // Key 10 is still in flight, unaffected by key 11's completion.
    assert!(c.is_in_flight(10));
    assert!(c.lookup(10, 2).is_none());
}

#[test]
fn failures_are_cached_like_successes() {
    let mut c: MemoCache<String> = MemoCache::new(TTL);
    assert!(c.begin(5, 50));
    c.complete(5, Err(ServiceError::Fetch("boom".to_string())), 60);
    // Within the window the same error is served without a retry.
    assert_eq!(
        c.lookup(5, 70),
        Some(&Err(ServiceError::Fetch("boom".to_string())))
    );
    assert!(!c.begin(5, 70));
    assert_eq!(
        c.lookup(5, 60 + TTL - 1),
        Some(&Err(ServiceError::Fetch("boom".to_string())))
    );
    // Only expiry makes the cache try the producer again.
    assert!(c.begin(5, 60 + TTL));
}

#[test]
fn refresh_replaces_entry() {
    let mut c: MemoCache<String> = MemoCache::new(10);
    assert!(c.begin(2, 0));
    c.complete(2, Ok("old".to_string()), 0);
    assert!(c.begin(2, 10));
    c.complete(2, Ok("new".to_string()), 10);
    assert_eq!(c.lookup(2, 11), Some(&Ok("new".to_string())));
}
