use std::sync::Arc;
use zfs_object_agent::object_cache::{Lookup, ObjectCache};

fn bytes(text: &str) -> Arc<Vec<u8>> {
    Arc::new(text.as_bytes().to_vec())
}

fn hit(lookup: Lookup) -> Vec<u8> {
    match lookup {
        Lookup::Hit(buffer) => buffer.as_ref().clone(),
        other => panic!("expected a hit, got {:?}", other),
    }
}

#[test]
fn first_caller_fetches_and_later_callers_wait() {
    let mut cache = ObjectCache::new(100);
    assert!(matches!(cache.lookup("k"), Lookup::Fetch));
    for _ in 0..5 {
        assert!(matches!(cache.lookup("k"), Lookup::Wait));
    }
}

#[test]
fn concurrent_gets_make_one_fetch_and_see_the_same_bytes() {
    let mut cache = ObjectCache::new(100);
    let mut fetches = 0;
    let mut waiters = 0;
    for _ in 0..8 {
        match cache.lookup("obj") {
            Lookup::Fetch => fetches += 1,
            Lookup::Wait => waiters += 1,
            Lookup::Hit(_) => panic!("nothing was fetched yet"),
        }
    }
    assert_eq!(fetches, 1);
    assert_eq!(waiters, 7);
    cache.complete_fetch("obj", bytes("payload"));
    for _ in 0..8 {
        assert_eq!(hit(cache.lookup("obj")), b"payload".to_vec());
    }
}

#[test]
fn other_keys_do_not_disturb_a_fetch_in_progress() {
    let mut cache = ObjectCache::new(100);
    assert!(matches!(cache.lookup("a"), Lookup::Fetch));
    assert!(matches!(cache.lookup("b"), Lookup::Fetch));
    cache.complete_fetch("b", bytes("bee"));
    assert!(!cache.refresh_on_put("a", &b"ignored".to_vec()));
    assert!(matches!(cache.lookup("a"), Lookup::Wait));
    assert_eq!(hit(cache.lookup("b")), b"bee".to_vec());
}

#[test]
fn hit_shares_the_buffer() {
    let mut cache = ObjectCache::new(4);
    let buffer = bytes("shared");
    cache.complete_fetch("k", buffer.clone());
    match cache.lookup("k") {
        Lookup::Hit(found) => assert!(Arc::ptr_eq(&found, &buffer)),
        other => panic!("expected a hit, got {:?}", other),
    }
}

#[test]
fn after_the_fetch_the_key_is_no_longer_in_flight() {
    let mut cache = ObjectCache::new(1);
    assert!(matches!(cache.lookup("a"), Lookup::Fetch));
    cache.complete_fetch("a", bytes("1"));
    cache.complete_fetch("b", bytes("2"));
    assert!(matches!(cache.lookup("a"), Lookup::Fetch));
}

#[test]
fn least_recently_used_entry_leaves_first() {
    let mut cache = ObjectCache::new(2);
    cache.complete_fetch("a", bytes("1"));
    cache.complete_fetch("b", bytes("2"));
    assert_eq!(hit(cache.lookup("a")), b"1".to_vec());
    cache.complete_fetch("c", bytes("3"));
    assert!(matches!(cache.lookup("b"), Lookup::Fetch));
    assert_eq!(hit(cache.lookup("a")), b"1".to_vec());
    assert_eq!(hit(cache.lookup("c")), b"3".to_vec());
}

#[test]
fn storing_again_replaces_the_bytes_without_eviction() {
    let mut cache = ObjectCache::new(2);
    cache.complete_fetch("a", bytes("1"));
    cache.complete_fetch("b", bytes("2"));
    cache.complete_fetch("a", bytes("one"));
    assert_eq!(hit(cache.lookup("a")), b"one".to_vec());
    assert_eq!(hit(cache.lookup("b")), b"2".to_vec());
}

#[test]
fn put_refreshes_a_cached_key() {
    let mut cache = ObjectCache::new(100);
    cache.complete_fetch("k", bytes("old"));
    assert!(cache.refresh_on_put("k", &b"new".to_vec()));
    assert_eq!(hit(cache.lookup("k")), b"new".to_vec());
}

#[test]
fn put_does_not_bring_in_an_uncached_key() {
    let mut cache = ObjectCache::new(100);
    assert!(!cache.refresh_on_put("k", &b"new".to_vec()));
    assert!(matches!(cache.lookup("k"), Lookup::Fetch));
}

#[test]
fn put_counts_as_use() {
    let mut cache = ObjectCache::new(2);
    cache.complete_fetch("a", bytes("1"));
    cache.complete_fetch("b", bytes("2"));
    assert!(cache.refresh_on_put("a", &b"uno".to_vec()));
    cache.complete_fetch("c", bytes("3"));
    assert!(matches!(cache.lookup("b"), Lookup::Fetch));
    assert_eq!(hit(cache.lookup("a")), b"uno".to_vec());
}

#[test]
fn cache_of_one_entry_serves_its_waiters() {
    let mut cache = ObjectCache::new(1);
    assert!(matches!(cache.lookup("k"), Lookup::Fetch));
    assert!(matches!(cache.lookup("k"), Lookup::Wait));
    cache.complete_fetch("k", bytes("x"));
    assert_eq!(hit(cache.lookup("k")), b"x".to_vec());
    assert_eq!(hit(cache.lookup("k")), b"x".to_vec());
}

#[test]
fn abandoned_fetch_leaves_the_key_cold() {
    let mut cache = ObjectCache::new(4);
    assert!(matches!(cache.lookup("gone"), Lookup::Fetch));
    assert!(matches!(cache.lookup("gone"), Lookup::Wait));
    cache.abandon_fetch("gone");
    assert!(matches!(cache.lookup("gone"), Lookup::Fetch));
    assert!(matches!(cache.lookup("gone"), Lookup::Wait));
}

#[test]
fn abandoned_fetch_touches_nothing_else() {
    let mut cache = ObjectCache::new(4);
    cache.complete_fetch("kept", bytes("1"));
    assert!(matches!(cache.lookup("other"), Lookup::Fetch));
    assert!(matches!(cache.lookup("gone"), Lookup::Fetch));
    cache.abandon_fetch("gone");
    assert_eq!(hit(cache.lookup("kept")), b"1".to_vec());
    assert!(matches!(cache.lookup("other"), Lookup::Wait));
    cache.abandon_fetch("never asked for");
    assert!(matches!(cache.lookup("other"), Lookup::Wait));
}
