use polars_regex::engine::RegexEngine;
use polars_regex::lru::{LruCache, RegexKey};

fn key(p: &str) -> RegexKey {
    RegexKey::new(p, RegexEngine::Regex)
}

#[test]
fn keys_compare_engine_and_pattern() {
    assert!(key("a").same_as(&key("a")));
    assert!(!key("a").same_as(&key("b")));
    assert!(!key("a").same_as(&RegexKey::new("a", RegexEngine::Fancy)));
    assert!(key("a").duplicate().same_as(&key("a")));
}

#[test]
fn a_read_gives_back_what_was_written() {
    let mut cache: LruCache<u32> = LruCache::with_capacity(2);
    cache.insert(key("a"), 1);
    assert_eq!(cache.get(&key("a")), Some(&1));
    cache.insert(key("a"), 5);
    assert_eq!(cache.get(&key("a")), Some(&5));
    assert_eq!(cache.len(), 1);
    assert_eq!(cache.get(&key("b")), None);
}

#[test]
fn the_least_recently_used_entry_is_evicted() {
    let mut cache: LruCache<u32> = LruCache::with_capacity(2);
    cache.insert(key("a"), 1);
    cache.insert(key("b"), 2);
    assert_eq!(cache.get(&key("a")), Some(&1));
    cache.insert(key("c"), 3);
    assert_eq!(cache.len(), 2);
    assert_eq!(cache.get(&key("b")), None);
    assert_eq!(cache.get(&key("a")), Some(&1));
    assert_eq!(cache.get(&key("c")), Some(&3));
}

#[test]
fn remove_and_resize() {
    let mut cache: LruCache<u32> = LruCache::with_capacity(3);
    cache.insert(key("a"), 1);
    cache.insert(key("b"), 2);
    cache.insert(key("c"), 3);
    assert_eq!(cache.remove(&key("b")), Some(2));
    assert_eq!(cache.remove(&key("b")), None);
    cache.insert(key("d"), 4);
    cache.resize(1);
    assert_eq!(cache.capacity(), 1);
    assert_eq!(cache.len(), 1);
    assert_eq!(cache.get(&key("d")), Some(&4));
    assert_eq!(cache.get(&key("a")), None);
}

#[test]
fn peek_leaves_the_order_of_use_alone() {
    let mut cache: LruCache<u32> = LruCache::with_capacity(2);
    cache.insert(key("a"), 1);
    cache.insert(key("b"), 2);
    assert_eq!(cache.peek(&key("a")), Some(&1));
    assert_eq!(cache.peek(&key("c")), None);
    // "a" is still the least recently used, so it is the one dropped.
    cache.insert(key("c"), 3);
    assert_eq!(cache.peek(&key("a")), None);
    assert_eq!(cache.peek(&key("b")), Some(&2));
}
