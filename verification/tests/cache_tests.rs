use polars_regex::adapter::RegexError;
use polars_regex::cache::{
    compile_regex, expired_after, insert_into_global, is_expired, now_instant, serve_if_fresh, set_global_regex_cache_capacity,
    set_local_regex_cache_capacity, try_get_from_global, GlobalRegexCache, RegexCache,
};
use polars_regex::adapter::RegexAdapter;
use polars_regex::engine::RegexEngine;
use polars_regex::lru::RegexKey;
use polars_regex::settings::{
    current_global_capacity, current_local_capacity, current_ttl, get_global_regex_cache_capacity,
    get_local_regex_cache_capacity, get_regex_cache_ttl_ms, set_regex_cache_ttl_ms, RegexCacheSettings,
};
use std::sync::Arc;

#[test]
fn settings_start_at_their_defaults() {
    let s = RegexCacheSettings::new();
    assert_eq!(get_regex_cache_ttl_ms(&s), 600_000);
    assert_eq!(get_global_regex_cache_capacity(&s), 256);
    assert_eq!(get_local_regex_cache_capacity(&s), 64);
    assert_eq!(current_ttl(&s), 600_000);
    assert_eq!(current_global_capacity(&s), 256);
    assert_eq!(current_local_capacity(&s), 64);
}

#[test]
fn ttl_setting_defaults_and_clamps() {
    let mut s = RegexCacheSettings::new();
    set_regex_cache_ttl_ms(&mut s, Some(5));
    assert_eq!(get_regex_cache_ttl_ms(&s), 5);
    set_regex_cache_ttl_ms(&mut s, Some(0));
    assert_eq!(get_regex_cache_ttl_ms(&s), 1);
    set_regex_cache_ttl_ms(&mut s, None);
    assert_eq!(get_regex_cache_ttl_ms(&s), 600_000);
}

#[test]
fn capacity_settings_resize_the_caches() {
    let mut s = RegexCacheSettings::new();
    let mut global = GlobalRegexCache::new(&s);
    let mut local = RegexCache::new(&s);
    set_global_regex_cache_capacity(&mut s, &mut global, Some(0));
    assert_eq!(get_global_regex_cache_capacity(&s), 1);
    set_local_regex_cache_capacity(&mut s, &mut local, Some(3));
    assert_eq!(get_local_regex_cache_capacity(&s), 3);
    set_global_regex_cache_capacity(&mut s, &mut global, None);
    assert_eq!(get_global_regex_cache_capacity(&s), 256);
    set_local_regex_cache_capacity(&mut s, &mut local, None);
    assert_eq!(get_local_regex_cache_capacity(&s), 64);
}

#[test]
fn expiry_compares_age_with_the_time_to_live() {
    assert!(!expired_after(9, 10));
    assert!(expired_after(10, 10));
    assert!(expired_after(11, 10));
    let s = RegexCacheSettings::new();
    assert!(!is_expired(&now_instant(), &s));
}

#[test]
fn compiling_twice_serves_the_same_pattern() {
    let s = RegexCacheSettings::new();
    let mut global = GlobalRegexCache::new(&s);
    let mut local = RegexCache::new(&s);
    for _ in 0..3 {
        let re = compile_regex(&mut local, &mut global, &s, r"\d+", RegexEngine::Fancy).unwrap();
        assert_eq!(re.as_str(), r"\d+");
        assert_eq!(re.engine(), RegexEngine::Fancy);
        assert_eq!(re.count_matches("1 22 333"), 3);
    }
    let re = compile_regex(&mut local, &mut global, &s, r"\d+", RegexEngine::Regex).unwrap();
    assert_eq!(re.engine(), RegexEngine::Regex);
}

#[test]
fn compiling_an_invalid_pattern_fails_each_time() {
    let s = RegexCacheSettings::new();
    let mut global = GlobalRegexCache::new(&s);
    let mut local = RegexCache::new(&s);
    for _ in 0..2 {
        match compile_regex(&mut local, &mut global, &s, "(", RegexEngine::Regex) {
            Err(RegexError::ComputeError(m)) => assert!(m.contains("unclosed group")),
            Ok(_) => panic!("accepted an invalid pattern"),
        }
    }
}

#[test]
fn the_shared_cache_serves_fresh_entries() {
    let s = RegexCacheSettings::new();
    let mut global = GlobalRegexCache::new(&s);
    let key = RegexKey::new("ab", RegexEngine::Regex);
    assert!(try_get_from_global(&mut global, &key, &s).is_none());
    let shared = Arc::new(RegexAdapter::new("ab", RegexEngine::Regex).unwrap());
    insert_into_global(&mut global, key.duplicate(), shared);
    let found = try_get_from_global(&mut global, &key, &s).unwrap();
    assert_eq!(found.as_str(), "ab");
}

#[test]
fn the_shared_cache_drops_expired_entries() {
    let mut s = RegexCacheSettings::new();
    let mut global = GlobalRegexCache::new(&s);
    let key = RegexKey::new("ab", RegexEngine::Regex);
    let shared = Arc::new(RegexAdapter::new("ab", RegexEngine::Regex).unwrap());
    insert_into_global(&mut global, key.duplicate(), shared);
    set_regex_cache_ttl_ms(&mut s, Some(1));
    let start = std::time::Instant::now();
    while start.elapsed().as_millis() < 3 {}
    assert!(try_get_from_global(&mut global, &key, &s).is_none());
    assert!(try_get_from_global(&mut global, &key, &s).is_none());
}

#[test]
fn a_pattern_stays_usable_after_the_local_cache_shrinks() {
    let mut s = RegexCacheSettings::new();
    let mut global = GlobalRegexCache::new(&s);
    let mut local = RegexCache::new(&s);
    set_local_regex_cache_capacity(&mut s, &mut local, Some(1));
    let a = compile_regex(&mut local, &mut global, &s, "a", RegexEngine::Regex).unwrap();
    let b = compile_regex(&mut local, &mut global, &s, "b", RegexEngine::Regex).unwrap();
    let a2 = compile_regex(&mut local, &mut global, &s, "a", RegexEngine::Regex).unwrap();
    assert_eq!((a.as_str(), b.as_str(), a2.as_str()), ("a", "b", "a"));
}

#[test]
fn the_shared_cache_has_the_size_of_the_settings() {
    let mut s = RegexCacheSettings::new();
    let mut global = GlobalRegexCache::new(&s);
    assert_eq!(global.capacity(), 256);
    set_global_regex_cache_capacity(&mut s, &mut global, Some(256));
    assert_eq!(global.capacity(), 256);
    set_global_regex_cache_capacity(&mut s, &mut global, Some(2));
    assert_eq!(global.capacity(), 2);
    set_global_regex_cache_capacity(&mut s, &mut global, Some(0));
    assert_eq!(global.capacity(), 1);
}

#[test]
fn a_compiled_pattern_is_published_to_the_shared_cache() {
    let s = RegexCacheSettings::new();
    let mut global = GlobalRegexCache::new(&s);
    let mut local = RegexCache::new(&s);
    let re = compile_regex(&mut local, &mut global, &s, "a+b", RegexEngine::Fancy).unwrap();
    assert_eq!(re.as_str(), "a+b");
    let key = RegexKey::new("a+b", RegexEngine::Fancy);
    let shared = try_get_from_global(&mut global, &key, &s).unwrap();
    assert_eq!(shared.as_str(), "a+b");
    assert_eq!(shared.engine(), RegexEngine::Fancy);
    let other = RegexKey::new("a+b", RegexEngine::Regex);
    assert!(try_get_from_global(&mut global, &other, &s).is_none());
}

#[test]
fn a_rejected_pattern_is_published_nowhere() {
    let s = RegexCacheSettings::new();
    let mut global = GlobalRegexCache::new(&s);
    let mut local = RegexCache::new(&s);
    assert!(compile_regex(&mut local, &mut global, &s, "a(", RegexEngine::Fancy).is_err());
    let key = RegexKey::new("a(", RegexEngine::Fancy);
    assert!(try_get_from_global(&mut global, &key, &s).is_none());
}

#[test]
fn the_shared_cache_serves_an_entry_younger_than_the_time_to_live() {
    let s = RegexCacheSettings::new();
    let mut global = GlobalRegexCache::new(&s);
    let key = RegexKey::new("ab", RegexEngine::Regex);
    assert!(serve_if_fresh(&mut global, &key, 0, &s).is_none());
    let shared = Arc::new(RegexAdapter::new("ab", RegexEngine::Regex).unwrap());
    insert_into_global(&mut global, key.duplicate(), shared);
    assert_eq!(serve_if_fresh(&mut global, &key, 599_999, &s).unwrap().as_str(), "ab");
    assert!(serve_if_fresh(&mut global, &key, 600_000, &s).is_none());
    // The expired entry was dropped.
    assert!(serve_if_fresh(&mut global, &key, 0, &s).is_none());
}
