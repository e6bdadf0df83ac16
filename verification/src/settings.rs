//! The settings that govern the cache of compiled patterns: how long a
//! shared entry lives, and how many entries the shared and the per-thread
//! caches hold.

use vstd::prelude::*;


verus! {

/// How long a shared cache entry lives by default: ten minutes, in milliseconds.
pub const DEFAULT_TTL_MS: usize = 10 * 60 * 1000;

/// How many entries the shared cache holds by default.
pub const DEFAULT_GLOBAL_CAPACITY: usize = 256;

/// How many entries each per-thread cache holds by default.
pub const DEFAULT_LOCAL_CAPACITY: usize = 64;

/// The current cache settings.
pub struct RegexCacheSettings {
    ttl_ms: usize,
    global_capacity: usize,
    local_capacity: usize,
}

impl RegexCacheSettings {
    /// The lifetime of a shared entry, in milliseconds.
    pub closed spec fn ttl(&self) -> usize {
        self.ttl_ms
    }

    /// The size of the shared cache.
    pub closed spec fn global_size(&self) -> usize {
        self.global_capacity
    }

    /// The size of each per-thread cache.
    pub closed spec fn local_size(&self) -> usize {
        self.local_capacity
    }

    /// The settings a process starts with.
    pub fn new() -> (settings: RegexCacheSettings)
        ensures
            settings.ttl() == DEFAULT_TTL_MS,
            settings.global_size() == DEFAULT_GLOBAL_CAPACITY,
            settings.local_size() == DEFAULT_LOCAL_CAPACITY,
    {
        RegexCacheSettings {
            ttl_ms: DEFAULT_TTL_MS,
            global_capacity: DEFAULT_GLOBAL_CAPACITY,
            local_capacity: DEFAULT_LOCAL_CAPACITY,
        }
    }
}

/// The value a setter stores: the requested value, or the default when none
/// is requested, and at least 1.
pub open spec fn requested_or_default(requested: Option<usize>, default: usize) -> usize {
    let v = match requested {
        Some(v) => v,
        None => default,
    };
    if v >= 1 {
        v
    } else {
        1
    }
}

/// The requested value, or the default when none is requested, raised to at least 1.
pub fn requested_at_least_one(requested: Option<usize>, default: usize) -> (v: usize)
    ensures
        v == requested_or_default(requested, default),
        v >= 1,
{
    let v = match requested {
        Some(v) => v,
        None => default,
    };
    if v >= 1 {
        v
    } else {
        1
    }
}

/// The lifetime of a shared entry, in milliseconds.
pub fn current_ttl(settings: &RegexCacheSettings) -> (ttl_ms: u64)
    ensures
        ttl_ms == settings.ttl(),
{
    settings.ttl_ms as u64
}

/// The size of the shared cache, at least 1.
pub fn current_global_capacity(settings: &RegexCacheSettings) -> (capacity: usize)
    ensures
        capacity == if settings.global_size() >= 1 { settings.global_size() } else { 1 },
{
    if settings.global_capacity >= 1 {
        settings.global_capacity
    } else {
        1
    }
}

/// The size of each per-thread cache, at least 1.
pub fn current_local_capacity(settings: &RegexCacheSettings) -> (capacity: usize)
    ensures
        capacity == if settings.local_size() >= 1 { settings.local_size() } else { 1 },
{
    if settings.local_capacity >= 1 {
        settings.local_capacity
    } else {
        1
    }
}

/// The lifetime of a shared entry, in milliseconds.
pub fn get_regex_cache_ttl_ms(settings: &RegexCacheSettings) -> (ttl_ms: usize)
    ensures
        ttl_ms == settings.ttl(),
{
    settings.ttl_ms
}

/// Sets the lifetime of a shared entry: `ttl_ms`, or the default when
/// `None`, and at least 1 millisecond. The other settings are kept.
pub fn set_regex_cache_ttl_ms(settings: &mut RegexCacheSettings, ttl_ms: Option<usize>)
    ensures
        final(settings).ttl() == requested_or_default(ttl_ms, DEFAULT_TTL_MS),
        final(settings).global_size() == old(settings).global_size(),
        final(settings).local_size() == old(settings).local_size(),
{
    let new_ttl_ms = requested_at_least_one(ttl_ms, DEFAULT_TTL_MS);
    if settings.ttl_ms == new_ttl_ms {
        return;
    }
    settings.ttl_ms = new_ttl_ms;
}

/// The size of the shared cache.
pub fn get_global_regex_cache_capacity(settings: &RegexCacheSettings) -> (capacity: usize)
    ensures
        capacity == settings.global_size(),
{
    settings.global_capacity
}

/// The size of each per-thread cache.
pub fn get_local_regex_cache_capacity(settings: &RegexCacheSettings) -> (capacity: usize)
    ensures
        capacity == settings.local_size(),
{
    settings.local_capacity
}

/// Stores a new size of the shared cache; tells whether it changed.
pub(crate) fn store_global_capacity(settings: &mut RegexCacheSettings, capacity: usize) -> (changed: bool)
    ensures
        final(settings).global_size() == capacity,
        final(settings).ttl() == old(settings).ttl(),
        final(settings).local_size() == old(settings).local_size(),
        changed == (old(settings).global_size() != capacity),
{
    if settings.global_capacity == capacity {
        return false;
    }
    settings.global_capacity = capacity;
    true
}

/// Stores a new size of the per-thread caches; tells whether it changed.
pub(crate) fn store_local_capacity(settings: &mut RegexCacheSettings, capacity: usize) -> (changed: bool)
    ensures
        final(settings).local_size() == capacity,
        final(settings).ttl() == old(settings).ttl(),
        final(settings).global_size() == old(settings).global_size(),
        changed == (old(settings).local_size() != capacity),
{
    if settings.local_capacity == capacity {
        return false;
    }
    settings.local_capacity = capacity;
    true
}

/// A setter stores what was asked for when that is at least 1, the
/// default when nothing was asked for, and never less than 1.
pub proof fn lemma_requested_or_default(requested: Option<usize>, default: usize)
    requires
        default >= 1,
    ensures
        requested_or_default(requested, default) >= 1,
        forall|v: usize| requested == Some(v) && v >= 1 ==> requested_or_default(requested, default) == v,
        requested == Some(0usize) ==> requested_or_default(requested, default) == 1,
        requested is None ==> requested_or_default(requested, default) == default,
{
}

} // verus!
