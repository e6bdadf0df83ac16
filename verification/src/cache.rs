//! Compiled patterns are cached twice: a shared cache whose entries expire
//! after a time to live, and a per-thread cache of weak references to the
//! shared entries, so that compiled structures are not duplicated per thread.

use std::sync::Arc;

use vstd::prelude::*;

use crate::adapter::{compiles, RegexAdapter, RegexError};
use crate::engine::RegexEngine;
use crate::lru::{lookup, LruCache, RegexKey};
use crate::settings::{
    current_local_capacity, current_global_capacity, current_ttl, requested_at_least_one, requested_or_default,
    store_global_capacity, store_local_capacity, RegexCacheSettings, DEFAULT_GLOBAL_CAPACITY,
    DEFAULT_LOCAL_CAPACITY,
};

verus! {

#[verifier::external_type_specification]
#[verifier::external_body]
pub struct ExInstant(std::time::Instant);

/// `adapter` is the compiled form of the pattern and engine of `key`.
pub open spec fn compiled_for(adapter: RegexAdapter, key: (RegexEngine, Seq<char>)) -> bool {
    adapter.engine_of() == key.0 && adapter.source() == key.1
}

/// Every key of `entries` names a pattern that its engine compiles.
pub open spec fn keys_compile<V>(entries: Seq<((RegexEngine, Seq<char>), V)>) -> bool {
    forall|i: int| 0 <= i < entries.len() ==> compiles((#[trigger] entries[i]).0.1, entries[i].0.0)
}

/// Entries whose keys all compile hold nothing under a key that does not.
proof fn lemma_uncompilable_absent<V>(entries: Seq<((RegexEngine, Seq<char>), V)>, key: (RegexEngine, Seq<char>))
    requires
        keys_compile(entries),
        !compiles(key.1, key.0),
    ensures
        lookup(entries, key) is None,
{
    if lookup(entries, key) is Some {
        let i = choose|i: int| 0 <= i < entries.len() && (#[trigger] entries[i]).0 == key;
        assert(compiles(entries[i].0.1, entries[i].0.0));
    }
}

/// Whether an entry created `elapsed_ms` milliseconds ago has outlived a time
/// to live of `ttl_ms` milliseconds.
pub fn expired_after(elapsed_ms: u128, ttl_ms: u64) -> (expired: bool)
    ensures
        expired == (elapsed_ms >= ttl_ms),
{
    elapsed_ms >= ttl_ms as u128
}

/// The current instant.
pub fn now_instant() -> std::time::Instant {
    current_instant()
}

/// Whether an entry created at `created_at` has outlived the time to live
/// of `settings`; this depends on the clock, see [`expired_after`].
pub fn is_expired(created_at: &std::time::Instant, settings: &RegexCacheSettings) -> bool {
    expired_after(elapsed_millis(created_at), current_ttl(settings))
}

/// Calls `std::time::Instant::now`. Nothing is claimed of the clock.
#[verifier::external_body]
fn current_instant() -> std::time::Instant {
    std::time::Instant::now()
}

/// Calls `std::time::Instant::elapsed` and reads the whole milliseconds with
/// `std::time::Duration::as_millis`. Nothing is claimed of the clock.
#[verifier::external_body]
fn elapsed_millis(since: &std::time::Instant) -> u128 {
    since.elapsed().as_millis()
}

/// Calls `Clone::clone` on an `Arc`, which points to the same value.
/// Claimed: the value is the same.
#[verifier::external_body]
fn share(shared: &Arc<RegexAdapter>) -> (copy: Arc<RegexAdapter>)
    ensures
        *copy == **shared,
{
    Arc::clone(shared)
}

/// A weak reference to a shared compiled pattern, which does not keep it
/// alive. (`std::sync::Weak` has an allocator parameter, so it is held here
/// rather than declared.)
#[verifier::external_body]
pub struct SharedRef {
    target: std::sync::Weak<RegexAdapter>,
}

impl SharedRef {
    /// Calls `std::sync::Arc::downgrade`. Nothing is claimed.
    #[verifier::external_body]
    fn to(shared: &Arc<RegexAdapter>) -> SharedRef {
        SharedRef { target: Arc::downgrade(shared) }
    }

    /// Calls `std::sync::Weak::upgrade`. Nothing is claimed: the value may
    /// have been dropped since.
    #[verifier::external_body]
    fn upgrade(&self) -> Option<Arc<RegexAdapter>> {
        self.target.upgrade()
    }
}

/// An entry of the shared cache: the compiled pattern and when it was made.
pub struct GlobalRegexEntry {
    compiled: Arc<RegexAdapter>,
    created_at: std::time::Instant,
}

impl GlobalRegexEntry {
    /// The compiled pattern of the entry.
    pub closed spec fn adapter(&self) -> RegexAdapter {
        *self.compiled
    }
}

/// The shared cache of compiled patterns, from least to most recently used.
pub struct GlobalRegexCache {
    entries: LruCache<GlobalRegexEntry>,
}

impl GlobalRegexCache {
    /// The keys of the entries and their compiled patterns, from least to
    /// most recently used.
    pub closed spec fn contents(&self) -> Seq<((RegexEngine, Seq<char>), GlobalRegexEntry)> {
        self.entries.contents()
    }

    /// The number of entries the cache may hold.
    pub closed spec fn limit(&self) -> nat {
        self.entries.limit()
    }

    /// The cache is well formed and each entry holds the compiled form of its key.
    pub open spec fn wf(&self) -> bool {
        &&& self.limit() >= 1
        &&& self.contents().len() <= self.limit()
        &&& crate::lru::distinct_keys(self.contents())
        &&& keys_compile(self.contents())
        &&& forall|i: int|
            0 <= i < self.contents().len() ==> compiled_for((#[trigger] self.contents()[i]).1.adapter(), self.contents()[i].0)
    }

    /// The number of entries the cache may hold.
    pub fn capacity(&self) -> (n: usize)
        ensures
            n == self.limit(),
    {
        self.entries.capacity()
    }

    /// An empty shared cache sized by `settings`.
    pub fn new(settings: &RegexCacheSettings) -> (cache: GlobalRegexCache)
        ensures
            cache.wf(),
            cache.contents().len() == 0,
            cache.limit() == if settings.global_size() >= 1 { settings.global_size() } else { 1 },
    {
        GlobalRegexCache { entries: LruCache::with_capacity(current_global_capacity(settings)) }
    }

    /// Changes how many entries the cache holds, dropping the least recently
    /// used ones that no longer fit.
    pub fn resize(&mut self, capacity: usize)
        requires
            old(self).wf(),
            capacity >= 1,
        ensures
            final(self).wf(),
            final(self).limit() == capacity,
            final(self).contents() == if old(self).contents().len() <= capacity {
                old(self).contents()
            } else {
                old(self).contents().subrange(old(self).contents().len() - capacity, old(self).contents().len() as int)
            },
    {
        let ghost before = self.contents();
        self.entries.resize(capacity);
        proof {
            let after = self.contents();
            assert forall|i: int| 0 <= i < after.len() implies compiled_for((#[trigger] after[i]).1.adapter(), after[i].0)
                && compiles(after[i].0.1, after[i].0.0) by {
                if before.len() > capacity {
                    assert(after[i] == before[before.len() - capacity + i]);
                }
            }
        }
    }
}

/// The shared compiled pattern stored under `key`, whose entry was created
/// `elapsed_ms` milliseconds ago: served while that is less than the time to
/// live of `settings`, the entry then becoming the most recently used;
/// dropped otherwise. The other entries stay as they were.
pub fn serve_if_fresh(
    global: &mut GlobalRegexCache,
    key: &RegexKey,
    elapsed_ms: u128,
    settings: &RegexCacheSettings,
) -> (shared: Option<Arc<RegexAdapter>>)
    requires
        old(global).wf(),
    ensures
        shared is Some <==> lookup(old(global).contents(), key@) is Some && elapsed_ms < settings.ttl(),
        lookup(old(global).contents(), key@) is Some && elapsed_ms >= settings.ttl() ==> exists|i: int|
            0 <= i < old(global).contents().len() && (#[trigger] old(global).contents()[i]).0 == key@
                && final(global).contents() == old(global).contents().remove(i),
        final(global).wf(),
        final(global).limit() == old(global).limit(),
        shared matches Some(a) ==> compiled_for(*a, key@) && lookup(final(global).contents(), key@) is Some,
        shared is None ==> lookup(final(global).contents(), key@) is None,
        lookup(old(global).contents(), key@) is None ==> shared is None && final(global).contents() == old(global).contents(),
        shared matches Some(a) ==> exists|i: int|
            0 <= i < old(global).contents().len() && (#[trigger] old(global).contents()[i]).0 == key@
                && *a == old(global).contents()[i].1.adapter()
                && final(global).contents() == old(global).contents().remove(i).push(old(global).contents()[i]),
{
    let ghost before = global.contents();
    let found = match global.entries.get(key) {
        Some(entry) => {
            if expired_after(elapsed_ms, current_ttl(settings)) {
                None
            } else {
                Some(share(&entry.compiled))
            }
        },
        None => {
            return None;
        },
    };
    let ghost mid = global.contents();
    let ghost i = choose|i: int| 0 <= i < before.len() && (#[trigger] before[i]).0 == key@
        && mid == before.remove(i).push(before[i]);
    proof {
        crate::lru::lemma_lookup_at(before, i);
        assert forall|j: int| 0 <= j < mid.len() implies compiled_for((#[trigger] mid[j]).1.adapter(), mid[j].0)
            && compiles(mid[j].0.1, mid[j].0.0) by {
            if j < i {
                assert(mid[j] == before[j]);
            } else if j < mid.len() - 1 {
                assert(mid[j] == before[j + 1]);
            }
        }
        crate::lru::lemma_lookup_at(mid, mid.len() - 1);
    }
    match found {
        Some(a) => Some(a),
        None => {
            global.entries.remove(key);
            proof {
                let after = global.contents();
                let k = choose|k: int| 0 <= k < mid.len() && (#[trigger] mid[k]).0 == key@ && after == mid.remove(k);
                if k != mid.len() - 1 {
                    assert(mid[k].0 != mid[mid.len() - 1].0);
                }
                assert(after =~= before.remove(i));
                assert forall|j: int| 0 <= j < after.len() implies compiled_for((#[trigger] after[j]).1.adapter(), after[j].0)
                    && compiles(after[j].0.1, after[j].0.0) by {
                    assert(after[j] == mid[j]);
                }
            }
            None
        },
    }
}

/// The shared compiled pattern stored under `key`, unless its entry has
/// outlived the time to live, in which case the entry is dropped; the age
/// of the entry is read from the clock and the decision is
/// [`serve_if_fresh`]'s. A served entry becomes the most recently used; the
/// other entries stay as they were.
pub fn try_get_from_global(global: &mut GlobalRegexCache, key: &RegexKey, settings: &RegexCacheSettings) -> (shared: Option<Arc<RegexAdapter>>)
    requires
        old(global).wf(),
    ensures
        final(global).wf(),
        final(global).limit() == old(global).limit(),
        shared matches Some(a) ==> compiled_for(*a, key@) && lookup(final(global).contents(), key@) is Some,
        shared is None ==> lookup(final(global).contents(), key@) is None,
        lookup(old(global).contents(), key@) is None ==> shared is None && final(global).contents() == old(global).contents(),
        shared matches Some(a) ==> exists|i: int|
            0 <= i < old(global).contents().len() && (#[trigger] old(global).contents()[i]).0 == key@
                && *a == old(global).contents()[i].1.adapter()
                && final(global).contents() == old(global).contents().remove(i).push(old(global).contents()[i]),
        shared is None && lookup(old(global).contents(), key@) is Some ==> exists|i: int|
            0 <= i < old(global).contents().len() && (#[trigger] old(global).contents()[i]).0 == key@
                && final(global).contents() == old(global).contents().remove(i),
{
    let elapsed_ms = match global.entries.peek(key) {
        Some(entry) => elapsed_millis(&entry.created_at),
        None => 0,
    };
    serve_if_fresh(global, key, elapsed_ms, settings)
}

/// Stores `value` in the shared cache under `key`, created now.
pub fn insert_into_global(global: &mut GlobalRegexCache, key: RegexKey, value: Arc<RegexAdapter>)
    requires
        old(global).wf(),
        compiled_for(*value, key@),
        compiles(key@.1, key@.0),
    ensures
        final(global).wf(),
        final(global).limit() == old(global).limit(),
        lookup(final(global).contents(), key@) matches Some(entry) && entry.adapter() == *value,
        final(global).contents().len() > 0 && final(global).contents().last().0 == key@,
{
    let ghost before = global.contents();
    let ghost k = key@;
    let entry = GlobalRegexEntry { compiled: value, created_at: now_instant() };
    global.entries.insert(key, entry);
    proof {
        let after = global.contents();
        assert forall|j: int| 0 <= j < after.len() implies compiled_for((#[trigger] after[j]).1.adapter(), after[j].0)
            && compiles(after[j].0.1, after[j].0.0) by {
            if j < after.len() - 1 {
                if lookup(before, k) is Some {
                    let i = choose|i: int| 0 <= i < before.len() && (#[trigger] before[i]).0 == k;
                    if j < i {
                        assert(after[j] == before[j]);
                    } else {
                        assert(after[j] == before[j + 1]);
                    }
                } else if before.len() == global.limit() {
                    assert(after[j] == before[j + 1]);
                } else {
                    assert(after[j] == before[j]);
                }
            }
        }
    }
}

/// A per-thread cache of weak references to shared compiled patterns.
pub struct RegexCache {
    cache: LruCache<SharedRef>,
    capacity: usize,
}

impl RegexCache {
    /// The size the cache was last set to.
    pub closed spec fn size(&self) -> usize {
        self.capacity
    }

    /// The keys of the entries and their weak references, from least to
    /// most recently used.
    pub closed spec fn contents(&self) -> Seq<((RegexEngine, Seq<char>), SharedRef)> {
        self.cache.contents()
    }

    /// The cache holds at most its size in entries, each under the key of a
    /// pattern that compiles.
    pub closed spec fn wf(&self) -> bool {
        &&& self.cache.wf()
        &&& self.cache.limit() == self.capacity
        &&& keys_compile(self.cache.contents())
    }

    /// An empty per-thread cache sized by `settings`.
    pub fn new(settings: &RegexCacheSettings) -> (cache: RegexCache)
        ensures
            cache.wf(),
            cache.size() == if settings.local_size() >= 1 { settings.local_size() } else { 1 },
            cache.contents().len() == 0,
    {
        let capacity = current_local_capacity(settings);
        RegexCache { cache: LruCache::with_capacity(capacity), capacity }
    }

    /// Resizes the cache to the per-thread size of `settings`, if that changed.
    pub fn ensure_local_capacity_uptodate(&mut self, settings: &RegexCacheSettings)
        requires
            old(self).wf(),
        ensures
            final(self).wf(),
            final(self).size() == if settings.local_size() >= 1 { settings.local_size() } else { 1 },
            final(self).contents() == if old(self).contents().len() <= final(self).size() {
                old(self).contents()
            } else {
                old(self).contents().subrange(
                    old(self).contents().len() - final(self).size(),
                    old(self).contents().len() as int,
                )
            },
    {
        let ghost before = self.cache.contents();
        let new_capacity = current_local_capacity(settings);
        if new_capacity == self.capacity {
            return;
        }
        self.cache.resize(new_capacity);
        self.capacity = new_capacity;
        proof {
            let after = self.cache.contents();
            assert forall|j: int| 0 <= j < after.len() implies compiles((#[trigger] after[j]).0.1, after[j].0.0) by {
                if before.len() > new_capacity {
                    assert(after[j] == before[before.len() - new_capacity + j]);
                }
            }
        }
    }

    /// Remembers `shared` under `key`, resizing the cache first if the
    /// settings changed.
    fn remember(&mut self, settings: &RegexCacheSettings, key: RegexKey, shared: &Arc<RegexAdapter>)
        requires
            old(self).wf(),
            compiles(key@.1, key@.0),
        ensures
            final(self).wf(),
            final(self).size() == if settings.local_size() >= 1 { settings.local_size() } else { 1 },
            lookup(final(self).contents(), key@) is Some,
            final(self).contents().len() > 0 && final(self).contents().last().0 == key@,
    {
        self.ensure_local_capacity_uptodate(settings);
        let ghost before = self.cache.contents();
        let ghost k = key@;
        self.cache.insert(key, SharedRef::to(shared));
        proof {
            let after = self.cache.contents();
            assert forall|j: int| 0 <= j < after.len() implies compiles((#[trigger] after[j]).0.1, after[j].0.0) by {
                if j < after.len() - 1 {
                    if lookup(before, k) is Some {
                        let i = choose|i: int| 0 <= i < before.len() && (#[trigger] before[i]).0 == k;
                        if j < i {
                            assert(after[j] == before[j]);
                        } else {
                            assert(after[j] == before[j + 1]);
                        }
                    } else if before.len() == self.cache.limit() {
                        assert(after[j] == before[j + 1]);
                    } else {
                        assert(after[j] == before[j]);
                    }
                }
            }
        }
    }

    /// The compiled form of `re_str` for `engine`: from this thread's cache
    /// while the shared pattern it refers to is alive, else from the shared
    /// cache while its entry is fresh, else compiled anew and published to
    /// both. Fails exactly when the engine rejects the pattern, with the
    /// engine's message; a pattern that fails is cached nowhere.
    pub fn compile(
        &mut self,
        global: &mut GlobalRegexCache,
        settings: &RegexCacheSettings,
        re_str: &str,
        engine: RegexEngine,
    ) -> (compiled: Result<RegexAdapter, RegexError>)
        requires
            old(self).wf(),
            old(global).wf(),
        ensures
            final(self).wf(),
            final(global).wf(),
            final(global).limit() == old(global).limit(),
            compiled is Ok <==> compiles(re_str@, engine),
            match compiled {
                Ok(re) => compiled_for(re, (engine, re_str@)) && re.automaton_source() == re_str@,
                Err(RegexError::ComputeError(message)) => match engine {
                    RegexEngine::Regex => crate::std_engine::regex_build_error(re_str@) == Some(message@),
                    RegexEngine::Fancy => crate::fancy_engine::fancy_build_error(re_str@) == Some(message@),
                },
            },
            compiled is Ok ==> lookup(final(self).contents(), (engine, re_str@)) is Some,
            compiled is Ok ==> lookup(final(global).contents(), (engine, re_str@)) is Some
                || final(global).contents() == old(global).contents(),
            compiled is Ok && lookup(old(self).contents(), (engine, re_str@)) is None
                ==> lookup(final(global).contents(), (engine, re_str@)) is Some
                && final(self).size() == if settings.local_size() >= 1 { settings.local_size() } else { 1 },
            compiled is Ok ==> {
                // Served from this thread's cache: its entry becomes the most
                // recently used, and nothing else changes.
                ||| exists|i: int|
                    0 <= i < old(self).contents().len() && (#[trigger] old(self).contents()[i]).0 == (engine, re_str@)
                        && final(self).contents() == old(self).contents().remove(i).push(old(self).contents()[i])
                        && final(self).size() == old(self).size()
                        && final(global).contents() == old(global).contents()
                // Otherwise (no entry, or one whose shared pattern is gone): the
                // pattern is the most recently used of the shared cache and of
                // this thread's cache, resized first to the per-thread setting.
                ||| final(self).size() == (if settings.local_size() >= 1 { settings.local_size() } else { 1 })
                        && final(self).contents().len() > 0
                        && final(self).contents().last().0 == (engine, re_str@)
                        && final(global).contents().len() > 0
                        && final(global).contents().last().0 == (engine, re_str@)
            },
            final(self).contents().len() <= final(self).size(),
            final(self).size() >= 1,
            compiled is Err ==> final(self).contents() == old(self).contents()
                && final(self).size() == old(self).size()
                && final(global).contents() == old(global).contents(),
    {
        let key = RegexKey::new(re_str, engine);
        proof {
            if !compiles(re_str@, engine) {
                lemma_uncompilable_absent(self.cache.contents(), key@);
                lemma_uncompilable_absent(global.contents(), key@);
            }
        }

        // This thread's weak reference, while the shared pattern lives.
        let ghost before = self.cache.contents();
        let local = match self.cache.get(&key) {
            Some(weak) => weak.upgrade(),
            None => None,
        };
        proof {
            let after = self.cache.contents();
            if lookup(before, key@) is Some {
                let i = choose|i: int| 0 <= i < before.len() && (#[trigger] before[i]).0 == key@
                    && after == before.remove(i).push(before[i]);
                assert forall|j: int| 0 <= j < after.len() implies compiles((#[trigger] after[j]).0.1, after[j].0.0) by {
                    if j < i {
                        assert(after[j] == before[j]);
                    } else if j < after.len() - 1 {
                        assert(after[j] == before[j + 1]);
                    } else {
                        assert(after[j] == before[i]);
                    }
                }
            }
        }
        if let Some(shared) = local {
            // The weak reference carries no promise about its target, so the
            // target is checked against the key before it is served.
            if shared.engine() == engine && crate::text::str_equal(shared.as_str(), re_str) {
                proof {
                    let c = self.cache.contents();
                    crate::lru::lemma_lookup_at(c, c.len() - 1);
                }
                return Ok((*shared).clone());
            }
        }

        // The shared cache, while its entry is fresh.
        if let Some(shared) = try_get_from_global(global, &key, settings) {
            let served = (*shared).clone();
            self.remember(settings, key.duplicate(), &shared);
            return Ok(served);
        }

        // Compile anew.
        let fresh = match RegexAdapter::new(re_str, engine) {
            Ok(re) => re,
            Err(e) => {
                return Err(e);
            },
        };

        if let Some(shared) = try_get_from_global(global, &key, settings) {
            let served = (*shared).clone();
            self.remember(settings, key.duplicate(), &shared);
            return Ok(served);
        }

        let shared = Arc::new(fresh);
        insert_into_global(global, key.duplicate(), share(&shared));
        self.remember(settings, key, &shared);
        Ok((*shared).clone())
    }
}

/// A well-formed per-thread cache holds at most its size in entries, its
/// size is at least 1, and no key occurs twice.
pub proof fn lemma_local_cache_bounded(cache: &RegexCache)
    requires
        cache.wf(),
    ensures
        cache.contents().len() <= cache.size(),
        cache.size() >= 1,
        crate::lru::distinct_keys(cache.contents()),
{
}

/// Two compiled forms of one key behave alike: every search, capture and
/// replacement gives the same result on every text. So a pattern served
/// from either cache acts as if it had just been compiled.
pub proof fn lemma_same_key_same_behaviour(a: RegexAdapter, b: RegexAdapter, key: (RegexEngine, Seq<char>))
    requires
        compiled_for(a, key),
        compiled_for(b, key),
    ensures
        a.group_count() == b.group_count(),
        a.group_names() == b.group_names(),
        forall|text: Seq<char>| #![trigger a.match_spans(text), b.match_spans(text)]
            {
                &&& a.finds_match(text) == b.finds_match(text)
                &&& a.first_match(text) == b.first_match(text)
                &&& a.match_spans(text) == b.match_spans(text)
                &&& a.first_captures(text) == b.first_captures(text)
                &&& a.all_captures(text) == b.all_captures(text)
            },
        forall|text: Seq<char>, replacement: Seq<char>|
            #![trigger a.replaced_all(text, replacement), b.replaced_all(text, replacement)]
            a.replaced_first(text, replacement) == b.replaced_first(text, replacement)
                && a.replaced_all(text, replacement) == b.replaced_all(text, replacement),
{
}

/// Compiles `re` for `engine` through this thread's cache `local` and the
/// shared cache `global`; see [`RegexCache::compile`].
pub fn compile_regex(
    local: &mut RegexCache,
    global: &mut GlobalRegexCache,
    settings: &RegexCacheSettings,
    re: &str,
    engine: RegexEngine,
) -> (compiled: Result<RegexAdapter, RegexError>)
    requires
        old(local).wf(),
        old(global).wf(),
    ensures
        final(local).wf(),
        final(global).wf(),
        final(global).limit() == old(global).limit(),
        compiled is Ok <==> compiles(re@, engine),
        match compiled {
            Ok(r) => compiled_for(r, (engine, re@)) && r.automaton_source() == re@,
            Err(RegexError::ComputeError(message)) => match engine {
                RegexEngine::Regex => crate::std_engine::regex_build_error(re@) == Some(message@),
                RegexEngine::Fancy => crate::fancy_engine::fancy_build_error(re@) == Some(message@),
            },
        },
{
    local.compile(global, settings, re, engine)
}

/// Whatever either cache holds, a pattern that [`compile_regex`] serves for
/// `re` and `engine` is compiled by that engine and searches with the
/// automaton built from `re` itself, as a fresh compilation of `re` would.
pub proof fn law_compiled_pattern_searches_with_its_source(
    local: &mut RegexCache,
    global: &mut GlobalRegexCache,
    settings: &RegexCacheSettings,
    re: &str,
    engine: RegexEngine,
    compiled: Result<RegexAdapter, RegexError>,
)
    requires
        call_ensures(compile_regex, (local, global, settings, re, engine), compiled),
    ensures
        compiled matches Ok(r) ==> r.source() == re@ && r.engine_of() == engine && r.automaton_source() == re@,
        compiled is Ok <==> compiles(re@, engine),
{
}

/// Sets the size of the shared cache: `capacity`, or the default when
/// `None`, and at least 1. The shared cache is resized, dropping its least
/// recently used entries that no longer fit, unless it already has that size
/// and the setting did not change.
pub fn set_global_regex_cache_capacity(
    settings: &mut RegexCacheSettings,
    global: &mut GlobalRegexCache,
    capacity: Option<usize>,
)
    requires
        old(global).wf(),
    ensures
        final(global).wf(),
        final(global).limit() == final(settings).global_size(),
        final(settings).global_size() == requested_or_default(capacity, DEFAULT_GLOBAL_CAPACITY),
        final(settings).ttl() == old(settings).ttl(),
        final(settings).local_size() == old(settings).local_size(),
        final(global).contents() == if old(global).contents().len() <= final(global).limit() {
            old(global).contents()
        } else {
            old(global).contents().subrange(
                old(global).contents().len() - final(global).limit(),
                old(global).contents().len() as int,
            )
        },
{
    let new_capacity = requested_at_least_one(capacity, DEFAULT_GLOBAL_CAPACITY);
    let changed = store_global_capacity(settings, new_capacity);
    if !changed && global.capacity() == new_capacity {
        proof {
            let c = global.contents();
            assert(c.subrange(0, c.len() as int) =~= c);
        }
        return;
    }
    global.resize(new_capacity);
}

/// Sets the size of the per-thread caches: `capacity`, or the default when
/// `None`, and at least 1; this thread's cache `local` is resized at once,
/// other threads' caches when they next store an entry.
pub fn set_local_regex_cache_capacity(
    settings: &mut RegexCacheSettings,
    local: &mut RegexCache,
    capacity: Option<usize>,
)
    requires
        old(local).wf(),
    ensures
        final(local).wf(),
        final(local).contents().len() <= final(local).size(),
        final(local).size() >= 1,
        final(settings).local_size() == requested_or_default(capacity, DEFAULT_LOCAL_CAPACITY),
        final(settings).ttl() == old(settings).ttl(),
        final(settings).global_size() == old(settings).global_size(),
        old(settings).local_size() != requested_or_default(capacity, DEFAULT_LOCAL_CAPACITY)
            ==> final(local).size() == requested_or_default(capacity, DEFAULT_LOCAL_CAPACITY)
            && final(local).contents() == if old(local).contents().len() <= final(local).size() {
                old(local).contents()
            } else {
                old(local).contents().subrange(
                    old(local).contents().len() - final(local).size(),
                    old(local).contents().len() as int,
                )
            },
        old(settings).local_size() == requested_or_default(capacity, DEFAULT_LOCAL_CAPACITY)
            ==> final(local).contents() == old(local).contents() && final(local).size() == old(local).size(),
{
    let new_capacity = requested_at_least_one(capacity, DEFAULT_LOCAL_CAPACITY);
    if !store_local_capacity(settings, new_capacity) {
        return;
    }
    local.ensure_local_capacity_uptodate(settings);
}

} // verus!
