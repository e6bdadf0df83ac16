//! A bounded map from pattern keys to values that forgets the entry used
//! least recently when it runs out of room.

use vstd::prelude::*;
use vstd::string::*;

use crate::engine::RegexEngine;
use crate::text::str_equal;

verus! {

/// What a compiled pattern is cached under: the engine and the pattern's source.
pub struct RegexKey {
    engine: RegexEngine,
    pattern: String,
}

impl View for RegexKey {
    type V = (RegexEngine, Seq<char>);

    closed spec fn view(&self) -> (RegexEngine, Seq<char>) {
        (self.engine, self.pattern@)
    }
}

impl RegexKey {
    /// The key of `pattern` compiled by `engine`.
    pub fn new(pattern: &str, engine: RegexEngine) -> (key: RegexKey)
        ensures
            key@ == (engine, pattern@),
    {
        RegexKey { engine, pattern: pattern.to_owned() }
    }

    /// Whether two keys name the same engine and pattern.
    pub fn same_as(&self, other: &RegexKey) -> (same: bool)
        ensures
            same == (self@ == other@),
    {
        self.engine == other.engine && str_equal(self.pattern.as_str(), other.pattern.as_str())
    }

    /// A copy of the key.
    pub fn duplicate(&self) -> (copy: RegexKey)
        ensures
            copy@ == self@,
    {
        RegexKey { engine: self.engine, pattern: self.pattern.clone() }
    }
}

/// The keys of `entries`, in order.
pub open spec fn keys_of<V>(entries: Seq<((RegexEngine, Seq<char>), V)>) -> Seq<(RegexEngine, Seq<char>)> {
    entries.map_values(|e: ((RegexEngine, Seq<char>), V)| e.0)
}

/// No key occurs twice in `entries`.
pub open spec fn distinct_keys<V>(entries: Seq<((RegexEngine, Seq<char>), V)>) -> bool {
    forall|i: int, j: int| 0 <= i < j < entries.len() ==> (#[trigger] entries[i]).0 != (#[trigger] entries[j]).0
}

/// The value stored under `key` in `entries`.
pub open spec fn lookup<V>(entries: Seq<((RegexEngine, Seq<char>), V)>, key: (RegexEngine, Seq<char>)) -> Option<V> {
    if exists|i: int| 0 <= i < entries.len() && (#[trigger] entries[i]).0 == key {
        let i = choose|i: int| 0 <= i < entries.len() && (#[trigger] entries[i]).0 == key;
        Some(entries[i].1)
    } else {
        None
    }
}

/// A bounded cache whose entries are ordered from least to most recently used.
pub struct LruCache<V> {
    entries: Vec<(RegexKey, V)>,
    capacity: usize,
}

impl<V> LruCache<V> {
    /// The entries, from least to most recently used.
    pub closed spec fn contents(&self) -> Seq<((RegexEngine, Seq<char>), V)> {
        self.entries@.map_values(|e: (RegexKey, V)| (e.0@, e.1))
    }

    /// The number of entries the cache may hold.
    pub closed spec fn limit(&self) -> nat {
        self.capacity as nat
    }

    /// The cache holds at most `limit` entries, at least one may be held, and
    /// no key occurs twice.
    pub open spec fn wf(&self) -> bool {
        &&& self.limit() >= 1
        &&& self.contents().len() <= self.limit()
        &&& distinct_keys(self.contents())
    }

    /// An empty cache that holds up to `capacity` entries.
    pub fn with_capacity(capacity: usize) -> (cache: LruCache<V>)
        requires
            capacity >= 1,
        ensures
            cache.wf(),
            cache.contents().len() == 0,
            cache.limit() == capacity,
    {
        let cache = LruCache { entries: Vec::new(), capacity };
        assert(cache.contents() =~= Seq::empty());
        cache
    }

    /// The number of entries.
    pub fn len(&self) -> (n: usize)
        ensures
            n == self.contents().len(),
    {
        self.entries.len()
    }

    /// The number of entries the cache may hold.
    pub fn capacity(&self) -> (n: usize)
        ensures
            n == self.limit(),
    {
        self.capacity
    }

    /// The index of the entry stored under `key`, if any.
    fn position(&self, key: &RegexKey) -> (index: Option<usize>)
        ensures
            match index {
                Some(i) => i < self.contents().len() && self.contents()[i as int].0 == key@,
                None => forall|i: int| 0 <= i < self.contents().len() ==> (#[trigger] self.contents()[i]).0 != key@,
            },
    {
        let mut i: usize = 0;
        while i < self.entries.len()
            invariant
                0 <= i <= self.entries@.len(),
                forall|k: int| 0 <= k < i ==> (#[trigger] self.contents()[k]).0 != key@,
            decreases self.entries@.len() - i,
        {
            if self.entries[i].0.same_as(key) {
                return Some(i);
            }
            i = i + 1;
        }
        None
    }

    /// The value stored under `key`, if any, leaving the order of use as it is.
    pub fn peek(&self, key: &RegexKey) -> (value: Option<&V>)
        requires
            self.wf(),
        ensures
            value is Some <==> lookup(self.contents(), key@) is Some,
            value matches Some(v) ==> lookup(self.contents(), key@) == Some(*v),
    {
        match self.position(key) {
            Some(i) => {
                proof {
                    lemma_lookup_at(self.contents(), i as int);
                }
                Some(&self.entries[i].1)
            },
            None => {
                proof {
                    lemma_lookup_absent(self.contents(), key@);
                }
                None
            },
        }
    }

    /// The value stored under `key`, if any; that entry becomes the most
    /// recently used.
    pub fn get(&mut self, key: &RegexKey) -> (value: Option<&V>)
        requires
            old(self).wf(),
        ensures
            final(self).wf(),
            final(self).limit() == old(self).limit(),
            value is Some <==> lookup(old(self).contents(), key@) is Some,
            value matches Some(v) ==> lookup(old(self).contents(), key@) == Some(*v),
            match lookup(old(self).contents(), key@) {
                Some(v) => exists|i: int|
                    0 <= i < old(self).contents().len() && (#[trigger] old(self).contents()[i]).0 == key@
                        && final(self).contents() == old(self).contents().remove(i).push(old(self).contents()[i]),
                None => final(self).contents() == old(self).contents(),
            },
    {
        match self.position(key) {
            Some(i) => {
                let ghost before = self.contents();
                proof {
                    lemma_lookup_at(before, i as int);
                }
                let entry = self.entries.remove(i);
                self.entries.push(entry);
                let last = self.entries.len() - 1;
                proof {
                    assert(self.contents() =~= before.remove(i as int).push(before[i as int]));
                    lemma_move_to_back_keeps_distinct(before, i as int);
                }
                Some(&self.entries[last].1)
            },
            None => {
                proof {
                    lemma_lookup_absent(self.contents(), key@);
                }
                None
            },
        }
    }

    /// Stores `value` under `key`, as the most recently used entry. An entry
    /// already stored under `key` is replaced; otherwise, when the cache is
    /// full, the least recently used entry is dropped.
    pub fn insert(&mut self, key: RegexKey, value: V)
        requires
            old(self).wf(),
        ensures
            final(self).wf(),
            final(self).limit() == old(self).limit(),
            final(self).contents() == if lookup(old(self).contents(), key@) is Some {
                let i = choose|i: int| 0 <= i < old(self).contents().len() && (#[trigger] old(self).contents()[i]).0 == key@;
                old(self).contents().remove(i).push((key@, value))
            } else if old(self).contents().len() == old(self).limit() {
                old(self).contents().remove(0).push((key@, value))
            } else {
                old(self).contents().push((key@, value))
            },
            lookup(final(self).contents(), key@) == Some(value),
    {
        let ghost before = self.contents();
        let ghost k = key@;
        match self.position(&key) {
            Some(i) => {
                proof {
                    lemma_lookup_at(before, i as int);
                    lemma_unique_index(before, i as int);
                }
                self.entries.remove(i);
                proof {
                    assert(self.contents() =~= before.remove(i as int));
                    lemma_remove_keeps_distinct(before, i as int);
                    lemma_remove_drops_key(before, i as int);
                }
            },
            None => {
                proof {
                    lemma_lookup_absent(before, k);
                }
                if self.entries.len() >= self.capacity {
                    self.entries.remove(0);
                    proof {
                        assert(self.contents() =~= before.remove(0));
                        lemma_remove_keeps_distinct(before, 0);
                    }
                }
            },
        }
        let ghost mid = self.contents();
        self.entries.push((key, value));
        proof {
            assert(self.contents() =~= mid.push((k, value)));
            lemma_push_fresh_key(mid, k, value);
        }
    }
    /// Removes the entry stored under `key`, if any, and gives its value back.
    pub fn remove(&mut self, key: &RegexKey) -> (value: Option<V>)
        requires
            old(self).wf(),
        ensures
            final(self).wf(),
            final(self).limit() == old(self).limit(),
            value == lookup(old(self).contents(), key@),
            lookup(final(self).contents(), key@) is None,
            match value {
                Some(_) => exists|i: int|
                    0 <= i < old(self).contents().len() && (#[trigger] old(self).contents()[i]).0 == key@
                        && final(self).contents() == old(self).contents().remove(i),
                None => final(self).contents() == old(self).contents(),
            },
    {
        let ghost before = self.contents();
        match self.position(key) {
            Some(i) => {
                proof {
                    lemma_lookup_at(before, i as int);
                    lemma_remove_keeps_distinct(before, i as int);
                    lemma_remove_drops_key(before, i as int);
                }
                let (_, value) = self.entries.remove(i);
                proof {
                    assert(self.contents() =~= before.remove(i as int));
                    lemma_lookup_absent(self.contents(), key@);
                }
                Some(value)
            },
            None => {
                proof {
                    lemma_lookup_absent(before, key@);
                }
                None
            },
        }
    }

    /// Changes how many entries the cache may hold, dropping the least
    /// recently used entries that no longer fit.
    pub fn resize(&mut self, capacity: usize)
        requires
            old(self).wf(),
            capacity >= 1,
        ensures
            final(self).wf(),
            final(self).limit() == capacity,
            final(self).contents() == if old(self).contents().len() <= capacity {
                old(self).contents()
            } else {
                old(self).contents().subrange(old(self).contents().len() - capacity, old(self).contents().len() as int)
            },
    {
        let ghost before = self.contents();
        assert(before.subrange(0, before.len() as int) =~= before);
        while self.entries.len() > capacity
            invariant
                distinct_keys(self.contents()),
                self.contents().len() <= before.len(),
                capacity >= 1,
                self.contents().len() >= capacity || self.contents().len() == before.len(),
                self.contents() == before.subrange(before.len() - self.contents().len(), before.len() as int),
            decreases self.entries@.len(),
        {
            let ghost cur = self.contents();
            proof {
                lemma_remove_keeps_distinct(cur, 0);
            }
            self.entries.remove(0);
            assert(self.contents() =~= cur.remove(0));
            assert(self.contents() =~= before.subrange(before.len() - self.contents().len(), before.len() as int));
        }
        self.capacity = capacity;
        proof {
            if before.len() <= capacity {
                assert(before.subrange(0, before.len() as int) =~= before);
            }
        }
    }
}

/// In entries whose keys are distinct, the value under the key of entry `i`
/// is that entry's value.
pub proof fn lemma_lookup_at<V>(entries: Seq<((RegexEngine, Seq<char>), V)>, i: int)
    requires
        distinct_keys(entries),
        0 <= i < entries.len(),
    ensures
        lookup(entries, entries[i].0) == Some(entries[i].1),
{
    lemma_unique_index(entries, i);
}

/// In entries whose keys are distinct, entry `i` is the only one under its key.
pub proof fn lemma_unique_index<V>(entries: Seq<((RegexEngine, Seq<char>), V)>, i: int)
    requires
        distinct_keys(entries),
        0 <= i < entries.len(),
    ensures
        (choose|j: int| 0 <= j < entries.len() && (#[trigger] entries[j]).0 == entries[i].0) == i,
{
    let k = entries[i].0;
    assert(0 <= i < entries.len() && entries[i].0 == k);
    let j = choose|j: int| 0 <= j < entries.len() && (#[trigger] entries[j]).0 == k;
    if j < i {
        assert(entries[j].0 != entries[i].0);
    } else if i < j {
        assert(entries[i].0 != entries[j].0);
    }
}

/// A key that no entry holds has no value.
pub proof fn lemma_lookup_absent<V>(entries: Seq<((RegexEngine, Seq<char>), V)>, key: (RegexEngine, Seq<char>))
    requires
        forall|i: int| 0 <= i < entries.len() ==> (#[trigger] entries[i]).0 != key,
    ensures
        lookup(entries, key) is None,
{
}

/// Removing an entry keeps the keys distinct.
pub proof fn lemma_remove_keeps_distinct<V>(entries: Seq<((RegexEngine, Seq<char>), V)>, i: int)
    requires
        distinct_keys(entries),
        0 <= i < entries.len(),
    ensures
        distinct_keys(entries.remove(i)),
{
    let r = entries.remove(i);
    assert forall|a: int, b: int| 0 <= a < b < r.len() implies (#[trigger] r[a]).0 != (#[trigger] r[b]).0 by {
        let a0 = if a < i { a } else { a + 1 };
        let b0 = if b < i { b } else { b + 1 };
        assert(r[a] == entries[a0] && r[b] == entries[b0]);
        assert(entries[a0].0 != entries[b0].0);
    }
}

/// Removing the entry under a key leaves no entry under it, when keys are distinct.
pub proof fn lemma_remove_drops_key<V>(entries: Seq<((RegexEngine, Seq<char>), V)>, i: int)
    requires
        distinct_keys(entries),
        0 <= i < entries.len(),
    ensures
        forall|j: int| 0 <= j < entries.remove(i).len() ==> (#[trigger] entries.remove(i)[j]).0 != entries[i].0,
{
    let r = entries.remove(i);
    assert forall|j: int| 0 <= j < r.len() implies (#[trigger] r[j]).0 != entries[i].0 by {
        let j0 = if j < i { j } else { j + 1 };
        assert(r[j] == entries[j0]);
        if j0 < i {
            assert(entries[j0].0 != entries[i].0);
        } else {
            assert(entries[i].0 != entries[j0].0);
        }
    }
}

/// Adding an entry under a key that no entry holds keeps the keys distinct,
/// and the key then has the added value.
pub proof fn lemma_push_fresh_key<V>(entries: Seq<((RegexEngine, Seq<char>), V)>, key: (RegexEngine, Seq<char>), value: V)
    requires
        distinct_keys(entries),
        forall|j: int| 0 <= j < entries.len() ==> (#[trigger] entries[j]).0 != key,
    ensures
        distinct_keys(entries.push((key, value))),
        lookup(entries.push((key, value)), key) == Some(value),
{
    let p = entries.push((key, value));
    assert forall|a: int, b: int| 0 <= a < b < p.len() implies (#[trigger] p[a]).0 != (#[trigger] p[b]).0 by {
        if b == entries.len() {
            assert(p[a] == entries[a]);
        } else {
            assert(p[a] == entries[a] && p[b] == entries[b]);
        }
    }
    lemma_lookup_at(p, entries.len() as int);
}

/// Moving entry `i` to the back keeps the keys distinct.
pub proof fn lemma_move_to_back_keeps_distinct<V>(entries: Seq<((RegexEngine, Seq<char>), V)>, i: int)
    requires
        distinct_keys(entries),
        0 <= i < entries.len(),
    ensures
        distinct_keys(entries.remove(i).push(entries[i])),
{
    lemma_remove_keeps_distinct(entries, i);
    lemma_remove_drops_key(entries, i);
    lemma_push_fresh_key(entries.remove(i), entries[i].0, entries[i].1);
}

} // verus!
