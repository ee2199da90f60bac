//! A bounded memoizing cache with strict least-recently-used eviction. The
//! entry sequence is ordered by recency (front = most recently used); a
//! "use" is any successful lookup or insertion. The table is a plain
//! recency-ordered vector rather than a hash-map-plus-list structure: the
//! eviction policy can then be stated and proved over one sequence, for
//! any key and value types (a named model of an outside collection cannot
//! be generic). Callers that populate the cache do so under one exclusive
//! section owned by the boundary layer, so the service's single-flight
//! behaviour is the pairing of that section with the `get`/`insert`
//! contracts proved here.

use vstd::prelude::*;

verus! {

/// A cache key: equality is decidable and agrees with spec-level equality.
pub trait Key: Sized {
    fn key_eq(&self, other: &Self) -> (r: bool)
        ensures
            r <==> (*self == *other),
    ;
}

impl Key for u128 {
    fn key_eq(&self, other: &Self) -> (r: bool) {
        *self == *other
    }
}

impl Key for (u128, u32) {
    fn key_eq(&self, other: &Self) -> (r: bool) {
        self.0 == other.0 && self.1 == other.1
    }
}

/// A cache value: duplicated cheaply when handed out to callers.
pub trait Value: Clone {

}

impl<T: Clone> Value for T {

}

/// `s` carries no key twice.
pub open spec fn distinct_keys<K, V>(s: Seq<(K, V)>) -> bool {
    forall|i: int, j: int| 0 <= i < j < s.len() ==> s[i].0 != s[j].0
}

pub open spec fn contains_key<K, V>(s: Seq<(K, V)>, k: K) -> bool {
    exists|i: int| 0 <= i < s.len() && s[i].0 == k
}

pub open spec fn index_of_key<K, V>(s: Seq<(K, V)>, k: K) -> int {
    choose|i: int| 0 <= i < s.len() && s[i].0 == k
}

/// The value stored under `k`; meaningful when `contains_key(s, k)`.
pub open spec fn value_of_key<K, V>(s: Seq<(K, V)>, k: K) -> V {
    s[index_of_key(s, k)].1
}

/// `s` without its entry for `k` (unchanged when `k` is absent).
pub open spec fn remove_key<K, V>(s: Seq<(K, V)>, k: K) -> Seq<(K, V)> {
    if contains_key(s, k) {
        s.remove(index_of_key(s, k))
    } else {
        s
    }
}

/// A successful lookup of `k` moves its entry to the front.
pub open spec fn touch<K, V>(s: Seq<(K, V)>, k: K) -> Seq<(K, V)> {
    remove_key(s, k).insert(0, (k, value_of_key(s, k)))
}

/// Insertion of `(k, v)`: any old entry for `k` goes away, the new entry
/// becomes most recently used, and the least recently used entry falls off
/// when the bound would be exceeded.
pub open spec fn lru_insert<K, V>(s: Seq<(K, V)>, cap: int, k: K, v: V) -> Seq<(K, V)> {
    let grown = remove_key(s, k).insert(0, (k, v));
    if grown.len() > cap {
        grown.drop_last()
    } else {
        grown
    }
}

/// Removing any entry of a duplicate-free sequence keeps it duplicate-free,
/// removes that entry's key entirely, and introduces no new keys.
proof fn lemma_remove_distinct<K, V>(s: Seq<(K, V)>, i: int)
    requires
        distinct_keys(s),
        0 <= i < s.len(),
    ensures
        distinct_keys(s.remove(i)),
        !contains_key(s.remove(i), s[i].0),
        forall|k: K| contains_key(s.remove(i), k) ==> contains_key(s, k),
{
    let t = s.remove(i);
    s.remove_ensures(i);
    assert forall|j1: int, j2: int| 0 <= j1 < j2 < t.len() implies t[j1].0 != t[j2].0 by {
        let a = if j1 < i {
            j1
        } else {
            j1 + 1
        };
        let b = if j2 < i {
            j2
        } else {
            j2 + 1
        };
        assert(t[j1] == s[a] && t[j2] == s[b]);
    }
    assert forall|j: int| 0 <= j < t.len() implies t[j].0 != s[i].0 by {
        let a = if j < i {
            j
        } else {
            j + 1
        };
        assert(t[j] == s[a]);
    }
    assert forall|k: K| contains_key(t, k) implies contains_key(s, k) by {
        let j = choose|j: int| 0 <= j < t.len() && t[j].0 == k;
        let a = if j < i {
            j
        } else {
            j + 1
        };
        assert(t[j] == s[a]);
    }
}

/// A bounded, evicting, memoizing cache. Entries are owned exclusively by
/// the cache's table; values handed out are duplicates.
pub struct Cache<K, V> {
    entries: Vec<(K, V)>,
    capacity: usize,
}

impl<K: Key, V: Value> Cache<K, V> {
    /// The entries, most recently used first.
    pub closed spec fn entries_seq(self) -> Seq<(K, V)> {
        self.entries@
    }

    pub closed spec fn cap(self) -> int {
        self.capacity as int
    }

    pub open spec fn wf(self) -> bool {
        &&& self.cap() >= 1
        &&& self.entries_seq().len() <= self.cap()
        &&& distinct_keys(self.entries_seq())
    }

    pub fn new(capacity: usize) -> (c: Cache<K, V>)
        requires
            capacity >= 1,
        ensures
            c.wf(),
            c.cap() == capacity,
            c.entries_seq() == Seq::<(K, V)>::empty(),
    {
        let c = Cache { entries: Vec::new(), capacity };
        proof {
            assert(c.entries_seq() =~= Seq::<(K, V)>::empty());
        }
        c
    }

    /// Atomically empty the table; duplicates already handed out are
    /// unaffected.
    pub fn clear(&mut self)
        requires
            old(self).wf(),
        ensures
            final(self).wf(),
            final(self).cap() == old(self).cap(),
            final(self).entries_seq() == Seq::<(K, V)>::empty(),
    {
        self.entries.clear();
        proof {
            assert(self.entries_seq() =~= Seq::<(K, V)>::empty());
        }
    }

    fn find_index(&self, key: &K) -> (r: Option<usize>)
        ensures
            match r {
                Some(i) => i < self.entries_seq().len() && self.entries_seq()[i as int].0 == *key,
                None => !contains_key(self.entries_seq(), *key),
            },
    {
        let mut i: usize = 0;
        while i < self.entries.len()
            invariant
                i <= self.entries@.len(),
                forall|j: int| 0 <= j < i ==> self.entries@[j].0 != *key,
            decreases self.entries@.len() - i,
        {
            if self.entries[i].0.key_eq(key) {
                return Some(i);
            }
            i = i + 1;
        }
        None
    }

    /// Look `key` up; a hit returns a reference to the stored value and
    /// marks the entry most recently used.
    pub fn get<'a>(&'a mut self, key: &K) -> (r: Option<&'a V>)
        requires
            old(self).wf(),
        ensures
            final(self).wf(),
            final(self).cap() == old(self).cap(),
            match r {
                Some(v) => {
                    &&& contains_key(old(self).entries_seq(), *key)
                    &&& *v == value_of_key(old(self).entries_seq(), *key)
                    &&& final(self).entries_seq() == touch(old(self).entries_seq(), *key)
                },
                None => {
                    &&& !contains_key(old(self).entries_seq(), *key)
                    &&& final(self).entries_seq() == old(self).entries_seq()
                },
            },
    {
        let ghost s = self.entries@;
        match self.find_index(key) {
            Some(i) => {
                proof {
                    assert(contains_key(s, *key));
                    let iv = i as int;
                    let j = index_of_key(s, *key);
                    if j != iv {
                        assert(s[if j < iv {
                            j
                        } else {
                            iv
                        }].0 != s[if j < iv {
                            iv
                        } else {
                            j
                        }].0);
                    }
                    assert(index_of_key(s, *key) == iv);
                    lemma_remove_distinct(s, iv);
                }
                let entry = self.entries.remove(i);
                self.entries.insert(0, entry);
                proof {
                    assert(s[i as int] == (s[i as int].0, s[i as int].1));
                    assert((*key, value_of_key(s, *key)) == s[i as int]);
                    assert(self.entries@ == touch(s, *key));
                    s.remove_ensures(i as int);
                    s.remove(i as int).insert_ensures(0, s[i as int]);
                    assert(distinct_keys(self.entries@)) by {
                        let t = s.remove(i as int).insert(0, s[i as int]);
                        assert forall|j1: int, j2: int| 0 <= j1 < j2 < t.len() implies t[j1].0
                            != t[j2].0 by {
                            assert(t[0] == s[i as int]);
                            if j1 > 0 {
                                assert(t[j1] == s.remove(i as int)[j1 - 1]);
                            }
                            assert(t[j2] == s.remove(i as int)[j2 - 1]);
                        }
                    }
                }
                Some(&self.entries[0].1)
            },
            None => None,
        }
    }

    /// Insert `(key, value)` as most recently used, evicting the least
    /// recently used entry if the capacity bound would be exceeded.
    pub fn insert(&mut self, key: K, value: V)
        requires
            old(self).wf(),
        ensures
            final(self).wf(),
            final(self).cap() == old(self).cap(),
            final(self).entries_seq() == lru_insert(
                old(self).entries_seq(),
                old(self).cap(),
                key,
                value,
            ),
    {
        let ghost s = self.entries@;
        match self.find_index(&key) {
            Some(i) => {
                proof {
                    let iv = i as int;
                    let j = index_of_key(s, key);
                    if j != iv {
                        assert(s[if j < iv {
                            j
                        } else {
                            iv
                        }].0 != s[if j < iv {
                            iv
                        } else {
                            j
                        }].0);
                    }
                    assert(index_of_key(s, key) == iv);
                    lemma_remove_distinct(s, iv);
                }
                let _ = self.entries.remove(i);
            },
            None => {},
        }
        let ghost removed = self.entries@;
        proof {
            assert(removed == remove_key(s, key));
            assert(!contains_key(removed, key)) by {
                if contains_key(s, key) {
                } else {
                    assert(removed == s);
                }
            }
        }
        self.entries.insert(0, (key, value));
        proof {
            removed.insert_ensures(0, (key, value));
            let grown = removed.insert(0, (key, value));
            assert(distinct_keys(grown)) by {
                assert forall|j1: int, j2: int| 0 <= j1 < j2 < grown.len() implies grown[j1].0
                    != grown[j2].0 by {
                    assert(grown[0] == (key, value));
                    if j1 > 0 {
                        assert(grown[j1] == removed[j1 - 1]);
                    }
                    assert(grown[j2] == removed[j2 - 1]);
                    if j1 == 0 {
                        assert(removed[j2 - 1].0 != key) by {
                            if removed[j2 - 1].0 == key {
                                assert(contains_key(removed, key));
                            }
                        }
                    }
                }
            }
        }
        if self.entries.len() > self.capacity {
            let ghost grown = self.entries@;
            let _ = self.entries.pop();
            proof {
                assert(self.entries@ == grown.drop_last());
                assert(distinct_keys(grown.drop_last())) by {
                    assert forall|j1: int, j2: int|
                        0 <= j1 < j2 < grown.drop_last().len() implies grown.drop_last()[j1].0
                        != grown.drop_last()[j2].0 by {
                        assert(grown.drop_last()[j1] == grown[j1]);
                        assert(grown.drop_last()[j2] == grown[j2]);
                    }
                }
            }
        }
    }
}

/// A key loaded once stays served from the cache: after an insertion of
/// `(k, v)` the table contains `k`, bound to `v`, so later lookups hit and
/// return `v` (by `get`'s contract) instead of loading again. Together with
/// the boundary layer's exclusive section around lookup-miss-load-insert,
/// this is the single-flight guarantee: concurrent callers all receive the
/// one loaded value.
pub proof fn lemma_insert_then_found<K, V>(s: Seq<(K, V)>, cap: int, k: K, v: V)
    requires
        distinct_keys(s),
        s.len() <= cap,
        cap >= 1,
    ensures
        contains_key(lru_insert(s, cap, k, v), k),
        value_of_key(lru_insert(s, cap, k, v), k) == v,
{
    let removed = remove_key(s, k);
    if contains_key(s, k) {
        let i = index_of_key(s, k);
        lemma_remove_distinct(s, i);
    }
    removed.insert_ensures(0, (k, v));
    let grown = removed.insert(0, (k, v));
    let t = lru_insert(s, cap, k, v);
    assert(grown[0] == (k, v));
    if grown.len() > cap {
        assert(t == grown.drop_last());
        assert(t[0] == grown[0]);
    }
    assert(t[0] == (k, v));
    assert(contains_key(t, k));
    let j = index_of_key(t, k);
    assert(0 <= j < t.len() && t[j].0 == k);
    if j != 0 {
        assert(!contains_key(removed, k));
        if grown.len() > cap {
            assert(t[j] == grown[j]);
        }
        assert(grown[j] == removed[j - 1]);
        assert(contains_key(removed, k));
    }
}

/// A hit leaves the table's contents intact: the looked-up key stays bound
/// to the same value, and every entry after the touch was already present.
pub proof fn lemma_touch_found<K, V>(s: Seq<(K, V)>, k: K)
    requires
        distinct_keys(s),
        contains_key(s, k),
    ensures
        touch(s, k).len() == s.len(),
        distinct_keys(touch(s, k)),
        contains_key(touch(s, k), k),
        value_of_key(touch(s, k), k) == value_of_key(s, k),
        forall|i: int|
            0 <= i < touch(s, k).len() ==> exists|j: int|
                0 <= j < s.len() && #[trigger] touch(s, k)[i] == s[j],
{
    let i0 = index_of_key(s, k);
    lemma_remove_distinct(s, i0);
    let removed = s.remove(i0);
    s.remove_ensures(i0);
    removed.insert_ensures(0, (k, value_of_key(s, k)));
    let t = touch(s, k);
    assert(t[0] == (k, value_of_key(s, k)));
    assert(distinct_keys(t)) by {
        assert forall|j1: int, j2: int| 0 <= j1 < j2 < t.len() implies t[j1].0 != t[j2].0 by {
            if j1 > 0 {
                assert(t[j1] == removed[j1 - 1]);
            }
            assert(t[j2] == removed[j2 - 1]);
            if j1 == 0 {
                assert(removed[j2 - 1].0 != k) by {
                    if removed[j2 - 1].0 == k {
                        assert(contains_key(removed, k));
                    }
                }
            }
        }
    }
    assert(contains_key(t, k));
    let j = index_of_key(t, k);
    if j != 0 {
        assert(t[if j < 0 {
            j
        } else {
            0
        }].0 != t[if 0 < j {
            j
        } else {
            0
        }].0);
    }
    assert(value_of_key(t, k) == t[0].1);
    assert forall|i: int| 0 <= i < t.len() implies exists|j2: int|
        0 <= j2 < s.len() && #[trigger] t[i] == s[j2] by {
        if i == 0 {
            assert(s[i0] == (s[i0].0, s[i0].1));
            assert(t[0] == s[i0]);
        } else {
            assert(t[i] == removed[i - 1]);
            let a = if i - 1 < i0 {
                i - 1
            } else {
                i
            };
            assert(removed[i - 1] == s[a]);
        }
    }
}

/// Every entry present after an insertion was already present or is the
/// inserted pair.
pub proof fn lemma_lru_insert_membership<K, V>(s: Seq<(K, V)>, cap: int, k: K, v: V)
    requires
        distinct_keys(s),
    ensures
        forall|i: int|
            0 <= i < lru_insert(s, cap, k, v).len() ==> #[trigger] lru_insert(s, cap, k, v)[i]
                == (k, v) || exists|j: int|
                0 <= j < s.len() && lru_insert(s, cap, k, v)[i] == s[j],
{
    let removed = remove_key(s, k);
    if contains_key(s, k) {
        let i0 = index_of_key(s, k);
        lemma_remove_distinct(s, i0);
        s.remove_ensures(i0);
    }
    removed.insert_ensures(0, (k, v));
    let grown = removed.insert(0, (k, v));
    let t = lru_insert(s, cap, k, v);
    assert forall|i: int| 0 <= i < t.len() implies #[trigger] t[i] == (k, v) || exists|j: int|
        0 <= j < s.len() && t[i] == s[j] by {
        if t.len() < grown.len() {
            assert(t == grown.drop_last());
            assert(t[i] == grown[i]);
        }
        if i > 0 {
            assert(grown[i] == removed[i - 1]);
            if contains_key(s, k) {
                let i0 = index_of_key(s, k);
                let a = if i - 1 < i0 {
                    i - 1
                } else {
                    i
                };
                assert(removed[i - 1] == s[a]);
            } else {
                assert(removed == s);
            }
        }
    }
}

/// Strict least-recently-used eviction: inserting a fresh key into a full
/// table keeps the table full, puts the fresh entry in front, drops exactly
/// the least recently used key, and keeps every other key.
pub proof fn lemma_lru_eviction<K, V>(s: Seq<(K, V)>, cap: int, k: K, v: V)
    requires
        distinct_keys(s),
        s.len() == cap,
        cap >= 1,
        !contains_key(s, k),
    ensures
        lru_insert(s, cap, k, v).len() == cap,
        lru_insert(s, cap, k, v)[0] == (k, v),
        !contains_key(lru_insert(s, cap, k, v), s.last().0),
        forall|i: int| 0 <= i < s.len() - 1 ==> contains_key(lru_insert(s, cap, k, v), s[i].0),
{
    let removed = remove_key(s, k);
    assert(removed == s);
    removed.insert_ensures(0, (k, v));
    let grown = removed.insert(0, (k, v));
    assert(grown.len() == cap + 1);
    let t = lru_insert(s, cap, k, v);
    assert(t == grown.drop_last());
    assert(t.len() == cap);
    assert(t[0] == grown[0]);
    assert(grown[0] == (k, v));
    assert forall|j: int| 0 <= j < t.len() implies t[j].0 != s.last().0 by {
        assert(t[j] == grown[j]);
        if j > 0 {
            assert(grown[j] == s[j - 1]);
            assert(s[if j - 1 < cap - 1 {
                j - 1
            } else {
                cap - 1
            }].0 != s[if j - 1 < cap - 1 {
                cap - 1
            } else {
                j - 1
            }].0 || j - 1 == cap - 1);
            assert(j - 1 < cap - 1);
        } else {
            assert(t[j] == (k, v));
            assert(s.last() == s[cap - 1]);
            assert(!contains_key(s, k) ==> s[cap - 1].0 != k) by {
                if s[cap - 1].0 == k {
                    assert(contains_key(s, k));
                }
            }
        }
    }
    assert forall|i: int| 0 <= i < s.len() - 1 implies contains_key(t, s[i].0) by {
        assert(grown[i + 1] == s[i]);
        assert(t[i + 1] == grown[i + 1]);
    }
}

} // verus!
