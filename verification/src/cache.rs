//! A small verified map from group ids to cached render resources.
//!
//! The per-group caches (instance buffers, extracted spritesheets, bind
//! groups) are explicitly owned mappings threaded through the render-stage
//! call chain. Lookup is by key; iteration order is irrelevant. The map is
//! an association list with distinct keys.

use vstd::prelude::*;

use crate::arena::ArenaId;

verus! {

/// The value of `key` in an association list; a later entry would shadow an
/// earlier one, but well-formed maps have distinct keys.
pub open spec fn assoc_get<K, V>(s: Seq<(K, V)>, key: K) -> Option<V>
    decreases s.len(),
{
    if s.len() == 0 {
        None
    } else if s.last().0 == key {
        Some(s.last().1)
    } else {
        assoc_get(s.drop_last(), key)
    }
}

/// No key occurs twice.
pub open spec fn distinct_keys<K, V>(s: Seq<(K, V)>) -> bool {
    forall|i: int, j: int| 0 <= i < j < s.len() ==> s[i].0 != s[j].0
}

/// `assoc_get` misses exactly when no entry has the key.
pub proof fn lemma_assoc_none<K, V>(s: Seq<(K, V)>, key: K)
    ensures
        (assoc_get(s, key) is None) <==> (forall|j: int| 0 <= j < s.len() ==> s[j].0 != key),
    decreases s.len(),
{
    if s.len() > 0 {
        lemma_assoc_none(s.drop_last(), key);
        assert(forall|j: int| 0 <= j < s.len() - 1 ==> s.drop_last()[j] == s[j]);
    }
}

/// With distinct keys, a hit names an entry of the list.
pub proof fn lemma_assoc_some<K, V>(s: Seq<(K, V)>, key: K)
    requires
        assoc_get(s, key) is Some,
    ensures
        exists|j: int|
            0 <= j < s.len() && s[j] == (key, assoc_get(s, key).unwrap()),
    decreases s.len(),
{
    if s.len() > 0 {
        if s.last().0 == key {
            assert(s[s.len() - 1] == (key, assoc_get(s, key).unwrap()));
        } else {
            lemma_assoc_some(s.drop_last(), key);
            let j = choose|j: int|
                0 <= j < s.drop_last().len() && s.drop_last()[j] == (
                key,
                assoc_get(s.drop_last(), key).unwrap(),
                );
            assert(s[j] == (key, assoc_get(s, key).unwrap()));
        }
    }
}

/// With distinct keys, an entry of the list determines the lookup result.
pub proof fn lemma_assoc_elem<K, V>(s: Seq<(K, V)>, key: K, v: V, j: int)
    requires
        distinct_keys(s),
        0 <= j < s.len(),
        s[j] == (key, v),
    ensures
        assoc_get(s, key) == Some(v),
{
    lemma_assoc_none(s, key);
    if assoc_get(s, key) is Some {
        lemma_assoc_some(s, key);
        let j2 = choose|j2: int|
            0 <= j2 < s.len() && s[j2] == (key, assoc_get(s, key).unwrap());
        if j2 != j {
            assert(s[j].0 == s[j2].0);
            assert(false);
        }
    } else {
        assert(s[j].0 != key);
        assert(false);
    }
}

/// Explicitly owned keyed cache with distinct keys.
pub struct CacheMap<V> {
    pub entries: Vec<(ArenaId, V)>,
}

impl<V> CacheMap<V> {
    pub open spec fn wf(self) -> bool {
        distinct_keys(self.entries@)
    }

    /// The cached value under `key`, if any.
    pub open spec fn spec_get(self, key: ArenaId) -> Option<V> {
        assoc_get(self.entries@, key)
    }

    pub fn new() -> (r: CacheMap<V>)
        ensures
            r.wf(),
            r.entries@.len() == 0,
            forall|key: ArenaId| r.spec_get(key) is None,
    {
        CacheMap { entries: Vec::new() }
    }

    /// Index of the entry under `key`, if any.
    pub fn find(&self, key: ArenaId) -> (r: Option<usize>)
        requires
            self.wf(),
        ensures
            match r {
                Some(i) => {
                    &&& i < self.entries@.len()
                    &&& self.entries@[i as int].0 == key
                    &&& self.spec_get(key) == Some(self.entries@[i as int].1)
                },
                None => self.spec_get(key) is None,
            },
    {
        let n = self.entries.len();
        let mut i: usize = 0;
        while i < n
            invariant
                self.wf(),
                i <= n,
                n == self.entries@.len(),
                forall|j: int| 0 <= j < i ==> self.entries@[j].0 != key,
            decreases n - i,
        {
            if self.entries[i].0 == key {
                proof {
                    lemma_assoc_elem(
                        self.entries@,
                        key,
                        self.entries@[i as int].1,
                        i as int,
                    );
                }
                return Some(i);
            }
            i = i + 1;
        }
        proof {
            lemma_assoc_none(self.entries@, key);
        }
        None
    }

    /// Borrows the cached value under `key`, if any.
    pub fn get(&self, key: ArenaId) -> (r: Option<&V>)
        requires
            self.wf(),
        ensures
            match r {
                Some(v) => self.spec_get(key) == Some(*v),
                None => self.spec_get(key) is None,
            },
    {
        match self.find(key) {
            Some(i) => Some(&self.entries[i].1),
            None => None,
        }
    }

    /// Inserts or replaces the value under `key`; every other key keeps its
    /// value.
    pub fn upsert(&mut self, key: ArenaId, v: V)
        requires
            old(self).wf(),
        ensures
            final(self).wf(),
            final(self).spec_get(key) == Some(v),
            forall|other: ArenaId|
                other != key ==> final(self).spec_get(other) == old(self).spec_get(other),
    {
        let ghost prev = self.entries@;
        match self.find(key) {
            Some(i) => {
                self.entries[i] = (key, v);
                proof {
                    let cur = self.entries@;
                    assert(distinct_keys(cur)) by {
                        assert(forall|j: int| 0 <= j < cur.len() ==> cur[j].0 == prev[j].0);
                    }
                    lemma_assoc_elem(cur, key, v, i as int);
                    assert forall|other: ArenaId| other != key implies assoc_get(cur, other)
                        == assoc_get(prev, other) by {
                        lemma_assoc_none(prev, other);
                        lemma_assoc_none(cur, other);
                        if assoc_get(prev, other) is Some {
                            lemma_assoc_some(prev, other);
                            let j = choose|j: int|
                                0 <= j < prev.len() && prev[j] == (
                                other,
                                assoc_get(prev, other).unwrap(),
                                );
                            assert(cur[j] == prev[j]);
                            lemma_assoc_elem(cur, other, prev[j].1, j);
                        } else {
                            assert(forall|j: int| 0 <= j < cur.len() ==> cur[j].0 != other);
                        }
                    }
                }
            },
            None => {
                proof {
                    lemma_assoc_none(prev, key);
                }
                self.entries.push((key, v));
                proof {
                    let cur = self.entries@;
                    assert(distinct_keys(cur)) by {
                        assert(forall|j: int| 0 <= j < prev.len() ==> cur[j] == prev[j]);
                        assert(cur[cur.len() - 1].0 == key);
                    }
                    lemma_assoc_elem(cur, key, v, cur.len() - 1);
                    assert forall|other: ArenaId| other != key implies assoc_get(cur, other)
                        == assoc_get(prev, other) by {
                        assert(cur.drop_last() =~= prev);
                    }
                }
            },
        }
    }

    /// Drops the entry under `key`, if any; every other key keeps its value.
    pub fn remove_key(&mut self, key: ArenaId)
        requires
            old(self).wf(),
        ensures
            final(self).wf(),
            final(self).spec_get(key) is None,
            forall|other: ArenaId|
                other != key ==> final(self).spec_get(other) == old(self).spec_get(other),
    {
        let ghost prev = self.entries@;
        match self.find(key) {
            Some(i) => {
                self.entries.remove(i);
                proof {
                    let cur = self.entries@;
                    prev.remove_ensures(i as int);
                    assert(distinct_keys(cur)) by {
                        assert forall|a: int, b: int| 0 <= a < b < cur.len() implies cur[a].0
                            != cur[b].0 by {
                            let pa: int = if a < i { a } else { a + 1 };
                            let pb: int = if b < i { b } else { b + 1 };
                            assert(cur[a] == prev[pa] && cur[b] == prev[pb]);
                        }
                    }
                    assert(assoc_get(cur, key) is None) by {
                        lemma_assoc_none(cur, key);
                        assert forall|j: int| 0 <= j < cur.len() implies cur[j].0 != key by {
                            let pj: int = if j < i { j } else { j + 1 };
                            assert(cur[j] == prev[pj]);
                        }
                    }
                    assert forall|other: ArenaId| other != key implies assoc_get(cur, other)
                        == assoc_get(prev, other) by {
                        lemma_assoc_none(prev, other);
                        lemma_assoc_none(cur, other);
                        if assoc_get(prev, other) is Some {
                            lemma_assoc_some(prev, other);
                            let j = choose|j: int|
                                0 <= j < prev.len() && prev[j] == (
                                other,
                                assoc_get(prev, other).unwrap(),
                                );
                            let cj: int = if j < i { j } else { j - 1 };
                            assert(cur[cj] == prev[j]);
                            lemma_assoc_elem(cur, other, prev[j].1, cj);
                        } else {
                            assert forall|j: int| 0 <= j < cur.len() implies cur[j].0 != other by {
                                let pj: int = if j < i { j } else { j + 1 };
                                assert(cur[j] == prev[pj]);
                            }
                        }
                    }
                }
            },
            None => {},
        }
    }
}

} // verus!
