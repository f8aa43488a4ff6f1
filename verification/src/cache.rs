//! A generic in-memory cache from string keys to cloneable values.
//!
//! The store is a vector of key-value entries whose keys are pairwise
//! distinct; its abstract value is the finite map from key (as a character
//! sequence) to value that the vector spells out. One cache instance holds
//! exactly one value type.

use vstd::prelude::*;

verus! {

struct CacheEntry<T> {
    key: String,
    value: T,
}

/// The keys in `s` are pairwise distinct.
spec fn distinct_keys<T>(s: Seq<CacheEntry<T>>) -> bool {
    forall|i: int, j: int|
        #![trigger s[i].key, s[j].key]
        0 <= i < j < s.len() ==> s[i].key@ != s[j].key@
}

/// The map from key to value that `s` spells out; a later entry with the same
/// key shadows an earlier one.
spec fn entries_to_map<T>(s: Seq<CacheEntry<T>>) -> Map<Seq<char>, T>
    decreases s.len(),
{
    if s.len() == 0 {
        Map::empty()
    } else {
        entries_to_map(s.drop_last()).insert(s.last().key@, s.last().value)
    }
}

/// A key is in the map exactly when some entry of the sequence carries it.
proof fn lemma_cache_domain<T>(s: Seq<CacheEntry<T>>, k: Seq<char>)
    ensures
        entries_to_map(s).contains_key(k) <==> (exists|i: int|
            0 <= i < s.len() && s[i].key@ == k),
    decreases s.len(),
{
    if s.len() > 0 {
        lemma_cache_domain(s.drop_last(), k);
        if entries_to_map(s).contains_key(k) {
            if s.last().key@ == k {
                assert(s[s.len() - 1].key@ == k);
            } else {
                let i = choose|i: int| 0 <= i < s.drop_last().len() && s.drop_last()[i].key@ == k;
                assert(s[i].key@ == k);
            }
        }
        if exists|i: int| 0 <= i < s.len() && s[i].key@ == k {
            let i = choose|i: int| 0 <= i < s.len() && s[i].key@ == k;
            if i < s.len() - 1 {
                assert(s.drop_last()[i].key@ == k);
            }
        }
    }
}

/// With distinct keys, the map sends the key of each entry to its value.
proof fn lemma_cache_index<T>(s: Seq<CacheEntry<T>>, i: int)
    requires
        distinct_keys(s),
        0 <= i < s.len(),
    ensures
        entries_to_map(s).contains_key(s[i].key@),
        entries_to_map(s)[s[i].key@] == s[i].value,
    decreases s.len(),
{
    if i < s.len() - 1 {
        assert(distinct_keys(s.drop_last()));
        lemma_cache_index(s.drop_last(), i);
        assert(s.drop_last()[i] == s[i]);
        assert(s[i].key@ != s.last().key@);
    }
}

/// Overwriting the entry at `i` with one of the same key inserts its value
/// into the map.
proof fn lemma_cache_update<T>(s: Seq<CacheEntry<T>>, i: int, e: CacheEntry<T>)
    requires
        distinct_keys(s),
        0 <= i < s.len(),
        s[i].key@ == e.key@,
    ensures
        entries_to_map(s.update(i, e)) == entries_to_map(s).insert(e.key@, e.value),
        distinct_keys(s.update(i, e)),
    decreases s.len(),
{
    let t = s.update(i, e);
    assert(distinct_keys(t));
    if i == s.len() - 1 {
        assert(t.drop_last() =~= s.drop_last());
        assert(t.last() == e);
        assert(entries_to_map(t) =~= entries_to_map(s).insert(e.key@, e.value));
    } else {
        assert(t.drop_last() =~= s.drop_last().update(i, e));
        assert(t.last() == s.last());
        assert(distinct_keys(s.drop_last()));
        assert(s.drop_last()[i] == s[i]);
        lemma_cache_update(s.drop_last(), i, e);
        assert(e.key@ != s.last().key@);
        assert(entries_to_map(t) =~= entries_to_map(s).insert(e.key@, e.value));
    }
}

/// Appending an entry whose key is absent inserts its value into the map and
/// keeps the keys distinct.
proof fn lemma_cache_push<T>(s: Seq<CacheEntry<T>>, e: CacheEntry<T>)
    requires
        distinct_keys(s),
        forall|i: int| 0 <= i < s.len() ==> (#[trigger] s[i].key)@ != e.key@,
    ensures
        entries_to_map(s.push(e)) == entries_to_map(s).insert(e.key@, e.value),
        distinct_keys(s.push(e)),
{
    assert(s.push(e).drop_last() =~= s);
    assert(s.push(e).last() == e);
}

/// Removing the entry at `i` removes its key from the map and keeps the keys
/// distinct.
proof fn lemma_cache_remove<T>(s: Seq<CacheEntry<T>>, i: int)
    requires
        distinct_keys(s),
        0 <= i < s.len(),
    ensures
        entries_to_map(s.remove(i)) == entries_to_map(s).remove(s[i].key@),
        distinct_keys(s.remove(i)),
    decreases s.len(),
{
    let t = s.remove(i);
    let k = s[i].key@;
    assert(distinct_keys(t)) by {
        assert forall|a: int, b: int| 0 <= a < b < t.len() implies t[a].key@ != t[b].key@ by {
            let a0 = if a < i { a } else { a + 1 };
            let b0 = if b < i { b } else { b + 1 };
            assert(t[a] == s[a0]);
            assert(t[b] == s[b0]);
        }
    }
    assert(distinct_keys(s.drop_last()));
    lemma_cache_domain(s.drop_last(), k);
    if i == s.len() - 1 {
        assert(t =~= s.drop_last());
        assert(!entries_to_map(s.drop_last()).contains_key(k));
        assert(entries_to_map(t) =~= entries_to_map(s).remove(k));
    } else {
        assert(t.drop_last() =~= s.drop_last().remove(i));
        assert(t.last() == s.last());
        assert(s.drop_last()[i] == s[i]);
        lemma_cache_remove(s.drop_last(), i);
        assert(k != s.last().key@);
        assert(entries_to_map(t) =~= entries_to_map(s).remove(k));
    }
}

/// A cache from string keys to values of one cloneable type, with get,
/// insert-or-replace and remove.
pub struct Cache<T> {
    data: Vec<CacheEntry<T>>,
}

impl<T> View for Cache<T> {
    type V = Map<Seq<char>, T>;

    closed spec fn view(&self) -> Map<Seq<char>, T> {
        entries_to_map(self.data@)
    }
}

impl<T: Clone> Cache<T> {
    /// The cache's internal invariant: stored keys are pairwise distinct, so
    /// each key names at most one value.
    pub closed spec fn wf(&self) -> bool {
        distinct_keys(self.data@)
    }

    /// Creates an empty cache.
    pub fn new() -> (r: Self)
        ensures
            r.wf(),
            r@ == Map::<Seq<char>, T>::empty(),
    {
        Cache { data: Vec::new() }
    }

    /// The index of the entry with key `key`, if any.
    fn find_index(&self, key: &str) -> (r: Option<usize>)
        ensures
            match r {
                Some(i) => i < self.data@.len() && self.data@[i as int].key@ == key@,
                None => forall|i: int|
                    0 <= i < self.data@.len() ==> (#[trigger] self.data@[i].key)@ != key@,
            },
    {
        let owned: String = key.to_owned();
        let mut i: usize = 0;
        while i < self.data.len()
            invariant
                owned@ == key@,
                i <= self.data@.len(),
                forall|j: int| 0 <= j < i ==> (#[trigger] self.data@[j].key)@ != key@,
            decreases self.data@.len() - i,
        {
            if self.data[i].key == owned {
                return Some(i);
            }
            i += 1;
        }
        None
    }

    /// Looks a value up by key: a clone of the stored value, or nothing when
    /// the key is absent.
    pub fn get(&self, key: &str) -> (r: Option<T>)
        requires
            self.wf(),
        ensures
            match r {
                Some(v) => self@.contains_key(key@) && cloned(self@[key@], v),
                None => !self@.contains_key(key@),
            },
    {
        proof {
            lemma_cache_domain(self.data@, key@);
        }
        match self.find_index(key) {
            Some(i) => {
                proof {
                    lemma_cache_index(self.data@, i as int);
                }
                Some(self.data[i].value.clone())
            },
            None => None,
        }
    }

    /// Inserts `value` under `key`, replacing any stored value for that key.
    pub fn set(&mut self, key: String, value: T)
        requires
            old(self).wf(),
        ensures
            final(self).wf(),
            final(self)@ == old(self)@.insert(key@, value),
    {
        let ghost s = self.data@;
        match self.find_index(key.as_str()) {
            Some(i) => {
                let e = CacheEntry { key, value };
                proof {
                    lemma_cache_update(s, i as int, e);
                }
                self.data.set(i, e);
            },
            None => {
                let e = CacheEntry { key, value };
                proof {
                    lemma_cache_push(s, e);
                }
                self.data.push(e);
            },
        }
    }

    /// Removes the entry under `key` and returns the stored value, or nothing
    /// when the key is absent.
    pub fn remove(&mut self, key: &str) -> (r: Option<T>)
        requires
            old(self).wf(),
        ensures
            final(self).wf(),
            match r {
                Some(v) => {
                    &&& old(self)@.contains_key(key@)
                    &&& v == old(self)@[key@]
                    &&& final(self)@ == old(self)@.remove(key@)
                },
                None => !old(self)@.contains_key(key@) && *final(self) == *old(self),
            },
    {
        proof {
            lemma_cache_domain(self.data@, key@);
        }
        match self.find_index(key) {
            Some(i) => {
                proof {
                    lemma_cache_index(self.data@, i as int);
                    lemma_cache_remove(self.data@, i as int);
                }
                let e = self.data.remove(i);
                Some(e.value)
            },
            None => None,
        }
    }
}

/// Setting a key and then reading it back yields exactly the set value, and
/// removing a key and then reading it finds nothing: the cache's map treats
/// `insert` and `remove` as the last word on a key.
pub proof fn lemma_set_get_remove<T>(m: Map<Seq<char>, T>, k: Seq<char>, v: T)
    ensures
        m.insert(k, v).contains_key(k),
        m.insert(k, v)[k] == v,
        !m.remove(k).contains_key(k),
{
}

} // verus!
