use vstd::prelude::*;
use vstd::std_specs::hash::obeys_key_model;
use std::collections::HashMap;
use std::hash::Hash;

verus! {

/// Relies on `HashMap::capacity`: how many entries the map holds without
/// growing. It depends on the allocator and the map's history, so nothing is
/// promised of it.
#[verifier::external_body]
fn map_capacity<K, V>(map: &HashMap<K, V>) -> (r: usize) {
    map.capacity()
}

/// A least-recently-used cache: a map of the entries, and a list of keys whose
/// tail is evicted when the map is full. Reading or rewriting a key marks it at
/// the head of the list.
pub struct LRUCache<K: Eq + Hash + Clone, V> {
    doubly_list: Vec<K>,
    map: HashMap<K, V>,
}

impl<K: Eq + Hash + Clone, V> LRUCache<K, V> {
    /// The keys from most to least recently marked.
    pub closed spec fn order(&self) -> Seq<K> {
        self.doubly_list@
    }

    /// The cached entries.
    pub closed spec fn entries(&self) -> Map<K, V> {
        self.map@
    }

    /// An empty cache whose map is made with room for `capacity` entries.
    pub fn new(capacity: usize) -> (r: Self)
        ensures
            r.order().len() == 0,
            r.entries() == Map::<K, V>::empty(),
    {
        LRUCache { doubly_list: Vec::new(), map: HashMap::with_capacity(capacity) }
    }

    /// The least recently marked key, if any.
    pub fn back(&self) -> (r: Option<&K>)
        ensures
            self.order().len() == 0 ==> r is None,
            self.order().len() > 0 ==> r == Some(&self.order().last()),
    {
        if self.doubly_list.len() == 0 {
            None
        } else {
            Some(&self.doubly_list[self.doubly_list.len() - 1])
        }
    }

    /// The value cached under `key`, if any; a hit writes `key` over the head
    /// of the list.
    pub fn get(&mut self, key: K) -> (r: Option<&V>)
        ensures
            final(self).entries() == old(self).entries(),
            obeys_key_model::<K>() ==> match r {
                Some(v) => old(self).entries().contains_key(key) && *v == old(self).entries()[key],
                None => !old(self).entries().contains_key(key),
            },
            r is Some && old(self).order().len() > 0 ==> final(self).order() == old(self).order().update(0, key),
            r is None || old(self).order().len() == 0 ==> final(self).order() == old(self).order(),
    {
        let found = self.map.get(&key);
        match found {
            Some(v) => {
                if self.doubly_list.len() > 0 {
                    self.doubly_list.set(0, key);
                }
                Some(v)
            },
            None => None,
        }
    }

    /// Caches `value` under `key`. A cached key is rewritten and written over the
    /// head of the list. A new key goes to the head of the list; when the map
    /// reports itself full, the key at the tail is evicted first.
    pub fn put(&mut self, key: K, value: V)
        ensures
            obeys_key_model::<K>() ==> final(self).entries() == if old(self).entries().contains_key(key) {
                old(self).entries().insert(key, value)
            } else if final(self).order().drop_first() == old(self).order() {
                old(self).entries().insert(key, value)
            } else {
                old(self).entries().remove(old(self).order().last()).insert(key, value)
            },
            obeys_key_model::<K>() && old(self).entries().contains_key(key) ==> {
                &&& final(self).order().len() == old(self).order().len()
                &&& old(self).order().len() > 0 ==> final(self).order().drop_first() == old(self).order().drop_first()
                    && cloned(key, final(self).order()[0])
            },
            obeys_key_model::<K>() && !old(self).entries().contains_key(key) ==> {
                &&& final(self).order().len() > 0
                &&& cloned(key, final(self).order()[0])
                &&& final(self).order().drop_first() == old(self).order() || (old(self).order().len() > 0
                    && final(self).order().drop_first() == old(self).order().drop_last())
            },
    {
        if self.map.contains_key(&key) {
            if self.doubly_list.len() > 0 {
                let copy = key.clone();
                self.doubly_list.set(0, copy);
            }
            self.map.insert(key, value);
        } else {
            if self.map.len() >= map_capacity(&self.map) {
                self.eviction();
            }
            let ghost before = self.doubly_list@;
            let copy = key.clone();
            self.doubly_list.insert(0, copy);
            proof {
                assert(self.doubly_list@.drop_first() =~= before);
                if before.len() != old(self).order().len() {
                    assert(before.len() < old(self).order().len());
                    assert(self.order().drop_first() != old(self).order());
                }
            }
            self.map.insert(key, value);
        }
    }

    /// Evicts the key at the tail of the list, if any.
    fn eviction(&mut self)
        ensures
            old(self).order().len() == 0 ==> final(self).order() == old(self).order()
                && final(self).entries() == old(self).entries(),
            old(self).order().len() > 0 ==> final(self).order() == old(self).order().drop_last()
                && (obeys_key_model::<K>() ==> final(self).entries() == old(self).entries().remove(
                old(self).order().last(),
            )),
    {
        if let Some(tail) = self.doubly_list.pop() {
            self.map.remove(&tail);
        }
    }
}

} // verus!
