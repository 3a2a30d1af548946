//! A map keyed by numbers.
use vstd::prelude::*;

use std::collections::HashMap;

verus! {

/// A number that can be the key of a map.
pub trait Key: Copy + Eq + std::hash::Hash {
    /// Equal keys are the same key to the map.
    proof fn obeys()
        ensures
            vstd::std_specs::hash::obeys_key_model::<Self>(),
    ;
}

impl Key for u64 {
    proof fn obeys() {
        broadcast use vstd::std_specs::hash::group_hash_axioms;

    }
}

impl Key for u128 {
    proof fn obeys() {
        broadcast use vstd::std_specs::hash::group_hash_axioms;

    }
}

/// A map from numbers to values.
#[derive(Debug)]
#[verifier::reject_recursive_types(K)]
pub struct Table<K: Key, V> {
    map: HashMap<K, V>,
}

impl<K: Key, V> View for Table<K, V> {
    type V = Map<K, V>;

    closed spec fn view(&self) -> Map<K, V> {
        self.map@
    }
}

impl<K: Key, V> Table<K, V> {
    /// The empty map.
    pub fn new() -> (t: Self)
        ensures
            t@ == Map::<K, V>::empty(),
    {
        Table { map: HashMap::new() }
    }

    /// Whether `key` has a value.
    pub fn contains(&self, key: K) -> (r: bool)
        ensures
            r == self@.dom().contains(key),
    {
        broadcast use vstd::std_specs::hash::group_hash_axioms;

        proof {
            K::obeys();
        }
        self.map.contains_key(&key)
    }

    /// The value of `key`.
    pub fn get(&self, key: K) -> (r: Option<&V>)
        ensures
            match r {
                Some(v) => self@.dom().contains(key) && *v == self@[key],
                None => !self@.dom().contains(key),
            },
    {
        broadcast use vstd::std_specs::hash::group_hash_axioms;

        proof {
            K::obeys();
        }
        self.map.get(&key)
    }

    /// Gives `key` the value `value`.
    pub fn insert(&mut self, key: K, value: V)
        ensures
            final(self)@ == old(self)@.insert(key, value),
    {
        broadcast use vstd::std_specs::hash::group_hash_axioms;

        proof {
            K::obeys();
        }
        let _ = self.map.insert(key, value);
    }

    /// Takes the value of `key` out.
    pub fn remove(&mut self, key: K) -> (r: Option<V>)
        ensures
            final(self)@ == old(self)@.remove(key),
            match r {
                Some(v) => old(self)@.dom().contains(key) && v == old(self)@[key],
                None => !old(self)@.dom().contains(key),
            },
    {
        broadcast use vstd::std_specs::hash::group_hash_axioms;

        proof {
            K::obeys();
        }
        self.map.remove(&key)
    }

    /// The keys that have a value, each once, in no particular order.
    pub fn keys(&self) -> (keys: Vec<K>)
        ensures
            keys@.no_duplicates(),
            forall|k: K| keys@.contains(k) <==> self@.dom().contains(k),
    {
        broadcast use vstd::std_specs::hash::group_hash_axioms;

        proof {
            K::obeys();
        }
        let mut keys: Vec<K> = Vec::new();
        for k in iter: self.map.keys()
            invariant
                keys@ =~= iter.seq().unref().take(iter.index()),
                iter.index() == iter.seq().len() ==> keys@ =~= iter.seq().unref(),
                iter.seq().unref().to_set() == self.map@.dom(),
                iter.seq().no_duplicates(),
        {
            keys.push(*k);
        }
        assert(keys@.to_set() == self.map@.dom());
        assert forall|k: K| keys@.contains(k) <==> self@.dom().contains(k) by {
            assert(keys@.to_set().contains(k) <==> keys@.contains(k));
        }
        keys
    }
}

} // verus!
