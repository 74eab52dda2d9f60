use super::calculate_hash;
use crate::data::Value;
use std::collections::BTreeMap;
use vstd::prelude::*;

verus! {

/// Values that were made in this pass and in the one before it, by the number
/// that stands for their text, so that a text that comes again need not be
/// copied again.
pub struct ValueCache {
    previous: BTreeMap<u64, Value>,
    current: BTreeMap<u64, Value>,
}

impl ValueCache {
    /// The values of the pass before this one that were not asked for again.
    pub closed spec fn previous(&self) -> Map<u64, Value> {
        self.previous@
    }

    /// The values that were asked for in this pass.
    pub closed spec fn current(&self) -> Map<u64, Value> {
        self.current@
    }

    /// A cache that holds nothing.
    pub fn new() -> (cache: Self)
        ensures
            cache.previous() == Map::<u64, Value>::empty(),
            cache.current() == Map::<u64, Value>::empty(),
    {
        ValueCache { previous: BTreeMap::new(), current: BTreeMap::new() }
    }

    /// The value kept under `hash`, or, where none is kept, a new value with
    /// the text `value`, which is then kept under `hash`.
    ///
    /// A value of this pass is answered as it is. A value of the pass before is
    /// moved to this pass. Whoever gives the same number to two texts gets the
    /// first of them for both.
    pub fn cached_as(&mut self, hash: u64, value: &str) -> (cached: Value)
        ensures
            old(self).current().contains_key(hash) ==> cached == old(self).current()[hash]
                && final(self).current() == old(self).current() && final(self).previous() == old(
                self,
            ).previous(),
            !old(self).current().contains_key(hash) && old(self).previous().contains_key(hash)
                ==> cached == old(self).previous()[hash] && final(self).current() == old(
                self,
            ).current().insert(hash, cached) && final(self).previous() == old(
                self,
            ).previous().remove(hash),
            !old(self).current().contains_key(hash) && !old(self).previous().contains_key(hash)
                ==> cached@ == value@ && final(self).current() == old(self).current().insert(
                hash,
                cached,
            ) && final(self).previous() == old(self).previous(),
    {
        broadcast use vstd::std_specs::btree::group_btree_axioms;

        match self.current.get(&hash) {
            Some(kept) => {
                return kept.clone();
            },
            None => {},
        }
        let fresh = match self.previous.remove(&hash) {
            Some(kept) => kept,
            None => Value::new(value),
        };
        let cached = fresh.clone();
        self.current.insert(hash, fresh);
        cached
    }

    /// The value for the text `value`: one that is kept for it, or a new one.
    /// The number under which it is kept is the hash of the text.
    pub fn cached(&mut self, value: &str) -> (cached: Value)
        ensures
            cached@ == value@ || old(self).current().contains_value(cached) || old(
                self,
            ).previous().contains_value(cached),
            final(self).current().contains_value(cached),
    {
        let hash = calculate_hash(&value);
        let cached = self.cached_as(hash, value);
        proof {
            assert(self.current().contains_key(hash) && self.current()[hash] == cached);
            if old(self).current().contains_key(hash) {
                assert(old(self).current().contains_value(cached));
            } else if old(self).previous().contains_key(hash) {
                assert(old(self).previous().contains_value(cached));
            }
        }
        cached
    }

    /// Starts a pass: the values of the last pass become those of the pass
    /// before, and what was kept from the pass before that is dropped.
    pub fn next_rebuild(&mut self)
        ensures
            final(self).previous() == old(self).current(),
            final(self).current() == Map::<u64, Value>::empty(),
    {
        std::mem::swap(&mut self.current, &mut self.previous);
        self.current.clear();
    }
}

} // verus!
