//! A keyed arena: values live in reusable slots of a vector, and a hash index
//! maps each key to the slot that holds its value.

use vstd::prelude::*;
use crate::index::{key_index_entries, key_index_get, key_index_insert, key_index_new, key_index_remove};

verus! {

/// Values by `u64` key. A removed value leaves its slot to the next one that is
/// inserted, so the vector grows only when every slot is taken.
pub struct Slab<V> {
    index: ahash::AHashMap<u64, usize>,
    slots: Vec<Option<V>>,
    free: Vec<usize>,
}

impl<V> Slab<V> {
    /// The slot number recorded for each key.
    pub closed spec fn slot_of(self) -> Map<u64, usize> {
        key_index_entries(self.index)
    }

    /// Every key points at an occupied slot of its own, and the free list names
    /// empty slots only, each at most once.
    pub closed spec fn wf(self) -> bool {
        &&& forall|k: u64| #[trigger] self.slot_of().contains_key(k) ==> {
                &&& self.slot_of()[k] < self.slots.len()
                &&& self.slots[self.slot_of()[k] as int] is Some
            }
        &&& forall|j: u64, k: u64|
                self.slot_of().contains_key(j) && self.slot_of().contains_key(k) && j != k
                    ==> #[trigger] self.slot_of()[j] != #[trigger] self.slot_of()[k]
        &&& forall|i: int| 0 <= i < self.free.len() ==> {
                &&& #[trigger] self.free[i] < self.slots.len()
                &&& self.slots[self.free[i] as int] is None
            }
        &&& forall|i: int, j: int| 0 <= i < j < self.free.len() ==> self.free[i] != self.free[j]
    }

    /// The stored values by key.
    pub closed spec fn entries(self) -> Map<u64, V> {
        Map::new(
            |k: u64| self.slot_of().contains_key(k),
            |k: u64| self.slots[self.slot_of()[k] as int]->Some_0,
        )
    }

    /// A slab without values.
    pub fn new() -> (slab: Self)
        ensures
            slab.wf(),
            slab.entries() == (Map::<u64, V>::empty()),
    {
        let slab = Slab { index: key_index_new(), slots: Vec::new(), free: Vec::new() };
        assert(slab.entries() =~= Map::<u64, V>::empty());
        slab
    }

    /// Whether there is a value under `key`.
    pub fn contains_key(&self, key: u64) -> (present: bool)
        ensures
            present == self.entries().contains_key(key),
    {
        key_index_get(&self.index, key).is_some()
    }

    /// The value under `key`.
    pub fn get(&self, key: u64) -> (value: Option<&V>)
        requires
            self.wf(),
        ensures
            value == (if self.entries().contains_key(key) {
                Some(&self.entries()[key])
            } else {
                None
            }),
    {
        match key_index_get(&self.index, key) {
            Some(slot) => self.slots[slot].as_ref(),
            None => None,
        }
    }

    /// The value under `key`, for writing: what the caller leaves in it is what
    /// the slab then holds under the key.
    pub fn get_mut(&mut self, key: u64) -> (value: Option<&mut V>)
        requires
            old(self).wf(),
        ensures
            match value {
                Some(v) => {
                    &&& old(self).entries().contains_key(key)
                    &&& *v == old(self).entries()[key]
                    &&& final(self).entries() == old(self).entries().insert(key, *final(v))
                    &&& final(self).wf()
                },
                None => !old(self).entries().contains_key(key) && *final(self) == *old(self),
            },
    {
        match key_index_get(&self.index, key) {
            Some(slot) => self.slots[slot].as_mut(),
            None => None,
        }
    }

    /// Puts `value` under `key`, which must be free.
    pub fn insert(&mut self, key: u64, value: V)
        requires
            old(self).wf(),
            !old(self).entries().contains_key(key),
        ensures
            final(self).wf(),
            final(self).entries() == old(self).entries().insert(key, value),
    {
        let slot = match self.free.pop() {
            Some(slot) => {
                self.slots[slot] = Some(value);
                slot
            },
            None => {
                self.slots.push(Some(value));
                self.slots.len() - 1
            },
        };
        key_index_insert(&mut self.index, key, slot);
        assert(self.entries() =~= old(self).entries().insert(key, value));
    }

    /// Takes the value under `key` out.
    pub fn remove(&mut self, key: u64) -> (value: Option<V>)
        requires
            old(self).wf(),
        ensures
            final(self).wf(),
            final(self).entries() == old(self).entries().remove(key),
            value == (if old(self).entries().contains_key(key) {
                Some(old(self).entries()[key])
            } else {
                None
            }),
    {
        match key_index_remove(&mut self.index, key) {
            Some(slot) => {
                let value = self.slots[slot].take();
                self.free.push(slot);
                assert(self.entries() =~= old(self).entries().remove(key));
                value
            },
            None => {
                assert(self.entries() =~= old(self).entries().remove(key));
                None
            },
        }
    }
}

} // verus!
