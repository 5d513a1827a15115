//! The resource store: at most one value per type tag.
//!
//! A resource is a value that every system can reach through the store. Each
//! resource type of a game has a tag of its own, a `u64` that the game picks, and
//! the store keeps at most one resource under a tag.

use vstd::prelude::*;
use crate::slab::Slab;

verus! {

/// A resource as the store keeps it.
pub struct Res<T> {
    value: T,
}

/// Why the store refused a resource.
#[derive(Clone, Copy, Debug, PartialEq, Eq, Structural)]
pub enum ResourceError {
    /// A resource with the same type tag is already in the store.
    AlreadyExists,
}

/// The store's answer to the creation of a resource under `tag` when it holds
/// `resources`: refusal if the tag is taken, and the store's next contents.
pub open spec fn create_outcome<V>(resources: Map<u64, V>, tag: u64, value: V) -> (
    Map<u64, V>,
    Result<(), ResourceError>,
) {
    if resources.contains_key(tag) {
        (resources, Err(ResourceError::AlreadyExists))
    } else {
        (resources.insert(tag, value), Ok(()))
    }
}

/// The resources of an application, each under the tag of its type.
pub struct ResourceManager<V> {
    resources: Slab<Res<V>>,
}

impl<V> ResourceManager<V> {
    /// The store's arena is in order.
    pub closed spec fn wf(self) -> bool {
        self.resources.wf()
    }

    /// The resources in the store, by type tag.
    pub closed spec fn resources(self) -> Map<u64, V> {
        Map::new(
            |tag: u64| self.resources.entries().contains_key(tag),
            |tag: u64| self.resources.entries()[tag].value,
        )
    }

    /// A store without resources.
    pub fn new() -> (manager: Self)
        ensures
            manager.wf(),
            manager.resources() == (Map::<u64, V>::empty()),
    {
        let manager = ResourceManager { resources: Slab::new() };
        assert(manager.resources() =~= Map::<u64, V>::empty());
        manager
    }

    /// Puts `value` into the store under `tag`, unless a resource with that tag
    /// is there already: then the store stays as it is.
    pub fn create_resource(&mut self, tag: u64, value: V) -> (created: Result<(), ResourceError>)
        requires
            old(self).wf(),
        ensures
            final(self).wf(),
            (final(self).resources(), created) == create_outcome(old(self).resources(), tag, value),
            created is Err ==> *final(self) == *old(self),
    {
        if self.resources.contains_key(tag) {
            return Err(ResourceError::AlreadyExists);
        }
        self.resources.insert(tag, Res { value });
        assert(self.resources() =~= old(self).resources().insert(tag, value));
        Ok(())
    }

    /// The resource with the given tag.
    pub fn get_resource(&self, tag: u64) -> (resource: Option<&V>)
        requires
            self.wf(),
        ensures
            resource == (if self.resources().contains_key(tag) {
                Some(&self.resources()[tag])
            } else {
                None
            }),
    {
        match self.resources.get(tag) {
            Some(res) => Some(&res.value),
            None => None,
        }
    }

    /// The resource with the given tag, for writing: what the caller leaves in it
    /// is what the store then holds under the tag.
    pub fn get_resource_mut(&mut self, tag: u64) -> (resource: Option<&mut V>)
        requires
            old(self).wf(),
        ensures
            match resource {
                Some(value) => {
                    &&& old(self).resources().contains_key(tag)
                    &&& *value == old(self).resources()[tag]
                    &&& final(self).resources() == old(self).resources().insert(tag, *final(value))
                    &&& final(self).wf()
                },
                None => !old(self).resources().contains_key(tag) && *final(self) == *old(self),
            },
    {
        match self.resources.get_mut(tag) {
            Some(res) => Some(&mut res.value),
            None => None,
        }
    }

    /// Takes the resource with the given tag out of the store.
    pub fn remove(&mut self, tag: u64) -> (resource: Option<V>)
        requires
            old(self).wf(),
        ensures
            final(self).wf(),
            final(self).resources() == old(self).resources().remove(tag),
            resource == (if old(self).resources().contains_key(tag) {
                Some(old(self).resources()[tag])
            } else {
                None
            }),
    {
        let removed = self.resources.remove(tag);
        assert(self.resources() =~= old(self).resources().remove(tag));
        match removed {
            Some(res) => Some(res.value),
            None => None,
        }
    }
}

/// Creating a resource twice under one tag: the second creation is refused with
/// `AlreadyExists` and changes nothing, so the tag still holds what it held
/// after the first creation.
pub proof fn second_creation_is_refused<V>(resources: Map<u64, V>, tag: u64, first: V, second: V)
    ensures
        create_outcome(create_outcome(resources, tag, first).0, tag, second) == (
            create_outcome(resources, tag, first).0,
            Err::<(), ResourceError>(ResourceError::AlreadyExists),
        ),
        create_outcome(resources, tag, first).1 is Ok ==> create_outcome(
            create_outcome(resources, tag, first).0,
            tag,
            second,
        ).0[tag] == first,
{
}

} // verus!
