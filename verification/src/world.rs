use vstd::prelude::*;

use crate::ecs::entity::EntityId;
use crate::ecs::registry::Registry;

verus! {

/// The entities of the running game and their components.
#[derive(Debug)]
pub struct World {
    pub registry: Registry,
}

impl World {
    /// The registry is well formed.
    pub open spec fn wf(&self) -> bool {
        self.registry.wf()
    }

    /// An empty world.
    pub fn new() -> (r: Self)
        ensures
            r.wf(),
            r.registry.live() == Seq::<EntityId>::empty(),
            r.registry.next_id() == 0,
            r.registry.storage().is_empty(),
    {
        World { registry: Registry::new() }
    }

    /// Creates an entity with the next identifier.
    pub fn spawn(&mut self) -> (r: EntityId)
        requires
            old(self).wf(),
            old(self).registry.next_id() < usize::MAX,
        ensures
            final(self).wf(),
            r.0 == old(self).registry.next_id(),
            !old(self).registry.live().contains(r),
            final(self).registry.live() == old(self).registry.live().push(r),
            final(self).registry.next_id() == old(self).registry.next_id() + 1,
            final(self).registry.storage() == old(self).registry.storage(),
            !final(self).registry.storage().holds(r),
    {
        self.registry.create()
    }

    /// Removes an existing entity and every component it holds. Refused,
    /// with no change, for an entity that does not exist.
    pub fn despawn(&mut self, entity: EntityId) -> (r: bool)
        requires
            old(self).wf(),
        ensures
            final(self).wf(),
            r == old(self).registry.live().contains(entity),
            !r ==> *final(self) == *old(self),
            r ==> final(self).registry.live() == old(self).registry.live().filter(
                |x: EntityId| x != entity,
            ),
            r ==> old(self).registry.storage().removed_entity(
                final(self).registry.storage(),
                entity,
            ),
            final(self).registry.next_id() == old(self).registry.next_id(),
    {
        self.registry.despawn(entity)
    }
}

impl Default for World {
    /// An empty world.
    fn default() -> (r: Self)
        ensures
            r.wf(),
            r.registry.live() == Seq::<EntityId>::empty(),
            r.registry.next_id() == 0,
            r.registry.storage().is_empty(),
    {
        World::new()
    }
}

} // verus!
