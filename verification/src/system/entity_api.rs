use vstd::prelude::*;

use crate::component::mesh_renderer::MeshRenderer;
use crate::ecs::component_pool::ComponentPool;
use crate::ecs::entity::EntityId;
use crate::ecs::registry::{Component, Registry};
use crate::resources::{assets_after_release, handle_released, MeshAssetId, Resources};
use crate::system::render_command::{RenderCommand, RenderCommandQueue};
use crate::world::World;

verus! {

/// The asset that the mesh renderer of `e` draws, if it has one.
pub open spec fn renderer_asset(renderers: Map<EntityId, MeshRenderer>, e: EntityId) -> Option<MeshAssetId> {
    if renderers.dom().contains(e) {
        renderers[e].asset_id
    } else {
        None
    }
}

/// The render queue after the asset `asset` (if any) lost a user, given the
/// asset slots before: the mesh to destroy, if one is freed, is queued.
pub open spec fn queue_after_release<S>(
    queued: Seq<RenderCommand<S>>,
    assets: Seq<Option<crate::resources::MeshAsset>>,
    asset: Option<MeshAssetId>,
) -> Seq<RenderCommand<S>> {
    match asset {
        Some(id) => match handle_released(assets, id) {
            Some(mesh) => queued.push(RenderCommand::DestroyMesh { mesh }),
            None => queued,
        },
        None => queued,
    }
}

/// The asset slots after the asset `asset` (if any) lost a user.
pub open spec fn assets_after_optional_release(
    assets: Seq<Option<crate::resources::MeshAsset>>,
    asset: Option<MeshAssetId>,
) -> Seq<Option<crate::resources::MeshAsset>> {
    match asset {
        Some(id) => assets_after_release(assets, id),
        None => assets,
    }
}

/// What the systems work on: the world, the loaded resources and the queue
/// of render commands. `S` is the shape description of render commands.
pub struct EntityContext<S> {
    pub world: World,
    pub resources: Resources,
    pub render_commands: RenderCommandQueue<S>,
}

impl<S> EntityContext<S> {
    /// The world and the resources are well formed.
    pub open spec fn wf(&self) -> bool {
        self.world.wf() && self.resources.wf()
    }

    /// The registry of the world.
    pub open spec fn registry(&self) -> Registry {
        self.world.registry
    }

    /// An empty world, nothing loaded and nothing queued.
    pub fn new() -> (r: Self)
        ensures
            r.wf(),
            r.registry().live() == Seq::<EntityId>::empty(),
            r.registry().next_id() == 0,
            r.registry().storage().is_empty(),
            r.resources.assets() == Seq::<Option<crate::resources::MeshAsset>>::empty(),
            r.render_commands.queued() == Seq::<RenderCommand<S>>::empty(),
    {
        EntityContext { world: World::new(), resources: Resources::new(), render_commands: RenderCommandQueue::new() }
    }

    /// Whether another entity can be created: identifiers are not used up.
    pub fn can_spawn(&self) -> (r: bool)
        ensures
            r == (self.registry().next_id() < usize::MAX),
    {
        self.world.registry.next_entity_id() < usize::MAX as u64
    }

    /// Creates an entity.
    pub fn spawn(&mut self) -> (r: EntityId)
        requires
            old(self).wf(),
            old(self).registry().next_id() < usize::MAX,
        ensures
            final(self).wf(),
            r.0 == old(self).registry().next_id(),
            !old(self).registry().live().contains(r),
            final(self).registry().live() == old(self).registry().live().push(r),
            final(self).registry().next_id() == old(self).registry().next_id() + 1,
            final(self).registry().storage() == old(self).registry().storage(),
            !final(self).registry().storage().holds(r),
            final(self).resources == old(self).resources,
            final(self).render_commands == old(self).render_commands,
    {
        self.world.spawn()
    }

    /// Removes an existing entity with all its components. If its mesh
    /// renderer draws an asset, the asset loses a user, and a mesh that this
    /// frees is queued for destruction. Refused, with no change, for an
    /// entity that does not exist.
    pub fn despawn(&mut self, entity: EntityId) -> (r: bool)
        requires
            old(self).wf(),
        ensures
            final(self).wf(),
            r == old(self).registry().live().contains(entity),
            !r ==> final(self).registry() == old(self).registry() && final(self).resources == old(self).resources
                && final(self).render_commands == old(self).render_commands,
            r ==> {
                let asset = renderer_asset(old(self).registry().components::<MeshRenderer>(), entity);
                &&& final(self).registry().live() == old(self).registry().live().filter(|x: EntityId| x != entity)
                &&& old(self).registry().storage().removed_entity(final(self).registry().storage(), entity)
                &&& final(self).registry().next_id() == old(self).registry().next_id()
                &&& final(self).resources.same_tables(&old(self).resources)
                &&& final(self).resources.assets() == assets_after_optional_release(old(self).resources.assets(), asset)
                &&& final(self).render_commands.queued() == queue_after_release(
                    old(self).render_commands.queued(),
                    old(self).resources.assets(),
                    asset,
                )
            },
    {
        if !self.world.registry.contains(entity) {
            return false;
        }
        let asset_id = match self.world.registry.get_component::<MeshRenderer>(entity) {
            Some(mesh_renderer) => mesh_renderer.asset_id,
            None => None,
        };
        if let Some(asset_id) = asset_id {
            if let Some(mesh) = self.resources.release_mesh(asset_id) {
                self.render_commands.destroy_mesh(mesh);
            }
        }
        self.world.despawn(entity)
    }

    /// Removes the most recently created entity that still exists, as
    /// `despawn` does; nothing when there is no entity.
    pub fn despawn_last(&mut self) -> (r: bool)
        requires
            old(self).wf(),
        ensures
            final(self).wf(),
            r == (old(self).registry().live().len() > 0),
            !r ==> *final(self) == *old(self),
            r ==> {
                let entity = old(self).registry().live().last();
                let asset = renderer_asset(old(self).registry().components::<MeshRenderer>(), entity);
                &&& final(self).registry().live() == old(self).registry().live().filter(|x: EntityId| x != entity)
                &&& old(self).registry().storage().removed_entity(final(self).registry().storage(), entity)
                &&& final(self).resources.assets() == assets_after_optional_release(old(self).resources.assets(), asset)
                &&& final(self).render_commands.queued() == queue_after_release(
                    old(self).render_commands.queued(),
                    old(self).resources.assets(),
                    asset,
                )
            },
    {
        let entities = self.world.registry.entities();
        if entities.len() == 0 {
            return false;
        }
        let entity = entities[entities.len() - 1];
        proof {
            assert(self.registry().live().contains(entity));
        }
        self.despawn(entity)
    }

    /// The entities that exist, in creation order.
    pub fn entities(&self) -> (r: &[EntityId])
        ensures
            r@ == self.registry().live(),
    {
        self.world.registry.entities()
    }

    /// Whether `entity` exists.
    pub fn is_entity_registered(&self, entity: EntityId) -> (r: bool)
        ensures
            r == self.registry().live().contains(entity),
    {
        self.world.registry.contains(entity)
    }

    /// The number of entities that exist.
    pub fn entity_count(&self) -> (r: usize)
        ensures
            r == self.registry().live().len(),
    {
        self.world.registry.entity_count()
    }

    /// Gives the existing entity `entity` the component `component`.
    pub fn add_component<T: Component>(&mut self, entity: EntityId, component: T) -> (r: bool)
        requires
            old(self).wf(),
        ensures
            final(self).wf(),
            r == old(self).registry().live().contains(entity),
            final(self).registry().live() == old(self).registry().live(),
            final(self).registry().next_id() == old(self).registry().next_id(),
            !r ==> *final(self) == *old(self),
            r ==> final(self).registry().components::<T>() == old(self).registry().components::<T>().insert(entity, component),
            r ==> final(self).registry().storage() == T::with_stored(
                old(self).registry().storage(),
                T::stored(final(self).registry().storage()),
            ),
            final(self).resources == old(self).resources,
            final(self).render_commands == old(self).render_commands,
    {
        self.world.registry.add_component(entity, component)
    }

    /// Takes the component of type `T` away from `entity`.
    pub fn remove_component<T: Component>(&mut self, entity: EntityId) -> (r: Option<T>)
        requires
            old(self).wf(),
        ensures
            final(self).wf(),
            r == (if old(self).registry().components::<T>().dom().contains(entity) {
                Some(old(self).registry().components::<T>()[entity])
            } else {
                None
            }),
            final(self).registry().components::<T>() == old(self).registry().components::<T>().remove(entity),
            final(self).registry().storage() == T::with_stored(
                old(self).registry().storage(),
                T::stored(final(self).registry().storage()),
            ),
            final(self).registry().live() == old(self).registry().live(),
            final(self).registry().next_id() == old(self).registry().next_id(),
            final(self).resources == old(self).resources,
            final(self).render_commands == old(self).render_commands,
    {
        self.world.registry.remove_component(entity)
    }

    /// The pool of `T`, if any entity ever held a `T`.
    pub fn get_component_pool<T: Component>(&self) -> (r: Option<&ComponentPool<T>>)
        ensures
            match r {
                Some(p) => T::stored(self.registry().storage()) == Some(*p),
                None => T::stored(self.registry().storage()) is None,
            },
    {
        self.world.registry.get_pool()
    }

    /// The component of type `T` of `entity`, if it holds one.
    pub fn get_component<T: Component>(&self, entity: EntityId) -> (r: Option<&T>)
        requires
            self.wf(),
        ensures
            r == (if self.registry().components::<T>().dom().contains(entity) {
                Some(&self.registry().components::<T>()[entity])
            } else {
                None
            }),
    {
        self.world.registry.get_component(entity)
    }

    /// Whether `entity` holds a component of type `T`.
    pub fn has_component<T: Component>(&self, entity: EntityId) -> (r: bool)
        requires
            self.wf(),
        ensures
            r == self.registry().components::<T>().dom().contains(entity),
    {
        self.world.registry.has_component::<T>(entity)
    }

    /// The asset that the mesh renderer of `entity` draws, if it has a mesh
    /// renderer tied to an asset.
    pub fn mesh_asset_id(&self, entity: EntityId) -> (r: Option<MeshAssetId>)
        requires
            self.wf(),
        ensures
            r == renderer_asset(self.registry().components::<MeshRenderer>(), entity),
    {
        match self.world.registry.get_component::<MeshRenderer>(entity) {
            Some(renderer) => renderer.asset_id,
            None => None,
        }
    }
}

impl<S> Default for EntityContext<S> {
    /// An empty world, nothing loaded and nothing queued.
    fn default() -> (r: Self)
        ensures
            r.wf(),
            r.registry().live() == Seq::<EntityId>::empty(),
            r.registry().next_id() == 0,
            r.registry().storage().is_empty(),
            r.resources.assets() == Seq::<Option<crate::resources::MeshAsset>>::empty(),
            r.render_commands.queued() == Seq::<RenderCommand<S>>::empty(),
    {
        EntityContext::new()
    }
}

} // verus!
