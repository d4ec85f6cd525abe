use vstd::prelude::*;

use crate::ecs::entity::EntityId;
use crate::handles::{MeshHandle, SkyboxTextureHandle};
use crate::resources::MeshAssetId;

verus! {

/// Work for the renderer, queued by the other systems. `S` is the shape
/// description that primitive meshes are rebuilt from.
#[derive(Debug)]
pub enum RenderCommand<S> {
    DestroyMesh { mesh: MeshHandle },
    UpdatePrimitiveMesh { asset_id: MeshAssetId, shape: S },
    CreatePrimitiveMesh { entity: EntityId },
    SetSkybox { mesh: MeshHandle, texture: SkyboxTextureHandle },
}

/// Render commands in the order they were queued.
#[derive(Debug)]
pub struct RenderCommandQueue<S> {
    commands: Vec<RenderCommand<S>>,
}

impl<S> RenderCommandQueue<S> {
    /// The queued commands, oldest first.
    pub closed spec fn queued(&self) -> Seq<RenderCommand<S>> {
        self.commands@
    }

    /// An empty queue.
    pub fn new() -> (r: Self)
        ensures
            r.queued() == Seq::<RenderCommand<S>>::empty(),
    {
        RenderCommandQueue { commands: Vec::new() }
    }

    /// Queues the destruction of `mesh`.
    pub fn destroy_mesh(&mut self, mesh: MeshHandle)
        ensures
            final(self).queued() == old(self).queued().push(RenderCommand::DestroyMesh { mesh }),
    {
        self.commands.push(RenderCommand::DestroyMesh { mesh });
    }

    /// Queues the rebuilding of the primitive mesh `asset_id` from `shape`.
    pub fn update_primitive_mesh(&mut self, asset_id: MeshAssetId, shape: S)
        ensures
            final(self).queued() == old(self).queued().push(
                RenderCommand::UpdatePrimitiveMesh { asset_id, shape },
            ),
    {
        self.commands.push(RenderCommand::UpdatePrimitiveMesh { asset_id, shape });
    }

    /// Queues the creation of the pending primitive mesh of `entity`.
    pub fn create_primitive_mesh(&mut self, entity: EntityId)
        ensures
            final(self).queued() == old(self).queued().push(
                RenderCommand::CreatePrimitiveMesh { entity },
            ),
    {
        self.commands.push(RenderCommand::CreatePrimitiveMesh { entity });
    }

    /// Queues drawing the skybox with `mesh` and `texture`.
    pub fn set_skybox(&mut self, mesh: MeshHandle, texture: SkyboxTextureHandle)
        ensures
            final(self).queued() == old(self).queued().push(
                RenderCommand::SetSkybox { mesh, texture },
            ),
    {
        self.commands.push(RenderCommand::SetSkybox { mesh, texture });
    }

    /// Takes every queued command out, oldest first.
    pub fn drain(&mut self) -> (r: Vec<RenderCommand<S>>)
        ensures
            r@ == old(self).queued(),
            final(self).queued() == Seq::<RenderCommand<S>>::empty(),
    {
        let mut taken = Vec::new();
        core::mem::swap(&mut taken, &mut self.commands);
        taken
    }
}

impl<S> Default for RenderCommandQueue<S> {
    /// An empty queue.
    fn default() -> (r: Self)
        ensures
            r.queued() == Seq::<RenderCommand<S>>::empty(),
    {
        RenderCommandQueue::new()
    }
}

} // verus!
