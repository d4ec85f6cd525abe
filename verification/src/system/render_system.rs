use vstd::prelude::*;

use crate::component::material::Material;
use crate::component::mesh_renderer::{MeshRenderer, MeshRendererError};
use crate::component::name::Name;
use crate::component::scene_owned::SceneOwned;
use crate::component::tags::Tags;
use crate::component::visibility::Visibility;
use crate::ecs::entity::EntityId;
use crate::ecs::registry::lemma_other_pool_kept;
use crate::handles::{layout_of_pipeline, MeshHandle, SkyboxTextureHandle};
use crate::resources::{
    asset_at, assets_after_release, assets_after_retain, first_mesh, MeshAssetId, PrimitiveMesh, Resources,
};
use crate::system::entity_api::EntityContext;
use crate::system::render_command::RenderCommand;

verus! {

/// Why a render command could not be carried out.
#[derive(Clone, Copy, Debug, PartialEq, Eq, Structural)]
pub enum RenderError {
    /// No built-in shape is registered for the asset.
    PrimitiveNotFound(MeshAssetId),
    /// The asset slot holds no mesh.
    MeshAssetNotFound(MeshAssetId),
    /// The material cannot draw the new mesh.
    Renderer(MeshRendererError),
}

/// What the renderer is to do for one render command.
#[derive(Debug)]
pub enum RenderAction<S> {
    /// Destroy the mesh.
    DestroyMesh { mesh: MeshHandle },
    /// Rebuild the built-in shape's mesh from `shape`.
    UpdatePrimitiveMesh { target: PrimitiveMesh, shape: S },
    /// Upload the pending shape of the entity and attach it.
    CreatePrimitiveMesh { entity: EntityId },
    /// Draw the skybox with this mesh and texture.
    SetSkybox { mesh: MeshHandle, texture: SkyboxTextureHandle },
    /// Nothing to do.
    Skip,
}

/// The built-in shape registered for the asset `id`: its type and layout
/// from the first shape registered for `id`, and the asset of the first
/// shape registered with that type and layout.
pub open spec fn primitive_update_target(primitives: Seq<PrimitiveMesh>, id: MeshAssetId) -> Option<Option<PrimitiveMesh>> {
    match first_mesh(primitives, None, None, Some(id)) {
        None => None,
        Some(m) => Some(
            match first_mesh(primitives, Some(m.primitive_type), Some(m.vertex_layout), None) {
                Some(t) => Some(PrimitiveMesh { asset_id: t.asset_id, primitive_type: m.primitive_type, vertex_layout: m.vertex_layout }),
                None => None,
            },
        ),
    }
}

/// Draws the world and carries out the render commands.
#[derive(Clone, Copy, Debug)]
pub struct RenderSystem;

impl RenderSystem {
    /// What the renderer is to do for `command`. A mesh update is aimed at
    /// the first built-in shape of the same type and layout as the shape
    /// registered for its asset, and skipped when there is none; it is
    /// refused when no shape is registered for the asset.
    pub fn plan<S>(&self, resources: &Resources, command: RenderCommand<S>) -> (r: Result<RenderAction<S>, RenderError>)
        ensures
            match command {
                RenderCommand::DestroyMesh { mesh } => r == Ok::<RenderAction<S>, RenderError>(
                    RenderAction::DestroyMesh { mesh },
                ),
                RenderCommand::UpdatePrimitiveMesh { asset_id, shape } => match primitive_update_target(
                    resources.primitives(),
                    asset_id,
                ) {
                    None => r == Err::<RenderAction<S>, RenderError>(RenderError::PrimitiveNotFound(asset_id)),
                    Some(None) => r == Ok::<RenderAction<S>, RenderError>(RenderAction::Skip),
                    Some(Some(target)) => r == Ok::<RenderAction<S>, RenderError>(
                        RenderAction::UpdatePrimitiveMesh { target, shape },
                    ),
                },
                RenderCommand::CreatePrimitiveMesh { entity } => r == Ok::<RenderAction<S>, RenderError>(
                    RenderAction::CreatePrimitiveMesh { entity },
                ),
                RenderCommand::SetSkybox { mesh, texture } => r == Ok::<RenderAction<S>, RenderError>(
                    RenderAction::SetSkybox { mesh, texture },
                ),
            },
    {
        match command {
            RenderCommand::DestroyMesh { mesh } => Ok(RenderAction::DestroyMesh { mesh }),
            RenderCommand::UpdatePrimitiveMesh { asset_id, shape } => {
                let primitive_type = match resources.primitive_type_from_asset_id(asset_id) {
                    Some(t) => t,
                    None => return Err(RenderError::PrimitiveNotFound(asset_id)),
                };
                let vertex_layout = match resources.vertex_layout_from_asset_id(asset_id) {
                    Some(l) => l,
                    None => return Err(RenderError::PrimitiveNotFound(asset_id)),
                };
                match resources.primitive_asset_id(primitive_type, vertex_layout) {
                    Some(target) => Ok(
                        RenderAction::UpdatePrimitiveMesh {
                            target: PrimitiveMesh { asset_id: target, primitive_type, vertex_layout },
                            shape,
                        },
                    ),
                    None => Ok(RenderAction::Skip),
                }
            },
            RenderCommand::CreatePrimitiveMesh { entity } => Ok(RenderAction::CreatePrimitiveMesh { entity }),
            RenderCommand::SetSkybox { mesh, texture } => Ok(RenderAction::SetSkybox { mesh, texture }),
        }
    }

    /// Attaches the freshly uploaded mesh of a built-in shape to `entity`:
    /// the shape is registered, its asset gains a user, and the entity gets
    /// a mesh renderer of it with `material`. Refused when the asset slot is
    /// empty, and when the material cannot draw the mesh, in which case the
    /// asset's user is given back; the shape stays registered either way.
    pub fn attach_created_mesh<S>(
        &self,
        context: &mut EntityContext<S>,
        entity: EntityId,
        mesh: PrimitiveMesh,
        material: Material,
    ) -> (r: Result<(), RenderError>)
        requires
            old(context).wf(),
            asset_at(old(context).resources.assets(), mesh.asset_id) matches Some(a) ==> a.ref_count < usize::MAX,
        ensures
            final(context).wf(),
            final(context).render_commands == old(context).render_commands,
            final(context).resources.primitives() == old(context).resources.primitives().push(mesh),
            final(context).resources.models() == old(context).resources.models(),
            final(context).resources.textures() == old(context).resources.textures(),
            final(context).registry().live() == old(context).registry().live(),
            final(context).registry().next_id() == old(context).registry().next_id(),
            ({
                let assets = old(context).resources.assets();
                let id = mesh.asset_id;
                match asset_at(assets, id) {
                    None => r == Err::<(), RenderError>(RenderError::MeshAssetNotFound(id))
                        && final(context).resources.assets() == assets
                        && final(context).registry() == old(context).registry(),
                    Some(a) => if layout_of_pipeline(material.pipeline_key) != a.handle.vertex_layout {
                        &&& r == Err::<(), RenderError>(RenderError::Renderer(MeshRendererError::LayoutMismatch))
                        &&& final(context).resources.assets() == assets_after_release(assets_after_retain(assets, id), id)
                        &&& final(context).registry() == old(context).registry()
                    } else {
                        let b = old(context).registry();
                        let f = final(context).registry();
                        &&& r == Ok::<(), RenderError>(())
                        &&& final(context).resources.assets() == assets_after_retain(assets, id)
                        &&& (b.live().contains(entity) ==> f.components::<MeshRenderer>() == b.components::<
                            MeshRenderer,
                        >().insert(entity, MeshRenderer { mesh: a.handle, asset_id: Some(id), material }))
                        &&& (!b.live().contains(entity) ==> f == b)
                        &&& f.components::<Visibility>() == b.components::<Visibility>()
                        &&& f.components::<Tags>() == b.components::<Tags>()
                        &&& f.components::<Name>() == b.components::<Name>()
                        &&& f.components::<SceneOwned>() == b.components::<SceneOwned>()
                    },
                }
            }),
    {
        context.resources.register_primitive_mesh(mesh);
        let handle = match context.resources.retain_mesh(mesh.asset_id) {
            Some(h) => h,
            None => return Err(RenderError::MeshAssetNotFound(mesh.asset_id)),
        };
        let mesh_renderer = match MeshRenderer::new(handle, material) {
            Ok(mesh_renderer) => mesh_renderer.with_asset_id(mesh.asset_id),
            Err(error) => {
                context.resources.release_mesh(mesh.asset_id);
                return Err(RenderError::Renderer(error));
            },
        };
        let ghost st0 = context.registry().storage();
        context.add_component(entity, mesh_renderer);
        let ghost st1 = context.registry().storage();
        proof {
            if old(context).registry().live().contains(entity) {
                lemma_other_pool_kept::<MeshRenderer, Visibility>(st0, st1);
                lemma_other_pool_kept::<MeshRenderer, Tags>(st0, st1);
                lemma_other_pool_kept::<MeshRenderer, Name>(st0, st1);
                lemma_other_pool_kept::<MeshRenderer, SceneOwned>(st0, st1);
            }
        }
        Ok(())
    }

}

} // verus!
