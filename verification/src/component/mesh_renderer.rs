use vstd::prelude::*;

use crate::component::material::Material;
use crate::handles::{layout_of_pipeline, MeshHandle};
use crate::resources::MeshAssetId;

verus! {

/// Draws a mesh with a material.
#[derive(Clone, Copy, Debug, PartialEq, Eq, Structural)]
pub struct MeshRenderer {
    pub mesh: MeshHandle,
    pub asset_id: Option<MeshAssetId>,
    pub material: Material,
}

/// Why a mesh renderer could not be built.
#[derive(Clone, Copy, Debug, PartialEq, Eq, Structural)]
pub enum MeshRendererError {
    /// The material's pipeline draws another vertex layout than the mesh has.
    LayoutMismatch,
}

impl MeshRenderer {
    /// A renderer of `mesh` with `material`, with no asset behind it. Refused
    /// when the material's pipeline does not draw the mesh's vertex layout.
    pub fn new(mesh: MeshHandle, material: Material) -> (r: Result<Self, MeshRendererError>)
        ensures
            layout_of_pipeline(material.pipeline_key) != mesh.vertex_layout ==> r == Err::<
                Self,
                MeshRendererError,
            >(MeshRendererError::LayoutMismatch),
            layout_of_pipeline(material.pipeline_key) == mesh.vertex_layout ==> r == Ok::<
                Self,
                MeshRendererError,
            >(MeshRenderer { mesh, asset_id: None, material }),
    {
        if material.pipeline_key.required_vertex_layout() != mesh.vertex_layout {
            return Err(MeshRendererError::LayoutMismatch);
        }
        Ok(MeshRenderer { mesh, asset_id: None, material })
    }

    /// The same renderer, tied to the asset `asset_id`.
    pub fn with_asset_id(self, asset_id: MeshAssetId) -> (r: Self)
        ensures
            r == (MeshRenderer { asset_id: Some(asset_id), ..self }),
    {
        MeshRenderer { asset_id: Some(asset_id), ..self }
    }
}

} // verus!
