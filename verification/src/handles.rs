use vstd::prelude::*;

verus! {

/// The vertex format that a mesh is uploaded with.
#[derive(Clone, Copy, Debug, PartialEq, Eq, Hash, Structural)]
pub enum VertexLayout {
    Mesh3D,
    DebugLine3D,
    Lit3D,
    Ui2D,
    Skybox,
}

/// The pipeline that a material is drawn with.
#[derive(Clone, Copy, Debug, PartialEq, Eq, Hash, Structural)]
pub enum PipelineKey {
    Mesh3D,
    DebugLine3D,
    Transparent3D,
    Lit3D,
    Ui2D,
    Skybox,
}

/// The vertex layout that a pipeline draws.
pub open spec fn layout_of_pipeline(key: PipelineKey) -> VertexLayout {
    match key {
        PipelineKey::Mesh3D => VertexLayout::Mesh3D,
        PipelineKey::DebugLine3D => VertexLayout::DebugLine3D,
        PipelineKey::Transparent3D => VertexLayout::Mesh3D,
        PipelineKey::Lit3D => VertexLayout::Lit3D,
        PipelineKey::Ui2D => VertexLayout::Ui2D,
        PipelineKey::Skybox => VertexLayout::Skybox,
    }
}

impl PipelineKey {
    /// The vertex layout that meshes drawn with this pipeline must have.
    pub fn required_vertex_layout(self) -> (r: VertexLayout)
        ensures
            r == layout_of_pipeline(self),
    {
        match self {
            PipelineKey::Mesh3D => VertexLayout::Mesh3D,
            PipelineKey::DebugLine3D => VertexLayout::DebugLine3D,
            PipelineKey::Transparent3D => VertexLayout::Mesh3D,
            PipelineKey::Lit3D => VertexLayout::Lit3D,
            PipelineKey::Ui2D => VertexLayout::Ui2D,
            PipelineKey::Skybox => VertexLayout::Skybox,
        }
    }
}

/// A mesh uploaded to the renderer: its slot and its vertex layout.
#[derive(Clone, Copy, Debug, PartialEq, Eq, Hash, Structural)]
pub struct MeshHandle {
    pub index: usize,
    pub vertex_layout: VertexLayout,
}

impl MeshHandle {
    /// The handle of the mesh in slot `index`.
    pub fn new(index: usize, vertex_layout: VertexLayout) -> (r: Self)
        ensures
            r.index == index,
            r.vertex_layout == vertex_layout,
    {
        MeshHandle { index, vertex_layout }
    }
}

/// A texture uploaded to the renderer.
#[derive(Clone, Copy, Debug, PartialEq, Eq, Hash, Structural)]
pub struct TextureHandle(pub usize);

/// A cube-map texture uploaded to the renderer.
#[derive(Clone, Copy, Debug, PartialEq, Eq, Hash, Structural)]
pub struct SkyboxTextureHandle(pub usize);

/// The texture that untextured materials point at: the first one loaded.
pub fn default_texture() -> (r: TextureHandle)
    ensures
        r == TextureHandle(0),
{
    TextureHandle(0)
}

/// The skybox texture used when none is chosen: the first one loaded.
pub fn default_skybox_texture() -> (r: SkyboxTextureHandle)
    ensures
        r == SkyboxTextureHandle(0),
{
    SkyboxTextureHandle(0)
}

} // verus!
