use vstd::prelude::*;

use crate::handles::{MeshHandle, SkyboxTextureHandle, TextureHandle, VertexLayout};
use crate::name_map::NameMap;
use crate::primitive::PrimitiveType;

verus! {

/// Identifier of a mesh asset: its slot in the asset table.
#[derive(Clone, Copy, Debug, PartialEq, Eq, Hash, Structural)]
pub struct MeshAssetId(pub usize);

/// A mesh with the number of entities that use it. An asset marked
/// `auto_release` is dropped when that number falls back to zero.
#[derive(Clone, Copy, Debug, PartialEq, Eq, Structural)]
pub struct MeshAsset {
    pub handle: MeshHandle,
    pub ref_count: usize,
    pub auto_release: bool,
}

/// A built-in shape uploaded as a mesh asset.
#[derive(Clone, Copy, Debug, PartialEq, Eq, Hash, Structural)]
pub struct PrimitiveMesh {
    pub asset_id: MeshAssetId,
    pub primitive_type: PrimitiveType,
    pub vertex_layout: VertexLayout,
}

/// The first of `meshes` that satisfies `pred`.
pub open spec fn first_match(meshes: Seq<PrimitiveMesh>, pred: spec_fn(PrimitiveMesh) -> bool) -> Option<PrimitiveMesh> {
    if exists|i: int| 0 <= i < meshes.len() && pred(meshes[i]) {
        let i = choose|i: int| 0 <= i < meshes.len() && pred(meshes[i]) && forall|j: int| 0 <= j < i ==> !pred(meshes[j]);
        Some(meshes[i])
    } else {
        None
    }
}

/// The mesh at `i` is the first that satisfies `pred`.
pub proof fn lemma_first_match(meshes: Seq<PrimitiveMesh>, pred: spec_fn(PrimitiveMesh) -> bool, i: int)
    requires
        0 <= i < meshes.len(),
        pred(meshes[i]),
        forall|j: int| 0 <= j < i ==> !pred(meshes[j]),
    ensures
        first_match(meshes, pred) == Some(meshes[i]),
{
    let k = choose|k: int| 0 <= k < meshes.len() && pred(meshes[k]) && forall|j: int| 0 <= j < k ==> !pred(meshes[j]);
    assert(0 <= k < meshes.len() && pred(meshes[k]) && forall|j: int| 0 <= j < k ==> !pred(meshes[j]));
    if k < i {
        assert(!pred(meshes[k]));
    }
    if i < k {
        assert(!pred(meshes[i]));
    }
}

/// The position of the first of `meshes` that agrees with every field
/// that is given.
fn find_first(meshes: &Vec<PrimitiveMesh>, primitive_type: Option<PrimitiveType>, vertex_layout: Option<VertexLayout>, asset_id: Option<MeshAssetId>) -> (r: Option<usize>)
    ensures
        match r {
            Some(i) => i < meshes@.len() && mesh_matches(meshes@[i as int], primitive_type, vertex_layout, asset_id)
                && forall|j: int| 0 <= j < i ==> !mesh_matches(meshes@[j], primitive_type, vertex_layout, asset_id),
            None => forall|j: int| 0 <= j < meshes@.len() ==> !mesh_matches(meshes@[j], primitive_type, vertex_layout, asset_id),
        },
{
    let mut i: usize = 0;
    while i < meshes.len()
        invariant
            i <= meshes@.len(),
            forall|j: int| 0 <= j < i ==> !mesh_matches(meshes@[j], primitive_type, vertex_layout, asset_id),
        decreases meshes@.len() - i,
    {
        let m = meshes[i];
        let type_ok = match primitive_type {
            Some(t) => m.primitive_type == t,
            None => true,
        };
        let layout_ok = match vertex_layout {
            Some(l) => m.vertex_layout == l,
            None => true,
        };
        let asset_ok = match asset_id {
            Some(a) => m.asset_id == a,
            None => true,
        };
        if type_ok && layout_ok && asset_ok {
            return Some(i);
        }
        i = i + 1;
    }
    None
}

/// The mesh agrees with every field that is given.
pub open spec fn mesh_matches(
    m: PrimitiveMesh,
    primitive_type: Option<PrimitiveType>,
    vertex_layout: Option<VertexLayout>,
    asset_id: Option<MeshAssetId>,
) -> bool {
    &&& (primitive_type matches Some(t) ==> m.primitive_type == t)
    &&& (vertex_layout matches Some(l) ==> m.vertex_layout == l)
    &&& (asset_id matches Some(a) ==> m.asset_id == a)
}

/// The first of `meshes` that agrees with every field that is given.
pub open spec fn first_mesh(
    meshes: Seq<PrimitiveMesh>,
    primitive_type: Option<PrimitiveType>,
    vertex_layout: Option<VertexLayout>,
    asset_id: Option<MeshAssetId>,
) -> Option<PrimitiveMesh> {
    first_match(meshes, |m: PrimitiveMesh| mesh_matches(m, primitive_type, vertex_layout, asset_id))
}

/// What is known of an asset slot: its asset, if it was not released.
pub open spec fn asset_at(assets: Seq<Option<MeshAsset>>, id: MeshAssetId) -> Option<MeshAsset> {
    if id.0 < assets.len() {
        assets[id.0 as int]
    } else {
        None
    }
}

/// The asset slots after one more user took the asset `id`: its count
/// grows by one.
pub open spec fn assets_after_retain(assets: Seq<Option<MeshAsset>>, id: MeshAssetId) -> Seq<Option<MeshAsset>> {
    match asset_at(assets, id) {
        Some(a) => assets.update(id.0 as int, Some(MeshAsset { ref_count: (a.ref_count + 1) as usize, ..a })),
        None => assets,
    }
}

/// The asset slots after one user of the asset `id` let go of it: the count
/// drops by one (never below zero), and an `auto_release` asset that no one
/// uses any more leaves its slot.
pub open spec fn assets_after_release(assets: Seq<Option<MeshAsset>>, id: MeshAssetId) -> Seq<Option<MeshAsset>> {
    match asset_at(assets, id) {
        Some(a) => {
            let count = if a.ref_count > 0 { (a.ref_count - 1) as usize } else { 0usize };
            if count == 0 && a.auto_release {
                assets.update(id.0 as int, None)
            } else {
                assets.update(id.0 as int, Some(MeshAsset { ref_count: count, ..a }))
            }
        },
        None => assets,
    }
}

/// The mesh to destroy after one user of the asset `id` let go of it: that
/// of an `auto_release` asset that no one uses any more.
pub open spec fn handle_released(assets: Seq<Option<MeshAsset>>, id: MeshAssetId) -> Option<MeshHandle> {
    match asset_at(assets, id) {
        Some(a) => {
            let count = if a.ref_count > 0 { (a.ref_count - 1) as usize } else { 0usize };
            if count == 0 && a.auto_release {
                Some(a.handle)
            } else {
                None
            }
        },
        None => None,
    }
}

/// The asset with one user fewer, never fewer than none.
pub open spec fn released_once(a: MeshAsset) -> MeshAsset {
    MeshAsset {
        handle: a.handle,
        ref_count: if a.ref_count > 0 { (a.ref_count - 1) as usize } else { 0 },
        auto_release: a.auto_release,
    }
}

/// Letting go of an asset hands back a mesh exactly when that frees the
/// asset's slot: the asset was `auto_release` and had at most one user, and
/// the mesh handed back is the asset's own. An asset still used by someone
/// else after the release keeps its slot, with one user fewer, and hands
/// back nothing.
pub proof fn release_hands_back_only_freed_meshes(assets: Seq<Option<MeshAsset>>, id: MeshAssetId)
    ensures
        handle_released(assets, id) is Some <==> (asset_at(assets, id) is Some && asset_at(
            assets_after_release(assets, id),
            id,
        ) is None),
        handle_released(assets, id) is Some <==> match asset_at(assets, id) {
            Some(a) => a.auto_release && a.ref_count <= 1,
            None => false,
        },
        handle_released(assets, id) matches Some(h) ==> (asset_at(assets, id) matches Some(a) && a.handle == h),
        match asset_at(assets, id) {
            Some(a) => a.ref_count >= 2 ==> handle_released(assets, id) is None && assets_after_release(
                assets,
                id,
            )[id.0 as int] == Some(released_once(a)),
            None => true,
        },
        match asset_at(assets, id) {
            Some(a) => if a.auto_release && a.ref_count <= 1 {
                asset_at(assets_after_release(assets, id), id) is None
            } else {
                asset_at(assets_after_release(assets, id), id) == Some(released_once(a))
            },
            None => assets_after_release(assets, id) == assets,
        },
        assets_after_release(assets, id).len() == assets.len(),
        forall|j: int|
            0 <= j < assets.len() && j != id.0 ==> #[trigger] assets_after_release(assets, id)[j]
                == assets[j],
        asset_at(assets, id) matches Some(a) && !a.auto_release ==> handle_released(assets, id) is None,
{
}

/// A user that takes an asset and lets go of it again leaves the asset as
/// it was, unless that leaves an unused `auto_release` asset, which is then
/// freed.
pub proof fn retain_then_release_restores(assets: Seq<Option<MeshAsset>>, id: MeshAssetId)
    requires
        asset_at(assets, id) matches Some(a) ==> a.ref_count < usize::MAX,
    ensures
        asset_at(assets, id) matches Some(a) ==> (if a.ref_count == 0 && a.auto_release {
            assets_after_release(assets_after_retain(assets, id), id) == assets.update(id.0 as int, None)
        } else {
            assets_after_release(assets_after_retain(assets, id), id) == assets
        }),
        asset_at(assets, id) is None ==> assets_after_release(assets_after_retain(assets, id), id) == assets,
{
    if let Some(a) = asset_at(assets, id) {
        let retained = assets_after_retain(assets, id);
        assert(asset_at(retained, id) == Some(MeshAsset { ref_count: (a.ref_count + 1) as usize, ..a }));
        if !(a.ref_count == 0 && a.auto_release) {
            assert(assets_after_release(retained, id) =~= assets);
        }
    }
}

/// A freed asset slot stays empty: taking it gives nothing and changes
/// nothing, and so does letting go of it.
pub proof fn freed_slot_stays_empty(assets: Seq<Option<MeshAsset>>, id: MeshAssetId)
    requires
        asset_at(assets, id) is None,
    ensures
        assets_after_retain(assets, id) == assets,
        assets_after_release(assets, id) == assets,
        handle_released(assets, id) is None,
{
}

/// The meshes, textures and primitive shapes that the engine has loaded.
pub struct Resources {
    mesh_assets: Vec<Option<MeshAsset>>,
    models: NameMap<MeshAssetId>,
    textures: NameMap<TextureHandle>,
    primitive_meshes: Vec<PrimitiveMesh>,
    skybox_mesh: Option<MeshHandle>,
    skybox_textures: NameMap<SkyboxTextureHandle>,
}

impl Resources {
    /// The mesh asset slots; a released slot holds nothing.
    pub closed spec fn assets(&self) -> Seq<Option<MeshAsset>> {
        self.mesh_assets@
    }

    /// The model names and their assets.
    pub closed spec fn models(&self) -> Map<Seq<char>, MeshAssetId> {
        self.models.map()
    }

    /// The texture names and their textures.
    pub closed spec fn textures(&self) -> Map<Seq<char>, TextureHandle> {
        self.textures.map()
    }

    /// The skybox texture names and their textures.
    pub closed spec fn skybox_textures(&self) -> Map<Seq<char>, SkyboxTextureHandle> {
        self.skybox_textures.map()
    }

    /// The built-in shapes, in registration order.
    pub closed spec fn primitives(&self) -> Seq<PrimitiveMesh> {
        self.primitive_meshes@
    }

    /// The skybox mesh, once set.
    pub closed spec fn skybox(&self) -> Option<MeshHandle> {
        self.skybox_mesh
    }

    /// The name tables are well formed.
    pub closed spec fn wf(&self) -> bool {
        &&& self.models.wf()
        &&& self.textures.wf()
        &&& self.skybox_textures.wf()
    }

    /// Nothing loaded.
    pub fn new() -> (r: Self)
        ensures
            r.wf(),
            r.assets() == Seq::<Option<MeshAsset>>::empty(),
            r.models() == Map::<Seq<char>, MeshAssetId>::empty(),
            r.textures() == Map::<Seq<char>, TextureHandle>::empty(),
            r.skybox_textures() == Map::<Seq<char>, SkyboxTextureHandle>::empty(),
            r.primitives() == Seq::<PrimitiveMesh>::empty(),
            r.skybox() is None,
    {
        Resources {
            mesh_assets: Vec::new(),
            models: NameMap::new(),
            textures: NameMap::new(),
            primitive_meshes: Vec::new(),
            skybox_mesh: None,
            skybox_textures: NameMap::new(),
        }
    }
    /// The same name tables, shapes and skybox as `other`.
    pub open spec fn same_tables(&self, other: &Self) -> bool {
        &&& self.models() == other.models()
        &&& self.textures() == other.textures()
        &&& self.skybox_textures() == other.skybox_textures()
        &&& self.primitives() == other.primitives()
        &&& self.skybox() == other.skybox()
    }

    /// Adds a mesh asset that nothing uses yet, in a new slot.
    pub fn insert_mesh_asset(&mut self, handle: MeshHandle, auto_release: bool) -> (r: MeshAssetId)
        requires
            old(self).wf(),
        ensures
            final(self).wf(),
            r.0 == old(self).assets().len(),
            final(self).assets() == old(self).assets().push(
                Some(MeshAsset { handle, ref_count: 0, auto_release }),
            ),
            final(self).same_tables(old(self)),
    {
        let id = MeshAssetId(self.mesh_assets.len());
        self.mesh_assets.push(Some(MeshAsset { handle, ref_count: 0, auto_release }));
        id
    }

    /// Adds the freshly uploaded mesh of a built-in shape of type
    /// `primitive_type` as an asset that nothing uses yet, and describes it;
    /// its layout is that of the mesh. The shape is not registered yet.
    pub fn add_primitive_asset(
        &mut self,
        handle: MeshHandle,
        primitive_type: PrimitiveType,
        auto_release: bool,
    ) -> (r: PrimitiveMesh)
        requires
            old(self).wf(),
        ensures
            final(self).wf(),
            r == (PrimitiveMesh {
                asset_id: MeshAssetId(old(self).assets().len() as usize),
                primitive_type,
                vertex_layout: handle.vertex_layout,
            }),
            final(self).assets() == old(self).assets().push(
                Some(MeshAsset { handle, ref_count: 0, auto_release }),
            ),
            final(self).same_tables(old(self)),
    {
        let asset_id = self.insert_mesh_asset(handle, auto_release);
        PrimitiveMesh { asset_id, primitive_type, vertex_layout: handle.vertex_layout }
    }

    /// Adds a mesh asset and makes it the model named `name`.
    pub fn register_model(&mut self, name: &str, handle: MeshHandle, auto_release: bool) -> (r: MeshAssetId)
        requires
            old(self).wf(),
        ensures
            final(self).wf(),
            r.0 == old(self).assets().len(),
            final(self).assets() == old(self).assets().push(
                Some(MeshAsset { handle, ref_count: 0, auto_release }),
            ),
            final(self).models() == old(self).models().insert(name@, r),
            final(self).textures() == old(self).textures(),
            final(self).skybox_textures() == old(self).skybox_textures(),
            final(self).primitives() == old(self).primitives(),
            final(self).skybox() == old(self).skybox(),
    {
        let id = self.insert_mesh_asset(handle, auto_release);
        self.models.insert(name, id);
        id
    }

    /// Makes `handle` the texture named `name`, and hands it back.
    pub fn register_texture(&mut self, name: &str, handle: TextureHandle) -> (r: TextureHandle)
        requires
            old(self).wf(),
        ensures
            final(self).wf(),
            r == handle,
            final(self).textures() == old(self).textures().insert(name@, handle),
            final(self).assets() == old(self).assets(),
            final(self).models() == old(self).models(),
            final(self).skybox_textures() == old(self).skybox_textures(),
            final(self).primitives() == old(self).primitives(),
            final(self).skybox() == old(self).skybox(),
    {
        self.textures.insert(name, handle);
        handle
    }

    /// Makes `handle` the skybox texture named `name`, and hands it back.
    pub fn register_skybox_texture(&mut self, name: &str, handle: SkyboxTextureHandle) -> (r: SkyboxTextureHandle)
        requires
            old(self).wf(),
        ensures
            final(self).wf(),
            r == handle,
            final(self).skybox_textures() == old(self).skybox_textures().insert(name@, handle),
            final(self).assets() == old(self).assets(),
            final(self).models() == old(self).models(),
            final(self).textures() == old(self).textures(),
            final(self).primitives() == old(self).primitives(),
            final(self).skybox() == old(self).skybox(),
    {
        self.skybox_textures.insert(name, handle);
        handle
    }

    /// Appends a built-in shape, and hands it back.
    pub fn register_primitive_mesh(&mut self, mesh: PrimitiveMesh) -> (r: PrimitiveMesh)
        ensures
            r == mesh,
            final(self).primitives() == old(self).primitives().push(mesh),
            final(self).assets() == old(self).assets(),
            final(self).models() == old(self).models(),
            final(self).textures() == old(self).textures(),
            final(self).skybox_textures() == old(self).skybox_textures(),
            final(self).skybox() == old(self).skybox(),
            old(self).wf() ==> final(self).wf(),
    {
        self.primitive_meshes.push(mesh);
        mesh
    }

    /// Replaces the built-in shapes.
    pub fn set_primitive_meshes(&mut self, primitive_meshes: Vec<PrimitiveMesh>)
        ensures
            final(self).primitives() == primitive_meshes@,
            final(self).assets() == old(self).assets(),
            final(self).models() == old(self).models(),
            final(self).textures() == old(self).textures(),
            final(self).skybox_textures() == old(self).skybox_textures(),
            final(self).skybox() == old(self).skybox(),
            old(self).wf() ==> final(self).wf(),
    {
        self.primitive_meshes = primitive_meshes;
    }

    /// Sets the mesh that the skybox is drawn with.
    pub fn set_skybox_mesh(&mut self, mesh: MeshHandle)
        ensures
            final(self).skybox() == Some(mesh),
            final(self).assets() == old(self).assets(),
            final(self).models() == old(self).models(),
            final(self).textures() == old(self).textures(),
            final(self).skybox_textures() == old(self).skybox_textures(),
            final(self).primitives() == old(self).primitives(),
            old(self).wf() ==> final(self).wf(),
    {
        self.skybox_mesh = Some(mesh);
    }

    /// The mesh that the skybox is drawn with, once set.
    pub fn skybox_mesh(&self) -> (r: Option<MeshHandle>)
        ensures
            r == self.skybox(),
    {
        self.skybox_mesh
    }

    /// The skybox texture named `name`.
    pub fn skybox_texture(&self, name: &str) -> (r: Option<SkyboxTextureHandle>)
        requires
            self.wf(),
        ensures
            r == (if self.skybox_textures().dom().contains(name@) {
                Some(self.skybox_textures()[name@])
            } else {
                None
            }),
    {
        match self.skybox_textures.get(name) {
            Some(h) => Some(*h),
            None => None,
        }
    }

    /// The asset of the model named `name`.
    pub fn model_asset_id(&self, name: &str) -> (r: Option<MeshAssetId>)
        requires
            self.wf(),
        ensures
            r == (if self.models().dom().contains(name@) {
                Some(self.models()[name@])
            } else {
                None
            }),
    {
        match self.models.get(name) {
            Some(id) => Some(*id),
            None => None,
        }
    }

    /// The texture named `name`.
    pub fn get_texture_handle(&self, name: &str) -> (r: Option<TextureHandle>)
        requires
            self.wf(),
        ensures
            r == (if self.textures().dom().contains(name@) {
                Some(self.textures()[name@])
            } else {
                None
            }),
    {
        match self.textures.get(name) {
            Some(h) => Some(*h),
            None => None,
        }
    }

    /// The asset of the first built-in shape of the given type and layout.
    pub fn primitive_asset_id(&self, primitive_type: PrimitiveType, vertex_layout: VertexLayout) -> (r: Option<MeshAssetId>)
        ensures
            r == (match first_mesh(self.primitives(), Some(primitive_type), Some(vertex_layout), None) {
                Some(m) => Some(m.asset_id),
                None => None,
            }),
    {
        match find_first(&self.primitive_meshes, Some(primitive_type), Some(vertex_layout), None) {
            Some(i) => {
                proof {
                    lemma_first_match(self.primitives(), |m: PrimitiveMesh| mesh_matches(m, Some(primitive_type), Some(vertex_layout), None), i as int);
                }
                Some(self.primitive_meshes[i].asset_id)
            },
            None => None,
        }
    }

    /// The mesh of the asset `id`, unless the slot is empty or out of range.
    pub fn get_mesh_handle(&self, id: MeshAssetId) -> (r: Option<MeshHandle>)
        ensures
            r == (match asset_at(self.assets(), id) {
                Some(a) => Some(a.handle),
                None => None,
            }),
    {
        if id.0 >= self.mesh_assets.len() {
            return None;
        }
        match self.mesh_assets[id.0] {
            Some(asset) => Some(asset.handle),
            None => None,
        }
    }

    /// The asset in slot `id`, unless the slot is empty or out of range.
    pub fn mesh_asset(&self, id: MeshAssetId) -> (r: Option<&MeshAsset>)
        ensures
            match r {
                Some(a) => asset_at(self.assets(), id) == Some(*a),
                None => asset_at(self.assets(), id) is None,
            },
    {
        if id.0 >= self.mesh_assets.len() {
            return None;
        }
        self.mesh_assets[id.0].as_ref()
    }

    /// The type of the first built-in shape that uses the asset `asset_id`.
    pub fn primitive_type_from_asset_id(&self, asset_id: MeshAssetId) -> (r: Option<PrimitiveType>)
        ensures
            r == (match first_mesh(self.primitives(), None, None, Some(asset_id)) {
                Some(m) => Some(m.primitive_type),
                None => None,
            }),
    {
        match find_first(&self.primitive_meshes, None, None, Some(asset_id)) {
            Some(i) => {
                proof {
                    lemma_first_match(self.primitives(), |m: PrimitiveMesh| mesh_matches(m, None, None, Some(asset_id)), i as int);
                }
                Some(self.primitive_meshes[i].primitive_type)
            },
            None => None,
        }
    }

    /// The layout of the first built-in shape that uses the asset `asset_id`.
    pub fn vertex_layout_from_asset_id(&self, asset_id: MeshAssetId) -> (r: Option<VertexLayout>)
        ensures
            r == (match first_mesh(self.primitives(), None, None, Some(asset_id)) {
                Some(m) => Some(m.vertex_layout),
                None => None,
            }),
    {
        match find_first(&self.primitive_meshes, None, None, Some(asset_id)) {
            Some(i) => {
                proof {
                    lemma_first_match(self.primitives(), |m: PrimitiveMesh| mesh_matches(m, None, None, Some(asset_id)), i as int);
                }
                Some(self.primitive_meshes[i].vertex_layout)
            },
            None => None,
        }
    }

    /// Every asset that was not released, with its identifier, in slot
    /// order.
    pub fn mesh_assets(&self) -> (r: Vec<(MeshAssetId, &MeshAsset)>)
        ensures
            r@.len() == self.assets().filter(|a: Option<MeshAsset>| a is Some).len(),
            forall|k: int| 0 <= k < r@.len() ==> {
                &&& (#[trigger] r@[k]).0.0 < self.assets().len()
                &&& self.assets()[r@[k].0.0 as int] == Some(*r@[k].1)
                &&& Some(*r@[k].1) == self.assets().filter(|a: Option<MeshAsset>| a is Some)[k]
            },
            forall|k: int, l: int| 0 <= k < l < r@.len() ==> r@[k].0.0 < r@[l].0.0,
    {
        let ghost f = |a: Option<MeshAsset>| a is Some;
        let mut r: Vec<(MeshAssetId, &MeshAsset)> = Vec::new();
        let mut i: usize = 0;
        while i < self.mesh_assets.len()
            invariant
                f == (|a: Option<MeshAsset>| a is Some),
                i <= self.assets().len(),
                r@.len() == self.assets().take(i as int).filter(f).len(),
                forall|k: int| 0 <= k < r@.len() ==> {
                    &&& (#[trigger] r@[k]).0.0 < i
                    &&& self.assets()[r@[k].0.0 as int] == Some(*r@[k].1)
                    &&& Some(*r@[k].1) == self.assets().take(i as int).filter(f)[k]
                },
                forall|k: int, l: int| 0 <= k < l < r@.len() ==> r@[k].0.0 < r@[l].0.0,
            decreases self.assets().len() - i,
        {
            let ghost prev = r@;
            proof {
                assert(self.assets().take(i + 1) == self.assets().take(i as int).push(self.assets()[i as int]));
                self.assets().take(i as int).lemma_filter_push(self.assets()[i as int], f);
            }
            match &self.mesh_assets[i] {
                Some(asset) => {
                    r.push((MeshAssetId(i), asset));
                    assert forall|k: int| 0 <= k < r@.len() implies {
                        &&& (#[trigger] r@[k]).0.0 < i + 1
                        &&& self.assets()[r@[k].0.0 as int] == Some(*r@[k].1)
                        &&& Some(*r@[k].1) == self.assets().take(i + 1).filter(f)[k]
                    } by {
                        if k < prev.len() {
                            assert(r@[k] == prev[k]);
                        }
                    }
                },
                None => {},
            }
            i = i + 1;
        }
        assert(self.assets().take(self.assets().len() as int) == self.assets());
        r
    }

    /// Whether the asset `id`, if its slot holds one, can count one more
    /// user.
    pub fn can_gain_user(&self, id: MeshAssetId) -> (r: bool)
        ensures
            r == (asset_at(self.assets(), id) matches Some(a) ==> a.ref_count < usize::MAX),
    {
        if id.0 >= self.mesh_assets.len() {
            return true;
        }
        match self.mesh_assets[id.0] {
            Some(asset) => asset.ref_count < usize::MAX,
            None => true,
        }
    }

    /// Counts one more user of the asset `id` and hands back its mesh;
    /// nothing for an empty or unknown slot.
    pub fn retain_mesh(&mut self, id: MeshAssetId) -> (r: Option<MeshHandle>)
        requires
            asset_at(old(self).assets(), id) matches Some(a) ==> a.ref_count < usize::MAX,
        ensures
            final(self).same_tables(old(self)),
            old(self).wf() ==> final(self).wf(),
            final(self).assets() == assets_after_retain(old(self).assets(), id),
            asset_at(old(self).assets(), id) is None ==> *final(self) == *old(self),
            r == (match asset_at(old(self).assets(), id) {
                Some(a) => Some(a.handle),
                None => None,
            }),
    {
        if id.0 >= self.mesh_assets.len() {
            return None;
        }
        match self.mesh_assets[id.0] {
            Some(asset) => {
                let updated = MeshAsset { ref_count: asset.ref_count + 1, ..asset };
                self.mesh_assets.set(id.0, Some(updated));
                Some(asset.handle)
            },
            None => None,
        }
    }

    /// Counts one user fewer of the asset `id` (never below zero). An
    /// `auto_release` asset that no one uses any more is dropped from its
    /// slot and its mesh handed back, to be destroyed; otherwise nothing is
    /// handed back.
    pub fn release_mesh(&mut self, id: MeshAssetId) -> (r: Option<MeshHandle>)
        ensures
            final(self).same_tables(old(self)),
            old(self).wf() ==> final(self).wf(),
            final(self).assets() == assets_after_release(old(self).assets(), id),
            r == handle_released(old(self).assets(), id),
            r is Some <==> (asset_at(old(self).assets(), id) is Some && asset_at(final(self).assets(), id) is None),
            r matches Some(h) ==> (asset_at(old(self).assets(), id) matches Some(a) && a.handle == h),
            asset_at(old(self).assets(), id) matches Some(a) && a.ref_count >= 2 ==> r is None,
    {
        if id.0 >= self.mesh_assets.len() {
            return None;
        }
        match self.mesh_assets[id.0] {
            Some(asset) => {
                let count = if asset.ref_count > 0 { asset.ref_count - 1 } else { 0 };
                if count == 0 && asset.auto_release {
                    self.mesh_assets.set(id.0, None);
                    return Some(asset.handle);
                }
                self.mesh_assets.set(id.0, Some(MeshAsset { ref_count: count, ..asset }));
                None
            },
            None => None,
        }
    }
}

impl Default for Resources {
    /// Nothing loaded.
    fn default() -> (r: Self)
        ensures
            r.wf(),
            r.assets() == Seq::<Option<MeshAsset>>::empty(),
            r.models() == Map::<Seq<char>, MeshAssetId>::empty(),
            r.textures() == Map::<Seq<char>, TextureHandle>::empty(),
            r.skybox_textures() == Map::<Seq<char>, SkyboxTextureHandle>::empty(),
            r.primitives() == Seq::<PrimitiveMesh>::empty(),
            r.skybox() is None,
    {
        Resources::new()
    }
}

} // verus!
