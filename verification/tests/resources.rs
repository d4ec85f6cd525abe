use engine::{
    MeshAsset, MeshAssetId, MeshHandle, PrimitiveMesh, PrimitiveType, Resources, TextureHandle,
    VertexLayout,
};

fn mesh_handle(index: usize) -> MeshHandle {
    MeshHandle::new(index, VertexLayout::Mesh3D)
}

fn mesh_asset(resources: &Resources, id: MeshAssetId) -> &MeshAsset {
    resources.mesh_asset(id).unwrap()
}

#[test]
fn insert_mesh_asset_starts_ref_count_at_zero() {
    let mut resources = Resources::default();

    let id = resources.insert_mesh_asset(mesh_handle(0), false);

    assert_eq!(mesh_asset(&resources, id).ref_count, 0);
    assert_eq!(mesh_asset(&resources, id).handle, mesh_handle(0));
}

#[test]
fn retain_mesh_increments_ref_count_and_returns_handle() {
    let mut resources = Resources::default();
    let id = resources.insert_mesh_asset(mesh_handle(0), false);

    assert_eq!(resources.retain_mesh(id), Some(mesh_handle(0)));
    assert_eq!(mesh_asset(&resources, id).ref_count, 1);

    assert_eq!(resources.retain_mesh(id), Some(mesh_handle(0)));
    assert_eq!(mesh_asset(&resources, id).ref_count, 2);
}

#[test]
fn release_mesh_decrements_ref_count_without_auto_release() {
    let mut resources = Resources::default();
    let id = resources.insert_mesh_asset(mesh_handle(0), false);
    resources.retain_mesh(id);
    resources.retain_mesh(id);

    assert_eq!(resources.release_mesh(id), None);
    assert_eq!(mesh_asset(&resources, id).ref_count, 1);

    assert_eq!(resources.release_mesh(id), None);
    assert_eq!(mesh_asset(&resources, id).ref_count, 0);
    assert!(resources.mesh_asset(id).is_some());
}

#[test]
fn release_mesh_removes_auto_release_asset_when_ref_count_reaches_zero() {
    let mut resources = Resources::default();
    let id = resources.insert_mesh_asset(mesh_handle(0), true);
    resources.retain_mesh(id);

    assert_eq!(resources.release_mesh(id), Some(mesh_handle(0)));
    assert!(resources.mesh_asset(id).is_none());
}

#[test]
fn release_mesh_for_missing_asset_returns_none() {
    let mut resources = Resources::default();

    assert_eq!(resources.release_mesh(MeshAssetId(99)), None);
    assert_eq!(resources.retain_mesh(MeshAssetId(99)), None);
}

#[test]
fn release_without_users_frees_auto_release_asset() {
    let mut resources = Resources::default();
    let id = resources.insert_mesh_asset(mesh_handle(5), true);
    assert_eq!(resources.release_mesh(id), Some(mesh_handle(5)));
    assert_eq!(resources.get_mesh_handle(id), None);
    assert_eq!(resources.retain_mesh(id), None);
}

#[test]
fn models_and_textures_are_found_by_name() {
    let mut resources = Resources::default();
    let first = resources.register_model("viking_room", mesh_handle(1), false);
    let second = resources.register_model("viking_room", mesh_handle(2), false);
    assert_eq!(first, MeshAssetId(0));
    assert_eq!(second, MeshAssetId(1));
    assert_eq!(resources.model_asset_id("viking_room"), Some(second));
    assert_eq!(resources.model_asset_id("missing"), None);
    assert_eq!(resources.get_mesh_handle(first), Some(mesh_handle(1)));

    assert_eq!(resources.register_texture("wood", TextureHandle(3)), TextureHandle(3));
    assert_eq!(resources.get_texture_handle("wood"), Some(TextureHandle(3)));
    assert_eq!(resources.get_texture_handle("stone"), None);
}

#[test]
fn primitive_lookups_take_the_first_match() {
    let mut resources = Resources::default();
    let a = PrimitiveMesh {
        asset_id: MeshAssetId(0),
        primitive_type: PrimitiveType::Sphere,
        vertex_layout: VertexLayout::Lit3D,
    };
    let b = PrimitiveMesh {
        asset_id: MeshAssetId(1),
        primitive_type: PrimitiveType::Sphere,
        vertex_layout: VertexLayout::Lit3D,
    };
    let c = PrimitiveMesh {
        asset_id: MeshAssetId(1),
        primitive_type: PrimitiveType::Cube,
        vertex_layout: VertexLayout::DebugLine3D,
    };
    resources.register_primitive_mesh(a);
    resources.register_primitive_mesh(b);
    resources.register_primitive_mesh(c);
    assert_eq!(
        resources.primitive_asset_id(PrimitiveType::Sphere, VertexLayout::Lit3D),
        Some(MeshAssetId(0))
    );
    assert_eq!(
        resources.primitive_asset_id(PrimitiveType::Sphere, VertexLayout::Mesh3D),
        None
    );
    assert_eq!(
        resources.primitive_type_from_asset_id(MeshAssetId(1)),
        Some(PrimitiveType::Sphere)
    );
    assert_eq!(
        resources.vertex_layout_from_asset_id(MeshAssetId(1)),
        Some(VertexLayout::Lit3D)
    );
    assert_eq!(resources.vertex_layout_from_asset_id(MeshAssetId(7)), None);
}

#[test]
fn mesh_assets_lists_live_slots_in_order() {
    let mut resources = Resources::default();
    let a = resources.insert_mesh_asset(mesh_handle(0), true);
    let b = resources.insert_mesh_asset(mesh_handle(1), false);
    resources.release_mesh(a);
    let listed: Vec<MeshAssetId> = resources.mesh_assets().into_iter().map(|(id, _)| id).collect();
    assert_eq!(listed, vec![b]);
}
