use engine::system::render_command::RenderCommand;
use engine::{
    EntityContext, Material, MeshAssetId, MeshHandle, MeshRenderer, PipelineKey, SpawnError,
    Tags, VertexLayout, Visibility,
};

fn mesh_renderer(asset_id: Option<MeshAssetId>) -> MeshRenderer {
    MeshRenderer {
        mesh: MeshHandle::new(0, VertexLayout::Mesh3D),
        asset_id,
        material: Material::default(),
    }
}

#[test]
fn mesh_asset_id_returns_the_requested_entity_asset() {
    let mut context: EntityContext<()> = EntityContext::default();
    let first = context.spawn();
    let second = context.spawn();
    context.add_component(first, mesh_renderer(Some(MeshAssetId(3))));
    context.add_component(second, mesh_renderer(Some(MeshAssetId(7))));

    assert_eq!(context.mesh_asset_id(first), Some(MeshAssetId(3)));
    assert_eq!(context.mesh_asset_id(second), Some(MeshAssetId(7)));
}

#[test]
fn mesh_asset_id_returns_none_without_mesh_renderer() {
    let mut context: EntityContext<()> = EntityContext::default();
    let entity = context.spawn();

    assert_eq!(context.mesh_asset_id(entity), None);
}

#[test]
fn mesh_asset_id_returns_none_without_asset_id() {
    let mut context: EntityContext<()> = EntityContext::default();
    let entity = context.spawn();
    context.add_component(entity, mesh_renderer(None));

    assert_eq!(context.mesh_asset_id(entity), None);
}

#[test]
fn mesh_asset_id_returns_none_after_entity_is_despawned() {
    let mut context: EntityContext<()> = EntityContext::default();
    let entity = context.spawn();
    context.add_component(entity, mesh_renderer(Some(MeshAssetId(3))));
    assert!(context.despawn(entity));

    assert_eq!(context.mesh_asset_id(entity), None);
}

#[test]
fn despawn_releases_auto_release_mesh_and_queues_destroy() {
    let mut context: EntityContext<()> = EntityContext::default();
    let handle = MeshHandle::new(4, VertexLayout::Mesh3D);
    let asset = context.resources.insert_mesh_asset(handle, true);
    context.resources.retain_mesh(asset);
    let entity = context.spawn();
    context.add_component(entity, mesh_renderer(Some(asset)));

    assert!(context.despawn(entity));
    assert!(context.resources.mesh_asset(asset).is_none());
    let queued = context.render_commands.drain();
    assert_eq!(queued.len(), 1);
    assert!(matches!(queued[0], RenderCommand::DestroyMesh { mesh } if mesh == handle));
    assert!(!context.despawn(entity));
}

#[test]
fn despawn_last_removes_newest_entity() {
    let mut context: EntityContext<()> = EntityContext::default();
    assert!(!context.despawn_last());
    let first = context.spawn();
    let second = context.spawn();
    assert!(context.despawn_last());
    assert!(context.is_entity_registered(first));
    assert!(!context.is_entity_registered(second));
    assert_eq!(context.entities().to_vec(), vec![first]);
}

#[test]
fn spawn_model_ties_renderer_to_model_asset() {
    let mut context: EntityContext<()> = EntityContext::default();
    let handle = MeshHandle::new(2, VertexLayout::Mesh3D);
    let asset = context.resources.register_model("viking_room", handle, false);

    let entity = context.spawn_model("viking_room", Material::default()).unwrap();
    let renderer = context.get_component::<MeshRenderer>(entity).unwrap();
    assert_eq!(renderer.asset_id, Some(asset));
    assert_eq!(renderer.mesh, handle);
    assert!(context.get_component::<Visibility>(entity).unwrap().is_visible);
    assert_eq!(
        context.get_component::<Tags>(entity).unwrap().values,
        vec!["Model", "viking_room"]
    );
    assert_eq!(context.resources.mesh_asset(asset).unwrap().ref_count, 1);
}

#[test]
fn spawn_model_refuses_mismatched_pipeline_and_gives_back_the_user() {
    let mut context: EntityContext<()> = EntityContext::default();
    let handle = MeshHandle::new(2, VertexLayout::Mesh3D);
    let asset = context.resources.register_model("viking_room", handle, false);
    let material = Material {
        pipeline_key: PipelineKey::DebugLine3D,
        ..Material::default()
    };

    assert_eq!(
        context.spawn_model("viking_room", material),
        Err(SpawnError::Renderer(engine::MeshRendererError::LayoutMismatch))
    );
    assert_eq!(context.resources.mesh_asset(asset).unwrap().ref_count, 0);
    assert_eq!(context.entity_count(), 0);
    assert_eq!(
        context.spawn_model("missing", Material::default()),
        Err(SpawnError::ModelNotFound)
    );
}
