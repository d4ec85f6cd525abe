use engine::component::material::ONE_F32_BITS;
use engine::system::command::{viking_room_variant, HALF_F32_BITS};
use engine::system::render_command::RenderCommand;
use engine::{
    Command, CommandError, CommandSystem, DebugMonitor, DespawnLastCommand, EntityContext, Material,
    MeshAssetId, MeshHandle, MeshRenderer, MeshRendererError, PipelineKey, PrimitiveMesh, PrimitiveType,
    RenderAction, RenderError, RenderSystem, SpawnError, TextureHandle, UpdatePrimitiveMeshesCommand,
    VertexLayout, Visibility,
};

fn viking_context() -> (EntityContext<()>, [MeshAssetId; 3], TextureHandle) {
    let mut context: EntityContext<()> = EntityContext::default();
    let plain = context
        .resources
        .register_model("viking_room", MeshHandle::new(1, VertexLayout::Mesh3D), false);
    let line = context.resources.register_model(
        "viking_room_debug_line",
        MeshHandle::new(2, VertexLayout::DebugLine3D),
        false,
    );
    let lit = context
        .resources
        .register_model("viking_room_lit3d", MeshHandle::new(3, VertexLayout::Lit3D), false);
    let texture = context.resources.register_texture("viking_room", TextureHandle(5));
    (context, [plain, line, lit], texture)
}

#[test]
fn viking_room_variants_come_in_spawning_order() {
    assert_eq!(
        viking_room_variant(0),
        Some(("viking_room", PipelineKey::Mesh3D, ONE_F32_BITS))
    );
    assert_eq!(
        viking_room_variant(1),
        Some(("viking_room_debug_line", PipelineKey::DebugLine3D, ONE_F32_BITS))
    );
    assert_eq!(
        viking_room_variant(2),
        Some(("viking_room", PipelineKey::Transparent3D, HALF_F32_BITS))
    );
    assert_eq!(
        viking_room_variant(3),
        Some(("viking_room_lit3d", PipelineKey::Lit3D, ONE_F32_BITS))
    );
    assert_eq!(viking_room_variant(4), None);
    assert_eq!(f32::from_bits(HALF_F32_BITS), 0.5);
}

#[test]
fn spawn_viking_room_spawns_the_variants_in_turn() {
    let (mut context, assets, texture) = viking_context();
    let mut spawned = Vec::new();
    for expected in 0..4usize {
        let result = context.spawn_viking_room(4);
        let (entity, index) = result.unwrap().unwrap();
        assert_eq!(index, expected);
        spawned.push(entity);
    }
    assert_eq!(context.spawn_viking_room(4), Ok(None));
    assert_eq!(context.entity_count(), 4);

    let expected = [
        (assets[0], PipelineKey::Mesh3D, ONE_F32_BITS, "viking_room"),
        (assets[1], PipelineKey::DebugLine3D, ONE_F32_BITS, "viking_room_debug_line"),
        (assets[0], PipelineKey::Transparent3D, HALF_F32_BITS, "viking_room"),
        (assets[2], PipelineKey::Lit3D, ONE_F32_BITS, "viking_room_lit3d"),
    ];
    for (entity, (asset, key, alpha, name)) in spawned.iter().zip(expected.iter()) {
        let renderer = context.get_component::<MeshRenderer>(*entity).unwrap();
        assert_eq!(renderer.asset_id, Some(*asset));
        assert_eq!(renderer.material.pipeline_key, *key);
        assert_eq!(renderer.material.alpha_bits, *alpha);
        assert!(renderer.material.use_texture);
        assert_eq!(renderer.material.texture, texture);
        let tags = context.get_component::<engine::Tags>(*entity).unwrap();
        assert_eq!(tags.values, vec!["Model".to_string(), "VikingRoom".to_string(), name.to_string()]);
        assert!(context.get_component::<Visibility>(*entity).unwrap().is_visible);
    }
    assert_eq!(context.resources.mesh_asset(assets[0]).unwrap().ref_count, 2);
    assert_eq!(context.resources.mesh_asset(assets[1]).unwrap().ref_count, 1);
    assert_eq!(context.resources.mesh_asset(assets[2]).unwrap().ref_count, 1);
}

#[test]
fn spawn_viking_room_stops_at_the_number_of_positions() {
    let (mut context, _, _) = viking_context();
    assert!(context.spawn_viking_room(1).unwrap().is_some());
    assert_eq!(context.spawn_viking_room(1), Ok(None));
    assert_eq!(context.entity_count(), 1);
    assert_eq!(context.spawn_viking_room(0), Ok(None));
}

#[test]
fn spawn_viking_room_refuses_missing_model_or_texture() {
    let mut context: EntityContext<()> = EntityContext::default();
    context
        .resources
        .register_model("viking_room", MeshHandle::new(1, VertexLayout::Mesh3D), false);
    assert_eq!(context.spawn_viking_room(4), Err(CommandError::ModelNotFound));

    let mut context: EntityContext<()> = EntityContext::default();
    for (name, index, layout) in [
        ("viking_room", 1, VertexLayout::Mesh3D),
        ("viking_room_debug_line", 2, VertexLayout::DebugLine3D),
        ("viking_room_lit3d", 3, VertexLayout::Lit3D),
    ] {
        context.resources.register_model(name, MeshHandle::new(index, layout), false);
    }
    assert_eq!(context.spawn_viking_room(4), Err(CommandError::TextureNotFound));
    assert_eq!(context.entity_count(), 0);
}

#[test]
fn spawn_viking_room_reports_a_model_whose_layout_does_not_fit() {
    let mut context: EntityContext<()> = EntityContext::default();
    let plain = context
        .resources
        .register_model("viking_room", MeshHandle::new(1, VertexLayout::Lit3D), false);
    context.resources.register_model(
        "viking_room_debug_line",
        MeshHandle::new(2, VertexLayout::DebugLine3D),
        false,
    );
    context
        .resources
        .register_model("viking_room_lit3d", MeshHandle::new(3, VertexLayout::Lit3D), false);
    context.resources.register_texture("viking_room", TextureHandle(5));
    assert_eq!(
        context.spawn_viking_room(4),
        Err(CommandError::Spawn(SpawnError::Renderer(MeshRendererError::LayoutMismatch)))
    );
    assert_eq!(context.entity_count(), 0);
    assert_eq!(context.resources.mesh_asset(plain).unwrap().ref_count, 0);
}

#[test]
fn count_drawing_counts_entities_drawing_the_given_assets() {
    let (mut context, assets, _) = viking_context();
    context.spawn_viking_room(4).unwrap();
    context.spawn_viking_room(4).unwrap();
    context.spawn();
    assert_eq!(context.count_drawing(&assets), 2);
    assert_eq!(context.count_drawing(&[assets[1]]), 1);
    assert_eq!(context.count_drawing(&[]), 0);
}

#[test]
fn despawn_last_command_through_the_command_system() {
    let mut context: EntityContext<()> = EntityContext::default();
    let first = context.spawn();
    let second = context.spawn();
    let mut commands = vec![DespawnLastCommand];
    assert_eq!(<DespawnLastCommand as Command<EntityContext<()>>>::id(&DespawnLastCommand), "despawn_last");
    assert_eq!(CommandSystem.update(&mut commands, &mut context), Ok(()));
    assert!(commands.is_empty());
    assert!(context.is_entity_registered(first));
    assert!(!context.is_entity_registered(second));
    let mut twice = vec![DespawnLastCommand, DespawnLastCommand];
    assert_eq!(CommandSystem.update(&mut twice, &mut context), Ok(()));
    assert_eq!(context.entity_count(), 0);
}

#[test]
fn queue_updates_queues_the_three_shapes() {
    let mut context: EntityContext<&'static str> = EntityContext::default();
    let polygon = context
        .resources
        .add_primitive_asset(MeshHandle::new(0, VertexLayout::Mesh3D), PrimitiveType::Polygon, false);
    let sphere = context
        .resources
        .add_primitive_asset(MeshHandle::new(1, VertexLayout::Lit3D), PrimitiveType::Sphere, false);
    let rectangle = context
        .resources
        .add_primitive_asset(MeshHandle::new(2, VertexLayout::Ui2D), PrimitiveType::Rectangle, false);
    context
        .resources
        .set_primitive_meshes(vec![polygon, sphere, rectangle]);
    let command = UpdatePrimitiveMeshesCommand;
    assert_eq!(command.id(), "update_primitive_meshes");
    assert_eq!(
        command.queue_updates(&context.resources, &mut context.render_commands, "p", "s", "r"),
        Ok(())
    );
    let queued = context.render_commands.drain();
    assert_eq!(queued.len(), 3);
    assert!(matches!(queued[0], RenderCommand::UpdatePrimitiveMesh { asset_id, shape: "p" } if asset_id == polygon.asset_id));
    assert!(matches!(queued[1], RenderCommand::UpdatePrimitiveMesh { asset_id, shape: "s" } if asset_id == sphere.asset_id));
    assert!(matches!(queued[2], RenderCommand::UpdatePrimitiveMesh { asset_id, shape: "r" } if asset_id == rectangle.asset_id));
}

#[test]
fn queue_updates_stops_at_a_missing_shape() {
    let mut context: EntityContext<&'static str> = EntityContext::default();
    let polygon = context
        .resources
        .add_primitive_asset(MeshHandle::new(0, VertexLayout::Mesh3D), PrimitiveType::Polygon, false);
    context.resources.register_primitive_mesh(polygon);
    assert_eq!(
        UpdatePrimitiveMeshesCommand.queue_updates(&context.resources, &mut context.render_commands, "p", "s", "r"),
        Err(CommandError::PrimitiveNotFound)
    );
    assert_eq!(context.render_commands.drain().len(), 1);
}

#[test]
fn primitive_material_uses_the_named_texture() {
    let mut context: EntityContext<()> = EntityContext::default();
    let texture = context.resources.register_texture("stone", TextureHandle(9));
    let textured = context
        .primitive_material(1, 2, 3, 4, Some("stone"), PipelineKey::Lit3D)
        .unwrap();
    assert_eq!(textured, Material::new(1, 2, 3, 4, true, texture, PipelineKey::Lit3D));
    let plain = context
        .primitive_material(1, 2, 3, 4, None, PipelineKey::Mesh3D)
        .unwrap();
    assert_eq!(plain, Material::new(1, 2, 3, 4, false, TextureHandle(0), PipelineKey::Mesh3D));
    assert_eq!(
        context.primitive_material(1, 2, 3, 4, Some("missing"), PipelineKey::Mesh3D),
        Err(CommandError::TextureNotFound)
    );
}

#[test]
fn spawn_primitive_draws_the_built_in_shape() {
    let mut context: EntityContext<()> = EntityContext::default();
    let cube = context
        .resources
        .add_primitive_asset(MeshHandle::new(7, VertexLayout::DebugLine3D), PrimitiveType::Cube, false);
    context.resources.register_primitive_mesh(cube);
    assert_eq!(
        context.spawn_primitive(PrimitiveType::Cube, PipelineKey::Mesh3D, None),
        Err(CommandError::PrimitiveNotFound)
    );
    assert_eq!(
        context.spawn_primitive(PrimitiveType::Cube, PipelineKey::DebugLine3D, Some("missing")),
        Err(CommandError::TextureNotFound)
    );
    let entity = context
        .spawn_primitive(PrimitiveType::Cube, PipelineKey::DebugLine3D, None)
        .unwrap();
    let renderer = context.get_component::<MeshRenderer>(entity).unwrap();
    assert_eq!(renderer.asset_id, Some(cube.asset_id));
    assert_eq!(renderer.mesh, MeshHandle::new(7, VertexLayout::DebugLine3D));
    assert!(!renderer.material.use_texture);
    assert_eq!(renderer.material.alpha_bits, ONE_F32_BITS);
    assert_eq!(context.resources.mesh_asset(cube.asset_id).unwrap().ref_count, 1);
}

#[test]
fn enqueue_spawn_shape_queues_the_mesh_creation() {
    let mut context: EntityContext<()> = EntityContext::default();
    let entity = context.enqueue_spawn_shape();
    assert!(context.get_component::<Visibility>(entity).unwrap().is_visible);
    let queued = context.render_commands.drain();
    assert_eq!(queued.len(), 1);
    assert!(matches!(queued[0], RenderCommand::CreatePrimitiveMesh { entity: e } if e == entity));
}

#[test]
fn debug_monitor_lists_the_loaded_assets() {
    let mut context: EntityContext<()> = EntityContext::default();
    let kept = context.resources.insert_mesh_asset(MeshHandle::new(0, VertexLayout::Mesh3D), false);
    let dropped = context.resources.insert_mesh_asset(MeshHandle::new(1, VertexLayout::Mesh3D), true);
    context.resources.retain_mesh(dropped);
    context.resources.release_mesh(dropped);
    let monitor = DebugMonitor;
    assert_eq!(monitor.id(), "debug_monitor");
    let assets = monitor.monitored_mesh_assets(&context.resources);
    assert_eq!(assets.len(), 1);
    assert_eq!(assets[0].0, kept);
}

#[test]
fn plan_resolves_primitive_updates() {
    let mut context: EntityContext<&'static str> = EntityContext::default();
    let first = context
        .resources
        .add_primitive_asset(MeshHandle::new(0, VertexLayout::Mesh3D), PrimitiveType::Circle, false);
    let second = context
        .resources
        .add_primitive_asset(MeshHandle::new(1, VertexLayout::Mesh3D), PrimitiveType::Circle, false);
    context.resources.set_primitive_meshes(vec![first, second]);
    let planned = RenderSystem
        .plan(&context.resources, RenderCommand::UpdatePrimitiveMesh { asset_id: second.asset_id, shape: "c" })
        .unwrap();
    assert!(matches!(planned, RenderAction::UpdatePrimitiveMesh { target, shape: "c" } if target == first));
    assert_eq!(
        RenderSystem
            .plan(&context.resources, RenderCommand::UpdatePrimitiveMesh { asset_id: MeshAssetId(9), shape: "c" })
            .err(),
        Some(RenderError::PrimitiveNotFound(MeshAssetId(9)))
    );
    let mesh = MeshHandle::new(3, VertexLayout::Mesh3D);
    assert!(matches!(
        RenderSystem.plan::<&str>(&context.resources, RenderCommand::DestroyMesh { mesh }),
        Ok(RenderAction::DestroyMesh { mesh: m }) if m == mesh
    ));
}

#[test]
fn attach_created_mesh_gives_the_entity_a_renderer() {
    let mut context: EntityContext<()> = EntityContext::default();
    let entity = context.enqueue_spawn_shape();
    let mesh = context
        .resources
        .add_primitive_asset(MeshHandle::new(4, VertexLayout::Mesh3D), PrimitiveType::Triangle, true);
    assert_eq!(mesh.asset_id, MeshAssetId(0));
    assert_eq!(mesh.vertex_layout, VertexLayout::Mesh3D);
    let material = Material::default();
    assert_eq!(RenderSystem.attach_created_mesh(&mut context, entity, mesh, material), Ok(()));
    let renderer = context.get_component::<MeshRenderer>(entity).unwrap();
    assert_eq!(renderer.asset_id, Some(mesh.asset_id));
    assert_eq!(context.resources.mesh_asset(mesh.asset_id).unwrap().ref_count, 1);
    assert_eq!(context.resources.primitive_type_from_asset_id(mesh.asset_id), Some(PrimitiveType::Triangle));

    let other = context.enqueue_spawn_shape();
    let wrong = Material::new(ONE_F32_BITS, ONE_F32_BITS, ONE_F32_BITS, ONE_F32_BITS, false, TextureHandle(0), PipelineKey::Lit3D);
    assert_eq!(
        RenderSystem.attach_created_mesh(&mut context, other, mesh, wrong),
        Err(RenderError::Renderer(MeshRendererError::LayoutMismatch))
    );
    assert!(context.get_component::<MeshRenderer>(other).is_none());
    assert_eq!(context.resources.mesh_asset(mesh.asset_id).unwrap().ref_count, 1);
    assert_eq!(
        RenderSystem.attach_created_mesh(&mut context, other, PrimitiveMesh { asset_id: MeshAssetId(5), ..mesh }, material),
        Err(RenderError::MeshAssetNotFound(MeshAssetId(5)))
    );
}

#[test]
fn spawn_model_then_despawn_gives_the_asset_user_back() {
    let mut context: EntityContext<()> = EntityContext::default();
    let kept = context
        .resources
        .register_model("crate", MeshHandle::new(1, VertexLayout::Mesh3D), false);
    let entity = context.spawn_model("crate", Material::default()).unwrap();
    assert_eq!(context.resources.mesh_asset(kept).unwrap().ref_count, 1);
    assert!(context.despawn(entity));
    assert_eq!(context.resources.mesh_asset(kept).unwrap().ref_count, 0);
    assert!(context.render_commands.drain().is_empty());

    let freed = context
        .resources
        .register_model("barrel", MeshHandle::new(2, VertexLayout::Mesh3D), true);
    let entity = context.spawn_model("barrel", Material::default()).unwrap();
    assert!(context.despawn(entity));
    assert!(context.resources.mesh_asset(freed).is_none());
    let queued = context.render_commands.drain();
    assert_eq!(queued.len(), 1);
    assert!(matches!(queued[0], RenderCommand::DestroyMesh { mesh } if mesh == MeshHandle::new(2, VertexLayout::Mesh3D)));
}

#[test]
fn spawn_from_asset_and_set_tags() {
    let mut context: EntityContext<()> = EntityContext::default();
    assert!(context.can_spawn());
    let asset = context.resources.insert_mesh_asset(MeshHandle::new(3, VertexLayout::Lit3D), false);
    assert!(context.resources.can_gain_user(asset));
    assert!(context.resources.can_gain_user(MeshAssetId(42)));
    assert_eq!(
        context.spawn_from_asset(MeshAssetId(42), Material::default()),
        Err(SpawnError::MeshAssetNotFound)
    );
    assert_eq!(
        context.spawn_from_asset(asset, Material::default()),
        Err(SpawnError::Renderer(MeshRendererError::LayoutMismatch))
    );
    assert_eq!(context.resources.mesh_asset(asset).unwrap().ref_count, 0);
    let lit = Material::new(ONE_F32_BITS, ONE_F32_BITS, ONE_F32_BITS, ONE_F32_BITS, false, TextureHandle(0), PipelineKey::Lit3D);
    let entity = context.spawn_from_asset(asset, lit).unwrap();
    assert_eq!(entity, engine::EntityId(0));
    assert_eq!(context.world.registry.next_entity_id(), 1);
    assert!(context.get_component::<engine::Tags>(entity).is_none());
    assert!(context.set_tags(entity, engine::Tags::new(["Lamp"])));
    assert_eq!(context.get_component::<engine::Tags>(entity).unwrap().values, vec!["Lamp".to_string()]);
    assert!(!context.set_tags(engine::EntityId(9), engine::Tags::new(["Lamp"])));
}
