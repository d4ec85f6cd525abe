use engine::{
    EntityId, Material, MeshHandle, MeshRenderer, Name, Registry, SceneId, SceneOwned,
    VertexLayout, Visibility, World,
};

fn mesh_handle(index: usize) -> MeshHandle {
    MeshHandle::new(index, VertexLayout::Mesh3D)
}

fn spawn_renderable(registry: &mut Registry, mesh: MeshHandle) -> EntityId {
    let entity = registry.create();
    registry.add_component(
        entity,
        MeshRenderer {
            mesh,
            asset_id: None,
            material: Material::default(),
        },
    );
    registry.add_component(entity, Name::new("renderable"));
    registry.add_component(entity, Visibility::default());

    entity
}

#[test]
fn create_adds_entity_and_returns_unique_entity_ids() {
    let mut registry = Registry::default();
    let mesh = mesh_handle(0);

    let first = spawn_renderable(&mut registry, mesh);
    let second = spawn_renderable(&mut registry, mesh);

    assert_eq!(registry.entity_count(), 2);
    assert_ne!(first, second);
    assert_eq!(first, EntityId(0));
    assert_eq!(second, EntityId(1));
}

#[test]
fn despawn_removes_entity_and_components() {
    let mut registry = Registry::default();
    let first = spawn_renderable(&mut registry, mesh_handle(0));
    let second = spawn_renderable(&mut registry, mesh_handle(1));

    assert!(registry.despawn(first));

    assert_eq!(registry.entity_count(), 1);
    assert!(!registry.contains(first));
    assert!(registry.contains(second));
    assert!(registry.get_component::<Visibility>(first).is_none());
    assert!(registry.get_component::<MeshRenderer>(first).is_none());
    assert!(registry.get_component::<MeshRenderer>(second).is_some());
}

#[test]
fn despawn_unknown_entity_returns_false() {
    let mut registry = Registry::default();

    assert!(!registry.despawn(EntityId(999)));
    assert_eq!(registry.entity_count(), 0);
}

#[test]
fn component_access_can_add_get_and_remove_components() {
    let mut registry = Registry::default();
    let entity = registry.create();
    registry.add_component(entity, Visibility::default());

    assert!(registry.add_component(entity, Name::new("speed")));
    assert!(registry.has_component::<Name>(entity));
    assert_eq!(registry.get_component::<Name>(entity).unwrap().value, "speed");
    assert!(registry.remove_component::<Name>(entity).is_some());
    assert!(!registry.has_component::<Name>(entity));
}

#[test]
fn query2_iterates_entities_with_both_components() {
    let mut registry = Registry::default();
    let matching = spawn_renderable(&mut registry, mesh_handle(0));
    let entity = registry.create();
    registry.add_component(entity, Visibility::default());

    let entities = registry
        .query2::<Visibility, MeshRenderer>()
        .into_iter()
        .map(|(entity, _, _)| entity)
        .collect::<Vec<_>>();

    assert_eq!(entities, vec![matching]);
}

#[test]
fn query2_mut_iterates_entities_with_both_components() {
    let mut registry = Registry::default();
    let matching = spawn_renderable(&mut registry, mesh_handle(0));
    let visibility_only = registry.create();
    registry.add_component(visibility_only, Visibility::default());

    let entities = registry.query2_mut::<Visibility, MeshRenderer, _>(|_, visibility, _| {
        Visibility {
            is_visible: !visibility.is_visible,
        }
    });

    assert_eq!(entities, vec![matching]);
    assert_eq!(
        registry
            .get_component::<Visibility>(matching)
            .unwrap()
            .is_visible,
        false
    );
    assert_eq!(
        registry
            .get_component::<Visibility>(visibility_only)
            .unwrap()
            .is_visible,
        true
    );
}

#[test]
fn query2_mut_mut_changes_both_components_of_matching_entities() {
    let mut registry = Registry::default();
    let first = registry.create();
    let second = registry.create();
    let third = registry.create();
    registry.add_component(third, Visibility::default());
    registry.add_component(first, Visibility::default());
    registry.add_component(first, SceneOwned { scene_id: SceneId(7) });
    registry.add_component(second, SceneOwned { scene_id: SceneId(9) });
    registry.add_component(third, SceneOwned { scene_id: SceneId(3) });

    let entities = registry.query2_mut_mut::<Visibility, SceneOwned, _>(|entity, visibility, owned| {
        (
            Visibility {
                is_visible: !visibility.is_visible,
            },
            SceneOwned {
                scene_id: SceneId(owned.scene_id.0 + entity.0 as usize),
            },
        )
    });

    assert_eq!(entities, vec![third, first]);
    assert!(!registry.get_component::<Visibility>(first).unwrap().is_visible);
    assert!(!registry.get_component::<Visibility>(third).unwrap().is_visible);
    assert_eq!(registry.get_component::<SceneOwned>(first).unwrap().scene_id, SceneId(7));
    assert_eq!(registry.get_component::<SceneOwned>(second).unwrap().scene_id, SceneId(9));
    assert_eq!(registry.get_component::<SceneOwned>(third).unwrap().scene_id, SceneId(5));
}

#[test]
fn add_component_refuses_unknown_entity() {
    let mut registry = Registry::default();
    assert!(!registry.add_component(EntityId(3), Visibility::default()));
    assert!(registry.get_pool::<Visibility>().is_none());
}

#[test]
fn add_component_replaces_previous_value() {
    let mut registry = Registry::default();
    let entity = registry.create();
    registry.add_component(entity, Visibility { is_visible: true });
    registry.add_component(entity, Visibility { is_visible: false });
    assert_eq!(
        registry.get_component::<Visibility>(entity),
        Some(&Visibility { is_visible: false })
    );
    assert_eq!(registry.get_pool::<Visibility>().unwrap().entities().len(), 1);
}

#[test]
fn get_component_mut_changes_component() {
    let mut registry = Registry::default();
    let entity = registry.create();
    registry.add_component(entity, Visibility::default());
    registry.get_component_mut::<Visibility>(entity).unwrap().is_visible = false;
    assert!(!registry.get_component::<Visibility>(entity).unwrap().is_visible);
    assert!(registry.get_component_mut::<Name>(entity).is_none());
}

#[test]
fn get_pool_mut_exposes_existing_pool_only() {
    let mut registry = Registry::default();
    assert!(registry.get_pool_mut::<SceneOwned>().is_none());
    let entity = registry.create();
    registry.add_component(entity, SceneOwned { scene_id: SceneId(4) });
    let pool = registry.get_pool_mut::<SceneOwned>().unwrap();
    assert!(pool.contains(entity));
}

#[test]
fn despawn_keeps_creation_order_of_others() {
    let mut registry = Registry::default();
    let a = registry.create();
    let b = registry.create();
    let c = registry.create();
    assert!(registry.despawn(b));
    assert_eq!(registry.entities().to_vec(), vec![a, c]);
    let d = registry.create();
    assert_eq!(d, EntityId(3));
}

#[test]
fn world_spawn_and_despawn() {
    let mut world = World::default();
    let first = world.spawn();
    let second = world.spawn();
    assert_eq!(first, EntityId(0));
    assert_eq!(second, EntityId(1));
    assert!(world.despawn(first));
    assert!(!world.despawn(first));
    assert_eq!(world.registry.entity_count(), 1);
}

#[test]
fn spawned_entity_holds_no_component() {
    let mut world = World::default();
    let old = spawn_renderable(&mut world.registry, mesh_handle(1));
    world.registry.add_component(old, SceneOwned { scene_id: SceneId(2) });
    assert!(world.despawn(old));
    let fresh = world.spawn();
    assert_eq!(fresh, EntityId(1));
    assert!(!world.registry.has_component::<Name>(fresh));
    assert!(!world.registry.has_component::<MeshRenderer>(fresh));
    assert!(!world.registry.has_component::<Visibility>(fresh));
    assert!(!world.registry.has_component::<SceneOwned>(fresh));
    assert!(world.registry.get_component::<Name>(old).is_none());
}

#[test]
fn entities_listed_in_increasing_id_order() {
    let mut registry = Registry::default();
    let mut all = Vec::new();
    for _ in 0..6 {
        all.push(registry.create());
    }
    assert!(registry.despawn(all[1]));
    assert!(registry.despawn(all[4]));
    let last = registry.create();
    let ids: Vec<u64> = registry.entities().iter().map(|e| e.0).collect();
    assert_eq!(ids, vec![0, 2, 3, 5, 6]);
    assert_eq!(last, EntityId(6));
    assert_eq!(registry.entity_count(), registry.entities().len());
    assert!(ids.windows(2).all(|w| w[0] < w[1]));
}

#[test]
fn replacing_a_component_keeps_the_pool_order() {
    let mut registry = Registry::default();
    let a = registry.create();
    let b = registry.create();
    let c = registry.create();
    registry.add_component(b, Visibility::default());
    registry.add_component(a, Visibility::default());
    registry.add_component(c, Visibility::default());
    registry.add_component(b, Visibility { is_visible: false });
    assert_eq!(registry.get_pool::<Visibility>().unwrap().entities().to_vec(), vec![b, a, c]);
}

#[test]
fn removing_a_component_moves_the_last_entry_into_its_place() {
    let mut registry = Registry::default();
    let a = registry.create();
    let b = registry.create();
    let c = registry.create();
    let d = registry.create();
    for e in [a, b, c, d] {
        registry.add_component(e, Visibility::default());
    }
    assert!(registry.remove_component::<Visibility>(b).is_some());
    assert_eq!(registry.get_pool::<Visibility>().unwrap().entities().to_vec(), vec![a, d, c]);
    assert!(registry.remove_component::<Visibility>(b).is_none());
    assert_eq!(registry.get_pool::<Visibility>().unwrap().entities().to_vec(), vec![a, d, c]);
}

#[test]
fn despawn_moves_the_last_entry_of_each_pool_into_its_place() {
    let mut registry = Registry::default();
    let a = registry.create();
    let b = registry.create();
    let c = registry.create();
    for e in [a, b, c] {
        registry.add_component(e, Visibility::default());
    }
    registry.add_component(c, SceneOwned { scene_id: SceneId(1) });
    registry.add_component(a, SceneOwned { scene_id: SceneId(1) });
    assert!(registry.despawn(a));
    assert_eq!(registry.get_pool::<Visibility>().unwrap().entities().to_vec(), vec![c, b]);
    assert_eq!(registry.get_pool::<SceneOwned>().unwrap().entities().to_vec(), vec![c]);
    let order = registry
        .query2::<Visibility, SceneOwned>()
        .into_iter()
        .map(|(entity, _, _)| entity)
        .collect::<Vec<_>>();
    assert_eq!(order, vec![c]);
}
