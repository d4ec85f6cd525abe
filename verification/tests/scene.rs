use engine::{EntityContext, SceneId, SceneOwned};

#[test]
fn scene_context_despawns_only_current_scene_owned_entities() {
    let scene_id = SceneId(1);
    let other_scene_id = SceneId(2);
    let mut context: EntityContext<()> = EntityContext::default();
    let other_scene_entity = context.spawn();
    context.add_component(
        other_scene_entity,
        SceneOwned {
            scene_id: other_scene_id,
        },
    );

    // entering the scene
    let entity0 = context.spawn_owned(scene_id);
    let entity1 = context.spawn_owned(scene_id);
    let entity2 = context.spawn_owned(scene_id);
    let entity3 = context.spawn_owned(scene_id);
    context.delete_scene_owned(entity3);

    assert!(context.has_component::<SceneOwned>(entity0));
    assert!(context.has_component::<SceneOwned>(entity1));
    assert!(context.has_component::<SceneOwned>(entity2));
    assert!(!context.has_component::<SceneOwned>(entity3));
    let global_entity = entity3;
    assert_eq!(context.entity_count(), 5);

    // exiting the scene
    let count = context.despawn_scene_owned_entities(scene_id);
    assert_eq!(count, 3);
    assert!(context.is_entity_registered(global_entity));
    assert!(!context.has_component::<SceneOwned>(global_entity));

    assert_eq!(context.entity_count(), 2);
    assert!(context.is_entity_registered(other_scene_entity));
    assert_eq!(
        context
            .get_component::<SceneOwned>(other_scene_entity)
            .unwrap()
            .scene_id,
        other_scene_id
    );
}

#[test]
fn scene_owned_entities_lists_in_pool_order() {
    let mut context: EntityContext<()> = EntityContext::default();
    let a = context.spawn_owned(SceneId(0));
    let _b = context.spawn_owned(SceneId(1));
    let c = context.spawn_owned(SceneId(0));
    assert_eq!(context.scene_owned_entities(SceneId(0)), vec![a, c]);
    assert!(context.scene_owned_entities(SceneId(9)).is_empty());
}
