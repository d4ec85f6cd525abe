use engine::{ComponentPool, EntityId, INVALID};

#[test]
fn remove_returns_component_and_clears_entity_slot() {
    let mut pool = ComponentPool::new();
    let entity = EntityId(2);

    pool.insert(entity, "transform");

    assert_eq!(pool.remove(entity), Some("transform"));
    assert_eq!(pool.remove(entity), None);
}

#[test]
fn remove_updates_sparse_index_for_swapped_entity() {
    let mut pool = ComponentPool::new();
    let first = EntityId(1);
    let second = EntityId(4);

    pool.insert(first, 10);
    pool.insert(second, 20);

    assert_eq!(pool.remove(first), Some(10));
    assert_eq!(pool.remove(second), Some(20));
}

#[test]
fn check_whole_functions() {
    let mut pool = ComponentPool::new();
    let e0 = EntityId(0);
    let e1 = EntityId(4);
    let e2 = EntityId(7);
    let e3 = EntityId(5);
    let e4 = EntityId(2);
    let ef = EntityId(1);

    pool.insert(e0, 10);
    pool.insert(e1, 8);
    pool.insert(e2, 256);
    pool.insert(e3, 35);
    pool.insert(e4, 1);

    // check insert
    assert_eq!(pool.entities().to_vec(), vec![e0, e1, e2, e3, e4]);
    assert_eq!(pool.components().to_vec(), vec![10, 8, 256, 35, 1]);
    assert_eq!(
        pool.sparse().to_vec(),
        vec![0, INVALID, 4, INVALID, 1, 3, INVALID, 2]
    );

    // check contain
    assert!(pool.contains(e2));
    assert!(!pool.contains(ef));

    // check get
    assert_eq!(pool.get(e3), Some(&35));
    assert_eq!(pool.get(ef), None);

    // check iter
    let items: Vec<_> = pool.iter().into_iter().map(|(e, c)| (e, *c)).collect();
    assert_eq!(items, vec![(e0, 10), (e1, 8), (e2, 256), (e3, 35), (e4, 1)]);

    pool.remove(e2);
    // swap_remove
    assert_eq!(pool.entities().to_vec(), vec![e0, e1, e4, e3]);
    assert_eq!(pool.components().to_vec(), vec![10, 8, 1, 35]);
    assert_eq!(
        pool.sparse().to_vec(),
        vec![0, INVALID, 2, INVALID, 1, 3, INVALID, INVALID]
    );
}

#[test]
fn remove_unknown_entity_returns_none() {
    let mut pool = ComponentPool::<u32>::new();

    assert_eq!(pool.remove(EntityId(99)), None);
}

#[test]
fn insert_replaces_component_in_place() {
    let mut pool = ComponentPool::new();
    pool.insert(EntityId(3), 1);
    pool.insert(EntityId(1), 2);
    pool.insert(EntityId(3), 7);

    assert_eq!(pool.entities().to_vec(), vec![EntityId(3), EntityId(1)]);
    assert_eq!(pool.components().to_vec(), vec![7, 2]);
    assert_eq!(pool.get(EntityId(3)), Some(&7));
    assert_eq!(pool.sparse().to_vec(), vec![INVALID, 1, INVALID, 0]);
}

#[test]
fn get_mut_changes_component_in_place() {
    let mut pool = ComponentPool::new();
    pool.insert(EntityId(0), 5);
    if let Some(value) = pool.get_mut(EntityId(0)) {
        *value = 9;
    }
    assert_eq!(pool.get(EntityId(0)), Some(&9));
    assert!(pool.get_mut(EntityId(8)).is_none());
}

#[test]
fn iter_mut_pairs_entities_with_components() {
    let mut pool = ComponentPool::new();
    pool.insert(EntityId(2), 1);
    pool.insert(EntityId(0), 2);
    {
        let (entities, components) = pool.iter_mut();
        assert_eq!(entities.to_vec(), vec![EntityId(2), EntityId(0)]);
        for c in components.iter_mut() {
            *c *= 10;
        }
    }
    assert_eq!(pool.get(EntityId(2)), Some(&10));
    assert_eq!(pool.get(EntityId(0)), Some(&20));
}

#[test]
fn remove_last_entity_keeps_other_slots() {
    let mut pool = ComponentPool::new();
    pool.insert(EntityId(1), 'a');
    pool.insert(EntityId(2), 'b');
    assert_eq!(pool.remove(EntityId(2)), Some('b'));
    assert_eq!(pool.sparse().to_vec(), vec![INVALID, 0, INVALID]);
    assert_eq!(pool.get(EntityId(1)), Some(&'a'));
}

#[test]
fn entity_id_value_and_index() {
    let e = EntityId(42);
    assert_eq!(e.value(), 42);
    assert_eq!(e.index(), 42);
}
