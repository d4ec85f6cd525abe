use vstd::prelude::*;

use crate::ecs::entity::EntityId;

verus! {

/// Marks a sparse slot that holds no component.
pub const INVALID: usize = usize::MAX;

/// A sparse set of components of one type.
///
/// `entities` and `components` are dense and parallel: the component at
/// position `i` belongs to the entity at position `i`. `sparse` is indexed by
/// the entity's numeric id and holds its dense position, or `INVALID`.
#[derive(Clone, Debug, PartialEq, Eq, Hash)]
pub struct ComponentPool<T> {
    entities: Vec<EntityId>,
    components: Vec<T>,
    sparse: Vec<usize>,
}

/// The sparse table once it has grown so that slot `id` exists; new slots
/// hold `INVALID`.
pub open spec fn grown_sparse(sparse: Seq<usize>, id: int) -> Seq<usize> {
    if id < sparse.len() {
        sparse
    } else {
        sparse + Seq::new((id + 1 - sparse.len()) as nat, |i: int| INVALID)
    }
}

/// The sparse table after the entity with id `id`, at dense position `idx`,
/// was swap-removed: its slot is cleared and the entity that took its place
/// (the former last one, `moved`) points at `idx`.
pub open spec fn sparse_after_swap_remove(
    sparse: Seq<usize>,
    id: int,
    idx: int,
    last: int,
    moved: int,
) -> Seq<usize> {
    if idx < last {
        sparse.update(id, INVALID).update(moved, idx as usize)
    } else {
        sparse.update(id, INVALID)
    }
}

impl<T> View for ComponentPool<T> {
    type V = Map<EntityId, T>;

    /// The component of each entity that holds one.
    open spec fn view(&self) -> Map<EntityId, T> {
        Map::new(|e: EntityId| self.has(e), |e: EntityId| self.dense_components()[self.slot_of(e)])
    }
}

impl<T> ComponentPool<T> {
    /// The entities that hold a component, in dense order.
    pub closed spec fn dense_entities(&self) -> Seq<EntityId> {
        self.entities@
    }

    /// The components, in dense order.
    pub closed spec fn dense_components(&self) -> Seq<T> {
        self.components@
    }

    /// The sparse table, indexed by entity id.
    pub closed spec fn sparse_slots(&self) -> Seq<usize> {
        self.sparse@
    }

    /// The dense and sparse tables agree with each other.
    pub open spec fn wf(&self) -> bool {
        &&& self.dense_entities().len() == self.dense_components().len()
        &&& self.dense_entities().len() <= self.sparse_slots().len() <= usize::MAX
        &&& forall|i: int|
            0 <= i < self.dense_entities().len() ==> {
                &&& (#[trigger] self.dense_entities()[i]).0 < self.sparse_slots().len()
                &&& self.sparse_slots()[self.dense_entities()[i].0 as int] == i
            }
        &&& forall|k: int|
            0 <= k < self.sparse_slots().len() && #[trigger] self.sparse_slots()[k] != INVALID
                ==> {
                &&& self.sparse_slots()[k] < self.dense_entities().len()
                &&& self.dense_entities()[self.sparse_slots()[k] as int].0 == k
            }
    }

    /// The entity holds a component in this pool.
    pub open spec fn has(&self, e: EntityId) -> bool {
        e.0 < self.sparse_slots().len() && self.sparse_slots()[e.0 as int] != INVALID
    }

    /// The dense position of the entity's component.
    pub open spec fn slot_of(&self, e: EntityId) -> int {
        self.sparse_slots()[e.0 as int] as int
    }

    /// The dense entities are pairwise distinct.
    pub proof fn lemma_entities_distinct(&self)
        requires
            self.wf(),
        ensures
            self.dense_entities().no_duplicates(),
    {
        assert forall|i: int, j: int|
            0 <= i < self.dense_entities().len() && 0 <= j < self.dense_entities().len() && i
                != j implies self.dense_entities()[i] != self.dense_entities()[j] by {
            let a = self.dense_entities()[i];
            let b = self.dense_entities()[j];
            if a == b {
                assert(self.sparse_slots()[a.0 as int] == i);
                assert(self.sparse_slots()[b.0 as int] == j);
            }
        }
    }

    /// An entity of the pool is at the position that its sparse slot names.
    pub proof fn lemma_has_iff_listed(&self, e: EntityId)
        requires
            self.wf(),
        ensures
            self.has(e) <==> self.dense_entities().contains(e),
            self.has(e) ==> 0 <= self.slot_of(e) < self.dense_entities().len()
                && self.dense_entities()[self.slot_of(e)] == e,
    {
        if self.has(e) {
            let k = e.0 as int;
            assert(self.sparse_slots()[k] != INVALID);
            assert(self.dense_entities()[self.slot_of(e)] == e);
        }
        if self.dense_entities().contains(e) {
            let i = choose|i: int|
                0 <= i < self.dense_entities().len() && self.dense_entities()[i] == e;
            assert(self.dense_entities()[i] == e);
            assert(self.sparse_slots()[e.0 as int] == i);
        }
    }

    /// While an entity is missing from the pool, the pool holds fewer
    /// components than the sparse table has slots.
    proof fn lemma_room_for_missing(&self, e: EntityId)
        requires
            self.wf(),
            e.0 < self.sparse_slots().len(),
            !self.has(e),
        ensures
            self.dense_entities().len() < self.sparse_slots().len(),
    {
        let ids = self.dense_entities().map_values(|x: EntityId| x.0 as int);
        self.lemma_entities_distinct();
        assert forall|i: int, j: int|
            0 <= i < ids.len() && 0 <= j < ids.len() && i != j implies ids[i] != ids[j] by {
            assert(self.dense_entities()[i] != self.dense_entities()[j]);
            if ids[i] == ids[j] {
                assert(self.sparse_slots()[self.dense_entities()[i].0 as int] == i);
                assert(self.sparse_slots()[self.dense_entities()[j].0 as int] == j);
            }
        }
        assert(ids.no_duplicates());
        ids.unique_seq_to_set();
        let range = vstd::set_lib::set_int_range(0, self.sparse_slots().len() as int).remove(
            e.0 as int,
        );
        vstd::set_lib::lemma_int_range(0, self.sparse_slots().len() as int);
        assert forall|x: int| ids.to_set().contains(x) implies range.contains(x) by {
            let i = choose|i: int| 0 <= i < ids.len() && ids[i] == x;
            assert(self.dense_entities()[i].0 < self.sparse_slots().len());
            if x == e.0 as int {
                assert(self.sparse_slots()[self.dense_entities()[i].0 as int] == i);
                assert(i < INVALID);
            }
        }
        vstd::set_lib::lemma_len_subset(ids.to_set(), range);
    }

    /// An empty pool.
    pub fn new() -> (r: Self)
        ensures
            r.wf(),
            r@ == Map::<EntityId, T>::empty(),
            r.dense_entities() == Seq::<EntityId>::empty(),
            r.dense_components() == Seq::<T>::empty(),
            r.sparse_slots() == Seq::<usize>::empty(),
    {
        let r = ComponentPool { entities: Vec::new(), components: Vec::new(), sparse: Vec::new() };
        assert(r@ =~= Map::<EntityId, T>::empty());
        r
    }

    /// The entities that hold a component, in dense order.
    pub fn entities(&self) -> (r: &[EntityId])
        ensures
            r@ == self.dense_entities(),
    {
        self.entities.as_slice()
    }

    /// The components, in dense order.
    pub fn components(&self) -> (r: &[T])
        ensures
            r@ == self.dense_components(),
    {
        self.components.as_slice()
    }

    /// The sparse table, indexed by entity id.
    pub fn sparse(&self) -> (r: &[usize])
        ensures
            r@ == self.sparse_slots(),
    {
        self.sparse.as_slice()
    }

    /// Gives `entity` the component `component`: replaces the one it has, or
    /// appends it at the end of the dense tables.
    pub fn insert(&mut self, entity: EntityId, component: T)
        requires
            old(self).wf(),
            entity.0 < usize::MAX,
        ensures
            final(self).wf(),
            final(self)@ == old(self)@.insert(entity, component),
            old(self).has(entity) ==> {
                &&& final(self).dense_entities() == old(self).dense_entities()
                &&& final(self).dense_components() == old(self).dense_components().update(
                    old(self).slot_of(entity),
                    component,
                )
                &&& final(self).sparse_slots() == old(self).sparse_slots()
            },
            !old(self).has(entity) ==> {
                &&& final(self).dense_entities() == old(self).dense_entities().push(entity)
                &&& final(self).dense_components() == old(self).dense_components().push(
                    component,
                )
                &&& final(self).sparse_slots() == grown_sparse(
                    old(self).sparse_slots(),
                    entity.0 as int,
                ).update(entity.0 as int, old(self).dense_entities().len() as usize)
            },
    {
        let id = entity.0 as usize;
        let ghost old_sparse = self.sparse@;
        let ghost o = *old(self);
        if id >= self.sparse.len() {
            while self.sparse.len() <= id
                invariant
                    id < usize::MAX,
                    old_sparse.len() <= id,
                    self.entities@ == o.entities@,
                    self.components@ == o.components@,
                    old_sparse.len() <= self.sparse@.len() <= id + 1,
                    self.sparse@ == old_sparse + Seq::new(
                        (self.sparse@.len() - old_sparse.len()) as nat,
                        |i: int| INVALID,
                    ),
                decreases id + 1 - self.sparse@.len(),
            {
                self.sparse.push(INVALID);
            }
        }
        assert(self.sparse@ =~= grown_sparse(old_sparse, id as int));
        assert forall|k: int|
            0 <= k < self.sparse@.len() && #[trigger] self.sparse@[k] != INVALID implies k
            < old_sparse.len() && self.sparse@[k] == old_sparse[k] by {}
        assert(self.wf()) by {
            assert forall|i: int| 0 <= i < self.dense_entities().len() implies {
                &&& (#[trigger] self.dense_entities()[i]).0 < self.sparse_slots().len()
                &&& self.sparse_slots()[self.dense_entities()[i].0 as int] == i
            } by {
                assert(o.dense_entities()[i].0 < o.sparse_slots().len());
                assert(o.sparse_slots()[o.dense_entities()[i].0 as int] == i);
            }
            assert forall|k: int|
                0 <= k < self.sparse_slots().len() && #[trigger] self.sparse_slots()[k] != INVALID
                implies {
                &&& self.sparse_slots()[k] < self.dense_entities().len()
                &&& self.dense_entities()[self.sparse_slots()[k] as int].0 == k
            } by {
                assert(o.sparse_slots()[k] != INVALID);
            }
        }
        let index = self.sparse[id];
        if index != INVALID {
            assert(id < o.sparse_slots().len());
            assert(o.sparse_slots()[id as int] != INVALID);
            self.components.set(index, component);
            assert(self@ =~= old(self)@.insert(entity, component));
            return;
        }
        proof {
            self.lemma_room_for_missing(entity);
        }
        let index = self.components.len();
        self.sparse.set(id, index);
        self.components.push(component);
        self.entities.push(entity);
        assert(self.wf());
        assert(self@ =~= old(self)@.insert(entity, component));
    }

    /// Takes the component of `entity` out of the pool. The last dense entry
    /// moves into its place.
    pub fn remove(&mut self, entity: EntityId) -> (r: Option<T>)
        requires
            old(self).wf(),
        ensures
            final(self).wf(),
            final(self)@ == old(self)@.remove(entity),
            r == (if old(self).has(entity) {
                Some(old(self)@[entity])
            } else {
                None
            }),
            !old(self).has(entity) ==> *final(self) == *old(self),
            old(self).has(entity) ==> {
                &&& final(self).dense_entities() == old(self).dense_entities().update(
                    old(self).slot_of(entity),
                    old(self).dense_entities().last(),
                ).drop_last()
                &&& final(self).dense_components() == old(self).dense_components().update(
                    old(self).slot_of(entity),
                    old(self).dense_components().last(),
                ).drop_last()
                &&& final(self).sparse_slots() == sparse_after_swap_remove(
                    old(self).sparse_slots(),
                    entity.0 as int,
                    old(self).slot_of(entity),
                    old(self).dense_entities().len() - 1,
                    old(self).dense_entities().last().0 as int,
                )
            },
    {
        if entity.0 >= self.sparse.len() as u64 {
            assert(self@ =~= old(self)@.remove(entity));
            return None;
        }
        let id = entity.0 as usize;
        let index = self.sparse[id];
        if index == INVALID {
            assert(self@ =~= old(self)@.remove(entity));
            return None;
        }
        let ghost last = self.entities@.len() - 1;
        let ghost moved = self.entities@.last();
        self.sparse.set(id, INVALID);
        let component = self.components.swap_remove(index);
        self.entities.swap_remove(index);
        if index < self.entities.len() {
            let moved_entity = self.entities[index];
            assert(moved_entity == moved);
            self.sparse.set(moved_entity.0 as usize, index);
        }
        let ghost o = *old(self);
        assert forall|i: int| 0 <= i < self.entities@.len() implies {
            &&& (#[trigger] self.entities@[i]).0 < self.sparse@.len()
            &&& self.sparse@[self.entities@[i].0 as int] == i
        } by {
            if i == index as int {
                assert(self.entities@[i] == moved);
            } else {
                assert(self.entities@[i] == o.entities@[i]);
                assert(o.sparse@[o.entities@[i].0 as int] == i);
                assert(o.entities@[i] != moved) by {
                    assert(o.sparse@[moved.0 as int] == last);
                }
                assert(o.entities@[i] != entity) by {
                    assert(o.sparse@[entity.0 as int] == index);
                }
            }
        }
        assert forall|k: int|
            0 <= k < self.sparse@.len() && #[trigger] self.sparse@[k] != INVALID implies {
            &&& self.sparse@[k] < self.entities@.len()
            &&& self.entities@[self.sparse@[k] as int].0 == k
        } by {
            if k == moved.0 as int && (index as int) < last {
                assert(self.sparse@[k] == index);
            } else {
                assert(k != id as int);
                assert(self.sparse@[k] == o.sparse@[k]);
                let j = o.sparse@[k] as int;
                assert(o.entities@[j].0 == k);
                if j == last {
                    assert(k == moved.0 as int);
                    assert(index as int == last);
                    assert(o.sparse@[moved.0 as int] == last);
                    assert(false);
                }
                assert(j != index as int);
            }
        }
        assert(self@ =~= old(self)@.remove(entity)) by {
            assert forall|e: EntityId| #[trigger] self@.dom().contains(e) implies self@[e]
                == o@[e] by {
                if e == moved && (index as int) < last {
                } else {
                    assert(self.sparse@[e.0 as int] == o.sparse@[e.0 as int]);
                    let j = o.sparse@[e.0 as int] as int;
                    assert(o.entities@[j].0 == e.0);
                    if j == last {
                        assert(e.0 == moved.0);
                    }
                }
            }
            assert forall|e: EntityId| #[trigger] o@.dom().contains(e) && e != entity implies self@.dom().contains(
                e,
            ) by {
                let j = o.sparse@[e.0 as int] as int;
                assert(o.entities@[j].0 == e.0);
                if e == moved {
                    if j == last && (index as int) == last {
                        assert(o.entities@[index as int] == entity);
                    }
                }
            }
        }
        Some(component)
    }

    /// The component of `entity`, if it has one.
    pub fn get(&self, entity: EntityId) -> (r: Option<&T>)
        requires
            self.wf(),
        ensures
            r == (if self@.dom().contains(entity) {
                Some(&self@[entity])
            } else {
                None
            }),
    {
        if entity.0 >= self.sparse.len() as u64 {
            return None;
        }
        let index = self.sparse[entity.0 as usize];
        if index == INVALID {
            return None;
        }
        Some(&self.components[index])
    }

    /// The component of `entity`, if it has one, to be changed in place.
    pub fn get_mut(&mut self, entity: EntityId) -> (r: Option<&mut T>)
        requires
            old(self).wf(),
        ensures
            old(self)@.dom().contains(entity) == r.is_some(),
            r.is_none() ==> *final(self) == *old(self),
            r.is_some() ==> {
                &&& *r.unwrap() == old(self)@[entity]
                &&& final(self).wf()
                &&& final(self)@ == old(self)@.insert(entity, *final(r.unwrap()))
                &&& final(self).dense_entities() == old(self).dense_entities()
                &&& final(self).sparse_slots() == old(self).sparse_slots()
                &&& final(self).dense_components() == old(self).dense_components().update(
                    old(self).slot_of(entity),
                    *final(r.unwrap()),
                )
            },
    {
        if entity.0 >= self.sparse.len() as u64 {
            return None;
        }
        let index = self.sparse[entity.0 as usize];
        if index == INVALID {
            return None;
        }
        Some(&mut self.components[index])
    }

    /// Each entity of the pool with its component, in dense order.
    pub fn iter(&self) -> (r: Vec<(EntityId, &T)>)
        requires
            self.wf(),
        ensures
            r@.len() == self.dense_entities().len(),
            forall|i: int|
                0 <= i < r@.len() ==> (#[trigger] r@[i]).0 == self.dense_entities()[i] && *r@[i].1
                    == self.dense_components()[i],
    {
        let mut r: Vec<(EntityId, &T)> = Vec::new();
        let mut i: usize = 0;
        while i < self.entities.len()
            invariant
                self.wf(),
                i <= self.dense_entities().len(),
                r@.len() == i,
                forall|j: int|
                    0 <= j < i ==> (#[trigger] r@[j]).0 == self.dense_entities()[j] && *r@[j].1
                        == self.dense_components()[j],
            decreases self.dense_entities().len() - i,
        {
            r.push((self.entities[i], &self.components[i]));
            i = i + 1;
        }
        r
    }

    /// The entities of the pool, and their components to be changed in
    /// place; both in dense order, position by position.
    pub fn iter_mut(&mut self) -> (r: (&[EntityId], &mut [T]))
        requires
            old(self).wf(),
        ensures
            r.0@ == old(self).dense_entities(),
            r.1@ == old(self).dense_components(),
            final(self).dense_entities() == old(self).dense_entities(),
            final(self).sparse_slots() == old(self).sparse_slots(),
            final(self).dense_components() == final(r.1)@,
            final(r.1)@.len() == r.1@.len() ==> final(self).wf(),
    {
        (self.entities.as_slice(), self.components.as_mut_slice())
    }

    /// Whether `entity` holds a component in this pool.
    pub fn contains(&self, entity: EntityId) -> (r: bool)
        requires
            self.wf(),
        ensures
            r == self@.dom().contains(entity),
    {
        if entity.0 >= self.sparse.len() as u64 {
            return false;
        }
        self.sparse[entity.0 as usize] != INVALID
    }
}

} // verus!
