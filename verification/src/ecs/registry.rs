use vstd::prelude::*;

use crate::component::mesh_renderer::MeshRenderer;
use crate::component::name::Name;
use crate::component::scene_owned::SceneOwned;
use crate::component::tags::Tags;
use crate::component::visibility::Visibility;
use crate::ecs::component_pool::ComponentPool;
use crate::ecs::entity::EntityId;

verus! {

/// The pool of a component type is absent or well formed.
pub open spec fn pool_wf<T>(pool: Option<ComponentPool<T>>) -> bool {
    pool matches Some(p) ==> p.wf()
}

/// The components of a possibly absent pool.
pub open spec fn pool_view<T>(pool: Option<ComponentPool<T>>) -> Map<EntityId, T> {
    match pool {
        Some(p) => p@,
        None => Map::empty(),
    }
}

/// `s` with `e` taken out by moving the last entry into its place; `s` as
/// it is when `e` is not in it.
pub open spec fn swap_removed(s: Seq<EntityId>, e: EntityId) -> Seq<EntityId> {
    if s.contains(e) {
        s.update(s.index_of(e), s.last()).drop_last()
    } else {
        s
    }
}

/// `after` is `before` with the component of `e` taken out, the last entry
/// of the pool moving into its place; an absent pool stays absent.
pub open spec fn pool_removed<T>(
    before: Option<ComponentPool<T>>,
    after: Option<ComponentPool<T>>,
    e: EntityId,
) -> bool {
    match (before, after) {
        (None, None) => true,
        (Some(b), Some(a)) => {
            &&& a.wf()
            &&& a@ == b@.remove(e)
            &&& a.dense_entities() == swap_removed(b.dense_entities(), e)
        },
        _ => false,
    }
}

/// What a pool's swap-remove does to its dense entities is `swap_removed`.
pub proof fn lemma_swap_removed<T>(p: ComponentPool<T>, e: EntityId)
    requires
        p.wf(),
    ensures
        p.has(e) ==> swap_removed(p.dense_entities(), e) == p.dense_entities().update(
            p.slot_of(e),
            p.dense_entities().last(),
        ).drop_last(),
        !p.has(e) ==> swap_removed(p.dense_entities(), e) == p.dense_entities(),
{
    p.lemma_has_iff_listed(e);
    p.lemma_entities_distinct();
    if p.has(e) {
        let s = p.dense_entities();
        let i = s.index_of(e);
        assert(s[p.slot_of(e)] == e);
        assert(0 <= i < s.len() && s[i] == e);
        assert(i == p.slot_of(e));
    }
}

/// `after` is `before` with the components of the entities `es` taken out;
/// an absent pool stays absent.
pub open spec fn pool_removed_all<T>(
    before: Option<ComponentPool<T>>,
    after: Option<ComponentPool<T>>,
    es: Set<EntityId>,
) -> bool {
    match (before, after) {
        (None, None) => true,
        (Some(b), Some(a)) => a.wf() && a@ == b@.remove_keys(es),
        _ => false,
    }
}

/// Every entity that holds a component in `pool` has an identifier below
/// `bound`.
pub open spec fn pool_keys_below<T>(pool: Option<ComponentPool<T>>, bound: int) -> bool {
    forall|e: EntityId| #[trigger] pool_view(pool).dom().contains(e) ==> e.0 < bound
}

/// One pool for each component type, created on first use.
#[derive(Debug)]
pub struct ComponentPools {
    names: Option<ComponentPool<Name>>,
    tags: Option<ComponentPool<Tags>>,
    scene_owned: Option<ComponentPool<SceneOwned>>,
    visibility: Option<ComponentPool<Visibility>>,
    mesh_renderers: Option<ComponentPool<MeshRenderer>>,
}

/// The kinds of component that the pools hold.
pub open spec fn kind_name() -> int {
    0
}

pub open spec fn kind_tags() -> int {
    1
}

pub open spec fn kind_scene_owned() -> int {
    2
}

pub open spec fn kind_visibility() -> int {
    3
}

pub open spec fn kind_mesh_renderer() -> int {
    4
}

impl ComponentPools {
    /// Every pool that exists is well formed.
    pub closed spec fn wf(&self) -> bool {
        &&& pool_wf(self.names)
        &&& pool_wf(self.tags)
        &&& pool_wf(self.scene_owned)
        &&& pool_wf(self.visibility)
        &&& pool_wf(self.mesh_renderers)
    }

    /// Every entity that holds a component of any type has an identifier
    /// below `bound`.
    pub closed spec fn ids_below(self, bound: int) -> bool {
        &&& pool_keys_below(self.names, bound)
        &&& pool_keys_below(self.tags, bound)
        &&& pool_keys_below(self.scene_owned, bound)
        &&& pool_keys_below(self.visibility, bound)
        &&& pool_keys_below(self.mesh_renderers, bound)
    }

    /// `e` holds a component of some type.
    pub closed spec fn holds(self, e: EntityId) -> bool {
        ||| pool_view(self.names).dom().contains(e)
        ||| pool_view(self.tags).dom().contains(e)
        ||| pool_view(self.scene_owned).dom().contains(e)
        ||| pool_view(self.visibility).dom().contains(e)
        ||| pool_view(self.mesh_renderers).dom().contains(e)
    }

    /// An identifier at or above the bound of every held identifier is held
    /// by no pool.
    pub proof fn lemma_fresh_not_held(self, bound: int, e: EntityId)
        requires
            self.ids_below(bound),
            bound <= e.0,
        ensures
            !self.holds(e),
    {
    }

    /// The bound of held identifiers can only grow.
    pub proof fn lemma_ids_below_grow(self, bound: int, larger: int)
        requires
            self.ids_below(bound),
            bound <= larger,
        ensures
            self.ids_below(larger),
    {
    }

    /// Taking an entity out of every pool keeps every held identifier below
    /// the bound.
    pub proof fn lemma_removed_ids_below(self, after: Self, e: EntityId, bound: int)
        requires
            self.ids_below(bound),
            self.removed_entity(after, e),
        ensures
            after.ids_below(bound),
    {
        assert forall|x: EntityId| #[trigger] pool_view(after.names).dom().contains(x) implies x.0
            < bound by {
            assert(pool_view(self.names).dom().contains(x));
        }
        assert forall|x: EntityId| #[trigger] pool_view(after.tags).dom().contains(x) implies x.0
            < bound by {
            assert(pool_view(self.tags).dom().contains(x));
        }
        assert forall|x: EntityId| #[trigger] pool_view(after.scene_owned).dom().contains(x) implies x.0
            < bound by {
            assert(pool_view(self.scene_owned).dom().contains(x));
        }
        assert forall|x: EntityId| #[trigger] pool_view(after.visibility).dom().contains(x) implies x.0
            < bound by {
            assert(pool_view(self.visibility).dom().contains(x));
        }
        assert forall|x: EntityId| #[trigger] pool_view(after.mesh_renderers).dom().contains(x) implies x.0
            < bound by {
            assert(pool_view(self.mesh_renderers).dom().contains(x));
        }
    }

    /// `self` and `other` hold the same pools, except maybe the pool of
    /// component kind `kind`.
    pub closed spec fn same_except(self, other: Self, kind: int) -> bool {
        &&& (kind != kind_name() ==> self.names == other.names)
        &&& (kind != kind_tags() ==> self.tags == other.tags)
        &&& (kind != kind_scene_owned() ==> self.scene_owned == other.scene_owned)
        &&& (kind != kind_visibility() ==> self.visibility == other.visibility)
        &&& (kind != kind_mesh_renderer() ==> self.mesh_renderers == other.mesh_renderers)
    }

    /// `after` is `self` with every component of `e` taken out.
    pub closed spec fn removed_entity(self, after: Self, e: EntityId) -> bool {
        &&& pool_removed(self.names, after.names, e)
        &&& pool_removed(self.tags, after.tags, e)
        &&& pool_removed(self.scene_owned, after.scene_owned, e)
        &&& pool_removed(self.visibility, after.visibility, e)
        &&& pool_removed(self.mesh_renderers, after.mesh_renderers, e)
    }

    /// `after` is `self` with every component of the entities `es` taken
    /// out.
    pub closed spec fn removed_entities(self, after: Self, es: Set<EntityId>) -> bool {
        &&& pool_removed_all(self.names, after.names, es)
        &&& pool_removed_all(self.tags, after.tags, es)
        &&& pool_removed_all(self.scene_owned, after.scene_owned, es)
        &&& pool_removed_all(self.visibility, after.visibility, es)
        &&& pool_removed_all(self.mesh_renderers, after.mesh_renderers, es)
    }

    /// Storage in which no pool exists yet.
    pub closed spec fn is_empty(self) -> bool {
        &&& self.names is None
        &&& self.tags is None
        &&& self.scene_owned is None
        &&& self.visibility is None
        &&& self.mesh_renderers is None
    }

    /// Storage in which no pool exists yet.
    pub fn new() -> (r: Self)
        ensures
            r.wf(),
            r.is_empty(),
    {
        ComponentPools {
            names: None,
            tags: None,
            scene_owned: None,
            visibility: None,
            mesh_renderers: None,
        }
    }

    /// Takes the components of `e` out of every pool.
    pub fn remove_entity(&mut self, e: EntityId)
        requires
            old(self).wf(),
        ensures
            final(self).wf(),
            old(self).removed_entity(*final(self), e),
    {
        if let Some(p) = &mut self.names {
            proof {
                lemma_swap_removed(*p, e);
            }
            p.remove(e);
        }
        if let Some(p) = &mut self.tags {
            proof {
                lemma_swap_removed(*p, e);
            }
            p.remove(e);
        }
        if let Some(p) = &mut self.scene_owned {
            proof {
                lemma_swap_removed(*p, e);
            }
            p.remove(e);
        }
        if let Some(p) = &mut self.visibility {
            proof {
                lemma_swap_removed(*p, e);
            }
            p.remove(e);
        }
        if let Some(p) = &mut self.mesh_renderers {
            proof {
                lemma_swap_removed(*p, e);
            }
            p.remove(e);
        }
    }

    /// Taking out the components of no entity leaves well-formed storage as
    /// it is.
    pub proof fn lemma_removed_nothing(self)
        requires
            self.wf(),
        ensures
            self.removed_entities(self, Set::empty()),
    {
        assert(pool_view(self.names).remove_keys(Set::empty()) =~= pool_view(self.names));
        assert(pool_view(self.tags).remove_keys(Set::empty()) =~= pool_view(self.tags));
        assert(pool_view(self.scene_owned).remove_keys(Set::empty()) =~= pool_view(self.scene_owned));
        assert(pool_view(self.visibility).remove_keys(Set::empty()) =~= pool_view(self.visibility));
        assert(pool_view(self.mesh_renderers).remove_keys(Set::empty()) =~= pool_view(self.mesh_renderers));
    }

    /// Taking out the components of the entities `es`, then those of `e`,
    /// takes out those of `es` and `e`.
    pub proof fn lemma_removed_one_more(self, mid: Self, after: Self, es: Set<EntityId>, e: EntityId)
        requires
            self.removed_entities(mid, es),
            mid.removed_entity(after, e),
        ensures
            self.removed_entities(after, es.insert(e)),
    {
        if let (Some(b), Some(a)) = (self.names, after.names) {
            assert(a@ =~= b@.remove_keys(es.insert(e)));
        }
        if let (Some(b), Some(a)) = (self.tags, after.tags) {
            assert(a@ =~= b@.remove_keys(es.insert(e)));
        }
        if let (Some(b), Some(a)) = (self.scene_owned, after.scene_owned) {
            assert(a@ =~= b@.remove_keys(es.insert(e)));
        }
        if let (Some(b), Some(a)) = (self.visibility, after.visibility) {
            assert(a@ =~= b@.remove_keys(es.insert(e)));
        }
        if let (Some(b), Some(a)) = (self.mesh_renderers, after.mesh_renderers) {
            assert(a@ =~= b@.remove_keys(es.insert(e)));
        }
    }

    /// Empty storage is well formed and the pool of every kind is absent.
    pub proof fn lemma_empty_has_no_pool<T: Component>(self)
        requires
            self.is_empty(),
        ensures
            T::stored(self) is None,
    {
        T::lemma_empty(self);
    }
}

/// A type that entities can hold. Each such type has its own pool in the
/// registry's storage.
pub trait Component: Sized {
    /// The number that tells this kind of component apart from the others.
    spec fn kind() -> int;

    /// The pool of this type in `pools`.
    spec fn stored(pools: ComponentPools) -> Option<ComponentPool<Self>>;

    /// `pools` with the pool of this type replaced by `pool`.
    spec fn with_stored(pools: ComponentPools, pool: Option<ComponentPool<Self>>) -> ComponentPools;

    /// The pool of this type.
    fn pool(pools: &ComponentPools) -> (r: &Option<ComponentPool<Self>>)
        ensures
            *r == Self::stored(*pools),
    ;

    /// The pool of this type, to be changed in place.
    fn pool_mut(pools: &mut ComponentPools) -> (r: &mut Option<ComponentPool<Self>>)
        ensures
            *r == Self::stored(*old(pools)),
            *final(pools) == Self::with_stored(*old(pools), *final(r)),
    ;

    /// Replacing the pool of this type changes that pool and no other.
    proof fn lemma_stored(pools: ComponentPools, pool: Option<ComponentPool<Self>>)
        ensures
            Self::stored(Self::with_stored(pools, pool)) == pool,
            Self::with_stored(pools, Self::stored(pools)) == pools,
            Self::with_stored(pools, pool).same_except(pools, Self::kind()),
            pools.wf() ==> pool_wf(Self::stored(pools)),
            pools.wf() && pool_wf(pool) ==> Self::with_stored(pools, pool).wf(),
    ;

    /// The pool of this type is untouched by changes to other kinds.
    proof fn lemma_frame(a: ComponentPools, b: ComponentPools, kind: int)
        requires
            a.same_except(b, kind),
            kind != Self::kind(),
        ensures
            Self::stored(a) == Self::stored(b),
    ;

    /// Taking an entity out of every pool takes it out of this type's pool.
    proof fn lemma_removed(before: ComponentPools, after: ComponentPools, e: EntityId)
        requires
            before.removed_entity(after, e),
        ensures
            pool_removed(Self::stored(before), Self::stored(after), e),
    ;

    /// Taking the components of some entities out of every pool takes them
    /// out of this type's pool.
    proof fn lemma_removed_all(before: ComponentPools, after: ComponentPools, es: Set<EntityId>)
        requires
            before.removed_entities(after, es),
        ensures
            pool_removed_all(Self::stored(before), Self::stored(after), es),
    ;

    /// Empty storage holds no pool of this type.
    proof fn lemma_empty(pools: ComponentPools)
        requires
            pools.is_empty(),
        ensures
            Self::stored(pools) is None,
    ;

    /// Replacing the pool of this type twice keeps only the second pool.
    proof fn lemma_stored_twice(
        pools: ComponentPools,
        first: Option<ComponentPool<Self>>,
        second: Option<ComponentPool<Self>>,
    )
        ensures
            Self::with_stored(Self::with_stored(pools, first), second) == Self::with_stored(
                pools,
                second,
            ),
    ;

    /// The identifiers held in this type's pool are held in the storage, and
    /// the bound on held identifiers holds for this pool and survives
    /// replacing it by a pool that keeps it.
    proof fn lemma_ids(pools: ComponentPools, pool: Option<ComponentPool<Self>>, bound: int, e: EntityId)
        ensures
            pool_view(Self::stored(pools)).dom().contains(e) ==> pools.holds(e),
            pools.ids_below(bound) ==> pool_keys_below(Self::stored(pools), bound),
            pools.ids_below(bound) && pool_keys_below(pool, bound) ==> Self::with_stored(
                pools,
                pool,
            ).ids_below(bound),
    ;
}

impl Component for Name {
    open spec fn kind() -> int {
        kind_name()
    }

    closed spec fn stored(pools: ComponentPools) -> Option<ComponentPool<Self>> {
        pools.names
    }

    closed spec fn with_stored(
        pools: ComponentPools,
        pool: Option<ComponentPool<Self>>,
    ) -> ComponentPools {
        ComponentPools { names: pool, ..pools }
    }

    fn pool(pools: &ComponentPools) -> (r: &Option<ComponentPool<Self>>) {
        &pools.names
    }

    fn pool_mut(pools: &mut ComponentPools) -> (r: &mut Option<ComponentPool<Self>>) {
        &mut pools.names
    }

    proof fn lemma_stored(pools: ComponentPools, pool: Option<ComponentPool<Self>>) {
    }

    proof fn lemma_frame(a: ComponentPools, b: ComponentPools, kind: int) {
    }

    proof fn lemma_removed(before: ComponentPools, after: ComponentPools, e: EntityId) {
    }

    proof fn lemma_removed_all(before: ComponentPools, after: ComponentPools, es: Set<EntityId>) {
    }

    proof fn lemma_empty(pools: ComponentPools) {
    }

    proof fn lemma_stored_twice(
        pools: ComponentPools,
        first: Option<ComponentPool<Self>>,
        second: Option<ComponentPool<Self>>,
    ) {
    }

    proof fn lemma_ids(pools: ComponentPools, pool: Option<ComponentPool<Self>>, bound: int, e: EntityId) {
    }
}

impl Component for Tags {
    open spec fn kind() -> int {
        kind_tags()
    }

    closed spec fn stored(pools: ComponentPools) -> Option<ComponentPool<Self>> {
        pools.tags
    }

    closed spec fn with_stored(
        pools: ComponentPools,
        pool: Option<ComponentPool<Self>>,
    ) -> ComponentPools {
        ComponentPools { tags: pool, ..pools }
    }

    fn pool(pools: &ComponentPools) -> (r: &Option<ComponentPool<Self>>) {
        &pools.tags
    }

    fn pool_mut(pools: &mut ComponentPools) -> (r: &mut Option<ComponentPool<Self>>) {
        &mut pools.tags
    }

    proof fn lemma_stored(pools: ComponentPools, pool: Option<ComponentPool<Self>>) {
    }

    proof fn lemma_frame(a: ComponentPools, b: ComponentPools, kind: int) {
    }

    proof fn lemma_removed(before: ComponentPools, after: ComponentPools, e: EntityId) {
    }

    proof fn lemma_removed_all(before: ComponentPools, after: ComponentPools, es: Set<EntityId>) {
    }

    proof fn lemma_empty(pools: ComponentPools) {
    }

    proof fn lemma_stored_twice(
        pools: ComponentPools,
        first: Option<ComponentPool<Self>>,
        second: Option<ComponentPool<Self>>,
    ) {
    }

    proof fn lemma_ids(pools: ComponentPools, pool: Option<ComponentPool<Self>>, bound: int, e: EntityId) {
    }
}

impl Component for SceneOwned {
    open spec fn kind() -> int {
        kind_scene_owned()
    }

    closed spec fn stored(pools: ComponentPools) -> Option<ComponentPool<Self>> {
        pools.scene_owned
    }

    closed spec fn with_stored(
        pools: ComponentPools,
        pool: Option<ComponentPool<Self>>,
    ) -> ComponentPools {
        ComponentPools { scene_owned: pool, ..pools }
    }

    fn pool(pools: &ComponentPools) -> (r: &Option<ComponentPool<Self>>) {
        &pools.scene_owned
    }

    fn pool_mut(pools: &mut ComponentPools) -> (r: &mut Option<ComponentPool<Self>>) {
        &mut pools.scene_owned
    }

    proof fn lemma_stored(pools: ComponentPools, pool: Option<ComponentPool<Self>>) {
    }

    proof fn lemma_frame(a: ComponentPools, b: ComponentPools, kind: int) {
    }

    proof fn lemma_removed(before: ComponentPools, after: ComponentPools, e: EntityId) {
    }

    proof fn lemma_removed_all(before: ComponentPools, after: ComponentPools, es: Set<EntityId>) {
    }

    proof fn lemma_empty(pools: ComponentPools) {
    }

    proof fn lemma_stored_twice(
        pools: ComponentPools,
        first: Option<ComponentPool<Self>>,
        second: Option<ComponentPool<Self>>,
    ) {
    }

    proof fn lemma_ids(pools: ComponentPools, pool: Option<ComponentPool<Self>>, bound: int, e: EntityId) {
    }
}

impl Component for Visibility {
    open spec fn kind() -> int {
        kind_visibility()
    }

    closed spec fn stored(pools: ComponentPools) -> Option<ComponentPool<Self>> {
        pools.visibility
    }

    closed spec fn with_stored(
        pools: ComponentPools,
        pool: Option<ComponentPool<Self>>,
    ) -> ComponentPools {
        ComponentPools { visibility: pool, ..pools }
    }

    fn pool(pools: &ComponentPools) -> (r: &Option<ComponentPool<Self>>) {
        &pools.visibility
    }

    fn pool_mut(pools: &mut ComponentPools) -> (r: &mut Option<ComponentPool<Self>>) {
        &mut pools.visibility
    }

    proof fn lemma_stored(pools: ComponentPools, pool: Option<ComponentPool<Self>>) {
    }

    proof fn lemma_frame(a: ComponentPools, b: ComponentPools, kind: int) {
    }

    proof fn lemma_removed(before: ComponentPools, after: ComponentPools, e: EntityId) {
    }

    proof fn lemma_removed_all(before: ComponentPools, after: ComponentPools, es: Set<EntityId>) {
    }

    proof fn lemma_empty(pools: ComponentPools) {
    }

    proof fn lemma_stored_twice(
        pools: ComponentPools,
        first: Option<ComponentPool<Self>>,
        second: Option<ComponentPool<Self>>,
    ) {
    }

    proof fn lemma_ids(pools: ComponentPools, pool: Option<ComponentPool<Self>>, bound: int, e: EntityId) {
    }
}

impl Component for MeshRenderer {
    open spec fn kind() -> int {
        kind_mesh_renderer()
    }

    closed spec fn stored(pools: ComponentPools) -> Option<ComponentPool<Self>> {
        pools.mesh_renderers
    }

    closed spec fn with_stored(
        pools: ComponentPools,
        pool: Option<ComponentPool<Self>>,
    ) -> ComponentPools {
        ComponentPools { mesh_renderers: pool, ..pools }
    }

    fn pool(pools: &ComponentPools) -> (r: &Option<ComponentPool<Self>>) {
        &pools.mesh_renderers
    }

    fn pool_mut(pools: &mut ComponentPools) -> (r: &mut Option<ComponentPool<Self>>) {
        &mut pools.mesh_renderers
    }

    proof fn lemma_stored(pools: ComponentPools, pool: Option<ComponentPool<Self>>) {
    }

    proof fn lemma_frame(a: ComponentPools, b: ComponentPools, kind: int) {
    }

    proof fn lemma_removed(before: ComponentPools, after: ComponentPools, e: EntityId) {
    }

    proof fn lemma_removed_all(before: ComponentPools, after: ComponentPools, es: Set<EntityId>) {
    }

    proof fn lemma_empty(pools: ComponentPools) {
    }

    proof fn lemma_stored_twice(
        pools: ComponentPools,
        first: Option<ComponentPool<Self>>,
        second: Option<ComponentPool<Self>>,
    ) {
    }

    proof fn lemma_ids(pools: ComponentPools, pool: Option<ComponentPool<Self>>, bound: int, e: EntityId) {
    }
}

/// Storing a new pool of `T` leaves the pool of every other type `U` as it
/// was.
pub proof fn lemma_other_pool_kept<T: Component, U: Component>(before: ComponentPools, after: ComponentPools)
    requires
        after == T::with_stored(before, T::stored(after)),
        T::kind() != U::kind(),
    ensures
        U::stored(after) == U::stored(before),
{
    T::lemma_stored(before, T::stored(after));
    U::lemma_frame(after, before, T::kind());
}

/// Filtering a sequence without duplicates gives one without duplicates.
pub proof fn lemma_filter_distinct<A>(s: Seq<A>, f: spec_fn(A) -> bool)
    requires
        s.no_duplicates(),
    ensures
        s.filter(f).no_duplicates(),
    decreases s.len(),
{
    reveal(Seq::filter);
    if s.len() > 0 {
        let d = s.drop_last();
        assert forall|i: int, j: int| 0 <= i < d.len() && 0 <= j < d.len() && i != j implies d[i]
            != d[j] by {
            assert(d[i] == s[i] && d[j] == s[j]);
        }
        lemma_filter_distinct(d, f);
        if f(s.last()) {
            if d.filter(f).contains(s.last()) {
                d.lemma_filter_contains_rev(f, s.last());
                let k = choose|k: int| 0 <= k < d.len() && d[k] == s.last();
                assert(s[k] == s[s.len() - 1]);
            }
            let t = d.filter(f).push(s.last());
            assert forall|i: int, j: int| 0 <= i < t.len() && 0 <= j < t.len() && i != j implies t[i]
                != t[j] by {
                if i < t.len() - 1 && j < t.len() - 1 {
                } else if i < t.len() - 1 {
                    assert(d.filter(f).contains(t[i]));
                } else {
                    assert(d.filter(f).contains(t[j]));
                }
            }
        }
    }
}

/// An entity is in the join of the pool of `A` with the components of `B`
/// exactly when it holds both an `A` and a `B`.
pub proof fn lemma_joined_contains<A: Component, B: Component>(registry: Registry, e: EntityId)
    requires
        registry.wf(),
    ensures
        joined(registry.pool_entities::<A>(), registry.components::<B>()).contains(e) <==> (
        registry.components::<A>().dom().contains(e) && registry.components::<B>().dom().contains(
            e,
        )),
{
    let bmap = registry.components::<B>();
    let f = |x: EntityId| bmap.dom().contains(x);
    A::lemma_stored(registry.storage(), A::stored(registry.storage()));
    broadcast use vstd::seq_lib::group_filter_ensures;
    match A::stored(registry.storage()) {
        Some(p) => {
            p.lemma_has_iff_listed(e);
            if p.has(e) && bmap.dom().contains(e) {
                p.dense_entities().lemma_filter_contains(f, p.slot_of(e));
            }
            if p.dense_entities().filter(f).contains(e) {
                p.dense_entities().lemma_filter_contains_rev(f, e);
                let k = choose|k: int| 0 <= k < p.dense_entities().filter(f).len() && p.dense_entities().filter(f)[k] == e;
                assert(f(p.dense_entities().filter(f)[k]));
            }
        },
        None => {
            reveal(Seq::filter);
            assert(Seq::<EntityId>::empty().filter(f) =~= Seq::<EntityId>::empty());
        },
    }
}

/// The identifiers of `s` strictly increase from first to last.
pub open spec fn increasing_ids(s: Seq<EntityId>) -> bool {
    forall|i: int, j: int| 0 <= i < j < s.len() ==> (#[trigger] s[i]).0 < (#[trigger] s[j]).0
}

/// Filtering a sequence whose identifiers increase gives one whose
/// identifiers increase.
pub proof fn lemma_filter_increasing(s: Seq<EntityId>, f: spec_fn(EntityId) -> bool)
    requires
        increasing_ids(s),
    ensures
        increasing_ids(s.filter(f)),
    decreases s.len(),
{
    reveal(Seq::filter);
    if s.len() > 0 {
        let d = s.drop_last();
        assert forall|i: int, j: int| 0 <= i < j < d.len() implies (#[trigger] d[i]).0 < (
        #[trigger] d[j]).0 by {
            assert(d[i] == s[i] && d[j] == s[j]);
        }
        lemma_filter_increasing(d, f);
        if f(s.last()) {
            let t = d.filter(f).push(s.last());
            assert forall|i: int, j: int| 0 <= i < j < t.len() implies (#[trigger] t[i]).0 < (
            #[trigger] t[j]).0 by {
                if j < t.len() - 1 {
                    assert(t[i] == d.filter(f)[i] && t[j] == d.filter(f)[j]);
                } else {
                    assert(t[i] == d.filter(f)[i]);
                    assert(d.filter(f).contains(t[i]));
                    d.lemma_filter_contains_rev(f, t[i]);
                    let k = choose|k: int| 0 <= k < d.len() && d[k] == t[i];
                    assert(s[k] == d[k]);
                    assert(s[k].0 < s[s.len() - 1].0);
                }
            }
        }
    }
}

/// The entities that exist and the pools of their components.
#[derive(Debug)]
pub struct Registry {
    next_entity_id: u64,
    entities: Vec<EntityId>,
    pools: ComponentPools,
}

/// The entities of `first` that also hold a component in `second`, in the
/// order of `first`.
pub open spec fn joined<B>(first: Seq<EntityId>, second: Map<EntityId, B>) -> Seq<EntityId> {
    first.filter(|e: EntityId| second.dom().contains(e))
}

impl Registry {
    /// The entities that exist, in creation order.
    pub closed spec fn live(&self) -> Seq<EntityId> {
        self.entities@
    }

    /// The identifier that the next created entity gets.
    pub closed spec fn next_id(&self) -> u64 {
        self.next_entity_id
    }

    /// The component pools.
    pub closed spec fn storage(&self) -> ComponentPools {
        self.pools
    }

    /// Entities are distinct, listed in increasing identifier order, and
    /// were all handed out before `next_id`; every pool is well formed and
    /// holds only identifiers handed out before `next_id`.
    pub open spec fn wf(&self) -> bool {
        &&& self.storage().wf()
        &&& self.live().no_duplicates()
        &&& increasing_ids(self.live())
        &&& self.next_id() <= usize::MAX
        &&& forall|i: int| 0 <= i < self.live().len() ==> (#[trigger] self.live()[i]).0 < self.next_id()
        &&& self.storage().ids_below(self.next_id() as int)
    }

    /// The components of type `T` that entities hold.
    pub open spec fn components<T: Component>(&self) -> Map<EntityId, T> {
        pool_view(T::stored(self.storage()))
    }

    /// The entities in the pool of `T`, in its dense order.
    pub open spec fn pool_entities<T: Component>(&self) -> Seq<EntityId> {
        match T::stored(self.storage()) {
            Some(p) => p.dense_entities(),
            None => Seq::empty(),
        }
    }

    /// A registry with no entity and no pool.
    pub fn new() -> (r: Self)
        ensures
            r.wf(),
            r.live() == Seq::<EntityId>::empty(),
            r.next_id() == 0,
            r.storage().is_empty(),
    {
        Registry { next_entity_id: 0, entities: Vec::new(), pools: ComponentPools::new() }
    }

    /// Creates an entity with the next identifier.
    pub fn create(&mut self) -> (r: EntityId)
        requires
            old(self).wf(),
            old(self).next_id() < usize::MAX,
        ensures
            final(self).wf(),
            r.0 == old(self).next_id(),
            !old(self).live().contains(r),
            final(self).live() == old(self).live().push(r),
            final(self).next_id() == old(self).next_id() + 1,
            final(self).storage() == old(self).storage(),
            !final(self).storage().holds(r),
    {
        proof {
            self.pools.lemma_fresh_not_held(self.next_id() as int, EntityId(self.next_id()));
            self.pools.lemma_ids_below_grow(self.next_id() as int, self.next_id() + 1);
        }
        let entity = EntityId::from_index(self.next_entity_id);
        self.next_entity_id = self.next_entity_id + 1;
        self.entities.push(entity);
        proof {
            let o = old(self);
            assert forall|i: int| 0 <= i < o.live().len() implies o.live()[i] != entity by {
                assert(o.live()[i].0 < o.next_id());
            }
            assert forall|i: int, j: int|
                0 <= i < self.live().len() && 0 <= j < self.live().len() && i != j implies self.live()[i]
                != self.live()[j] by {
                if i < o.live().len() && j < o.live().len() {
                    assert(self.live()[i] == o.live()[i]);
                    assert(self.live()[j] == o.live()[j]);
                } else if i < o.live().len() {
                    assert(o.live()[i].0 < o.next_id());
                } else if j < o.live().len() {
                    assert(o.live()[j].0 < o.next_id());
                }
            }
            assert forall|i: int| 0 <= i < self.live().len() implies (#[trigger] self.live()[i]).0
                < self.next_id() by {
                if i < o.live().len() {
                    assert(o.live()[i].0 < o.next_id());
                }
            }
        }
        entity
    }

    /// The identifier that the next created entity gets.
    pub fn next_entity_id(&self) -> (r: u64)
        ensures
            r == self.next_id(),
    {
        self.next_entity_id
    }

    /// The entities that exist, in creation order.
    pub fn entities(&self) -> (r: &[EntityId])
        ensures
            r@ == self.live(),
    {
        self.entities.as_slice()
    }

    /// Whether `entity` exists.
    pub fn contains(&self, entity: EntityId) -> (r: bool)
        ensures
            r == self.live().contains(entity),
    {
        let mut i: usize = 0;
        while i < self.entities.len()
            invariant
                i <= self.live().len(),
                forall|j: int| 0 <= j < i ==> self.live()[j] != entity,
            decreases self.live().len() - i,
        {
            if self.entities[i] == entity {
                assert(self.live()[i as int] == entity);
                return true;
            }
            i = i + 1;
        }
        false
    }

    /// The number of entities that exist.
    pub fn entity_count(&self) -> (r: usize)
        ensures
            r == self.live().len(),
    {
        self.entities.len()
    }

    /// The pool of `T`, created empty if it does not exist yet.
    fn get_or_create_pool<T: Component>(&mut self) -> (r: &mut ComponentPool<T>)
        requires
            old(self).wf(),
        ensures
            r.wf(),
            r@ == old(self).components::<T>(),
            T::stored(old(self).storage()) matches Some(p) ==> *r == p,
            T::stored(old(self).storage()) is None ==> r.dense_entities() == Seq::<EntityId>::empty()
                && r.dense_components() == Seq::<T>::empty() && r.sparse_slots()
                == Seq::<usize>::empty(),
            final(self).storage() == T::with_stored(old(self).storage(), Some(*final(r))),
            final(self).live() == old(self).live(),
            final(self).next_id() == old(self).next_id(),
    {
        proof {
            T::lemma_stored(self.pools, T::stored(self.pools));
        }
        let slot = T::pool_mut(&mut self.pools);
        if slot.is_none() {
            *slot = Some(ComponentPool::new());
        }
        slot.as_mut().unwrap()
    }

    /// Gives the existing entity `entity` the component `component`,
    /// replacing the one of the same type that it had. Refused, with no
    /// change, for an entity that does not exist.
    pub fn add_component<T: Component>(&mut self, entity: EntityId, component: T) -> (r: bool)
        requires
            old(self).wf(),
        ensures
            final(self).wf(),
            r == old(self).live().contains(entity),
            final(self).live() == old(self).live(),
            final(self).next_id() == old(self).next_id(),
            !r ==> *final(self) == *old(self),
            r ==> T::stored(final(self).storage()) is Some,
            r ==> final(self).components::<T>() == old(self).components::<T>().insert(
                entity,
                component,
            ),
            r ==> final(self).storage() == T::with_stored(
                old(self).storage(),
                T::stored(final(self).storage()),
            ),
            r ==> final(self).pool_entities::<T>() == if old(self).components::<T>().dom().contains(
                entity,
            ) {
                old(self).pool_entities::<T>()
            } else {
                old(self).pool_entities::<T>().push(entity)
            },
    {
        if !self.contains(entity) {
            return false;
        }
        proof {
            let i = self.live().index_of(entity);
            assert(self.live()[i].0 < self.next_id());
        }
        let ghost before = self.pools;
        let ghost bound = self.next_id() as int;
        let pool = self.get_or_create_pool::<T>();
        proof {
            T::lemma_stored(before, Some(*final(pool)));
            T::lemma_ids(before, Some(*final(pool)), bound, entity);
        }
        pool.insert(entity, component);
        proof {
            assert forall|x: EntityId| #[trigger] pool_view(Some(*pool)).dom().contains(x) implies x.0
                < bound by {
                if x != entity {
                    assert(pool_view(T::stored(before)).dom().contains(x));
                }
            }
        }
        true
    }

    /// Takes the component of type `T` away from `entity`, whether or not
    /// the entity exists.
    pub fn remove_component<T: Component>(&mut self, entity: EntityId) -> (r: Option<T>)
        requires
            old(self).wf(),
        ensures
            final(self).wf(),
            r == (if old(self).components::<T>().dom().contains(entity) {
                Some(old(self).components::<T>()[entity])
            } else {
                None
            }),
            final(self).components::<T>() == old(self).components::<T>().remove(entity),
            final(self).pool_entities::<T>() == swap_removed(old(self).pool_entities::<T>(), entity),
            T::stored(old(self).storage()) is None ==> final(self).storage() == old(self).storage(),
            (T::stored(final(self).storage()) is Some) == (T::stored(
                old(self).storage(),
            ) is Some),
            final(self).storage() == T::with_stored(
                old(self).storage(),
                T::stored(final(self).storage()),
            ),
            final(self).live() == old(self).live(),
            final(self).next_id() == old(self).next_id(),
    {
        proof {
            T::lemma_stored(self.pools, T::stored(self.pools));
        }
        let ghost before = self.pools;
        let slot = T::pool_mut(&mut self.pools);
        proof {
            T::lemma_stored(before, *final(slot));
        }
        let r = match slot {
            Some(pool) => {
                proof {
                    lemma_swap_removed(*pool, entity);
                }
                pool.remove(entity)
            },
            None => {
                assert(pool_view(T::stored(before)) =~= pool_view(T::stored(before)).remove(
                    entity,
                ));
                None
            },
        };
        proof {
            let bound = self.next_id() as int;
            T::lemma_ids(before, T::stored(self.pools), bound, entity);
            assert forall|x: EntityId| #[trigger] pool_view(T::stored(self.pools)).dom().contains(
                x,
            ) implies x.0 < bound by {
                assert(pool_view(T::stored(before)).dom().contains(x));
            }
        }
        r
    }

    /// Removes an existing entity and every component it holds. Refused,
    /// with no change, for an entity that does not exist.
    pub fn despawn(&mut self, entity: EntityId) -> (r: bool)
        requires
            old(self).wf(),
        ensures
            final(self).wf(),
            r == old(self).live().contains(entity),
            !r ==> *final(self) == *old(self),
            r ==> final(self).live() == old(self).live().filter(|x: EntityId| x != entity),
            r ==> old(self).storage().removed_entity(final(self).storage(), entity),
            final(self).next_id() == old(self).next_id(),
    {
        if !self.contains(entity) {
            return false;
        }
        let ghost pools_before = self.pools;
        self.pools.remove_entity(entity);
        proof {
            pools_before.lemma_removed_ids_below(self.pools, entity, self.next_id() as int);
        }
        let ghost before = self.entities@;
        let mut kept: Vec<EntityId> = Vec::new();
        let mut i: usize = 0;
        while i < self.entities.len()
            invariant
                self.entities@ == before,
                i <= before.len(),
                kept@ == before.take(i as int).filter(|x: EntityId| x != entity),
            decreases before.len() - i,
        {
            let x = self.entities[i];
            proof {
                assert(before.take(i + 1) == before.take(i as int).push(x));
                before.take(i as int).lemma_filter_push(x, |x: EntityId| x != entity);
            }
            if x != entity {
                kept.push(x);
            }
            i = i + 1;
        }
        assert(before.take(before.len() as int) == before);
        self.entities = kept;
        proof {
            let o = old(self);
            let f = |x: EntityId| x != entity;
            lemma_filter_distinct(before, f);
            lemma_filter_increasing(before, f);
            assert forall|k: int| 0 <= k < self.live().len() implies (#[trigger] self.live()[k]).0
                < self.next_id() by {
                assert(self.live().contains(self.live()[k]));
                before.lemma_filter_contains_rev(f, self.live()[k]);
                let j = choose|j: int| 0 <= j < before.len() && before[j] == self.live()[k];
                assert(o.live()[j].0 < o.next_id());
            }
        }
        true
    }

    /// The pool of `T`, if any entity ever held a `T`.
    pub fn get_pool<T: Component>(&self) -> (r: Option<&ComponentPool<T>>)
        ensures
            match r {
                Some(p) => T::stored(self.storage()) == Some(*p),
                None => T::stored(self.storage()) is None,
            },
    {
        T::pool(&self.pools).as_ref()
    }

    /// The pool of `T`, if any entity ever held a `T`, to be changed in
    /// place. The registry stays well formed as long as the pool does and
    /// holds only identifiers that were handed out.
    pub fn get_pool_mut<T: Component>(&mut self) -> (r: Option<&mut ComponentPool<T>>)
        requires
            old(self).wf(),
        ensures
            r is Some == T::stored(old(self).storage()) is Some,
            r is None ==> *final(self) == *old(self),
            r is Some ==> {
                &&& Some(*r.unwrap()) == T::stored(old(self).storage())
                &&& final(self).storage() == T::with_stored(
                    old(self).storage(),
                    Some(*final(r.unwrap())),
                )
                &&& final(self).live() == old(self).live()
                &&& final(self).next_id() == old(self).next_id()
                &&& final(r.unwrap()).wf() && pool_keys_below(
                    Some(*final(r.unwrap())),
                    old(self).next_id() as int,
                ) ==> final(self).wf()
            },
    {
        proof {
            T::lemma_stored(self.pools, T::stored(self.pools));
        }
        let ghost before = self.pools;
        let ghost bound = self.next_id() as int;
        let r = T::pool_mut(&mut self.pools).as_mut();
        proof {
            if r is Some {
                T::lemma_stored(before, Some(*final(r.unwrap())));
                T::lemma_ids(before, Some(*final(r.unwrap())), bound, EntityId(0));
            }
        }
        r
    }

    /// The component of type `T` of `entity`, if it holds one.
    pub fn get_component<T: Component>(&self, entity: EntityId) -> (r: Option<&T>)
        requires
            self.wf(),
        ensures
            r == (if self.components::<T>().dom().contains(entity) {
                Some(&self.components::<T>()[entity])
            } else {
                None
            }),
    {
        proof {
            T::lemma_stored(self.pools, T::stored(self.pools));
        }
        match T::pool(&self.pools) {
            Some(pool) => pool.get(entity),
            None => None,
        }
    }

    /// The component of type `T` of `entity`, if it holds one, to be
    /// changed in place.
    pub fn get_component_mut<T: Component>(&mut self, entity: EntityId) -> (r: Option<&mut T>)
        requires
            old(self).wf(),
        ensures
            r is Some == old(self).components::<T>().dom().contains(entity),
            r is None ==> *final(self) == *old(self),
            final(self).pool_entities::<T>() == old(self).pool_entities::<T>(),
            r is Some ==> {
                &&& *r.unwrap() == old(self).components::<T>()[entity]
                &&& final(self).wf()
                &&& final(self).components::<T>() == old(self).components::<T>().insert(
                    entity,
                    *final(r.unwrap()),
                )
                &&& T::stored(final(self).storage()) is Some
                &&& final(self).storage() == T::with_stored(
                    old(self).storage(),
                    T::stored(final(self).storage()),
                )
                &&& final(self).live() == old(self).live()
                &&& final(self).next_id() == old(self).next_id()
            },
    {
        proof {
            T::lemma_stored(self.pools, T::stored(self.pools));
        }
        let ghost before = self.pools;
        let ghost bound = self.next_id() as int;
        let slot = T::pool_mut(&mut self.pools);
        proof {
            T::lemma_stored(before, *final(slot));
            T::lemma_ids(before, *final(slot), bound, entity);
        }
        let r = match slot {
            Some(pool) => pool.get_mut(entity),
            None => None,
        };
        r
    }

    /// Whether `entity` holds a component of type `T`.
    pub fn has_component<T: Component>(&self, entity: EntityId) -> (r: bool)
        requires
            self.wf(),
        ensures
            r == self.components::<T>().dom().contains(entity),
    {
        proof {
            T::lemma_stored(self.pools, T::stored(self.pools));
        }
        match T::pool(&self.pools) {
            Some(pool) => pool.contains(entity),
            None => false,
        }
    }

    /// The entities that hold both an `A` and a `B`, in the order of the
    /// pool of `A`, each with both components.
    pub fn query2<A: Component, B: Component>(&self) -> (r: Vec<(EntityId, &A, &B)>)
        requires
            self.wf(),
        ensures
            r@.len() == joined(self.pool_entities::<A>(), self.components::<B>()).len(),
            forall|i: int|
                0 <= i < r@.len() ==> {
                    &&& (#[trigger] r@[i]).0 == joined(
                        self.pool_entities::<A>(),
                        self.components::<B>(),
                    )[i]
                    &&& self.components::<A>().dom().contains(r@[i].0)
                    &&& *r@[i].1 == self.components::<A>()[r@[i].0]
                    &&& self.components::<B>().dom().contains(r@[i].0)
                    &&& *r@[i].2 == self.components::<B>()[r@[i].0]
                },
    {
        proof {
            A::lemma_stored(self.pools, A::stored(self.pools));
            B::lemma_stored(self.pools, B::stored(self.pools));
        }
        let mut r: Vec<(EntityId, &A, &B)> = Vec::new();
        let a_pool = match A::pool(&self.pools) {
            Some(p) => p,
            None => {
                assert(joined(self.pool_entities::<A>(), self.components::<B>()) =~= Seq::<
                    EntityId,
                >::empty()) by {
                    reveal(Seq::filter);
                }
                return r;
            },
        };
        let b_pool = match B::pool(&self.pools) {
            Some(p) => p,
            None => {
                proof {
                    let s = self.pool_entities::<A>();
                    let f = |e: EntityId| self.components::<B>().dom().contains(e);
                    broadcast use vstd::seq_lib::group_filter_ensures;
                    if s.filter(f).len() > 0 {
                        assert(f(s.filter(f)[0]));
                    }
                    assert(s.filter(f) =~= Seq::<EntityId>::empty());
                }
                return r;
            },
        };
        let ents = a_pool.entities();
        let comps = a_pool.components();
        let ghost full = a_pool.dense_entities();
        let ghost bmap = b_pool@;
        let ghost f = |e: EntityId| bmap.dom().contains(e);
        let mut i: usize = 0;
        while i < ents.len()
            invariant
                a_pool.wf(),
                b_pool.wf(),
                ents@ == full,
                full == a_pool.dense_entities(),
                comps@ == a_pool.dense_components(),
                bmap == b_pool@,
                f == (|e: EntityId| bmap.dom().contains(e)),
                i <= full.len(),
                r@.len() == full.take(i as int).filter(f).len(),
                forall|k: int|
                    0 <= k < r@.len() ==> {
                        &&& (#[trigger] r@[k]).0 == full.take(i as int).filter(f)[k]
                        &&& a_pool@.dom().contains(r@[k].0)
                        &&& *r@[k].1 == a_pool@[r@[k].0]
                        &&& bmap.dom().contains(r@[k].0)
                        &&& *r@[k].2 == bmap[r@[k].0]
                    },
            decreases full.len() - i,
        {
            let e = ents[i];
            proof {
                assert(full.take(i + 1) == full.take(i as int).push(e));
                full.take(i as int).lemma_filter_push(e, f);
                a_pool.lemma_has_iff_listed(e);
                assert(full.contains(e)) by {
                    assert(full[i as int] == e);
                }
                assert(a_pool.slot_of(e) == i);
            }
            let ghost prev = r@;
            let ghost before_filter = full.take(i as int).filter(f);
            let ghost after_filter = full.take(i + 1).filter(f);
            match b_pool.get(e) {
                Some(b) => {
                    r.push((e, &comps[i], b));
                    assert(bmap.dom().contains(e));
                    assert(f(e));
                    assert(full.take(i as int).push(e).filter(f) == before_filter.push(e));
                    assert(full.take(i + 1) == full.take(i as int).push(e));
                    assert(after_filter == before_filter.push(e));
                    assert forall|k: int| 0 <= k < r@.len() implies {
                        &&& (#[trigger] r@[k]).0 == after_filter[k]
                        &&& a_pool@.dom().contains(r@[k].0)
                        &&& *r@[k].1 == a_pool@[r@[k].0]
                        &&& bmap.dom().contains(r@[k].0)
                        &&& *r@[k].2 == bmap[r@[k].0]
                    } by {
                        if k < prev.len() {
                            assert(r@[k] == prev[k]);
                        }
                    }
                },
                None => {
                    assert(after_filter == before_filter);
                },
            }
            i = i + 1;
        }
        assert(full.take(full.len() as int) == full);
        r
    }

    /// Gives each entity of `entities` the component of type `T` at the same
    /// position of `values`; the entities are distinct and hold a `T`
    /// already. Every other component stays as it was.
    fn set_components<T: Component>(&mut self, entities: Vec<EntityId>, values: Vec<T>)
        requires
            old(self).wf(),
            entities@.len() == values@.len(),
            entities@.no_duplicates(),
            forall|k: int|
                0 <= k < entities@.len() ==> old(self).components::<T>().dom().contains(
                    #[trigger] entities@[k],
                ),
        ensures
            final(self).wf(),
            final(self).live() == old(self).live(),
            final(self).next_id() == old(self).next_id(),
            final(self).storage() == T::with_stored(
                old(self).storage(),
                T::stored(final(self).storage()),
            ),
            final(self).components::<T>().dom() == old(self).components::<T>().dom(),
            final(self).pool_entities::<T>() == old(self).pool_entities::<T>(),
            forall|k: int|
                0 <= k < entities@.len() ==> final(self).components::<T>()[#[trigger] entities@[k]]
                    == values@[k],
            forall|e: EntityId|
                !entities@.contains(e) ==> #[trigger] final(self).components::<T>()[e] == old(
                    self,
                ).components::<T>()[e],
    {
        let ghost ents = entities@;
        let ghost vals = values@;
        let ghost tmap = self.components::<T>();
        let ghost pools0 = self.pools;
        let mut entities = entities;
        let mut values = values;
        proof {
            T::lemma_stored(pools0, T::stored(pools0));
            assert(ents.subrange(ents.len() as int, ents.len() as int) =~= Seq::<EntityId>::empty());
        }
        while entities.len() > 0
            invariant
                self.wf(),
                entities@.len() == values@.len(),
                entities@.len() <= ents.len(),
                vals.len() == ents.len(),
                forall|k: int| 0 <= k < entities@.len() ==> (#[trigger] entities@[k]) == ents[k],
                forall|k: int| 0 <= k < values@.len() ==> (#[trigger] values@[k]) == vals[k],
                ents.no_duplicates(),
                forall|k: int| 0 <= k < ents.len() ==> tmap.dom().contains(#[trigger] ents[k]),
                self.live() == old(self).live(),
                self.next_id() == old(self).next_id(),
                pools0 == old(self).storage(),
                tmap == old(self).components::<T>(),
                self.storage() == T::with_stored(pools0, T::stored(self.storage())),
                self.components::<T>().dom() == tmap.dom(),
                self.pool_entities::<T>() == old(self).pool_entities::<T>(),
                forall|k: int|
                    entities@.len() <= k < ents.len() ==> self.components::<T>()[#[trigger] ents[k]]
                        == vals[k],
                forall|e: EntityId|
                    !ents.subrange(entities@.len() as int, ents.len() as int).contains(e)
                        ==> #[trigger] self.components::<T>()[e] == tmap[e],
            decreases entities@.len(),
        {
            let ghost n = entities@.len() as int;
            let ghost prev = self.components::<T>();
            let ghost prev_pools = self.pools;
            let e = entities.pop().unwrap();
            let v = values.pop().unwrap();
            proof {
                assert(e == ents[n - 1]);
                assert(prev.dom().contains(e));
            }
            let slot = self.get_component_mut::<T>(e);
            match slot {
                Some(c) => {
                    *c = v;
                },
                None => {},
            }
            proof {
                T::lemma_stored_twice(pools0, T::stored(prev_pools), T::stored(self.pools));
                assert(self.components::<T>() == prev.insert(e, vals[n - 1]));
                assert forall|k: int| n - 1 <= k < ents.len() implies self.components::<T>()[
                    #[trigger] ents[k]] == vals[k] by {
                    if k != n - 1 {
                        assert(ents[k] != ents[n - 1]);
                    }
                }
                assert forall|x: EntityId|
                    !ents.subrange(n - 1, ents.len() as int).contains(
                        x,
                    ) implies #[trigger] self.components::<T>()[x] == tmap[x] by {
                    assert(ents.subrange(n - 1, ents.len() as int)[0] == ents[n - 1]);
                    if ents.subrange(n, ents.len() as int).contains(x) {
                        let j = choose|j: int|
                            0 <= j < ents.len() - n && ents.subrange(n, ents.len() as int)[j] == x;
                        assert(ents.subrange(n - 1, ents.len() as int)[j + 1] == x);
                    }
                }
            }
        }
        proof {
            assert(ents.subrange(0, ents.len() as int) =~= ents);
        }
    }

    /// Replaces the `A` of every entity that holds both an `A` and a `B` by
    /// what `update` gives for the entity and its two components, in the
    /// order of the pool of `A`, and returns those entities in that order.
    /// The `A` of every other entity and the components of every other type
    /// stay as they were. `A` and `B` must be different types.
    pub fn query2_mut<A: Component, B: Component, F: Fn(EntityId, &A, &B) -> A>(
        &mut self,
        update: F,
    ) -> (r: Vec<EntityId>)
        requires
            old(self).wf(),
            A::kind() != B::kind(),
            forall|e: EntityId, a: &A, b: &B| update.requires((e, a, b)),
        ensures
            final(self).wf(),
            r@ == joined(old(self).pool_entities::<A>(), old(self).components::<B>()),
            final(self).live() == old(self).live(),
            final(self).next_id() == old(self).next_id(),
            final(self).storage() == A::with_stored(
                old(self).storage(),
                A::stored(final(self).storage()),
            ),
            final(self).components::<B>() == old(self).components::<B>(),
            final(self).components::<A>().dom() == old(self).components::<A>().dom(),
            final(self).pool_entities::<A>() == old(self).pool_entities::<A>(),
            final(self).pool_entities::<B>() == old(self).pool_entities::<B>(),
            forall|e: EntityId| #[trigger]
                old(self).components::<A>().dom().contains(e) ==> if old(
                    self,
                ).components::<B>().dom().contains(e) {
                    update.ensures(
                        (e, &old(self).components::<A>()[e], &old(self).components::<B>()[e]),
                        final(self).components::<A>()[e],
                    )
                } else {
                    final(self).components::<A>()[e] == old(self).components::<A>()[e]
                },
    {
        let ghost amap = self.components::<A>();
        let ghost bmap = self.components::<B>();
        let ghost joint = joined(self.pool_entities::<A>(), bmap);
        let ghost pools0 = self.pools;
        let mut order: Vec<EntityId> = Vec::new();
        let mut entities: Vec<EntityId> = Vec::new();
        let mut values: Vec<A> = Vec::new();
        {
            let pairs = self.query2::<A, B>();
            assert forall|k: int| 0 <= k < joint.len() implies amap.dom().contains(
                #[trigger] joint[k],
            ) by {
                assert(pairs@[k].0 == joint[k]);
            }
            let mut i: usize = 0;
            while i < pairs.len()
                invariant
                    forall|e: EntityId, a: &A, b: &B| update.requires((e, a, b)),
                    pairs@.len() == joint.len(),
                    forall|k: int|
                        0 <= k < pairs@.len() ==> {
                            &&& (#[trigger] pairs@[k]).0 == joint[k]
                            &&& amap.dom().contains(joint[k])
                            &&& *pairs@[k].1 == amap[joint[k]]
                            &&& *pairs@[k].2 == bmap[joint[k]]
                        },
                    forall|k: int| 0 <= k < joint.len() ==> amap.dom().contains(#[trigger] joint[k]),
                    i <= pairs@.len(),
                    order@.len() == i,
                    entities@.len() == i,
                    values@.len() == i,
                    forall|k: int| 0 <= k < i ==> (#[trigger] order@[k]) == joint[k],
                    forall|k: int| 0 <= k < i ==> (#[trigger] entities@[k]) == joint[k],
                    forall|k: int|
                        0 <= k < i ==> update.ensures(
                            (joint[k], &amap[joint[k]], &bmap[joint[k]]),
                            #[trigger] values@[k],
                        ),
                decreases pairs@.len() - i,
            {
                let (e, a, b) = pairs[i];
                let v = update(e, a, b);
                order.push(e);
                entities.push(e);
                values.push(v);
                i = i + 1;
            }
        }
        let ghost vals = values@;
        proof {
            A::lemma_stored(pools0, A::stored(pools0));
            if let Some(p) = A::stored(pools0) {
                p.lemma_entities_distinct();
                lemma_filter_distinct(p.dense_entities(), |e: EntityId| bmap.dom().contains(e));
            }
            assert(order@ =~= joint);
            assert(entities@ =~= joint);
            assert(values@ =~= vals);
        }
        self.set_components::<A>(entities, values);
        proof {
            lemma_other_pool_kept::<A, B>(pools0, self.pools);
            assert forall|e: EntityId| #[trigger] amap.dom().contains(e) implies if bmap.dom().contains(
                e,
            ) {
                update.ensures((e, &amap[e], &bmap[e]), self.components::<A>()[e])
            } else {
                self.components::<A>()[e] == amap[e]
            } by {
                if bmap.dom().contains(e) {
                    lemma_joined_contains::<A, B>(*old(self), e);
                    let k = choose|k: int| 0 <= k < joint.len() && joint[k] == e;
                    assert(self.components::<A>()[joint[k]] == vals[k]);
                } else {
                    lemma_joined_contains::<A, B>(*old(self), e);
                }
            }
        }
        order
    }

    /// Replaces both components of every entity that holds an `A` and a
    /// `B` by the pair that `update` gives for the entity and its two
    /// components, in the order of the pool of `A`, and returns those
    /// entities in that order. Every other component stays as it was. `A`
    /// and `B` must be different types.
    pub fn query2_mut_mut<A: Component, B: Component, F: Fn(EntityId, &A, &B) -> (A, B)>(
        &mut self,
        update: F,
    ) -> (r: Vec<EntityId>)
        requires
            old(self).wf(),
            A::kind() != B::kind(),
            forall|e: EntityId, a: &A, b: &B| update.requires((e, a, b)),
        ensures
            final(self).wf(),
            r@ == joined(old(self).pool_entities::<A>(), old(self).components::<B>()),
            final(self).live() == old(self).live(),
            final(self).next_id() == old(self).next_id(),
            final(self).storage() == B::with_stored(
                A::with_stored(old(self).storage(), A::stored(final(self).storage())),
                B::stored(final(self).storage()),
            ),
            final(self).components::<A>().dom() == old(self).components::<A>().dom(),
            final(self).components::<B>().dom() == old(self).components::<B>().dom(),
            final(self).pool_entities::<A>() == old(self).pool_entities::<A>(),
            final(self).pool_entities::<B>() == old(self).pool_entities::<B>(),
            forall|e: EntityId|
                #![trigger final(self).components::<A>()[e]]
                #![trigger final(self).components::<B>()[e]]
                if old(self).components::<A>().dom().contains(e) && old(
                    self,
                ).components::<B>().dom().contains(e) {
                    update.ensures(
                        (e, &old(self).components::<A>()[e], &old(self).components::<B>()[e]),
                        (final(self).components::<A>()[e], final(self).components::<B>()[e]),
                    )
                } else {
                    &&& final(self).components::<A>()[e] == old(self).components::<A>()[e]
                    &&& final(self).components::<B>()[e] == old(self).components::<B>()[e]
                },
    {
        let ghost amap = self.components::<A>();
        let ghost bmap = self.components::<B>();
        let ghost joint = joined(self.pool_entities::<A>(), bmap);
        let ghost pools0 = self.pools;
        let mut order: Vec<EntityId> = Vec::new();
        let mut entities_a: Vec<EntityId> = Vec::new();
        let mut entities_b: Vec<EntityId> = Vec::new();
        let mut values_a: Vec<A> = Vec::new();
        let mut values_b: Vec<B> = Vec::new();
        {
            let pairs = self.query2::<A, B>();
            assert forall|k: int| 0 <= k < joint.len() implies amap.dom().contains(
                #[trigger] joint[k],
            ) && bmap.dom().contains(joint[k]) by {
                assert(pairs@[k].0 == joint[k]);
            }
            let mut i: usize = 0;
            while i < pairs.len()
                invariant
                    forall|e: EntityId, a: &A, b: &B| update.requires((e, a, b)),
                    pairs@.len() == joint.len(),
                    forall|k: int|
                        0 <= k < pairs@.len() ==> {
                            &&& (#[trigger] pairs@[k]).0 == joint[k]
                            &&& *pairs@[k].1 == amap[joint[k]]
                            &&& *pairs@[k].2 == bmap[joint[k]]
                        },
                    forall|k: int|
                        0 <= k < joint.len() ==> amap.dom().contains(#[trigger] joint[k])
                            && bmap.dom().contains(joint[k]),
                    i <= pairs@.len(),
                    order@.len() == i,
                    entities_a@.len() == i,
                    entities_b@.len() == i,
                    values_a@.len() == i,
                    values_b@.len() == i,
                    forall|k: int| 0 <= k < i ==> (#[trigger] order@[k]) == joint[k],
                    forall|k: int| 0 <= k < i ==> (#[trigger] entities_a@[k]) == joint[k],
                    forall|k: int| 0 <= k < i ==> (#[trigger] entities_b@[k]) == joint[k],
                    forall|k: int|
                        0 <= k < i ==> update.ensures(
                            (joint[k], &amap[joint[k]], &bmap[joint[k]]),
                            (#[trigger] values_a@[k], values_b@[k]),
                        ),
                decreases pairs@.len() - i,
            {
                let (e, a, b) = pairs[i];
                let (na, nb) = update(e, a, b);
                order.push(e);
                entities_a.push(e);
                entities_b.push(e);
                values_a.push(na);
                values_b.push(nb);
                i = i + 1;
            }
        }
        let ghost vals_a = values_a@;
        let ghost vals_b = values_b@;
        proof {
            A::lemma_stored(pools0, A::stored(pools0));
            if let Some(p) = A::stored(pools0) {
                p.lemma_entities_distinct();
                lemma_filter_distinct(p.dense_entities(), |e: EntityId| bmap.dom().contains(e));
            }
            assert(order@ =~= joint);
            assert(entities_a@ =~= joint);
            assert(entities_b@ =~= joint);
        }
        self.set_components::<A>(entities_a, values_a);
        let ghost mid = self.pools;
        let ghost amid = self.components::<A>();
        proof {
            lemma_other_pool_kept::<A, B>(pools0, self.pools);
        }
        self.set_components::<B>(entities_b, values_b);
        proof {
            lemma_other_pool_kept::<B, A>(mid, self.pools);
            A::lemma_stored(pools0, A::stored(mid));
            assert forall|e: EntityId|
                #![trigger self.components::<A>()[e]]
                #![trigger self.components::<B>()[e]]
                if amap.dom().contains(e) && bmap.dom().contains(e) {
                    update.ensures(
                        (e, &amap[e], &bmap[e]),
                        (self.components::<A>()[e], self.components::<B>()[e]),
                    )
                } else {
                    &&& self.components::<A>()[e] == amap[e]
                    &&& self.components::<B>()[e] == bmap[e]
                } by {
                lemma_joined_contains::<A, B>(*old(self), e);
                if amap.dom().contains(e) && bmap.dom().contains(e) {
                    let k = choose|k: int| 0 <= k < joint.len() && joint[k] == e;
                    assert(amid[joint[k]] == vals_a[k]);
                    assert(self.components::<B>()[joint[k]] == vals_b[k]);
                } else {
                    assert(!joint.contains(e));
                }
            }
        }
        order
    }
}

impl Default for Registry {
    /// A registry with no entity and no pool.
    fn default() -> (r: Self)
        ensures
            r.wf(),
            r.live() == Seq::<EntityId>::empty(),
            r.next_id() == 0,
            r.storage().is_empty(),
    {
        Registry::new()
    }
}


/// Despawning an entity takes away its component of every type, moving the
/// last entity of each pool into its place, and leaves the components of
/// all other entities as they were.
pub proof fn despawn_clears_every_component<T: Component>(
    before: Registry,
    after: Registry,
    entity: EntityId,
)
    requires
        before.storage().removed_entity(after.storage(), entity),
    ensures
        !after.components::<T>().dom().contains(entity),
        after.components::<T>() == before.components::<T>().remove(entity),
        after.pool_entities::<T>() == swap_removed(before.pool_entities::<T>(), entity),
{
    T::lemma_removed(before.storage(), after.storage(), entity);
    assert(after.components::<T>() =~= before.components::<T>().remove(entity));
}

/// Identifiers are never reused: every entity that exists got an identifier
/// below the one that `create` hands out next.
pub proof fn next_entity_is_fresh(registry: Registry, e: EntityId)
    requires
        registry.wf(),
        registry.live().contains(e),
    ensures
        e.0 < registry.next_id(),
        e != EntityId(registry.next_id()),
{
    let k = choose|k: int| 0 <= k < registry.live().len() && registry.live()[k] == e;
    assert(registry.live()[k].0 < registry.next_id());
}

/// An entity that holds no component in the storage has no component of
/// any type; a newly created entity is such an entity.
pub proof fn new_entity_has_no_component<T: Component>(registry: Registry, e: EntityId)
    requires
        !registry.storage().holds(e),
    ensures
        !registry.components::<T>().dom().contains(e),
{
    T::lemma_ids(registry.storage(), None, 0, e);
}

/// No pool holds a component for an identifier that was not handed out yet.
pub proof fn unused_identifier_holds_nothing<T: Component>(registry: Registry, e: EntityId)
    requires
        registry.wf(),
        registry.next_id() <= e.0,
    ensures
        !registry.storage().holds(e),
        !registry.components::<T>().dom().contains(e),
{
    registry.storage().lemma_fresh_not_held(registry.next_id() as int, e);
    T::lemma_ids(registry.storage(), None, 0, e);
}

/// The entities are listed in creation order: their identifiers strictly
/// increase, so no entity is listed twice, and each one is below the
/// identifier that `create` hands out next.
pub proof fn entities_in_creation_order(registry: Registry)
    requires
        registry.wf(),
    ensures
        forall|i: int, j: int|
            0 <= i < j < registry.live().len() ==> (#[trigger] registry.live()[i]).0 < (
            #[trigger] registry.live()[j]).0,
        forall|i: int| 0 <= i < registry.live().len() ==> (#[trigger] registry.live()[i]).0 < registry.next_id(),
        registry.live().no_duplicates(),
{
}

/// Despawning a set of entities takes away their components of every type,
/// and leaves the components of all other entities as they were.
pub proof fn despawn_all_clears_their_components<T: Component>(
    before: Registry,
    after: Registry,
    es: Set<EntityId>,
)
    requires
        before.storage().removed_entities(after.storage(), es),
    ensures
        after.components::<T>() == before.components::<T>().remove_keys(es),
{
    T::lemma_removed_all(before.storage(), after.storage(), es);
    assert(after.components::<T>() =~= before.components::<T>().remove_keys(es));
}

/// Changing the components of one type leaves those of every other type as
/// they were.
pub proof fn other_component_types_untouched<T: Component, U: Component>(
    before: Registry,
    after: Registry,
)
    requires
        after.storage() == T::with_stored(before.storage(), T::stored(after.storage())),
        T::kind() != U::kind(),
    ensures
        after.components::<U>() == before.components::<U>(),
{
    T::lemma_stored(before.storage(), T::stored(after.storage()));
    U::lemma_frame(after.storage(), before.storage(), T::kind());
}

/// Inserting a component for an entity that had none and then removing it
/// gives the pool back the components it had, and hands back the component.
pub proof fn insert_then_remove_restores<T>(
    before: Map<EntityId, T>,
    inserted: Map<EntityId, T>,
    removed: Map<EntityId, T>,
    entity: EntityId,
    component: T,
)
    requires
        !before.dom().contains(entity),
        inserted == before.insert(entity, component),
        removed == inserted.remove(entity),
    ensures
        inserted[entity] == component,
        removed == before,
{
    assert(removed =~= before);
}

} // verus!
