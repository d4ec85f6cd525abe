use vstd::prelude::*;

use crate::component::scene_owned::{SceneId, SceneOwned};
use crate::ecs::entity::EntityId;
use crate::component::mesh_renderer::MeshRenderer;
use crate::ecs::registry::{despawn_all_clears_their_components, Component, Registry};
use crate::resources::MeshAsset;
use crate::system::entity_api::{assets_after_optional_release, queue_after_release, renderer_asset, EntityContext};
use crate::system::render_command::RenderCommand;

verus! {

/// The entities that the pool of `SceneOwned` marks as owned by `scene_id`,
/// in the pool's dense order.
pub open spec fn owned_by(registry: Registry, scene_id: SceneId) -> Seq<EntityId> {
    let owners = registry.components::<SceneOwned>();
    registry.pool_entities::<SceneOwned>().filter(
        |e: EntityId| owners.dom().contains(e) && owners[e].scene_id == scene_id,
    )
}

/// The asset slots and the render queue after despawning, in order, those
/// of the entities `t` that exist in `live`, each as `despawn` does: the
/// asset that its mesh renderer in `renderers` draws loses a user, and a
/// mesh that this frees is queued for destruction.
pub open spec fn after_despawning<S>(
    assets: Seq<Option<MeshAsset>>,
    queued: Seq<RenderCommand<S>>,
    renderers: Map<EntityId, MeshRenderer>,
    live: Seq<EntityId>,
    t: Seq<EntityId>,
) -> (Seq<Option<MeshAsset>>, Seq<RenderCommand<S>>)
    decreases t.len(),
{
    if t.len() == 0 {
        (assets, queued)
    } else {
        let prev = after_despawning(assets, queued, renderers, live, t.drop_last());
        let e = t.last();
        if live.contains(e) {
            let asset = renderer_asset(renderers, e);
            (assets_after_optional_release(prev.0, asset), queue_after_release(prev.1, prev.0, asset))
        } else {
            prev
        }
    }
}

/// The elements of `t` that are in `live`, as a set.
pub open spec fn present_in(t: Seq<EntityId>, live: Seq<EntityId>) -> Set<EntityId> {
    Set::new(|x: EntityId| t.contains(x) && live.contains(x))
}

/// Filtering by `p` and then by `q` keeps what `r` keeps, when `r` is the
/// conjunction of the two tests.
pub proof fn lemma_filter_twice<A>(s: Seq<A>, p: spec_fn(A) -> bool, q: spec_fn(A) -> bool, r: spec_fn(A) -> bool)
    requires
        forall|x: A| #[trigger] r(x) == (p(x) && q(x)),
    ensures
        s.filter(p).filter(q) == s.filter(r),
    decreases s.len(),
{
    reveal(Seq::filter);
    if s.len() > 0 {
        lemma_filter_twice(s.drop_last(), p, q, r);
        if p(s.last()) {
            assert(s.filter(p) == s.drop_last().filter(p).push(s.last()));
            assert(s.filter(p).drop_last() =~= s.drop_last().filter(p));
        } else {
            assert(s.filter(p) == s.drop_last().filter(p));
        }
        assert(r(s.last()) == (p(s.last()) && q(s.last())));
        assert(s.filter(p).filter(q) =~= s.filter(r));
    }
}

/// A test that every element passes keeps them all.
pub proof fn lemma_filter_keeps_all<A>(s: Seq<A>, p: spec_fn(A) -> bool)
    requires
        forall|i: int| 0 <= i < s.len() ==> p(#[trigger] s[i]),
    ensures
        s.filter(p) == s,
    decreases s.len(),
{
    reveal(Seq::filter);
    if s.len() > 0 {
        assert forall|i: int| 0 <= i < s.drop_last().len() implies p(#[trigger] s.drop_last()[i]) by {
            assert(s.drop_last()[i] == s[i]);
        }
        lemma_filter_keeps_all(s.drop_last(), p);
        assert(p(s[s.len() - 1]));
        assert(s.drop_last().push(s.last()) =~= s);
    }
}

/// Two tests that agree on the elements of `s` keep the same elements.
pub proof fn lemma_filter_agree<A>(s: Seq<A>, p: spec_fn(A) -> bool, q: spec_fn(A) -> bool)
    requires
        forall|i: int| 0 <= i < s.len() ==> p(#[trigger] s[i]) == q(s[i]),
    ensures
        s.filter(p) == s.filter(q),
    decreases s.len(),
{
    reveal(Seq::filter);
    if s.len() > 0 {
        assert forall|i: int| 0 <= i < s.drop_last().len() implies p(#[trigger] s.drop_last()[i]) == q(s.drop_last()[i]) by {
            assert(s.drop_last()[i] == s[i]);
        }
        lemma_filter_agree(s.drop_last(), p, q);
        assert(p(s[s.len() - 1]) == q(s[s.len() - 1]));
    }
}

impl<S> EntityContext<S> {
    /// Creates an entity owned by the scene `scene_id`.
    pub fn spawn_owned(&mut self, scene_id: SceneId) -> (r: EntityId)
        requires
            old(self).wf(),
            old(self).registry().next_id() < usize::MAX,
        ensures
            final(self).wf(),
            r.0 == old(self).registry().next_id(),
            !old(self).registry().live().contains(r),
            final(self).registry().live() == old(self).registry().live().push(r),
            final(self).registry().next_id() == old(self).registry().next_id() + 1,
            final(self).registry().components::<SceneOwned>() == old(self).registry().components::<SceneOwned>().insert(r, SceneOwned { scene_id }),
            final(self).registry().storage() == SceneOwned::with_stored(
                old(self).registry().storage(),
                SceneOwned::stored(final(self).registry().storage()),
            ),
            final(self).resources == old(self).resources,
            final(self).render_commands == old(self).render_commands,
    {
        let entity = self.spawn();
        let added = self.add_component(entity, SceneOwned { scene_id });
        proof {
            assert(self.registry().live().contains(entity)) by {
                assert(self.registry().live().last() == entity);
            }
        }
        entity
    }

    /// Makes `entity` global: it no longer belongs to any scene.
    pub fn delete_scene_owned(&mut self, entity: EntityId)
        requires
            old(self).wf(),
        ensures
            final(self).wf(),
            final(self).registry().components::<SceneOwned>() == old(self).registry().components::<SceneOwned>().remove(entity),
            final(self).registry().storage() == SceneOwned::with_stored(
                old(self).registry().storage(),
                SceneOwned::stored(final(self).registry().storage()),
            ),
            final(self).registry().live() == old(self).registry().live(),
            final(self).resources == old(self).resources,
            final(self).render_commands == old(self).render_commands,
    {
        self.remove_component::<SceneOwned>(entity);
    }

    /// The entities that the scene `scene_id` owns, in the order of the
    /// `SceneOwned` pool.
    pub fn scene_owned_entities(&self, scene_id: SceneId) -> (r: Vec<EntityId>)
        requires
            self.wf(),
        ensures
            r@ == owned_by(self.registry(), scene_id),
    {
        let ghost reg = self.registry();
        let ghost owners = reg.components::<SceneOwned>();
        let ghost f = |e: EntityId| owners.dom().contains(e) && owners[e].scene_id == scene_id;
        let mut r: Vec<EntityId> = Vec::new();
        let pool = match self.get_component_pool::<SceneOwned>() {
            Some(p) => p,
            None => {
                assert(owned_by(reg, scene_id) =~= Seq::<EntityId>::empty()) by {
                    reveal(Seq::filter);
                }
                return r;
            },
        };
        proof {
            SceneOwned::lemma_stored(reg.storage(), SceneOwned::stored(reg.storage()));
        }
        let ents = pool.entities();
        let comps = pool.components();
        let ghost full = pool.dense_entities();
        let mut i: usize = 0;
        while i < ents.len()
            invariant
                pool.wf(),
                owners == pool@,
                f == (|e: EntityId| owners.dom().contains(e) && owners[e].scene_id == scene_id),
                ents@ == full,
                full == pool.dense_entities(),
                comps@ == pool.dense_components(),
                i <= full.len(),
                r@ == full.take(i as int).filter(f),
            decreases full.len() - i,
        {
            let e = ents[i];
            proof {
                assert(full.take(i + 1) == full.take(i as int).push(e));
                full.take(i as int).lemma_filter_push(e, f);
                pool.lemma_has_iff_listed(e);
                assert(full.contains(e)) by {
                    assert(full[i as int] == e);
                }
            }
            if comps[i].scene_id == scene_id {
                r.push(e);
            }
            i = i + 1;
        }
        assert(full.take(full.len() as int) == full);
        r
    }

    /// Despawns every entity that the scene `scene_id` owns, as `despawn`
    /// does, in the order of the `SceneOwned` pool, and tells how many
    /// existed. The other entities stay, in their order, with all their
    /// components.
    pub fn despawn_scene_owned_entities(&mut self, scene_id: SceneId) -> (r: usize)
        requires
            old(self).wf(),
        ensures
            final(self).wf(),
            ({
                let owned = owned_by(old(self).registry(), scene_id);
                let live0 = old(self).registry().live();
                &&& r == owned.filter(|e: EntityId| live0.contains(e)).len()
                &&& final(self).registry().live() == live0.filter(|x: EntityId| !owned.contains(x))
                &&& forall|x: EntityId|
                    final(self).registry().live().contains(x) <==> live0.contains(x) && !owned.contains(x)
                &&& old(self).registry().storage().removed_entities(
                    final(self).registry().storage(),
                    present_in(owned, live0),
                )
                &&& final(self).registry().next_id() == old(self).registry().next_id()
                &&& final(self).resources.same_tables(&old(self).resources)
                &&& (final(self).resources.assets(), final(self).render_commands.queued()) == after_despawning(
                    old(self).resources.assets(),
                    old(self).render_commands.queued(),
                    old(self).registry().components::<MeshRenderer>(),
                    live0,
                    owned,
                )
            }),
    {
        let targets = self.scene_owned_entities(scene_id);
        let ghost t = targets@;
        let ghost reg0 = self.registry();
        let ghost live0 = reg0.live();
        let ghost renderers0 = reg0.components::<MeshRenderer>();
        let ghost assets0 = self.resources.assets();
        let ghost queue0 = self.render_commands.queued();
        let ghost g = |e: EntityId| live0.contains(e);
        proof {
            SceneOwned::lemma_stored(reg0.storage(), SceneOwned::stored(reg0.storage()));
            match SceneOwned::stored(reg0.storage()) {
                Some(p) => {
                    p.lemma_entities_distinct();
                },
                None => {},
            }
            crate::ecs::registry::lemma_filter_distinct(
                reg0.pool_entities::<SceneOwned>(),
                |e: EntityId| reg0.components::<SceneOwned>().dom().contains(e)
                    && reg0.components::<SceneOwned>()[e].scene_id == scene_id,
            );
            reg0.storage().lemma_removed_nothing();
            assert(present_in(t.take(0), live0) =~= Set::<EntityId>::empty());
            assert forall|k: int| 0 <= k < live0.len() implies !t.take(0).contains(#[trigger] live0[k]) by {}
            lemma_filter_keeps_all(live0, |x: EntityId| !t.take(0).contains(x));
        }
        let mut count: usize = 0;
        let mut i: usize = 0;
        while i < targets.len()
            invariant
                self.wf(),
                targets@ == t,
                t.no_duplicates(),
                g == (|e: EntityId| live0.contains(e)),
                i <= t.len(),
                count == t.take(i as int).filter(g).len(),
                self.registry().live() == live0.filter(|x: EntityId| !t.take(i as int).contains(x)),
                reg0.storage().removed_entities(self.registry().storage(), present_in(t.take(i as int), live0)),
                self.registry().next_id() == reg0.next_id(),
                self.resources.same_tables(&old(self).resources),
                reg0 == old(self).registry(),
                live0 == reg0.live(),
                renderers0 == reg0.components::<MeshRenderer>(),
                assets0 == old(self).resources.assets(),
                queue0 == old(self).render_commands.queued(),
                (self.resources.assets(), self.render_commands.queued()) == after_despawning(
                    assets0,
                    queue0,
                    renderers0,
                    live0,
                    t.take(i as int),
                ),
            decreases t.len() - i,
        {
            let e = targets[i];
            let ghost before = *self;
            let ghost ti = t.take(i as int);
            let ghost ti1 = t.take(i + 1);
            proof {
                assert(ti1 == ti.push(e));
                assert(ti1.drop_last() == ti);
                ti.lemma_filter_push(e, g);
                assert(!ti.contains(e)) by {
                    if ti.contains(e) {
                        let k = choose|k: int| 0 <= k < i && ti[k] == e;
                        assert(t[k] == t[i as int]);
                    }
                }
                broadcast use vstd::seq_lib::group_filter_ensures;
                ti.filter(g).lemma_filter_len(g);
                assert forall|x: EntityId| ti1.contains(x) <==> ti.contains(x) || x == e by {
                    if ti1.contains(x) {
                        let k = choose|k: int| 0 <= k < i + 1 && #[trigger] ti1[k] == x;
                        if k < i {
                            assert(ti[k] == x);
                        }
                    }
                    if ti.contains(x) {
                        let k = choose|k: int| 0 <= k < i && #[trigger] ti[k] == x;
                        assert(ti1[k] == x);
                    }
                    if x == e {
                        assert(ti1[i as int] == x);
                    }
                }
                // The entity still has the mesh renderer it had at the start.
                despawn_all_clears_their_components::<MeshRenderer>(reg0, before.registry(), present_in(ti, live0));
                assert(!present_in(ti, live0).contains(e));
                assert(renderer_asset(before.registry().components::<MeshRenderer>(), e) == renderer_asset(renderers0, e));
                // Whether it exists now is whether it existed at the start.
                assert(before.registry().live().contains(e) == live0.contains(e)) by {
                    let f = |x: EntityId| !ti.contains(x);
                    if live0.contains(e) {
                        assert(f(e));
                    }
                    if before.registry().live().contains(e) {
                        live0.lemma_filter_contains_rev(f, e);
                    }
                }
            }
            let removed = self.despawn(e);
            if removed {
                assert(count < ti.filter(g).len() + 1);
                assert(ti.filter(g).len() <= i);
                count = count + 1;
            }
            proof {
                let f = |x: EntityId| !ti.contains(x);
                let f1 = |x: EntityId| !ti1.contains(x);
                if removed {
                    reg0.storage().lemma_removed_one_more(
                        before.registry().storage(),
                        self.registry().storage(),
                        present_in(ti, live0),
                        e,
                    );
                    assert(present_in(ti, live0).insert(e) =~= present_in(ti1, live0));
                    assert(before.registry().live() == live0.filter(f));
                    assert(self.registry().live() == before.registry().live().filter(|x: EntityId| x != e));
                    assert forall|x: EntityId| #[trigger] f1(x) == (f(x) && x != e) by {}
                    lemma_filter_twice(live0, f, |x: EntityId| x != e, f1);
                } else {
                    assert(present_in(ti, live0) =~= present_in(ti1, live0));
                    assert forall|k: int| 0 <= k < live0.len() implies f(#[trigger] live0[k]) == f1(live0[k]) by {
                        assert(live0.contains(live0[k]));
                    }
                    lemma_filter_agree(live0, f, f1);
                }
            }
            i = i + 1;
        }
        proof {
            assert(t.take(t.len() as int) == t);
            assert(t == owned_by(old(self).registry(), scene_id));
            broadcast use vstd::seq_lib::group_filter_ensures;
            assert forall|x: EntityId| self.registry().live().contains(x) <==> live0.contains(x) && !t.contains(x) by {
                let f = |x: EntityId| !t.contains(x);
                if self.registry().live().contains(x) {
                    live0.lemma_filter_contains_rev(f, x);
                }
            }
        }
        count
    }
}

} // verus!
