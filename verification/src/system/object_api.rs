use vstd::prelude::*;

use crate::component::material::Material;
use crate::component::mesh_renderer::{MeshRenderer, MeshRendererError};
use crate::component::tags::Tags;
use crate::component::visibility::Visibility;
use crate::ecs::entity::EntityId;
use crate::component::name::Name;
use crate::component::scene_owned::SceneOwned;
use crate::ecs::registry::{lemma_other_pool_kept, Component};
use crate::handles::layout_of_pipeline;
use crate::resources::{asset_at, assets_after_release, assets_after_retain, retain_then_release_restores, MeshAssetId};
use crate::system::entity_api::{assets_after_optional_release, renderer_asset};
use crate::system::entity_api::EntityContext;

verus! {

/// Why an object could not be spawned.
#[derive(Clone, Copy, Debug, PartialEq, Eq, Structural)]
pub enum SpawnError {
    /// No model is registered under the name.
    ModelNotFound,
    /// The model's asset slot is empty.
    MeshAssetNotFound,
    /// The material cannot draw the model's mesh.
    Renderer(MeshRendererError),
}

/// The asset of the model `name`, if the model and its asset exist, can
/// count one more user.
pub open spec fn model_can_gain_user(resources: crate::resources::Resources, name: Seq<char>) -> bool {
    resources.models().dom().contains(name) ==> (asset_at(resources.assets(), resources.models()[name]) matches Some(
        a,
    ) ==> a.ref_count < usize::MAX)
}

/// `after` is `before` with the new entity `e` drawing `mesh` of the asset
/// `id` with `material`: the asset gained a user, and `e` holds that mesh
/// renderer and visibility, while no other entity's components changed.
/// The tags are left to the caller.
pub open spec fn drawing_entity_spawned<S>(
    before: EntityContext<S>,
    after: EntityContext<S>,
    e: EntityId,
    mesh: crate::handles::MeshHandle,
    id: MeshAssetId,
    material: Material,
) -> bool {
    let b = before.registry();
    let a = after.registry();
    &&& e.0 == b.next_id()
    &&& a.next_id() == b.next_id() + 1
    &&& a.live() == b.live().push(e)
    &&& after.resources.assets() == assets_after_retain(before.resources.assets(), id)
    &&& a.components::<MeshRenderer>() == b.components::<MeshRenderer>().insert(
        e,
        MeshRenderer { mesh, asset_id: Some(id), material },
    )
    &&& a.components::<Visibility>() == b.components::<Visibility>().insert(e, Visibility { is_visible: true })
    &&& a.components::<Name>() == b.components::<Name>()
    &&& a.components::<SceneOwned>() == b.components::<SceneOwned>()
}

/// `after` gave `e` tags whose labels are `texts`, and changed no other
/// entity's tags.
pub open spec fn tagged<S>(before: EntityContext<S>, after: EntityContext<S>, e: EntityId, texts: Seq<Seq<char>>) -> bool {
    let tags = after.registry().components::<Tags>();
    &&& tags.dom().contains(e)
    &&& tags == before.registry().components::<Tags>().insert(e, tags[e])
    &&& tags[e].texts() == texts
}

/// The outcome of spawning an entity that draws the asset `id` with
/// `material`, with `r` the result: refused for an empty asset slot, with
/// no change, and when the material cannot draw the mesh, with the asset's
/// user given back; otherwise the entity was spawned drawing the mesh.
pub open spec fn spawned_from_asset<S>(
    before: EntityContext<S>,
    after: EntityContext<S>,
    id: MeshAssetId,
    material: Material,
    r: Result<EntityId, SpawnError>,
) -> bool {
    let assets = before.resources.assets();
    match asset_at(assets, id) {
        None => r == Err::<EntityId, SpawnError>(SpawnError::MeshAssetNotFound)
            && after.resources == before.resources
            && after.registry() == before.registry(),
        Some(a) => if layout_of_pipeline(material.pipeline_key) != a.handle.vertex_layout {
            &&& r == Err::<EntityId, SpawnError>(SpawnError::Renderer(MeshRendererError::LayoutMismatch))
            &&& after.resources.assets() == assets_after_release(assets_after_retain(assets, id), id)
            &&& after.registry() == before.registry()
        } else {
            r is Ok && drawing_entity_spawned(before, after, r.unwrap(), a.handle, id, material)
        },
    }
}

impl<S> EntityContext<S> {
    /// Spawns an entity that draws the mesh asset `id` with `material`: the
    /// asset gains a user, and the entity gets a mesh renderer tied to that
    /// asset and visibility. Refused for an empty asset slot, with no
    /// change; refused when the material cannot draw the mesh, with the
    /// asset's user given back.
    pub fn spawn_from_asset(&mut self, id: MeshAssetId, material: Material) -> (r: Result<EntityId, SpawnError>)
        requires
            old(self).wf(),
            old(self).registry().next_id() < usize::MAX,
            asset_at(old(self).resources.assets(), id) matches Some(a) ==> a.ref_count < usize::MAX,
        ensures
            final(self).wf(),
            final(self).resources.same_tables(&old(self).resources),
            final(self).render_commands == old(self).render_commands,
            spawned_from_asset(*old(self), *final(self), id, material, r),
            final(self).registry().components::<Tags>() == old(self).registry().components::<Tags>(),
    {
        let mesh = match self.resources.retain_mesh(id) {
            Some(mesh) => mesh,
            None => return Err(SpawnError::MeshAssetNotFound),
        };
        let mesh_renderer = match MeshRenderer::new(mesh, material) {
            Ok(mesh_renderer) => mesh_renderer.with_asset_id(id),
            Err(error) => {
                self.resources.release_mesh(id);
                return Err(SpawnError::Renderer(error));
            },
        };
        let entity = self.spawn();
        proof {
            assert(self.registry().live().contains(entity)) by {
                assert(self.registry().live().last() == entity);
            }
        }
        let ghost st0 = self.registry().storage();
        self.add_component(entity, mesh_renderer);
        let ghost st1 = self.registry().storage();
        self.add_component(entity, Visibility::default());
        let ghost st2 = self.registry().storage();
        proof {
            lemma_other_pool_kept::<MeshRenderer, Visibility>(st0, st1);
            lemma_other_pool_kept::<MeshRenderer, Tags>(st0, st1);
            lemma_other_pool_kept::<MeshRenderer, Name>(st0, st1);
            lemma_other_pool_kept::<MeshRenderer, SceneOwned>(st0, st1);
            lemma_other_pool_kept::<Visibility, MeshRenderer>(st1, st2);
            lemma_other_pool_kept::<Visibility, Tags>(st1, st2);
            lemma_other_pool_kept::<Visibility, Name>(st1, st2);
            lemma_other_pool_kept::<Visibility, SceneOwned>(st1, st2);
        }
        Ok(entity)
    }

    /// Gives the existing entity `entity` tags whose labels are `texts`,
    /// replacing the tags it had, and changes no other component.
    pub fn set_tags(&mut self, entity: EntityId, tags: Tags) -> (r: bool)
        requires
            old(self).wf(),
        ensures
            final(self).wf(),
            r == old(self).registry().live().contains(entity),
            !r ==> *final(self) == *old(self),
            r ==> tagged(*old(self), *final(self), entity, tags.texts()),
            r ==> final(self).registry().components::<MeshRenderer>() == old(self).registry().components::<MeshRenderer>(),
            r ==> final(self).registry().components::<Visibility>() == old(self).registry().components::<Visibility>(),
            r ==> final(self).registry().components::<Name>() == old(self).registry().components::<Name>(),
            r ==> final(self).registry().components::<SceneOwned>() == old(self).registry().components::<SceneOwned>(),
            final(self).registry().live() == old(self).registry().live(),
            final(self).registry().next_id() == old(self).registry().next_id(),
            final(self).resources == old(self).resources,
            final(self).render_commands == old(self).render_commands,
    {
        let ghost st0 = self.registry().storage();
        let r = self.add_component(entity, tags);
        let ghost st1 = self.registry().storage();
        proof {
            if r {
                lemma_other_pool_kept::<Tags, MeshRenderer>(st0, st1);
                lemma_other_pool_kept::<Tags, Visibility>(st0, st1);
                lemma_other_pool_kept::<Tags, Name>(st0, st1);
                lemma_other_pool_kept::<Tags, SceneOwned>(st0, st1);
            }
        }
        r
    }

    /// Spawns an entity that draws the model `model_name` with `material`:
    /// the model's asset gains a user, and the entity gets a mesh renderer
    /// tied to that asset, visibility, and the tags "Model" and the model's
    /// name. Refused for an unknown model, with no change, and as
    /// `spawn_from_asset` refuses.
    pub fn spawn_model(&mut self, model_name: &str, material: Material) -> (r: Result<EntityId, SpawnError>)
        requires
            old(self).wf(),
            old(self).registry().next_id() < usize::MAX,
            model_can_gain_user(old(self).resources, model_name@),
        ensures
            final(self).wf(),
            final(self).resources.same_tables(&old(self).resources),
            final(self).render_commands == old(self).render_commands,
            !old(self).resources.models().dom().contains(model_name@) ==> r == Err::<EntityId, SpawnError>(
                SpawnError::ModelNotFound,
            ) && final(self).resources == old(self).resources && final(self).registry() == old(self).registry(),
            old(self).resources.models().dom().contains(model_name@) ==> {
                &&& spawned_from_asset(*old(self), *final(self), old(self).resources.models()[model_name@], material, r)
                &&& r is Ok ==> tagged(*old(self), *final(self), r.unwrap(), seq!["Model"@, model_name@])
            },
    {
        let asset_id = match self.resources.model_asset_id(model_name) {
            Some(id) => id,
            None => return Err(SpawnError::ModelNotFound),
        };
        let entity = match self.spawn_from_asset(asset_id, material) {
            Ok(e) => e,
            Err(e) => return Err(e),
        };
        let tags = Tags::new(["Model", model_name]);
        proof {
            assert(tags.texts() =~= seq!["Model"@, model_name@]);
            assert(self.registry().live().contains(entity)) by {
                assert(self.registry().live().last() == entity);
            }
        }
        self.set_tags(entity, tags);
        Ok(entity)
    }
}

/// Spawning an entity that draws an asset and despawning it again leaves
/// the asset slots as they were, except that an `auto_release` asset that
/// had no other user is freed.
pub proof fn spawn_then_despawn_restores_assets<S>(
    before: EntityContext<S>,
    spawned: EntityContext<S>,
    after: EntityContext<S>,
    e: EntityId,
    mesh: crate::handles::MeshHandle,
    id: MeshAssetId,
    material: Material,
)
    requires
        asset_at(before.resources.assets(), id) matches Some(a) ==> a.ref_count < usize::MAX,
        drawing_entity_spawned(before, spawned, e, mesh, id, material),
        after.resources.assets() == assets_after_optional_release(
            spawned.resources.assets(),
            renderer_asset(spawned.registry().components::<MeshRenderer>(), e),
        ),
    ensures
        asset_at(before.resources.assets(), id) matches Some(a) && a.ref_count == 0 && a.auto_release
            ==> after.resources.assets() == before.resources.assets().update(id.0 as int, None),
        !(asset_at(before.resources.assets(), id) matches Some(a) && a.ref_count == 0 && a.auto_release)
            ==> after.resources.assets() == before.resources.assets(),
{
    assert(spawned.registry().components::<MeshRenderer>().dom().contains(e));
    retain_then_release_restores(before.resources.assets(), id);
}

} // verus!
