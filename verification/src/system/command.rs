use vstd::prelude::*;

use crate::component::material::{Material, ONE_F32_BITS};
use crate::component::mesh_renderer::{MeshRenderer, MeshRendererError};
use crate::component::tags::Tags;
use crate::component::visibility::Visibility;
use crate::ecs::entity::EntityId;
use crate::handles::{default_texture, layout_of_pipeline, PipelineKey, TextureHandle, VertexLayout};
use crate::primitive::PrimitiveType;
use crate::resources::{asset_at, first_mesh, MeshAsset, MeshAssetId, Resources};
use crate::system::entity_api::{renderer_asset, EntityContext};
use crate::system::object_api::{drawing_entity_spawned, model_can_gain_user, spawned_from_asset, tagged, SpawnError};
use crate::system::render_command::{RenderCommand, RenderCommandQueue};

verus! {

/// Why a command failed.
#[derive(Clone, Copy, Debug, PartialEq, Eq, Structural)]
pub enum CommandError {
    /// No model is registered under the name asked for.
    ModelNotFound,
    /// No texture is registered under the name asked for.
    TextureNotFound,
    /// No built-in shape of the type and layout asked for is loaded.
    PrimitiveNotFound,
    /// The object could not be spawned.
    Spawn(SpawnError),
}

/// Work that a key binding triggers, run on a context of type `Ctx`.
pub trait Command<Ctx>: Sized {
    /// The state of the context in which the command can run; running it
    /// leaves the context in such a state again. Any state, unless the
    /// implementation says otherwise.
    open spec fn runnable(context: Ctx) -> bool {
        true
    }

    /// The identifier of the command, where the implementation fixes it.
    /// None fixed, unless the implementation says otherwise.
    open spec fn fixed_id(&self) -> Option<Seq<char>> {
        None
    }

    /// The identifier that tells bindings of the same command apart.
    fn id(&self) -> (r: String)
        ensures
            self.fixed_id() matches Some(text) ==> r@ == text,
    ;

    /// What carrying out `command` does: from the context `context` to
    /// `after_context`, giving back `result`. Any change, unless the
    /// implementation says otherwise.
    open spec fn ran(command: Self, context: Ctx, after_context: Ctx, result: Result<(), CommandError>) -> bool {
        true
    }

    /// Carries the command out.
    fn execute(&self, context: &mut Ctx) -> (r: Result<(), CommandError>)
        requires
            Self::runnable(*old(context)),
        ensures
            Self::runnable(*final(context)),
            Self::ran(*self, *old(context), *final(context), r),
    ;
}

/// Commands `commands` carried out in order through the contexts
/// `contexts`, stopping at command `k`: the commands before `k` each
/// succeeded from one context to the next; if `k` is past the last command
/// all succeeded and the last context is `after_context`, otherwise command
/// `k` failed from its context with `result`, and the rest did not run.
pub open spec fn commands_trace<Ctx, C: Command<Ctx>>(
    commands: Seq<C>,
    contexts: Seq<Ctx>,
    k: int,
    after_context: Ctx,
    result: Result<(), CommandError>,
) -> bool {
    &&& 0 <= k <= commands.len()
    &&& contexts.len() == k + 1
    &&& forall|j: int| 0 <= j < k ==> #[trigger] C::ran(commands[j], contexts[j], contexts[j + 1], Ok(()))
    &&& if k == commands.len() {
        result is Ok && after_context == contexts[k]
    } else {
        result is Err && C::ran(commands[k], contexts[k], after_context, result)
    }
}

/// Carrying out `commands` in order from `context` can end in
/// `after_context` with `result`.
pub open spec fn commands_ran<Ctx, C: Command<Ctx>>(
    commands: Seq<C>,
    context: Ctx,
    after_context: Ctx,
    result: Result<(), CommandError>,
) -> bool {
    exists|contexts: Seq<Ctx>, k: int|
        #![trigger commands_trace(commands, contexts, k, after_context, result)]
        contexts.len() > 0 && contexts[0] == context && commands_trace(commands, contexts, k, after_context, result)
}

/// Runs the queued commands of a frame.
#[derive(Clone, Copy, Debug)]
pub struct CommandSystem;

impl CommandSystem {
    /// Takes every queued command out and runs them in order, stopping at
    /// the first that fails and handing its error back. The queue is empty
    /// afterwards either way, and the context stays runnable.
    pub fn update<Ctx, C: Command<Ctx>>(&self, commands: &mut Vec<C>, context: &mut Ctx) -> (r: Result<(), CommandError>)
        requires
            C::runnable(*old(context)),
        ensures
            final(commands)@.len() == 0,
            C::runnable(*final(context)),
            old(commands)@.len() == 0 ==> r is Ok,
            commands_ran(old(commands)@, *old(context), *final(context), r),
    {
        let mut pending: Vec<C> = Vec::new();
        core::mem::swap(&mut pending, commands);
        let ghost mut contexts: Seq<Ctx> = seq![*context];
        let mut i: usize = 0;
        while i < pending.len()
            invariant
                commands@.len() == 0,
                pending@ == old(commands)@,
                i <= pending@.len(),
                C::runnable(*context),
                contexts.len() == i + 1,
                contexts[0] == *old(context),
                contexts[i as int] == *context,
                forall|j: int| 0 <= j < i ==> #[trigger] C::ran(pending@[j], contexts[j], contexts[j + 1], Ok(())),
            decreases pending@.len() - i,
        {
            let ghost before = *context;
            let result = pending[i].execute(context);
            match result {
                Ok(done) => {
                    proof {
                        assert(done == ());
                        let prev = contexts;
                        contexts = contexts.push(*context);
                        assert forall|j: int| 0 <= j < i + 1 implies #[trigger] C::ran(
                            pending@[j],
                            contexts[j],
                            contexts[j + 1],
                            Ok(()),
                        ) by {
                            if j < i {
                                assert(contexts[j] == prev[j] && contexts[j + 1] == prev[j + 1]);
                            } else {
                                assert(contexts[j] == before);
                            }
                        }
                    }
                },
                Err(e) => {
                    proof {
                        assert(commands_trace(pending@, contexts, i as int, *context, Err::<(), CommandError>(e)));
                    }
                    return Err(e);
                },
            }
            i = i + 1;
        }
        proof {
            assert(commands_trace(pending@, contexts, i as int, *context, Ok::<(), CommandError>(())));
        }
        Ok(())
    }
}

/// `after` is `before` with the most recently created entity despawned as
/// `despawn` does; nothing changes when there is no entity.
pub open spec fn despawned_last<S>(before: EntityContext<S>, after: EntityContext<S>) -> bool {
    &&& before.registry().live().len() == 0 ==> after == before
    &&& before.registry().live().len() > 0 ==> {
        let entity = before.registry().live().last();
        let asset = renderer_asset(before.registry().components::<MeshRenderer>(), entity);
        &&& after.registry().live() == before.registry().live().filter(|x: EntityId| x != entity)
        &&& before.registry().storage().removed_entity(after.registry().storage(), entity)
        &&& after.resources.assets() == crate::system::entity_api::assets_after_optional_release(
            before.resources.assets(),
            asset,
        )
        &&& after.render_commands.queued() == crate::system::entity_api::queue_after_release(
            before.render_commands.queued(),
            before.resources.assets(),
            asset,
        )
    }
}

/// Despawns the most recently created entity.
#[derive(Clone, Copy, Debug)]
pub struct DespawnLastCommand;

impl<S> Command<EntityContext<S>> for DespawnLastCommand {
    open spec fn runnable(context: EntityContext<S>) -> bool {
        context.wf()
    }

    open spec fn fixed_id(&self) -> Option<Seq<char>> {
        Some("despawn_last"@)
    }

    fn id(&self) -> String {
        proof {
            reveal_strlit("despawn_last");
        }
        "despawn_last".to_owned()
    }

    open spec fn ran(
        command: Self,
        context: EntityContext<S>,
        after_context: EntityContext<S>,
        result: Result<(), CommandError>,
    ) -> bool {
        result is Ok && despawned_last(context, after_context)
    }

    fn execute(&self, context: &mut EntityContext<S>) -> (r: Result<(), CommandError>)
        ensures
            r is Ok,
            despawned_last(*old(context), *final(context)),
    {
        context.despawn_last();
        Ok(())
    }
}

/// Reports the mesh assets that are loaded.
#[derive(Clone, Copy, Debug)]
pub struct DebugMonitor;

impl DebugMonitor {
    /// The identifier of the command.
    pub fn id(&self) -> (r: String)
        ensures
            r@ == "debug_monitor"@,
    {
        "debug_monitor".to_owned()
    }

    /// The loaded mesh assets to report, in slot order.
    pub fn monitored_mesh_assets<'a>(&self, resources: &'a Resources) -> (r: Vec<(MeshAssetId, &'a MeshAsset)>)
        ensures
            r@.len() == resources.assets().filter(|a: Option<MeshAsset>| a is Some).len(),
            forall|k: int| 0 <= k < r@.len() ==> {
                &&& (#[trigger] r@[k]).0.0 < resources.assets().len()
                &&& resources.assets()[r@[k].0.0 as int] == Some(*r@[k].1)
                &&& Some(*r@[k].1) == resources.assets().filter(|a: Option<MeshAsset>| a is Some)[k]
            },
            forall|k: int, l: int| 0 <= k < l < r@.len() ==> r@[k].0.0 < r@[l].0.0,
    {
        resources.mesh_assets()
    }
}

/// Rebuilds the demo primitive meshes: the plain polygon, the lit sphere and
/// the interface rectangle.
#[derive(Clone, Copy, Debug)]
pub struct UpdatePrimitiveMeshesCommand;

/// The asset of the first built-in shape of the given type and layout.
pub open spec fn primitive_asset(resources: Resources, t: PrimitiveType, l: VertexLayout) -> Option<MeshAssetId> {
    match first_mesh(resources.primitives(), Some(t), Some(l), None) {
        Some(m) => Some(m.asset_id),
        None => None,
    }
}

impl UpdatePrimitiveMeshesCommand {
    /// The identifier of the command.
    pub fn id(&self) -> (r: String)
        ensures
            r@ == "update_primitive_meshes"@,
    {
        "update_primitive_meshes".to_owned()
    }

    /// Queues the rebuilding of the polygon (plain mesh layout), the sphere
    /// (lit layout) and the rectangle (interface layout) from the given
    /// shapes, in that order. Stops at the first shape whose mesh is not
    /// loaded; the updates queued before it stay queued.
    pub fn queue_updates<S>(
        &self,
        resources: &Resources,
        render_commands: &mut RenderCommandQueue<S>,
        polygon: S,
        sphere: S,
        rectangle: S,
    ) -> (r: Result<(), CommandError>)
        ensures
            ({
                let old_q = old(render_commands).queued();
                let p = primitive_asset(*resources, PrimitiveType::Polygon, VertexLayout::Mesh3D);
                let s = primitive_asset(*resources, PrimitiveType::Sphere, VertexLayout::Lit3D);
                let q = primitive_asset(*resources, PrimitiveType::Rectangle, VertexLayout::Ui2D);
                if p is None {
                    r == Err::<(), CommandError>(CommandError::PrimitiveNotFound)
                        && final(render_commands).queued() == old_q
                } else if s is None {
                    r == Err::<(), CommandError>(CommandError::PrimitiveNotFound)
                        && final(render_commands).queued() == old_q.push(
                        RenderCommand::UpdatePrimitiveMesh { asset_id: p.unwrap(), shape: polygon },
                    )
                } else if q is None {
                    r == Err::<(), CommandError>(CommandError::PrimitiveNotFound)
                        && final(render_commands).queued() == old_q.push(
                        RenderCommand::UpdatePrimitiveMesh { asset_id: p.unwrap(), shape: polygon },
                    ).push(RenderCommand::UpdatePrimitiveMesh { asset_id: s.unwrap(), shape: sphere })
                } else {
                    r == Ok::<(), CommandError>(())
                        && final(render_commands).queued() == old_q.push(
                        RenderCommand::UpdatePrimitiveMesh { asset_id: p.unwrap(), shape: polygon },
                    ).push(RenderCommand::UpdatePrimitiveMesh { asset_id: s.unwrap(), shape: sphere }).push(
                        RenderCommand::UpdatePrimitiveMesh { asset_id: q.unwrap(), shape: rectangle },
                    )
                }
            }),
    {
        let polygon_mesh3d = match resources.primitive_asset_id(PrimitiveType::Polygon, VertexLayout::Mesh3D) {
            Some(id) => id,
            None => return Err(CommandError::PrimitiveNotFound),
        };
        render_commands.update_primitive_mesh(polygon_mesh3d, polygon);
        let sphere_lit3d = match resources.primitive_asset_id(PrimitiveType::Sphere, VertexLayout::Lit3D) {
            Some(id) => id,
            None => return Err(CommandError::PrimitiveNotFound),
        };
        render_commands.update_primitive_mesh(sphere_lit3d, sphere);
        let rectangle_ui2d = match resources.primitive_asset_id(PrimitiveType::Rectangle, VertexLayout::Ui2D) {
            Some(id) => id,
            None => return Err(CommandError::PrimitiveNotFound),
        };
        render_commands.update_primitive_mesh(rectangle_ui2d, rectangle);
        Ok(())
    }
}

/// The bit pattern of the single-precision number 0.5.
pub const HALF_F32_BITS: u32 = 0x3f00_0000;

/// The viking room variants, in spawning order: the model, its pipeline and
/// the alpha (as a bit pattern) it is drawn with.
pub open spec fn viking_variant(index: int) -> Option<(Seq<char>, PipelineKey, u32)> {
    if index == 0 {
        Some(("viking_room"@, PipelineKey::Mesh3D, ONE_F32_BITS))
    } else if index == 1 {
        Some(("viking_room_debug_line"@, PipelineKey::DebugLine3D, ONE_F32_BITS))
    } else if index == 2 {
        Some(("viking_room"@, PipelineKey::Transparent3D, HALF_F32_BITS))
    } else if index == 3 {
        Some(("viking_room_lit3d"@, PipelineKey::Lit3D, ONE_F32_BITS))
    } else {
        None
    }
}

/// The viking room variant to spawn next, when `index` rooms exist already.
pub fn viking_room_variant(index: usize) -> (r: Option<(&'static str, PipelineKey, u32)>)
    ensures
        match viking_variant(index as int) {
            Some(v) => r is Some && r.unwrap().0@ == v.0 && r.unwrap().1 == v.1 && r.unwrap().2 == v.2,
            None => r is None,
        },
{
    proof {
        reveal_strlit("viking_room");
        reveal_strlit("viking_room_debug_line");
        reveal_strlit("viking_room_lit3d");
    }
    if index == 0 {
        Some(("viking_room", PipelineKey::Mesh3D, ONE_F32_BITS))
    } else if index == 1 {
        Some(("viking_room_debug_line", PipelineKey::DebugLine3D, ONE_F32_BITS))
    } else if index == 2 {
        Some(("viking_room", PipelineKey::Transparent3D, HALF_F32_BITS))
    } else if index == 3 {
        Some(("viking_room_lit3d", PipelineKey::Lit3D, ONE_F32_BITS))
    } else {
        None
    }
}

/// The entity draws one of the `meshes` assets.
pub open spec fn draws_one_of(renderers: Map<EntityId, MeshRenderer>, e: EntityId, meshes: Seq<MeshAssetId>) -> bool {
    renderer_asset(renderers, e) matches Some(a) && meshes.contains(a)
}


/// The mesh assets of the three viking room models, in the order
/// plain, debug line, lit.
pub open spec fn viking_meshes(resources: Resources) -> Seq<MeshAssetId> {
    seq![
        resources.models()["viking_room"@],
        resources.models()["viking_room_debug_line"@],
        resources.models()["viking_room_lit3d"@],
    ]
}

/// The material a viking room variant is drawn with: opaque or
/// translucent white, textured with `texture`.
pub open spec fn viking_material(texture: TextureHandle, pipeline_key: PipelineKey, alpha_bits: u32) -> Material {
    Material {
        red_bits: ONE_F32_BITS,
        green_bits: ONE_F32_BITS,
        blue_bits: ONE_F32_BITS,
        alpha_bits,
        use_texture: true,
        texture,
        pipeline_key,
    }
}

/// Every viking room model can count one more user.
pub open spec fn viking_models_can_gain_user(resources: Resources) -> bool {
    &&& model_can_gain_user(resources, "viking_room"@)
    &&& model_can_gain_user(resources, "viking_room_debug_line"@)
    &&& model_can_gain_user(resources, "viking_room_lit3d"@)
}

/// The number of existing entities that draw one of the viking room
/// models, which is the index of the variant to spawn next.
pub open spec fn viking_count<S>(context: EntityContext<S>) -> nat {
    context.registry().live().filter(
        |e: EntityId| draws_one_of(context.registry().components::<MeshRenderer>(), e, viking_meshes(context.resources)),
    ).len()
}

/// The result of a command that spawns an entity, read as the result of the
/// spawn itself.
pub open spec fn as_spawn_result(r: Result<EntityId, CommandError>) -> Result<EntityId, SpawnError> {
    match r {
        Ok(e) => Ok(e),
        Err(CommandError::Spawn(e)) => Err(e),
        Err(_) => Err(SpawnError::ModelNotFound),
    }
}

/// The material a spawned built-in shape is drawn with: opaque white,
/// textured when a texture name was given.
pub open spec fn shape_material(textured: bool, texture: TextureHandle, pipeline_key: PipelineKey) -> Material {
    Material {
        red_bits: ONE_F32_BITS,
        green_bits: ONE_F32_BITS,
        blue_bits: ONE_F32_BITS,
        alpha_bits: ONE_F32_BITS,
        use_texture: textured,
        texture,
        pipeline_key,
    }
}

impl<S> EntityContext<S> {
    /// The number of existing entities whose mesh renderer draws one of
    /// `meshes`.
    pub fn count_drawing(&self, meshes: &[MeshAssetId]) -> (r: usize)
        requires
            self.wf(),
        ensures
            r == self.registry().live().filter(
                |e: EntityId| draws_one_of(self.registry().components::<MeshRenderer>(), e, meshes@),
            ).len(),
    {
        let ghost renderers = self.registry().components::<MeshRenderer>();
        let ghost f = |e: EntityId| draws_one_of(renderers, e, meshes@);
        let entities = self.entities();
        let mut count: usize = 0;
        let mut i: usize = 0;
        while i < entities.len()
            invariant
                self.wf(),
                entities@ == self.registry().live(),
                renderers == self.registry().components::<MeshRenderer>(),
                f == (|e: EntityId| draws_one_of(renderers, e, meshes@)),
                i <= entities@.len(),
                count == entities@.take(i as int).filter(f).len(),
            decreases entities@.len() - i,
        {
            let e = entities[i];
            proof {
                assert(entities@.take(i + 1) == entities@.take(i as int).push(e));
                entities@.take(i as int).lemma_filter_push(e, f);
                broadcast use vstd::seq_lib::group_filter_ensures;
                entities@.take(i as int).filter(f).lemma_filter_len(f);
            }
            let asset = self.mesh_asset_id(e);
            let mut hit = false;
            if let Some(a) = asset {
                let mut j: usize = 0;
                while j < meshes.len()
                    invariant
                        j <= meshes@.len(),
                        hit == meshes@.take(j as int).contains(a),
                    decreases meshes@.len() - j,
                {
                    proof {
                        assert(meshes@.take(j + 1) == meshes@.take(j as int).push(meshes@[j as int]));
                        assert forall|x: MeshAssetId| meshes@.take(j + 1).contains(x) <==> meshes@.take(j as int).contains(x) || x == meshes@[j as int] by {
                            if meshes@.take(j + 1).contains(x) {
                                let k = choose|k: int| 0 <= k < j + 1 && #[trigger] meshes@.take(j + 1)[k] == x;
                                if k < j {
                                    assert(meshes@.take(j as int)[k] == x);
                                }
                            }
                            if meshes@.take(j as int).contains(x) {
                                let k = choose|k: int| 0 <= k < j && #[trigger] meshes@.take(j as int)[k] == x;
                                assert(meshes@.take(j + 1)[k] == x);
                            }
                            if x == meshes@[j as int] {
                                assert(meshes@.take(j + 1)[j as int] == x);
                            }
                        }
                    }
                    if meshes[j] == a {
                        hit = true;
                    }
                    j = j + 1;
                }
                assert(meshes@.take(meshes@.len() as int) == meshes@);
            }
            if hit {
                assert(count < i + 1);
                count = count + 1;
            }
            i = i + 1;
        }
        assert(entities@.take(entities@.len() as int) == entities@);
        count
    }

    /// The asset of the model named `name`; refused for an unknown name.
    pub fn model_asset(&self, name: &str) -> (r: Result<MeshAssetId, CommandError>)
        requires
            self.wf(),
        ensures
            self.resources.models().dom().contains(name@) ==> r == Ok::<MeshAssetId, CommandError>(
                self.resources.models()[name@],
            ),
            !self.resources.models().dom().contains(name@) ==> r == Err::<MeshAssetId, CommandError>(
                CommandError::ModelNotFound,
            ),
    {
        match self.resources.model_asset_id(name) {
            Some(id) => Ok(id),
            None => Err(CommandError::ModelNotFound),
        }
    }

    /// The texture named `name`; refused for an unknown name.
    pub fn texture(&self, name: &str) -> (r: Result<TextureHandle, CommandError>)
        requires
            self.wf(),
        ensures
            self.resources.textures().dom().contains(name@) ==> r == Ok::<TextureHandle, CommandError>(
                self.resources.textures()[name@],
            ),
            !self.resources.textures().dom().contains(name@) ==> r == Err::<TextureHandle, CommandError>(
                CommandError::TextureNotFound,
            ),
    {
        match self.resources.get_texture_handle(name) {
            Some(h) => Ok(h),
            None => Err(CommandError::TextureNotFound),
        }
    }

    /// A material of the given colour and alpha (bit patterns) for
    /// `pipeline_key`: textured with the texture named `texture` when one is
    /// given (refused when it is unknown), untextured with the default
    /// texture otherwise.
    pub fn primitive_material(
        &self,
        red_bits: u32,
        green_bits: u32,
        blue_bits: u32,
        alpha_bits: u32,
        texture: Option<&str>,
        pipeline_key: PipelineKey,
    ) -> (r: Result<Material, CommandError>)
        requires
            self.wf(),
        ensures
            match texture {
                Some(name) => if self.resources.textures().dom().contains(name@) {
                    r == Ok::<Material, CommandError>(Material {
                        red_bits,
                        green_bits,
                        blue_bits,
                        alpha_bits,
                        use_texture: true,
                        texture: self.resources.textures()[name@],
                        pipeline_key,
                    })
                } else {
                    r == Err::<Material, CommandError>(CommandError::TextureNotFound)
                },
                None => r == Ok::<Material, CommandError>(Material {
                    red_bits,
                    green_bits,
                    blue_bits,
                    alpha_bits,
                    use_texture: false,
                    texture: TextureHandle(0),
                    pipeline_key,
                }),
            },
    {
        let use_texture = texture.is_some();
        let handle = match texture {
            Some(name) => match self.texture(name) {
                Ok(h) => h,
                Err(e) => return Err(e),
            },
            None => default_texture(),
        };
        Ok(Material { red_bits, green_bits, blue_bits, alpha_bits, use_texture, texture: handle, pipeline_key })
    }

    /// Spawns an entity whose primitive mesh the renderer creates later: it
    /// is visible, and the creation is queued. The caller attaches the
    /// transform and the pending mesh description.
    pub fn enqueue_spawn_shape(&mut self) -> (r: EntityId)
        requires
            old(self).wf(),
            old(self).registry().next_id() < usize::MAX,
        ensures
            final(self).wf(),
            r.0 == old(self).registry().next_id(),
            final(self).registry().live() == old(self).registry().live().push(r),
            final(self).registry().components::<crate::component::visibility::Visibility>() == old(self).registry().components::<crate::component::visibility::Visibility>().insert(
                r,
                crate::component::visibility::Visibility { is_visible: true },
            ),
            final(self).render_commands.queued() == old(self).render_commands.queued().push(
                RenderCommand::CreatePrimitiveMesh { entity: r },
            ),
            final(self).resources == old(self).resources,
    {
        let entity = self.spawn();
        proof {
            assert(self.registry().live().contains(entity)) by {
                assert(self.registry().live().last() == entity);
            }
        }
        self.add_component(entity, crate::component::visibility::Visibility::default());
        self.render_commands.create_primitive_mesh(entity);
        entity
    }

    /// Spawns the next viking room: the variant whose index is the number of
    /// entities that already draw a viking room model, if that many
    /// positions are given and such a variant exists. Refused when one of
    /// the three models or the texture is not loaded, and when spawning the
    /// model fails. The spawned room is tagged "Model", "VikingRoom" and its
    /// model name; the result names it and its index, for the caller to
    /// place it at that position and set it turning.
    pub fn spawn_viking_room(&mut self, position_count: usize) -> (r: Result<Option<(EntityId, usize)>, CommandError>)
        requires
            old(self).wf(),
            old(self).registry().next_id() < usize::MAX,
            viking_models_can_gain_user(old(self).resources),
        ensures
            final(self).wf(),
            final(self).render_commands == old(self).render_commands,
            ({
                let models = old(self).resources.models();
                let textures = old(self).resources.textures();
                let assets = old(self).resources.assets();
                if !models.dom().contains("viking_room"@) || !models.dom().contains("viking_room_debug_line"@)
                    || !models.dom().contains("viking_room_lit3d"@) {
                    r == Err::<Option<(EntityId, usize)>, CommandError>(CommandError::ModelNotFound)
                        && *final(self) == *old(self)
                } else if !textures.dom().contains("viking_room"@) {
                    r == Err::<Option<(EntityId, usize)>, CommandError>(CommandError::TextureNotFound)
                        && *final(self) == *old(self)
                } else {
                    let index = viking_count(*old(self));
                    if index >= position_count || viking_variant(index as int) is None {
                        r == Ok::<Option<(EntityId, usize)>, CommandError>(None) && *final(self) == *old(self)
                    } else {
                        let v = viking_variant(index as int).unwrap();
                        let id = models[v.0];
                        let material = viking_material(textures["viking_room"@], v.1, v.2);
                        match asset_at(assets, id) {
                            None => r == Err::<Option<(EntityId, usize)>, CommandError>(
                                CommandError::Spawn(SpawnError::MeshAssetNotFound),
                            ) && final(self).resources == old(self).resources
                                && final(self).registry() == old(self).registry(),
                            Some(a) => if layout_of_pipeline(v.1) != a.handle.vertex_layout {
                                &&& r == Err::<Option<(EntityId, usize)>, CommandError>(
                                    CommandError::Spawn(SpawnError::Renderer(MeshRendererError::LayoutMismatch)),
                                )
                                &&& final(self).resources.assets() == crate::resources::assets_after_release(
                                    crate::resources::assets_after_retain(assets, id),
                                    id,
                                )
                                &&& final(self).registry() == old(self).registry()
                            } else {
                                &&& r is Ok
                                &&& r.unwrap() is Some
                                &&& r.unwrap().unwrap().1 == index
                                &&& drawing_entity_spawned(*old(self), *final(self), r.unwrap().unwrap().0, a.handle, id, material)
                                &&& tagged(*old(self), *final(self), r.unwrap().unwrap().0, seq!["Model"@, "VikingRoom"@, v.0])
                            },
                        }
                    }
                }
            }),
    {
        let mesh3d = match self.model_asset("viking_room") {
            Ok(id) => id,
            Err(e) => return Err(e),
        };
        let debug_line = match self.model_asset("viking_room_debug_line") {
            Ok(id) => id,
            Err(e) => return Err(e),
        };
        let lit3d = match self.model_asset("viking_room_lit3d") {
            Ok(id) => id,
            Err(e) => return Err(e),
        };
        let texture = match self.texture("viking_room") {
            Ok(h) => h,
            Err(e) => return Err(e),
        };
        let meshes = vec![mesh3d, debug_line, lit3d];
        proof {
            assert(meshes@ =~= viking_meshes(self.resources));
        }
        let index = self.count_drawing(meshes.as_slice());
        if index >= position_count {
            return Ok(None);
        }
        let (name, pipeline_key, alpha_bits) = match viking_room_variant(index) {
            Some(v) => v,
            None => return Ok(None),
        };
        proof {
            reveal_strlit("viking_room");
            reveal_strlit("viking_room_debug_line");
            reveal_strlit("viking_room_lit3d");
        }
        let material = Material {
            red_bits: ONE_F32_BITS,
            green_bits: ONE_F32_BITS,
            blue_bits: ONE_F32_BITS,
            alpha_bits,
            use_texture: true,
            texture,
            pipeline_key,
        };
        let entity = match self.spawn_model(name, material) {
            Ok(e) => e,
            Err(e) => return Err(CommandError::Spawn(e)),
        };
        let tags = Tags::new(["Model", "VikingRoom", name]);
        proof {
            reveal_strlit("Model");
            reveal_strlit("VikingRoom");
            assert(tags.texts() =~= seq!["Model"@, "VikingRoom"@, name@]);
            assert(self.registry().live().contains(entity)) by {
                assert(self.registry().live().last() == entity);
            }
        }
        self.set_tags(entity, tags);
        proof {
            assert(self.registry().components::<Tags>() =~= old(self).registry().components::<Tags>().insert(
                entity,
                self.registry().components::<Tags>()[entity],
            ));
        }
        Ok(Some((entity, index)))
    }


    /// Spawns an entity that draws the first built-in shape of
    /// `primitive_type` in the layout that `pipeline_key` draws, opaque
    /// white and textured with the texture named `texture_name` when one is
    /// given. Refused for an unknown texture name and when no such shape is
    /// loaded, with no change, and as spawning from its asset refuses. The
    /// caller places the entity.
    pub fn spawn_primitive(
        &mut self,
        primitive_type: PrimitiveType,
        pipeline_key: PipelineKey,
        texture_name: Option<&str>,
    ) -> (r: Result<EntityId, CommandError>)
        requires
            old(self).wf(),
            old(self).registry().next_id() < usize::MAX,
            primitive_asset(old(self).resources, primitive_type, layout_of_pipeline(pipeline_key)) matches Some(id)
                ==> (asset_at(old(self).resources.assets(), id) matches Some(a) ==> a.ref_count < usize::MAX),
        ensures
            final(self).wf(),
            final(self).render_commands == old(self).render_commands,
            ({
                let textures = old(self).resources.textures();
                let unknown_texture = texture_name matches Some(n) && !textures.dom().contains(n@);
                let texture = match texture_name {
                    Some(n) => textures[n@],
                    None => TextureHandle(0),
                };
                if unknown_texture {
                    r == Err::<EntityId, CommandError>(CommandError::TextureNotFound) && *final(self) == *old(self)
                } else {
                    match primitive_asset(old(self).resources, primitive_type, layout_of_pipeline(pipeline_key)) {
                        None => r == Err::<EntityId, CommandError>(CommandError::PrimitiveNotFound)
                            && *final(self) == *old(self),
                        Some(id) => spawned_from_asset(
                            *old(self),
                            *final(self),
                            id,
                            shape_material(texture_name is Some, texture, pipeline_key),
                            as_spawn_result(r),
                        ) && final(self).registry().components::<Tags>() == old(self).registry().components::<Tags>(),
                    }
                }
            }),
    {
        let texture = match texture_name {
            Some(name) => match self.texture(name) {
                Ok(h) => h,
                Err(e) => return Err(e),
            },
            None => default_texture(),
        };
        let asset_id = match self.resources.primitive_asset_id(primitive_type, pipeline_key.required_vertex_layout()) {
            Some(id) => id,
            None => return Err(CommandError::PrimitiveNotFound),
        };
        let material = Material {
            red_bits: ONE_F32_BITS,
            green_bits: ONE_F32_BITS,
            blue_bits: ONE_F32_BITS,
            alpha_bits: ONE_F32_BITS,
            use_texture: texture_name.is_some(),
            texture,
            pipeline_key,
        };
        match self.spawn_from_asset(asset_id, material) {
            Ok(e) => Ok(e),
            Err(e) => Err(CommandError::Spawn(e)),
        }
    }

}

} // verus!
