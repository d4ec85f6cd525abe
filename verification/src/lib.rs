//! A small entity-component-system engine core: entities, sparse-set
//! component pools, a registry of typed pools, asset bookkeeping, input
//! state and the scene and command plumbing around them.

pub mod component;
pub mod ecs;
pub mod handles;
pub mod input;
pub mod name_map;
pub mod primitive;
pub mod resources;
pub mod runner;
pub mod scene;
pub mod scene_manager;
pub mod system;
pub mod world;

pub use component::material::Material;
pub use component::mesh_renderer::{MeshRenderer, MeshRendererError};
pub use component::name::Name;
pub use component::scene_owned::{SceneId, SceneOwned};
pub use component::tags::Tags;
pub use component::visibility::Visibility;
pub use ecs::component_pool::{ComponentPool, INVALID};
pub use ecs::entity::EntityId;
pub use ecs::registry::{Component, ComponentPools, Registry};
pub use handles::{MeshHandle, PipelineKey, SkyboxTextureHandle, TextureHandle, VertexLayout};
pub use input::Input;
pub use primitive::PrimitiveType;
pub use resources::{MeshAsset, MeshAssetId, PrimitiveMesh, Resources};
pub use runner::EngineConfig;
pub use scene_manager::{Scene, SceneError, SceneHooks, SceneManager, SceneRunError, SceneSwitch};
pub use system::entity_api::EntityContext;
pub use system::input_system::{InputSystem, InputTrigger, KeyBinding};
pub use system::object_api::SpawnError;
pub use system::render_command::{RenderCommand, RenderCommandQueue};
pub use system::scene_command::{SceneCommand, SceneCommandApi, SceneCommandQueue};
pub use system::camera::{CameraControls, CameraSystem};
pub use system::command::{Command, CommandError, CommandSystem, DebugMonitor, DespawnLastCommand, UpdatePrimitiveMeshesCommand};
pub use system::render_system::{RenderAction, RenderError, RenderSystem};
pub use system::scheduler::{ScheduledUpdateSystem, Scheduler};
pub use world::World;
