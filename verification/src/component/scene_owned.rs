use vstd::prelude::*;

verus! {

/// Identifier of a registered scene.
#[derive(Clone, Copy, Debug, PartialEq, Eq, Hash, Structural)]
pub struct SceneId(pub usize);

/// Marks an entity as belonging to a scene: it is despawned when the scene
/// exits.
#[derive(Clone, Copy, Debug, PartialEq, Eq, Structural)]
pub struct SceneOwned {
    pub scene_id: SceneId,
}

} // verus!
