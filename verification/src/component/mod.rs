pub mod material;
pub mod mesh_renderer;
pub mod name;
pub mod scene_owned;
pub mod tags;
pub mod visibility;
