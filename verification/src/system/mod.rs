pub mod camera;
pub mod entity_api;
pub mod input_system;
pub mod render_command;
pub mod render_system;
pub mod scene_command;
pub mod scheduler;
pub mod object_api;
pub mod command;
