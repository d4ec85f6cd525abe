pub mod component_pool;
pub mod entity;
pub mod registry;
