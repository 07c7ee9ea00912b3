pub mod builder;
pub mod component;
pub mod ecs;
pub mod engine;
pub mod entity;
pub mod error;
pub mod render;
