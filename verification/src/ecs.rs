//! The engine's data model.
//!
//! A `SceneManager` holds scenes and the entities shared between scenes; a
//! `Scene` holds its own entities; an `Entity` holds typed attributes and the
//! paths of its resources (images, sounds, one script).
//!
//! Floating-point attribute values are carried as their IEEE-754 `f32` bit
//! patterns: the model stores, compares and hands them back, and never
//! computes with them.
pub mod attribute;
pub mod tables;
pub mod entity;
pub mod scene;
pub mod scene_manager;
pub mod laws;

pub use attribute::{Attribute, AttributeType, AttributeValue, PhysicsProperties};
pub use entity::Entity;
pub use scene::Scene;
pub use scene_manager::SceneManager;
