//! Deferred, entity-scoped callbacks for bevy.
//!
//! A callback is a function of an entity and the mutable world. A
//! [`RunEntityCallback`] pairs one with the entity it is meant for, so that
//! it can be kept until the world may be mutated and then applied, alone or
//! as one of a batch that is applied in the order of its queueing.

pub mod batch;
pub mod host;
pub mod runner;

pub use batch::apply_batch;
pub use bevy::ecs::entity::Entity;
pub use bevy::ecs::world::World;
pub use runner::{EntityCallback, RunEntityCallback};
