//! The two types of the host that a callback is handed.
use vstd::prelude::*;

verus! {

/// `bevy::ecs::entity::Entity`, the identifier of an entity. Nothing is
/// assumed of what it holds.
#[verifier::external_type_specification]
#[verifier::external_body]
pub struct ExEntity(bevy::ecs::entity::Entity);

/// `bevy::ecs::world::World`, the store that callbacks mutate. Nothing is
/// assumed of what it holds: contracts only compare whole worlds.
#[verifier::external_type_specification]
#[verifier::external_body]
pub struct ExWorld(bevy::ecs::world::World);

} // verus!
