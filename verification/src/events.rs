//! What one stage of a tick asks of a later one.

use vstd::prelude::*;
use crate::components::Damage;
use crate::entity::Entity;

verus! {

/// `target` is to take `damage`.
#[derive(Copy, Clone, Debug, PartialEq, Eq, Structural)]
pub struct DamageEvent {
    pub damage: Damage,
    pub target: Entity,
}

/// The entity `entity_id` is to leave the world. Asking twice is asking
/// once.
#[derive(Copy, Clone, Debug, PartialEq, Eq, Structural)]
pub struct EntityDelete {
    pub entity_id: Entity,
}

} // verus!
