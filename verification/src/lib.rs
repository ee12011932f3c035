//! Server-side simulation core of a top-down multiplayer shooter.
//!
//! Every stage of a simulation tick is a function over an explicit snapshot
//! of the entities it concerns. Lengths are whole millimetres, times whole
//! milliseconds since startup, angles whole thousandths of a degree.

pub mod entity;
pub mod geometry;
pub mod registry;
pub mod components;
pub mod network;
pub mod events;
pub mod collision;
pub mod weapon;
pub mod systems;
