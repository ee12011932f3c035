//! The stages of a tick.

pub mod collision;
pub mod entity_delete;
pub mod health;
pub mod shooter;
