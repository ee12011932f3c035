//! The components that the tick stages read and write.

use vstd::prelude::*;
use crate::geometry::Vec2;
use crate::registry::ClientID;

verus! {

/// A circular collider around an entity's position.
#[derive(Copy, Clone, Debug, PartialEq, Eq, Structural)]
pub struct BoundingCircle {
    /// Radius in millimetres.
    pub radius: u32,
}

/// Remaining health of an entity. Damage only ever lowers it, and never
/// below zero.
#[derive(Copy, Clone, Debug, PartialEq, Eq, Structural)]
pub struct Health(pub u32);

/// The damage that a projectile deals on impact.
#[derive(Copy, Clone, Debug, PartialEq, Eq, Structural)]
pub struct Damage(pub u32);

/// Marks an entity whose health has reached zero, with the time at which it
/// did.
#[derive(Copy, Clone, Debug, PartialEq, Eq, Structural)]
pub struct Eliminated {
    /// Milliseconds since startup.
    pub elimination_time: u64,
}

/// Links an entity to the network client that controls it.
#[derive(Copy, Clone, Debug, PartialEq, Eq, Structural)]
pub struct Client {
    pub id: ClientID,
}

/// The keys and buttons that a player holds, one bit each.
#[derive(Copy, Clone, Debug, PartialEq, Eq, Structural)]
pub struct InputFlags {
    pub bits: u16,
}

pub const FORWARD: u16 = 0x0001;

pub const BACKWARD: u16 = 0x0002;

pub const LEFT: u16 = 0x0004;

pub const RIGHT: u16 = 0x0008;

pub const SHOOT: u16 = 0x0010;

pub const USE: u16 = 0x0020;

pub const RUN: u16 = 0x0040;

pub const RELOAD: u16 = 0x0080;

pub const SELECT1: u16 = 0x0100;

pub const SELECT2: u16 = 0x0200;

pub const SELECT3: u16 = 0x0400;

pub const SELECT4: u16 = 0x0800;

pub const SELECT5: u16 = 0x1000;

impl InputFlags {
    /// Whether any bit of `mask` is held.
    pub open spec fn holds(self, mask: u16) -> bool {
        self.bits & mask != 0
    }

    /// Whether any bit of `mask` is held.
    pub fn intersects(&self, mask: u16) -> (held: bool)
        ensures
            held == self.holds(mask),
    {
        self.bits & mask != 0
    }
}

/// What a player asks for in one tick.
#[derive(Copy, Clone, Debug, PartialEq, Eq, Structural)]
pub struct Input {
    pub flags: InputFlags,
    /// Where the player points.
    pub cursor: Vec2,
}

impl Input {
    /// The lowest weapon selection that is held.
    pub open spec fn selection(self) -> Option<u16> {
        if self.flags.holds(SELECT1) {
            Some(SELECT1)
        } else if self.flags.holds(SELECT2) {
            Some(SELECT2)
        } else if self.flags.holds(SELECT3) {
            Some(SELECT3)
        } else if self.flags.holds(SELECT4) {
            Some(SELECT4)
        } else if self.flags.holds(SELECT5) {
            Some(SELECT5)
        } else {
            None
        }
    }

    /// The lowest weapon selection that is held.
    pub fn get_selection(&self) -> (selected: Option<u16>)
        ensures
            selected == self.selection(),
    {
        if self.flags.intersects(SELECT1) {
            Some(SELECT1)
        } else if self.flags.intersects(SELECT2) {
            Some(SELECT2)
        } else if self.flags.intersects(SELECT3) {
            Some(SELECT3)
        } else if self.flags.intersects(SELECT4) {
            Some(SELECT4)
        } else if self.flags.intersects(SELECT5) {
            Some(SELECT5)
        } else {
            None
        }
    }
}

/// Marks an entity that comes back after being eliminated.
#[derive(Copy, Clone, Debug)]
pub struct Respawn {
    pub respawn_duration: core::time::Duration,
}

} // verus!
