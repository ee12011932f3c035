//! Weapons and the holster that carries them.

use vstd::prelude::*;

verus! {

/// One million: a rate is counted in shots per thousand seconds and a time
/// in thousandths of a second.
pub const RATE_TIMES_TIME: u64 = 1_000_000;

/// What is fixed for a type of weapon.
#[derive(Copy, Clone, Debug, PartialEq, Eq, Structural)]
pub struct WeaponDetails {
    /// Damage of one projectile.
    pub damage: u32,
    /// Projectiles in a full magazine.
    pub magazine_size: u32,
    /// Milliseconds that a reload takes.
    pub reload_time: u64,
    /// Largest deviation of a projectile from the shooter's heading, in
    /// thousandths of a degree to either side.
    pub spread: i32,
    /// Millimetres per second.
    pub bullet_speed: u32,
    /// Projectiles that leave with one shot.
    pub pellet_number: u32,
    /// Shots per thousand seconds.
    pub fire_rate: u32,
    /// Millimetres that a projectile flies at most.
    pub bullet_distance_limit: u32,
}

/// A weapon in use.
#[derive(Copy, Clone, Debug, PartialEq, Eq, Structural)]
pub struct Weapon {
    pub details: WeaponDetails,
    pub bullets_left_in_magazine: u32,
    /// Milliseconds since startup at which the last shot left.
    pub last_shot_time: u64,
    /// Set while a reload is under way: the time at which it began.
    pub reload_started_at: Option<u64>,
    /// Whether the trigger was let go since the last shot.
    pub input_lifted: bool,
}

impl WeaponDetails {
    /// How long a projectile lives, in milliseconds: the time it takes to
    /// fly `bullet_distance_limit`. A projectile that does not move never
    /// gets there, and lives as long as the clock can count.
    pub open spec fn lifespan(self) -> u64 {
        if self.bullet_speed == 0 {
            u64::MAX
        } else {
            (self.bullet_distance_limit * 1000 / (self.bullet_speed as int)) as u64
        }
    }
}

impl Weapon {
    /// A weapon with a full magazine that has not been fired.
    pub fn new(details: WeaponDetails) -> (weapon: Weapon)
        ensures
            weapon == (Weapon {
                details,
                bullets_left_in_magazine: details.magazine_size,
                last_shot_time: 0,
                reload_started_at: None,
                input_lifted: true,
            }),
    {
        Weapon {
            details,
            bullets_left_in_magazine: details.magazine_size,
            last_shot_time: 0,
            reload_started_at: None,
            input_lifted: true,
        }
    }

    /// Whether at `now` the time since the last shot is at least one over
    /// the fire rate. A weapon with fire rate zero never cools down.
    pub open spec fn cooled_down(self, now: u64) -> bool {
        (now - self.last_shot_time) * self.details.fire_rate >= RATE_TIMES_TIME
    }

    /// Whether the weapon may fire at `now`.
    pub fn is_allowed_to_shoot(&self, now: u64) -> (allowed: bool)
        ensures
            allowed == self.cooled_down(now),
    {
        if now < self.last_shot_time {
            assert((now - self.last_shot_time) * self.details.fire_rate <= 0) by (nonlinear_arith)
                requires
                    now - self.last_shot_time < 0,
                    self.details.fire_rate >= 0,
            ;
            return false;
        }
        let elapsed: u128 = (now - self.last_shot_time) as u128;
        let rate: u128 = self.details.fire_rate as u128;
        assert(elapsed * rate <= 0xffff_ffff_ffff_ffff * 0xffff_ffff) by (nonlinear_arith)
            requires
                0 <= elapsed <= 0xffff_ffff_ffff_ffff,
                0 <= rate <= 0xffff_ffff,
        ;
        elapsed * rate >= RATE_TIMES_TIME as u128
    }

    /// How long a projectile of this weapon lives, in milliseconds.
    pub fn bullet_lifespan(&self) -> (lifespan: u64)
        ensures
            lifespan == self.details.lifespan(),
    {
        if self.details.bullet_speed == 0 {
            u64::MAX
        } else {
            (self.details.bullet_distance_limit as u64 * 1000) / (self.details.bullet_speed as u64)
        }
    }
}

/// A weapon in its place in the holster, under its name.
#[derive(Clone, Debug, PartialEq, Eq)]
pub struct Slot {
    pub weapon: Weapon,
    pub name: String,
}

/// The weapons that an entity carries, one of them in hand.
#[derive(Clone, Debug)]
pub struct Holster {
    guns: Vec<Slot>,
    active_gun: usize,
}

impl Holster {
    /// The slots, in order.
    pub closed spec fn view(self) -> Seq<Slot> {
        self.guns@
    }

    /// The place of the weapon in hand.
    pub closed spec fn active(self) -> int {
        self.active_gun as int
    }

    /// The invariant of every holster: the weapon in hand is one of its
    /// slots.
    pub open spec fn wf(self) -> bool {
        0 <= self.active() < self@.len()
    }

    /// The weapon in hand.
    pub open spec fn gun(self) -> Weapon {
        self@[self.active()].weapon
    }

    /// A holster of the weapons `guns`, the first of them in hand. A holster
    /// cannot be empty.
    pub fn new_with_guns(guns: Vec<Slot>) -> (holster: Option<Holster>)
        ensures
            holster is None <==> guns@.len() == 0,
            holster matches Some(h) ==> h.wf() && h@ == guns@ && h.active() == 0,
    {
        if guns.len() == 0 {
            None
        } else {
            Some(Holster { guns, active_gun: 0 })
        }
    }

    /// The place of the weapon in hand.
    pub fn active_slot(&self) -> (slot: usize)
        ensures
            slot == self.active(),
    {
        self.active_gun
    }

    /// The slots, in order.
    pub fn guns(&self) -> (guns: &Vec<Slot>)
        ensures
            guns@ == self@,
    {
        &self.guns
    }

    /// The number of slots.
    pub fn slot_count(&self) -> (count: usize)
        ensures
            count == self@.len(),
    {
        self.guns.len()
    }

    /// Takes the weapon of slot `slot` in hand and returns its name. A slot
    /// that the holster does not have changes nothing.
    pub fn switch(&mut self, slot: usize) -> (name: Option<String>)
        requires
            old(self).wf(),
        ensures
            final(self).wf(),
            final(self)@ == old(self)@,
            slot < old(self)@.len() ==> final(self).active() == slot && name == Some(
                old(self)@[slot as int].name,
            ),
            slot >= old(self)@.len() ==> final(self).active() == old(self).active() && name is None,
    {
        if slot < self.guns.len() {
            self.active_gun = slot;
            Some(self.guns[slot].name.clone())
        } else {
            None
        }
    }

    /// The weapon in hand.
    pub fn active_gun(&self) -> (gun: &Weapon)
        requires
            self.wf(),
        ensures
            *gun == self.gun(),
    {
        &self.guns[self.active_gun].weapon
    }

    /// The weapon in slot `slot`, to be changed in place.
    pub fn gun_mut(&mut self, slot: usize) -> (gun: &mut Weapon)
        requires
            slot < old(self)@.len(),
        ensures
            *gun == old(self)@[slot as int].weapon,
            final(self).active() == old(self).active(),
            final(self)@ == old(self)@.update(
                slot as int,
                Slot { weapon: *final(gun), name: old(self)@[slot as int].name },
            ),
    {
        &mut self.guns[slot].weapon
    }

    /// The weapon in hand, to be changed in place.
    pub fn active_gun_mut(&mut self) -> (gun: &mut Weapon)
        requires
            old(self).wf(),
        ensures
            *gun == old(self).gun(),
            final(self).active() == old(self).active(),
            final(self)@ == old(self)@.update(
                old(self).active(),
                Slot { weapon: *final(gun), name: old(self)@[old(self).active()].name },
            ),
    {
        &mut self.guns[self.active_gun].weapon
    }
}

} // verus!
