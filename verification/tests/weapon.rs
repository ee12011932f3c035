use westiny::weapon::{Holster, Slot, Weapon, WeaponDetails};

fn details() -> WeaponDetails {
    WeaponDetails {
        damage: 5,
        magazine_size: 6,
        reload_time: 1000,
        spread: 0,
        bullet_speed: 12_500,
        pellet_number: 1,
        fire_rate: 2000,
        bullet_distance_limit: 7_500,
    }
}

fn slot(name: &str) -> Slot {
    Slot { weapon: Weapon::new(details()), name: name.to_string() }
}

#[test]
fn new_weapon_is_loaded_and_idle() {
    let weapon = Weapon::new(details());
    assert_eq!(weapon.details, details());
    assert_eq!(weapon.bullets_left_in_magazine, 6);
    assert_eq!(weapon.last_shot_time, 0);
    assert_eq!(weapon.reload_started_at, None);
    assert!(weapon.input_lifted);
}

#[test]
fn weapon_cools_down_after_one_over_the_fire_rate() {
    let mut weapon = Weapon::new(details());
    weapon.last_shot_time = 10_000;
    assert!(!weapon.is_allowed_to_shoot(10_000));
    assert!(!weapon.is_allowed_to_shoot(10_499));
    assert!(weapon.is_allowed_to_shoot(10_500));
    assert!(weapon.is_allowed_to_shoot(10_501));
    assert!(weapon.is_allowed_to_shoot(u64::MAX));
}

#[test]
fn weapon_does_not_fire_before_its_last_shot() {
    let mut weapon = Weapon::new(details());
    weapon.last_shot_time = 10_000;
    assert!(!weapon.is_allowed_to_shoot(0));
    assert!(!weapon.is_allowed_to_shoot(9_999));
}

#[test]
fn weapon_without_fire_rate_never_cools_down() {
    let mut weapon = Weapon::new(WeaponDetails { fire_rate: 0, ..details() });
    weapon.last_shot_time = 0;
    assert!(!weapon.is_allowed_to_shoot(u64::MAX));
}

#[test]
fn fastest_weapon_cools_down_in_a_millisecond() {
    let weapon = Weapon::new(WeaponDetails { fire_rate: u32::MAX, ..details() });
    assert!(!weapon.is_allowed_to_shoot(0));
    assert!(weapon.is_allowed_to_shoot(1));
}

#[test]
fn slow_weapon_rounds_the_cooldown_up() {
    // Three shots in a thousand seconds: a third of a million milliseconds.
    let weapon = Weapon::new(WeaponDetails { fire_rate: 3, ..details() });
    assert!(!weapon.is_allowed_to_shoot(333_333));
    assert!(weapon.is_allowed_to_shoot(333_334));
}

#[test]
fn bullet_lives_for_range_over_speed() {
    assert_eq!(Weapon::new(details()).bullet_lifespan(), 600);
    let slow = WeaponDetails { bullet_speed: 3, bullet_distance_limit: 10, ..details() };
    assert_eq!(Weapon::new(slow).bullet_lifespan(), 3333);
    let far = WeaponDetails { bullet_speed: 1, bullet_distance_limit: u32::MAX, ..details() };
    assert_eq!(Weapon::new(far).bullet_lifespan(), 4_294_967_295_000);
}

#[test]
fn bullet_that_stands_still_lives_on() {
    let still = WeaponDetails { bullet_speed: 0, ..details() };
    assert_eq!(Weapon::new(still).bullet_lifespan(), u64::MAX);
}

#[test]
fn holster_cannot_be_empty() {
    assert!(Holster::new_with_guns(Vec::new()).is_none());
}

#[test]
fn holster_starts_with_the_first_gun() {
    let holster = Holster::new_with_guns(vec![slot("Revolver"), slot("Shotgun")]).unwrap();
    assert_eq!(holster.active_slot(), 0);
    assert_eq!(holster.slot_count(), 2);
    assert_eq!(holster.guns()[0].name, "Revolver");
    assert_eq!(holster.guns()[1].name, "Shotgun");
    assert_eq!(*holster.active_gun(), Weapon::new(details()));
}

#[test]
fn holster_switches_to_a_slot_it_has() {
    let mut holster =
        Holster::new_with_guns(vec![slot("Revolver"), slot("Shotgun"), slot("Rifle")]).unwrap();
    assert_eq!(holster.switch(2), Some("Rifle".to_string()));
    assert_eq!(holster.active_slot(), 2);
    assert_eq!(holster.switch(1), Some("Shotgun".to_string()));
    assert_eq!(holster.active_slot(), 1);
}

#[test]
fn holster_ignores_a_slot_it_does_not_have() {
    let mut holster = Holster::new_with_guns(vec![slot("Revolver"), slot("Shotgun")]).unwrap();
    assert_eq!(holster.switch(1), Some("Shotgun".to_string()));
    assert_eq!(holster.switch(2), None);
    assert_eq!(holster.active_slot(), 1);
    assert_eq!(holster.switch(usize::MAX), None);
    assert_eq!(holster.active_slot(), 1);
}

#[test]
fn active_gun_changes_in_place() {
    let mut holster = Holster::new_with_guns(vec![slot("Revolver"), slot("Shotgun")]).unwrap();
    holster.switch(1);
    holster.active_gun_mut().bullets_left_in_magazine = 2;
    holster.gun_mut(0).last_shot_time = 77;
    assert_eq!(holster.guns()[1].weapon.bullets_left_in_magazine, 2);
    assert_eq!(holster.guns()[0].weapon.bullets_left_in_magazine, 6);
    assert_eq!(holster.guns()[0].weapon.last_shot_time, 77);
    assert_eq!(holster.guns()[1].weapon.last_shot_time, 0);
    assert_eq!(holster.active_gun().bullets_left_in_magazine, 2);
}
