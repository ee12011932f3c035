use westiny::components::{
    BoundingCircle, Client, Damage, Input, InputFlags, RELOAD, SELECT1, SELECT2, SELECT3, SELECT4,
    SELECT5, SHOOT,
};
use westiny::geometry::{Direction, PolarVelocity, Vec2};
use westiny::network::{
    DeliveryRequirement, Message, PacketType, PlayerUpdate, SendError, ShotEvent,
    TransportResource, UrgencyRequirement,
};
use westiny::registry::{Address, ClientID, ClientRegistry};
use westiny::systems::shooter::{
    broadcast_shot_event, fire, selected_slot, send_ammo_update, shoot, shoot_one,
    spread_deviation, switch_one, switch_weapon, BulletSpawn, Gunner,
};
use westiny::weapon::{Holster, Slot, Weapon, WeaponDetails};

fn details() -> WeaponDetails {
    WeaponDetails {
        damage: 5,
        magazine_size: 6,
        reload_time: 1000,
        spread: 0,
        bullet_speed: 12_500,
        pellet_number: 1,
        fire_rate: u32::MAX,
        bullet_distance_limit: 7_500,
    }
}

fn input(bits: u16) -> Input {
    Input { flags: InputFlags { bits }, cursor: Vec2 { x: 0, y: 0 } }
}

fn holster(gun: WeaponDetails) -> Holster {
    Holster::new_with_guns(vec![
        Slot { weapon: Weapon::new(gun), name: "Weapon1".to_string() },
        Slot { weapon: Weapon::new(gun), name: "Weapon2".to_string() },
        Slot { weapon: Weapon::new(gun), name: "Weapon3".to_string() },
    ])
    .unwrap()
}

fn gunner(bits: u16, gun: WeaponDetails, client: Option<u64>) -> Gunner {
    Gunner {
        input: input(bits),
        position: Vec2 { x: 0, y: 0 },
        forward: Direction { x: 0, y: 1000 },
        bound: Some(BoundingCircle { radius: 1000 }),
        holster: holster(gun),
        client: client.map(|id| Client { id: ClientID(id) }),
    }
}

fn addresses() -> [Address; 3] {
    [
        Address { host: 0xffff_6fde_6fde, port: 9999 },
        Address { host: 0xffff_de6f_de6f, port: 9999 },
        Address { host: 0xffff_6f6f_6f6f, port: 9999 },
    ]
}

fn three_clients() -> ClientRegistry {
    let mut registry = ClientRegistry::new(3);
    registry.add(&addresses()[0], "player1").unwrap();
    registry.add(&addresses()[1], "player2").unwrap();
    registry.add(&addresses()[2], "player3").unwrap();
    registry
}

fn shot_message(destination: Address, event: ShotEvent) -> Message {
    Message {
        destination,
        payload: PacketType::ShotEvent(event),
        delivery: DeliveryRequirement::ReliableSequenced(Some(3)),
        urgency: UrgencyRequirement::OnTick,
    }
}

fn ammo_message(destination: Address, ammo_in_magazine: u32) -> Message {
    Message {
        destination,
        payload: PacketType::PlayerUpdate(PlayerUpdate::AmmoUpdate { ammo_in_magazine }),
        delivery: DeliveryRequirement::ReliableSequenced(Some(4)),
        urgency: UrgencyRequirement::OnTick,
    }
}

fn straight(deviation: i32) -> PolarVelocity {
    PolarVelocity { speed: 12_500, heading: Direction { x: 0, y: 1000 }, deviation }
}

fn is_shot(message: &Message) -> bool {
    matches!(message.payload, PacketType::ShotEvent(_))
}

fn is_ammo_update(message: &Message) -> bool {
    matches!(message.payload, PacketType::PlayerUpdate(PlayerUpdate::AmmoUpdate { .. }))
}

#[test]
fn selections_stand_for_the_first_three_slots() {
    assert_eq!(selected_slot(&input(SELECT1)), Some(0));
    assert_eq!(selected_slot(&input(SELECT2)), Some(1));
    assert_eq!(selected_slot(&input(SELECT3)), Some(2));
    assert_eq!(selected_slot(&input(SELECT4)), None);
    assert_eq!(selected_slot(&input(SELECT5)), None);
    assert_eq!(selected_slot(&input(0)), None);
    assert_eq!(selected_slot(&input(SHOOT | RELOAD)), None);
}

#[test]
fn lowest_selection_wins() {
    assert_eq!(selected_slot(&input(SELECT2 | SELECT3)), Some(1));
    assert_eq!(selected_slot(&input(SELECT1 | SELECT5 | SHOOT)), Some(0));
    assert_eq!(selected_slot(&input(SELECT3 | SELECT4)), Some(2));
    assert_eq!(selected_slot(&input(SELECT4 | SELECT5)), None);
    assert_eq!(input(SELECT4 | SELECT5).get_selection(), Some(SELECT4));
    assert_eq!(input(SHOOT).get_selection(), None);
}

#[test]
fn flags_intersect_with_masks() {
    let flags = InputFlags { bits: SHOOT | SELECT2 };
    assert!(flags.intersects(SHOOT));
    assert!(flags.intersects(SHOOT | RELOAD));
    assert!(!flags.intersects(RELOAD));
    assert!(!flags.intersects(0));
}

#[test]
fn weapon_without_spread_does_not_deviate() {
    for _ in 0..100 {
        assert_eq!(spread_deviation(0), 0);
        assert_eq!(spread_deviation(-1), 0);
        assert_eq!(spread_deviation(i32::MIN), 0);
    }
}

#[test]
fn deviation_stays_within_the_spread_and_varies() {
    let mut smallest = i32::MAX;
    let mut largest = i32::MIN;
    for _ in 0..2000 {
        let deviation = spread_deviation(5000);
        assert!((-5000..=5000).contains(&deviation));
        smallest = smallest.min(deviation);
        largest = largest.max(deviation);
    }
    assert!(smallest < largest);
    assert!(smallest < 0);
    assert!(largest > 0);
    assert!(smallest > -5000 || largest < 5000);
    for _ in 0..100 {
        assert!((-1..=1).contains(&spread_deviation(1)));
        let wide = spread_deviation(i32::MAX);
        assert!(wide >= -i32::MAX);
    }
}

#[test]
fn shot_is_broadcast_to_three_clients() {
    let registry = three_clients();
    let mut net = TransportResource::new();
    let mut gunners = vec![gunner(SHOOT, details(), None)];
    let bullets = shoot(1, &registry, &mut net, &mut gunners);

    let messages = net.get_messages();
    assert_eq!(3, messages.len());
    let expected = ShotEvent {
        position: Vec2 { x: 0, y: -1000 },
        velocity: straight(0),
        bullet_time_limit: 600,
    };
    for (message, address) in messages.iter().zip(addresses()) {
        assert_eq!(*message, shot_message(address, expected));
    }
    assert_eq!(
        bullets,
        vec![BulletSpawn {
            damage: Damage(5),
            position: Vec2 { x: 0, y: -1000 },
            velocity: straight(0),
            spawn_time: 1,
            lifespan: 600,
        }]
    );
}

#[test]
fn broadcast_reaches_every_client_in_order() {
    let registry = three_clients();
    let mut net = TransportResource::new();
    net.send_with_requirements(
        addresses()[2],
        PacketType::PlayerUpdate(PlayerUpdate::AmmoUpdate { ammo_in_magazine: 9 }),
        DeliveryRequirement::Reliable,
        UrgencyRequirement::Immediate,
    );
    let weapon = Weapon::new(details());
    let velocity =
        PolarVelocity { speed: 1, heading: Direction { x: 1000, y: 0 }, deviation: -250 };
    broadcast_shot_event(&registry, &mut net, &weapon, &Vec2 { x: 3, y: 4 }, &velocity);
    let event = ShotEvent { position: Vec2 { x: 3, y: 4 }, velocity, bullet_time_limit: 600 };
    let messages = net.get_messages();
    assert_eq!(messages.len(), 4);
    assert!(is_ammo_update(&messages[0]));
    assert_eq!(messages[1], shot_message(addresses()[0], event));
    assert_eq!(messages[2], shot_message(addresses()[1], event));
    assert_eq!(messages[3], shot_message(addresses()[2], event));
}

#[test]
fn broadcast_to_nobody_queues_nothing() {
    let registry = ClientRegistry::new(3);
    let mut net = TransportResource::new();
    let weapon = Weapon::new(details());
    broadcast_shot_event(&registry, &mut net, &weapon, &Vec2 { x: 3, y: 4 }, &straight(0));
    assert!(net.get_messages().is_empty());
}

#[test]
fn ammo_update_goes_to_the_client() {
    let registry = three_clients();
    let mut net = TransportResource::new();
    assert_eq!(send_ammo_update(&ClientID(1), &registry, 4, &mut net), Ok(()));
    assert_eq!(net.get_messages(), &vec![ammo_message(addresses()[1], 4)]);
}

#[test]
fn ammo_update_fails_for_a_client_that_is_not_registered() {
    let registry = three_clients();
    let mut net = TransportResource::new();
    assert_eq!(
        send_ammo_update(&ClientID(3), &registry, 4, &mut net),
        Err(SendError::ClientNotFound(ClientID(3)))
    );
    assert!(net.get_messages().is_empty());
}

#[test]
fn one_shot_tells_three_clients_and_the_shooter() {
    let registry = three_clients();
    let mut net = TransportResource::new();
    let mut gunners = vec![gunner(SHOOT, details(), Some(1))];
    shoot(1, &registry, &mut net, &mut gunners);
    let messages = net.get_messages();
    assert_eq!(messages.iter().filter(|m| is_shot(m)).count(), 3);
    assert_eq!(messages.iter().filter(|m| is_ammo_update(m)).count(), 1);
    assert_eq!(messages.len(), 4);
    assert_eq!(messages[3], ammo_message(addresses()[1], 5));
}

#[test]
fn shooter_without_a_registered_client_gets_no_ammo_update() {
    let registry = three_clients();
    let mut net = TransportResource::new();
    let mut gunners = vec![gunner(SHOOT, details(), Some(17)), gunner(SHOOT, details(), None)];
    let bullets = shoot(1, &registry, &mut net, &mut gunners);
    assert_eq!(bullets.len(), 2);
    assert_eq!(net.get_messages().len(), 6);
    assert!(net.get_messages().iter().all(is_shot));
    assert_eq!(gunners[0].holster.active_gun().bullets_left_in_magazine, 5);
    assert_eq!(gunners[1].holster.active_gun().bullets_left_in_magazine, 5);
}

#[test]
fn one_pellet_costs_one_round() {
    let registry = three_clients();
    let mut net = TransportResource::new();
    let mut gunners = vec![gunner(SHOOT, WeaponDetails { pellet_number: 1, ..details() }, None)];
    let bullets = shoot(1, &registry, &mut net, &mut gunners);
    assert_eq!(bullets.len(), 1);
    assert_eq!(gunners[0].holster.active_gun().bullets_left_in_magazine, 5);
}

#[test]
fn five_pellets_cost_one_round() {
    let registry = three_clients();
    let mut net = TransportResource::new();
    let mut gunners =
        vec![gunner(SHOOT, WeaponDetails { pellet_number: 5, ..details() }, Some(0))];
    let bullets = shoot(1, &registry, &mut net, &mut gunners);
    assert_eq!(bullets.len(), 5);
    assert_eq!(gunners[0].holster.active_gun().bullets_left_in_magazine, 5);
    assert_eq!(gunners[0].holster.guns()[1].weapon.bullets_left_in_magazine, 6);
    let messages = net.get_messages();
    assert_eq!(messages.len(), 16);
    assert!(messages[..15].iter().all(is_shot));
    assert_eq!(messages[15], ammo_message(addresses()[0], 5));
}

#[test]
fn no_pellets_cost_one_round_too() {
    let registry = three_clients();
    let mut net = TransportResource::new();
    let mut gunners =
        vec![gunner(SHOOT, WeaponDetails { pellet_number: 0, ..details() }, Some(0))];
    let bullets = shoot(1, &registry, &mut net, &mut gunners);
    assert!(bullets.is_empty());
    assert_eq!(gunners[0].holster.active_gun().bullets_left_in_magazine, 5);
    assert_eq!(net.get_messages(), &vec![ammo_message(addresses()[0], 5)]);
}

#[test]
fn pellets_without_spread_fly_straight() {
    let registry = ClientRegistry::new(0);
    let mut net = TransportResource::new();
    let mut gunners =
        vec![gunner(SHOOT, WeaponDetails { pellet_number: 8, spread: 0, ..details() }, None)];
    let bullets = shoot(1, &registry, &mut net, &mut gunners);
    assert_eq!(bullets.len(), 8);
    for bullet in &bullets {
        assert_eq!(bullet.velocity, straight(0));
    }
}

#[test]
fn pellets_with_spread_stay_within_it() {
    let registry = ClientRegistry::new(0);
    let mut net = TransportResource::new();
    let gun = WeaponDetails { pellet_number: 200, spread: 3000, ..details() };
    let mut gunners = vec![gunner(SHOOT, gun, None)];
    let bullets = shoot(1, &registry, &mut net, &mut gunners);
    assert_eq!(bullets.len(), 200);
    for bullet in &bullets {
        assert!((-3000..=3000).contains(&bullet.velocity.deviation));
        assert_eq!(bullet.velocity, straight(bullet.velocity.deviation));
        assert_eq!(bullet.position, Vec2 { x: 0, y: -1000 });
    }
    let first = bullets[0].velocity.deviation;
    assert!(bullets.iter().any(|bullet| bullet.velocity.deviation != first));
}

#[test]
fn fire_turns_each_pellet_as_told() {
    let registry = three_clients();
    let mut net = TransportResource::new();
    let mut shooter = gunner(SHOOT, details(), Some(2));
    shooter.position = Vec2 { x: 10_000, y: -20_000 };
    shooter.forward = Direction { x: 600, y: -800 };
    shooter.bound = Some(BoundingCircle { radius: 500 });
    let bullets = fire(7777, &registry, &mut net, &mut shooter, &vec![-500, 0, 500]);
    let expected: Vec<BulletSpawn> = [-500, 0, 500]
        .iter()
        .map(|&deviation| BulletSpawn {
            damage: Damage(5),
            position: Vec2 { x: 9_700, y: -19_600 },
            velocity: PolarVelocity {
                speed: 12_500,
                heading: Direction { x: 600, y: -800 },
                deviation,
            },
            spawn_time: 7777,
            lifespan: 600,
        })
        .collect();
    assert_eq!(bullets, expected);

    let gun = *shooter.holster.active_gun();
    assert_eq!(gun.bullets_left_in_magazine, 5);
    assert_eq!(gun.last_shot_time, 7777);
    assert!(!gun.input_lifted);
    assert_eq!(gun.reload_started_at, None);
    assert_eq!(gun.details, details());
    assert_eq!(shooter.holster.active_slot(), 0);
    assert_eq!(shooter.holster.guns()[1].weapon, Weapon::new(details()));

    let messages = net.get_messages();
    assert_eq!(messages.len(), 10);
    for (k, bullet) in expected.iter().enumerate() {
        let event = ShotEvent {
            position: bullet.position,
            velocity: bullet.velocity,
            bullet_time_limit: 600,
        };
        for (c, address) in addresses().iter().enumerate() {
            assert_eq!(messages[3 * k + c], shot_message(*address, event));
        }
    }
    assert_eq!(messages[9], ammo_message(addresses()[2], 5));
}

#[test]
fn gunner_without_a_bound_fires_from_where_it_stands() {
    let registry = ClientRegistry::new(0);
    let mut net = TransportResource::new();
    let mut shooter = gunner(SHOOT, details(), None);
    shooter.position = Vec2 { x: i64::MAX, y: i64::MIN };
    shooter.bound = None;
    let bullets = fire(1, &registry, &mut net, &mut shooter, &vec![0]);
    assert_eq!(bullets[0].position, Vec2 { x: i64::MAX, y: i64::MIN });
}

#[test]
fn gunner_who_lets_go_of_the_trigger_is_noted() {
    let registry = three_clients();
    let mut net = TransportResource::new();
    let mut shooter = gunner(SHOOT, details(), Some(0));
    assert_eq!(shoot_one(1, &registry, &mut net, &mut shooter).len(), 1);
    assert!(!shooter.holster.active_gun().input_lifted);
    let queued = net.get_messages().len();

    shooter.input = input(0);
    assert!(shoot_one(2, &registry, &mut net, &mut shooter).is_empty());
    let gun = *shooter.holster.active_gun();
    assert!(gun.input_lifted);
    assert_eq!(gun.bullets_left_in_magazine, 5);
    assert_eq!(gun.last_shot_time, 1);
    assert_eq!(net.get_messages().len(), queued);
}

#[test]
fn weapon_that_has_not_cooled_down_does_not_fire() {
    let registry = three_clients();
    let mut net = TransportResource::new();
    let gun = WeaponDetails { fire_rate: 2000, ..details() };
    let mut gunners = vec![gunner(SHOOT, gun, Some(0))];
    assert!(shoot(499, &registry, &mut net, &mut gunners).is_empty());
    assert!(net.get_messages().is_empty());
    let weapon = *gunners[0].holster.active_gun();
    assert_eq!(weapon, Weapon::new(gun));

    assert_eq!(shoot(500, &registry, &mut net, &mut gunners).len(), 1);
    assert!(shoot(999, &registry, &mut net, &mut gunners).is_empty());
    assert_eq!(shoot(1000, &registry, &mut net, &mut gunners).len(), 1);
    assert_eq!(gunners[0].holster.active_gun().bullets_left_in_magazine, 4);
    assert_eq!(gunners[0].holster.active_gun().last_shot_time, 1000);
}

#[test]
fn gunners_shoot_in_their_order() {
    let registry = three_clients();
    let mut net = TransportResource::new();
    let shotgun = WeaponDetails { pellet_number: 2, damage: 9, ..details() };
    let mut idle = gunner(0, details(), Some(2));
    idle.holster.active_gun_mut().input_lifted = false;
    let mut gunners = vec![gunner(SHOOT, shotgun, Some(1)), idle, gunner(SHOOT, details(), None)];
    gunners[2].position = Vec2 { x: 50, y: 50 };
    gunners[2].bound = None;
    let bullets = shoot(10, &registry, &mut net, &mut gunners);
    assert_eq!(bullets.len(), 3);
    assert_eq!(bullets[0].damage, Damage(9));
    assert_eq!(bullets[1].damage, Damage(9));
    assert_eq!(bullets[2].damage, Damage(5));
    assert_eq!(bullets[2].position, Vec2 { x: 50, y: 50 });
    assert!(gunners[1].holster.active_gun().input_lifted);
    assert_eq!(gunners[1].holster.active_gun().bullets_left_in_magazine, 6);

    let messages = net.get_messages();
    assert_eq!(messages.len(), 10);
    assert!(messages[..6].iter().all(is_shot));
    assert_eq!(messages[6], ammo_message(addresses()[1], 5));
    assert!(messages[7..].iter().all(is_shot));
}

#[test]
fn switching_takes_the_selected_weapon_in_hand() {
    let registry = three_clients();
    let mut net = TransportResource::new();
    let mut shooter = gunner(SELECT2, details(), Some(2));
    shooter.holster.gun_mut(1).bullets_left_in_magazine = 3;
    switch_one(5000, &registry, &mut net, &mut shooter);
    assert_eq!(shooter.holster.active_slot(), 1);
    assert_eq!(
        net.get_messages(),
        &vec![Message {
            destination: addresses()[2],
            payload: PacketType::PlayerUpdate(PlayerUpdate::WeaponSwitch {
                name: "Weapon2".to_string(),
                magazine_size: 6,
                ammo_in_magazine: 3,
            }),
            delivery: DeliveryRequirement::ReliableSequenced(Some(2)),
            urgency: UrgencyRequirement::OnTick,
        }]
    );
}

#[test]
fn switching_restarts_a_reload_that_was_under_way() {
    let registry = three_clients();
    let mut net = TransportResource::new();
    let mut shooter = gunner(SELECT3, details(), None);
    shooter.holster.active_gun_mut().reload_started_at = Some(4200);
    shooter.holster.gun_mut(2).reload_started_at = Some(100);
    switch_one(5000, &registry, &mut net, &mut shooter);
    assert_eq!(shooter.holster.active_slot(), 2);
    assert_eq!(shooter.holster.guns()[0].weapon.reload_started_at, Some(5000));
    assert_eq!(shooter.holster.guns()[0].weapon.bullets_left_in_magazine, 6);
    assert_eq!(shooter.holster.guns()[1].weapon.reload_started_at, None);
    assert_eq!(shooter.holster.guns()[2].weapon.reload_started_at, Some(100));
    assert!(net.get_messages().is_empty());
}

#[test]
fn switching_starts_no_reload() {
    let registry = three_clients();
    let mut net = TransportResource::new();
    let mut shooter = gunner(SELECT3, details(), None);
    switch_one(5000, &registry, &mut net, &mut shooter);
    assert_eq!(shooter.holster.active_slot(), 2);
    for slot in shooter.holster.guns() {
        assert_eq!(slot.weapon, Weapon::new(details()));
    }
}

#[test]
fn selecting_the_weapon_in_hand_changes_nothing() {
    let registry = three_clients();
    let mut net = TransportResource::new();
    let mut shooter = gunner(SELECT1, details(), Some(0));
    shooter.holster.active_gun_mut().reload_started_at = Some(4200);
    switch_one(5000, &registry, &mut net, &mut shooter);
    assert_eq!(shooter.holster.active_slot(), 0);
    assert_eq!(shooter.holster.active_gun().reload_started_at, Some(4200));
    assert!(net.get_messages().is_empty());
}

#[test]
fn selecting_a_slot_that_is_not_there_changes_nothing() {
    let registry = three_clients();
    let mut net = TransportResource::new();
    let mut shooter = gunner(SELECT3, details(), Some(0));
    shooter.holster = Holster::new_with_guns(vec![
        Slot { weapon: Weapon::new(details()), name: "Weapon1".to_string() },
        Slot { weapon: Weapon::new(details()), name: "Weapon2".to_string() },
    ])
    .unwrap();
    shooter.holster.active_gun_mut().reload_started_at = Some(4200);
    switch_one(5000, &registry, &mut net, &mut shooter);
    assert_eq!(shooter.holster.active_slot(), 0);
    assert_eq!(shooter.holster.active_gun().reload_started_at, Some(4200));
    assert!(net.get_messages().is_empty());
}

#[test]
fn switch_of_an_unknown_client_is_told_to_nobody() {
    let registry = three_clients();
    let mut net = TransportResource::new();
    let mut shooter = gunner(SELECT2, details(), Some(3));
    switch_one(5000, &registry, &mut net, &mut shooter);
    assert_eq!(shooter.holster.active_slot(), 1);
    assert!(net.get_messages().is_empty());
}

#[test]
fn every_gunner_switches() {
    let registry = three_clients();
    let mut net = TransportResource::new();
    let mut gunners = vec![
        gunner(SELECT2, details(), Some(0)),
        gunner(SHOOT, details(), Some(1)),
        gunner(SELECT3 | SHOOT, details(), Some(2)),
    ];
    switch_weapon(5000, &registry, &mut net, &mut gunners);
    assert_eq!(gunners[0].holster.active_slot(), 1);
    assert_eq!(gunners[1].holster.active_slot(), 0);
    assert_eq!(gunners[2].holster.active_slot(), 2);
    let messages = net.get_messages();
    assert_eq!(messages.len(), 2);
    assert_eq!(messages[0].destination, addresses()[0]);
    assert_eq!(messages[1].destination, addresses()[2]);
    assert_eq!(
        messages[1].payload,
        PacketType::PlayerUpdate(PlayerUpdate::WeaponSwitch {
            name: "Weapon3".to_string(),
            magazine_size: 6,
            ammo_in_magazine: 6,
        })
    );
}
