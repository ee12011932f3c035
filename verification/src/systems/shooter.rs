//! Weapon handling: switching the weapon in hand, and shooting.

use vstd::prelude::*;
use rand::Rng;
use crate::components::{BoundingCircle, Client, Damage, Input, SELECT1, SELECT2, SELECT3, SHOOT};
use crate::geometry::{step_back, stepped_back, Direction, PolarVelocity, Vec2};
use crate::network::{
    reliable_sequenced, sequenced_on, Message, PacketType, PlayerUpdate, SendError, ShotEvent,
    StreamId, TransportResource, UrgencyRequirement,
};
use crate::registry::{lookup, ClientHandle, ClientID, ClientRegistry};
use crate::weapon::{Holster, Slot, Weapon};

verus! {

/// An entity that carries weapons, as the weapon stages see it.
#[derive(Clone, Debug)]
pub struct Gunner {
    pub input: Input,
    pub position: Vec2,
    /// The way the entity faces.
    pub forward: Direction,
    pub bound: Option<BoundingCircle>,
    pub holster: Holster,
    pub client: Option<Client>,
}

/// A projectile to be brought into the world.
#[derive(Copy, Clone, Debug, PartialEq, Eq, Structural)]
pub struct BulletSpawn {
    pub damage: Damage,
    pub position: Vec2,
    pub velocity: PolarVelocity,
    /// Milliseconds since startup at which the projectile left.
    pub spawn_time: u64,
    /// Milliseconds that the projectile lives.
    pub lifespan: u64,
}

/// The holster slot that `input` selects: the first three selections stand
/// for the first three slots, in order.
pub open spec fn selected(input: Input) -> Option<usize> {
    match input.selection() {
        Some(selection) => if selection == SELECT1 {
            Some(0usize)
        } else if selection == SELECT2 {
            Some(1usize)
        } else if selection == SELECT3 {
            Some(2usize)
        } else {
            None
        },
        None => None,
    }
}

/// The holster slot that `input` selects.
pub fn selected_slot(input: &Input) -> (slot: Option<usize>)
    ensures
        slot == selected(*input),
{
    match input.get_selection() {
        Some(selection) => if selection == SELECT1 {
            Some(0usize)
        } else if selection == SELECT2 {
            Some(1usize)
        } else if selection == SELECT3 {
            Some(2usize)
        } else {
            None
        },
        None => None,
    }
}

/// Whether `deviation` is a turn that a weapon of spread `spread` may give a
/// projectile: at most `spread` to either side, and none at all where the
/// weapon has no spread.
pub open spec fn within_spread(deviation: i32, spread: i32) -> bool {
    if spread > 0 {
        -spread <= deviation <= spread
    } else {
        deviation == 0
    }
}

/// Draws a number with `gen_range` of the `rand` crate, on the generator
/// that `thread_rng` keeps for the running thread, over the range from `low`
/// to `high`, both included. All that is claimed is that the number lies in
/// that range; `gen_range` panics on an empty range, which `requires` leaves
/// out.
#[verifier::external_body]
fn random_between(low: i32, high: i32) -> (drawn: i32)
    requires
        low <= high,
    ensures
        low <= drawn <= high,
{
    rand::thread_rng().gen_range(low..=high)
}

/// The turn of one projectile of a weapon of spread `spread`, drawn at
/// random.
pub fn spread_deviation(spread: i32) -> (deviation: i32)
    ensures
        within_spread(deviation, spread),
{
    if spread > 0 {
        random_between(-spread, spread)
    } else {
        0
    }
}

/// The news of a shot, as each client gets it.
pub open spec fn shot_message(handle: ClientHandle, event: ShotEvent) -> Message {
    Message {
        destination: handle.addr,
        payload: PacketType::ShotEvent(event),
        delivery: reliable_sequenced(StreamId::ShotEvent),
        urgency: UrgencyRequirement::OnTick,
    }
}

/// The news of a shot for every client of `clients`, in their order.
pub open spec fn shot_messages(clients: Seq<ClientHandle>, event: ShotEvent) -> Seq<Message> {
    Seq::new(clients.len(), |i: int| shot_message(clients[i], event))
}

/// The news of the projectile `bullet`.
pub open spec fn shot_event_of(bullet: BulletSpawn) -> ShotEvent {
    ShotEvent {
        position: bullet.position,
        velocity: bullet.velocity,
        bullet_time_limit: bullet.lifespan,
    }
}

/// Tells every registered client of a projectile of `weapon` that starts at
/// `position` with `velocity`.
pub fn broadcast_shot_event(
    client_registry: &ClientRegistry,
    net: &mut TransportResource,
    weapon: &Weapon,
    position: &Vec2,
    velocity: &PolarVelocity,
)
    ensures
        final(net)@ == old(net)@ + shot_messages(
            client_registry@,
            ShotEvent {
                position: *position,
                velocity: *velocity,
                bullet_time_limit: weapon.details.lifespan(),
            },
        ),
{
    let event = ShotEvent {
        position: *position,
        velocity: *velocity,
        bullet_time_limit: weapon.bullet_lifespan(),
    };
    let clients = client_registry.get_clients();
    let n = clients.len();
    let mut i: usize = 0;
    while i < n
        invariant
            i <= n,
            n == clients@.len(),
            clients@ == client_registry@,
            net@ == old(net)@ + shot_messages(client_registry@, event).take(i as int),
        decreases n - i,
    {
        net.send_with_requirements(
            clients[i].addr,
            PacketType::ShotEvent(event),
            sequenced_on(StreamId::ShotEvent),
            UrgencyRequirement::OnTick,
        );
        proof {
            let all = shot_messages(client_registry@, event);
            assert(all.take(i as int + 1) =~= all.take(i as int).push(all[i as int]));
        }
        i += 1;
    }
    proof {
        let all = shot_messages(client_registry@, event);
        assert(all.take(n as int) =~= all);
    }
}

/// The news of the ammunition left, for the client behind `handle`.
pub open spec fn ammo_message(handle: ClientHandle, ammo_in_magazine: u32) -> Message {
    Message {
        destination: handle.addr,
        payload: PacketType::PlayerUpdate(PlayerUpdate::AmmoUpdate { ammo_in_magazine }),
        delivery: reliable_sequenced(StreamId::AmmoUpdate),
        urgency: UrgencyRequirement::OnTick,
    }
}

/// Tells the client `client_id` how much ammunition is left. A client that
/// the registry does not know gets nothing, and the caller is told.
pub fn send_ammo_update(
    client_id: &ClientID,
    client_registry: &ClientRegistry,
    ammo_in_magazine: u32,
    net: &mut TransportResource,
) -> (result: Result<(), SendError>)
    ensures
        match lookup(client_registry@, *client_id) {
            Some(handle) => result is Ok && final(net)@ == old(net)@.push(
                ammo_message(handle, ammo_in_magazine),
            ),
            None => result == Err::<(), SendError>(SendError::ClientNotFound(*client_id))
                && final(net)@ == old(net)@,
        },
{
    match client_registry.find_client(*client_id) {
        Some(handle) => {
            net.send_with_requirements(
                handle.addr,
                PacketType::PlayerUpdate(PlayerUpdate::AmmoUpdate { ammo_in_magazine }),
                sequenced_on(StreamId::AmmoUpdate),
                UrgencyRequirement::OnTick,
            );
            Ok(())
        },
        None => Err(SendError::ClientNotFound(*client_id)),
    }
}

/// Where a projectile of `gunner` starts: at the gunner's position, set back
/// along the way the gunner faces by the radius of the gunner's own bound,
/// where there is one.
pub open spec fn muzzle(gunner: Gunner) -> Vec2 {
    match gunner.bound {
        Some(bound) => stepped_back(gunner.position, gunner.forward, bound.radius),
        None => gunner.position,
    }
}

/// The projectile that leaves the weapon in the hand of `gunner` at `now`,
/// turned by `deviation`.
pub open spec fn pellet(gunner: Gunner, now: u64, deviation: i32) -> BulletSpawn {
    BulletSpawn {
        damage: Damage(gunner.holster.gun().details.damage),
        position: muzzle(gunner),
        velocity: PolarVelocity {
            speed: gunner.holster.gun().details.bullet_speed,
            heading: gunner.forward,
            deviation,
        },
        spawn_time: now,
        lifespan: gunner.holster.gun().details.lifespan(),
    }
}

/// The weapon `weapon` after a shot at `now`: one round less in the
/// magazine, however many projectiles left.
pub open spec fn fired(weapon: Weapon, now: u64) -> Weapon {
    Weapon {
        bullets_left_in_magazine: (weapon.bullets_left_in_magazine - 1) as u32,
        last_shot_time: now,
        input_lifted: false,
        ..weapon
    }
}

/// The slots `slots` with `weapon` in place `slot`.
pub open spec fn with_weapon(slots: Seq<Slot>, slot: int, weapon: Weapon) -> Seq<Slot> {
    slots.update(slot, Slot { weapon, name: slots[slot].name })
}

/// The news of the projectiles `bullets`, each for every client of
/// `clients`: projectile by projectile, client by client.
pub open spec fn volley_messages(clients: Seq<ClientHandle>, bullets: Seq<BulletSpawn>) -> Seq<
    Message,
>
    decreases bullets.len(),
{
    if bullets.len() == 0 {
        Seq::empty()
    } else {
        volley_messages(clients, bullets.drop_last()) + shot_messages(
            clients,
            shot_event_of(bullets.last()),
        )
    }
}

/// The news of the ammunition left for the client `client`: one message
/// where there is such a client and `clients` has it, else none.
pub open spec fn ammo_messages(
    clients: Seq<ClientHandle>,
    client: Option<Client>,
    ammo_in_magazine: u32,
) -> Seq<Message> {
    match client {
        Some(client) => match lookup(clients, client.id) {
            Some(handle) => seq![ammo_message(handle, ammo_in_magazine)],
            None => Seq::empty(),
        },
        None => Seq::empty(),
    }
}

/// Fires the weapon in the hand of `gunner` at `now`: one projectile for
/// each turn in `deviations`, told to every client as it leaves; then the
/// weapon pays one round, and the gunner's own client is told what is left.
pub fn fire(
    now: u64,
    client_registry: &ClientRegistry,
    net: &mut TransportResource,
    gunner: &mut Gunner,
    deviations: &Vec<i32>,
) -> (bullets: Vec<BulletSpawn>)
    requires
        old(gunner).holster.wf(),
        old(gunner).holster.gun().bullets_left_in_magazine > 0,
        old(gunner).bound is Some ==> old(gunner).position.in_world(),
    ensures
        bullets@.len() == deviations@.len(),
        forall|k: int|
            0 <= k < bullets@.len() ==> #[trigger] bullets@[k] == pellet(
                *old(gunner),
                now,
                deviations@[k],
            ),
        final(gunner).input == old(gunner).input,
        final(gunner).position == old(gunner).position,
        final(gunner).forward == old(gunner).forward,
        final(gunner).bound == old(gunner).bound,
        final(gunner).client == old(gunner).client,
        final(gunner).holster.wf(),
        final(gunner).holster.active() == old(gunner).holster.active(),
        final(gunner).holster@ == with_weapon(
            old(gunner).holster@,
            old(gunner).holster.active(),
            fired(old(gunner).holster.gun(), now),
        ),
        final(net)@ == old(net)@ + volley_messages(client_registry@, bullets@) + ammo_messages(
            client_registry@,
            old(gunner).client,
            fired(old(gunner).holster.gun(), now).bullets_left_in_magazine,
        ),
{
    let weapon = *gunner.holster.active_gun();
    let origin = match gunner.bound {
        Some(bound) => step_back(gunner.position, gunner.forward, bound.radius),
        None => gunner.position,
    };
    let lifespan = weapon.bullet_lifespan();
    let mut bullets: Vec<BulletSpawn> = Vec::new();
    let n = deviations.len();
    let mut k: usize = 0;
    while k < n
        invariant
            k <= n,
            n == deviations@.len(),
            *gunner == *old(gunner),
            weapon == old(gunner).holster.gun(),
            origin == muzzle(*old(gunner)),
            lifespan == weapon.details.lifespan(),
            bullets@.len() == k,
            forall|j: int|
                0 <= j < k ==> #[trigger] bullets@[j] == pellet(*old(gunner), now, deviations@[j]),
            net@ == old(net)@ + volley_messages(client_registry@, bullets@),
        decreases n - k,
    {
        let velocity = PolarVelocity {
            speed: weapon.details.bullet_speed,
            heading: gunner.forward,
            deviation: deviations[k],
        };
        let bullet = BulletSpawn {
            damage: Damage(weapon.details.damage),
            position: origin,
            velocity,
            spawn_time: now,
            lifespan,
        };
        let ghost before = bullets@;
        bullets.push(bullet);
        broadcast_shot_event(client_registry, net, &weapon, &origin, &velocity);
        proof {
            assert(bullets@.drop_last() =~= before);
            assert(bullets@.last() == bullet);
        }
        k += 1;
    }
    let gun = gunner.holster.active_gun_mut();
    gun.last_shot_time = now;
    gun.input_lifted = false;
    gun.bullets_left_in_magazine -= 1;
    let ammo_in_magazine = weapon.bullets_left_in_magazine - 1;
    match gunner.client {
        Some(client) => {
            let _ = send_ammo_update(&client.id, client_registry, ammo_in_magazine, net);
        },
        None => {},
    }
    bullets
}

/// Whether `gunner` pulls the trigger at `now` and the weapon in hand has
/// cooled down.
pub open spec fn fires(gunner: Gunner, now: u64) -> bool {
    gunner.input.flags.holds(SHOOT) && gunner.holster.gun().cooled_down(now)
}

/// What `shoot` asks of a gunner: a gunner who fires has a round left, and
/// one who also has a bound stands within the world.
pub open spec fn ready_to_shoot(gunner: Gunner, now: u64) -> bool {
    &&& gunner.holster.wf()
    &&& fires(gunner, now) ==> {
        &&& gunner.holster.gun().bullets_left_in_magazine > 0
        &&& gunner.bound is Some ==> gunner.position.in_world()
    }
}

/// Whether `gunner` is ready for the shooting stage at `now`.
pub fn is_ready_to_shoot(gunner: &Gunner, now: u64) -> (ready: bool)
    requires
        gunner.holster.wf(),
    ensures
        ready == ready_to_shoot(*gunner, now),
{
    let weapon = gunner.holster.active_gun();
    if gunner.input.flags.intersects(SHOOT) && weapon.is_allowed_to_shoot(now) {
        weapon.bullets_left_in_magazine > 0 && (gunner.bound.is_none()
            || gunner.position.is_in_world())
    } else {
        true
    }
}

/// The slots of `gunner` after the shooting stage at `now`. With the trigger
/// let go, the weapon in hand takes note of that; with the trigger pulled
/// and the weapon cooled down, the weapon has fired; else nothing changes.
pub open spec fn slots_after_shoot(gunner: Gunner, now: u64) -> Seq<Slot> {
    if !gunner.input.flags.holds(SHOOT) {
        with_weapon(
            gunner.holster@,
            gunner.holster.active(),
            Weapon { input_lifted: true, ..gunner.holster.gun() },
        )
    } else if gunner.holster.gun().cooled_down(now) {
        with_weapon(gunner.holster@, gunner.holster.active(), fired(gunner.holster.gun(), now))
    } else {
        gunner.holster@
    }
}

/// Whether `bullets` are the projectiles of `gunner` in the shooting stage
/// at `now`. A gunner who fires sends as many as the weapon has pellets, each
/// turned within the weapon's spread; the turns apart, chance has no say.
pub open spec fn is_volley(gunner: Gunner, now: u64, bullets: Seq<BulletSpawn>) -> bool {
    if fires(gunner, now) {
        &&& bullets.len() == gunner.holster.gun().details.pellet_number
        &&& forall|k: int|
            0 <= k < bullets.len() ==> {
                &&& #[trigger] bullets[k] == pellet(gunner, now, bullets[k].velocity.deviation)
                &&& within_spread(
                    bullets[k].velocity.deviation,
                    gunner.holster.gun().details.spread,
                )
            }
    } else {
        bullets.len() == 0
    }
}

/// The messages that the shooting stage at `now` queues for `gunner`, whose
/// projectiles are `bullets`.
pub open spec fn gunner_shot_messages(
    gunner: Gunner,
    now: u64,
    clients: Seq<ClientHandle>,
    bullets: Seq<BulletSpawn>,
) -> Seq<Message> {
    if fires(gunner, now) {
        volley_messages(clients, bullets) + ammo_messages(
            clients,
            gunner.client,
            fired(gunner.holster.gun(), now).bullets_left_in_magazine,
        )
    } else {
        Seq::empty()
    }
}

/// The shooting stage for one gunner.
pub fn shoot_one(
    now: u64,
    client_registry: &ClientRegistry,
    net: &mut TransportResource,
    gunner: &mut Gunner,
) -> (bullets: Vec<BulletSpawn>)
    requires
        ready_to_shoot(*old(gunner), now),
    ensures
        is_volley(*old(gunner), now, bullets@),
        final(gunner).input == old(gunner).input,
        final(gunner).position == old(gunner).position,
        final(gunner).forward == old(gunner).forward,
        final(gunner).bound == old(gunner).bound,
        final(gunner).client == old(gunner).client,
        final(gunner).holster.wf(),
        final(gunner).holster.active() == old(gunner).holster.active(),
        final(gunner).holster@ == slots_after_shoot(*old(gunner), now),
        final(net)@ == old(net)@ + gunner_shot_messages(
            *old(gunner),
            now,
            client_registry@,
            bullets@,
        ),
{
    if gunner.input.flags.intersects(SHOOT) {
        let weapon = *gunner.holster.active_gun();
        if weapon.is_allowed_to_shoot(now) {
            let mut deviations: Vec<i32> = Vec::new();
            let mut k: u32 = 0;
            while k < weapon.details.pellet_number
                invariant
                    k <= weapon.details.pellet_number,
                    deviations@.len() == k,
                    forall|j: int|
                        0 <= j < k ==> within_spread(
                            #[trigger] deviations@[j],
                            weapon.details.spread,
                        ),
                decreases weapon.details.pellet_number - k,
            {
                deviations.push(spread_deviation(weapon.details.spread));
                k += 1;
            }
            fire(now, client_registry, net, gunner, &deviations)
        } else {
            assert(net@ + Seq::<Message>::empty() =~= net@);
            Vec::new()
        }
    } else {
        let gun = gunner.holster.active_gun_mut();
        gun.input_lifted = true;
        assert(net@ + Seq::<Message>::empty() =~= net@);
        Vec::new()
    }
}

/// The number of projectiles that `gunner` sends in the shooting stage at
/// `now`.
pub open spec fn pellets_due(gunner: Gunner, now: u64) -> nat {
    if fires(gunner, now) {
        gunner.holster.gun().details.pellet_number as nat
    } else {
        0
    }
}

/// Whether `bullets` are the projectiles of the gunners `gunners` in the
/// shooting stage at `now`: the volley of the first gunner, then that of the
/// second, and so on.
pub open spec fn are_volleys(gunners: Seq<Gunner>, now: u64, bullets: Seq<BulletSpawn>) -> bool
    decreases gunners.len(),
{
    if gunners.len() == 0 {
        bullets.len() == 0
    } else {
        let due = pellets_due(gunners.last(), now);
        &&& bullets.len() >= due
        &&& is_volley(gunners.last(), now, bullets.skip(bullets.len() - due))
        &&& are_volleys(gunners.drop_last(), now, bullets.take(bullets.len() - due))
    }
}

/// The messages that the shooting stage at `now` queues for the gunners
/// `gunners`, whose projectiles are `bullets`: gunner by gunner.
pub open spec fn shot_traffic(
    gunners: Seq<Gunner>,
    now: u64,
    clients: Seq<ClientHandle>,
    bullets: Seq<BulletSpawn>,
) -> Seq<Message>
    decreases gunners.len(),
{
    if gunners.len() == 0 {
        Seq::empty()
    } else {
        let due = pellets_due(gunners.last(), now);
        shot_traffic(gunners.drop_last(), now, clients, bullets.take(bullets.len() - due))
            + gunner_shot_messages(
            gunners.last(),
            now,
            clients,
            bullets.skip(bullets.len() - due),
        )
    }
}

/// The shooting stage of the tick at `now`. Every gunner who pulls the
/// trigger of a weapon that has cooled down fires it; every gunner who has
/// let go of the trigger has the weapon in hand take note. The projectiles
/// to be spawned come back, in the order of the gunners.
pub fn shoot(
    now: u64,
    client_registry: &ClientRegistry,
    net: &mut TransportResource,
    gunners: &mut Vec<Gunner>,
) -> (bullets: Vec<BulletSpawn>)
    requires
        forall|i: int| 0 <= i < old(gunners)@.len() ==> ready_to_shoot(#[trigger] old(gunners)@[i], now),
    ensures
        final(gunners)@.len() == old(gunners)@.len(),
        forall|i: int|
            0 <= i < old(gunners)@.len() ==> {
                &&& (#[trigger] final(gunners)@[i]).input == old(gunners)@[i].input
                &&& final(gunners)@[i].position == old(gunners)@[i].position
                &&& final(gunners)@[i].forward == old(gunners)@[i].forward
                &&& final(gunners)@[i].bound == old(gunners)@[i].bound
                &&& final(gunners)@[i].client == old(gunners)@[i].client
                &&& final(gunners)@[i].holster.wf()
                &&& final(gunners)@[i].holster.active() == old(gunners)@[i].holster.active()
                &&& final(gunners)@[i].holster@ == slots_after_shoot(old(gunners)@[i], now)
            },
        are_volleys(old(gunners)@, now, bullets@),
        final(net)@ == old(net)@ + shot_traffic(old(gunners)@, now, client_registry@, bullets@),
{
    let mut bullets: Vec<BulletSpawn> = Vec::new();
    let n = gunners.len();
    let mut i: usize = 0;
    proof {
        assert(old(gunners)@.take(0).len() == 0);
        assert(net@ + Seq::<Message>::empty() =~= net@);
    }
    while i < n
        invariant
            i <= n,
            n == gunners@.len(),
            n == old(gunners)@.len(),
            forall|j: int| i <= j < n ==> #[trigger] gunners@[j] == old(gunners)@[j],
            forall|j: int| 0 <= j < n ==> ready_to_shoot(#[trigger] old(gunners)@[j], now),
            forall|j: int|
                0 <= j < i ==> {
                    &&& (#[trigger] gunners@[j]).input == old(gunners)@[j].input
                    &&& gunners@[j].position == old(gunners)@[j].position
                    &&& gunners@[j].forward == old(gunners)@[j].forward
                    &&& gunners@[j].bound == old(gunners)@[j].bound
                    &&& gunners@[j].client == old(gunners)@[j].client
                    &&& gunners@[j].holster.wf()
                    &&& gunners@[j].holster.active() == old(gunners)@[j].holster.active()
                    &&& gunners@[j].holster@ == slots_after_shoot(old(gunners)@[j], now)
                },
            are_volleys(old(gunners)@.take(i as int), now, bullets@),
            net@ == old(net)@ + shot_traffic(
                old(gunners)@.take(i as int),
                now,
                client_registry@,
                bullets@,
            ),
        decreases n - i,
    {
        let ghost before = bullets@;
        let ghost queued = net@;
        let gunner = &mut gunners[i];
        let mut volley = shoot_one(now, client_registry, net, gunner);
        let ghost shots = volley@;
        bullets.append(&mut volley);
        proof {
            let done = old(gunners)@.take(i as int + 1);
            let due = pellets_due(old(gunners)@[i as int], now);
            assert(done.last() == old(gunners)@[i as int]);
            assert(done.drop_last() =~= old(gunners)@.take(i as int));
            assert(shots.len() == due);
            assert(bullets@.skip(bullets@.len() - due) =~= shots);
            assert(bullets@.take(bullets@.len() - due) =~= before);
        }
        i += 1;
    }
    proof {
        assert(old(gunners)@.take(n as int) =~= old(gunners)@);
    }
    bullets
}

/// The slot that `gunner` switches to: the selected one, where the holster
/// has it and it is not in hand already.
pub open spec fn switches_to(gunner: Gunner) -> Option<usize> {
    match selected(gunner.input) {
        Some(slot) => if slot != gunner.holster.active() && slot < gunner.holster@.len() {
            Some(slot)
        } else {
            None
        },
        None => None,
    }
}

/// The weapon `weapon` as it is put away at `now`: a reload that is under
/// way starts over, and is not dropped.
pub open spec fn put_away(weapon: Weapon, now: u64) -> Weapon {
    if weapon.reload_started_at is Some {
        Weapon { reload_started_at: Some(now), ..weapon }
    } else {
        weapon
    }
}

/// The slots of `gunner` after the switching stage at `now`.
pub open spec fn slots_after_switch(gunner: Gunner, now: u64) -> Seq<Slot> {
    if switches_to(gunner) is Some {
        with_weapon(
            gunner.holster@,
            gunner.holster.active(),
            put_away(gunner.holster.gun(), now),
        )
    } else {
        gunner.holster@
    }
}

/// The place of the weapon that `gunner` has in hand after the switching
/// stage.
pub open spec fn active_after_switch(gunner: Gunner) -> int {
    match switches_to(gunner) {
        Some(slot) => slot as int,
        None => gunner.holster.active(),
    }
}

/// The news that the weapon of `slot` is now in hand, for the client behind
/// `handle`.
pub open spec fn switch_message(handle: ClientHandle, slot: Slot) -> Message {
    Message {
        destination: handle.addr,
        payload: PacketType::PlayerUpdate(
            PlayerUpdate::WeaponSwitch {
                name: slot.name,
                magazine_size: slot.weapon.details.magazine_size,
                ammo_in_magazine: slot.weapon.bullets_left_in_magazine,
            },
        ),
        delivery: reliable_sequenced(StreamId::WeaponSwitch),
        urgency: UrgencyRequirement::OnTick,
    }
}

/// The messages that the switching stage queues for `gunner`: one for the
/// gunner's own client, where the gunner switches and `clients` has that
/// client; else none.
pub open spec fn switch_messages(gunner: Gunner, clients: Seq<ClientHandle>) -> Seq<Message> {
    match (switches_to(gunner), gunner.client) {
        (Some(slot), Some(client)) => match lookup(clients, client.id) {
            Some(handle) => seq![switch_message(handle, gunner.holster@[slot as int])],
            None => Seq::empty(),
        },
        _ => Seq::empty(),
    }
}

/// The switching stage for one gunner.
pub fn switch_one(
    now: u64,
    client_registry: &ClientRegistry,
    net: &mut TransportResource,
    gunner: &mut Gunner,
)
    requires
        old(gunner).holster.wf(),
    ensures
        final(gunner).input == old(gunner).input,
        final(gunner).position == old(gunner).position,
        final(gunner).forward == old(gunner).forward,
        final(gunner).bound == old(gunner).bound,
        final(gunner).client == old(gunner).client,
        final(gunner).holster.wf(),
        final(gunner).holster.active() == active_after_switch(*old(gunner)),
        final(gunner).holster@ == slots_after_switch(*old(gunner), now),
        final(net)@ == old(net)@ + switch_messages(*old(gunner), client_registry@),
{
    proof {
        assert(net@ + Seq::<Message>::empty() =~= net@);
    }
    let slot = match selected_slot(&gunner.input) {
        Some(slot) => slot,
        None => { return ; },
    };
    let previous = gunner.holster.active_slot();
    if previous == slot {
        return ;
    }
    let gun_name = match gunner.holster.switch(slot) {
        Some(name) => name,
        None => { return ; },
    };
    let put_down = gunner.holster.gun_mut(previous);
    if put_down.reload_started_at.is_some() {
        put_down.reload_started_at = Some(now);
    }
    let gun = *gunner.holster.active_gun();
    let handle = match gunner.client {
        Some(client) => match client_registry.find_client(client.id) {
            Some(handle) => handle,
            None => { return ; },
        },
        None => { return ; },
    };
    let ghost queued = net@;
    net.send_with_requirements(
        handle.addr,
        PacketType::PlayerUpdate(
            PlayerUpdate::WeaponSwitch {
                name: gun_name,
                magazine_size: gun.details.magazine_size,
                ammo_in_magazine: gun.bullets_left_in_magazine,
            },
        ),
        sequenced_on(StreamId::WeaponSwitch),
        UrgencyRequirement::OnTick,
    );
    proof {
        let message = switch_message(*handle, old(gunner).holster@[slot as int]);
        assert(net@ =~= queued + seq![message]);
    }
}

/// The messages that the switching stage queues for the gunners `gunners`:
/// gunner by gunner.
pub open spec fn switch_traffic(gunners: Seq<Gunner>, clients: Seq<ClientHandle>) -> Seq<Message>
    decreases gunners.len(),
{
    if gunners.len() == 0 {
        Seq::empty()
    } else {
        switch_traffic(gunners.drop_last(), clients) + switch_messages(gunners.last(), clients)
    }
}

/// The switching stage of the tick at `now`. Every gunner who selects a slot
/// of the holster other than the one in hand takes that weapon in hand; the
/// weapon put away starts a reload over that was under way; the gunner's
/// client is told of the new weapon.
pub fn switch_weapon(
    now: u64,
    client_registry: &ClientRegistry,
    net: &mut TransportResource,
    gunners: &mut Vec<Gunner>,
)
    requires
        forall|i: int| 0 <= i < old(gunners)@.len() ==> (#[trigger] old(gunners)@[i]).holster.wf(),
    ensures
        final(gunners)@.len() == old(gunners)@.len(),
        forall|i: int|
            0 <= i < old(gunners)@.len() ==> {
                &&& (#[trigger] final(gunners)@[i]).input == old(gunners)@[i].input
                &&& final(gunners)@[i].position == old(gunners)@[i].position
                &&& final(gunners)@[i].forward == old(gunners)@[i].forward
                &&& final(gunners)@[i].bound == old(gunners)@[i].bound
                &&& final(gunners)@[i].client == old(gunners)@[i].client
                &&& final(gunners)@[i].holster.wf()
                &&& final(gunners)@[i].holster.active() == active_after_switch(old(gunners)@[i])
                &&& final(gunners)@[i].holster@ == slots_after_switch(old(gunners)@[i], now)
            },
        final(net)@ == old(net)@ + switch_traffic(old(gunners)@, client_registry@),
{
    let n = gunners.len();
    let mut i: usize = 0;
    proof {
        assert(old(gunners)@.take(0).len() == 0);
        assert(net@ + Seq::<Message>::empty() =~= net@);
    }
    while i < n
        invariant
            i <= n,
            n == gunners@.len(),
            n == old(gunners)@.len(),
            forall|j: int| i <= j < n ==> #[trigger] gunners@[j] == old(gunners)@[j],
            forall|j: int| 0 <= j < n ==> (#[trigger] old(gunners)@[j]).holster.wf(),
            forall|j: int|
                0 <= j < i ==> {
                    &&& (#[trigger] gunners@[j]).input == old(gunners)@[j].input
                    &&& gunners@[j].position == old(gunners)@[j].position
                    &&& gunners@[j].forward == old(gunners)@[j].forward
                    &&& gunners@[j].bound == old(gunners)@[j].bound
                    &&& gunners@[j].client == old(gunners)@[j].client
                    &&& gunners@[j].holster.wf()
                    &&& gunners@[j].holster.active() == active_after_switch(old(gunners)@[j])
                    &&& gunners@[j].holster@ == slots_after_switch(old(gunners)@[j], now)
                },
            net@ == old(net)@ + switch_traffic(old(gunners)@.take(i as int), client_registry@),
        decreases n - i,
    {
        let gunner = &mut gunners[i];
        switch_one(now, client_registry, net, gunner);
        proof {
            let done = old(gunners)@.take(i as int + 1);
            assert(done.last() == old(gunners)@[i as int]);
            assert(done.drop_last() =~= old(gunners)@.take(i as int));
        }
        i += 1;
    }
    proof {
        assert(old(gunners)@.take(n as int) =~= old(gunners)@);
    }
}

/// A shot costs one round, however many projectiles leave with it; the
/// other weapons of the holster are left alone.
pub proof fn lemma_shot_costs_one_round(gunner: Gunner, now: u64)
    requires
        gunner.holster.wf(),
        fires(gunner, now),
        gunner.holster.gun().bullets_left_in_magazine > 0,
    ensures
        slots_after_shoot(gunner, now).len() == gunner.holster@.len(),
        slots_after_shoot(gunner, now)[gunner.holster.active()].weapon.bullets_left_in_magazine
            == gunner.holster.gun().bullets_left_in_magazine - 1,
        slots_after_shoot(gunner, now)[gunner.holster.active()].weapon.last_shot_time == now,
        forall|slot: int|
            0 <= slot < gunner.holster@.len() && slot != gunner.holster.active()
                ==> #[trigger] slots_after_shoot(gunner, now)[slot] == gunner.holster@[slot],
{
}

/// A weapon without spread turns no projectile: every projectile of its
/// volley flies the way the gunner faces.
pub proof fn lemma_no_spread_no_deviation(gunner: Gunner, now: u64, bullets: Seq<BulletSpawn>)
    requires
        fires(gunner, now),
        is_volley(gunner, now, bullets),
        gunner.holster.gun().details.spread <= 0,
    ensures
        forall|k: int|
            0 <= k < bullets.len() ==> (#[trigger] bullets[k]).velocity.deviation == 0
                && bullets[k] == pellet(gunner, now, 0),
{
    assert forall|k: int| 0 <= k < bullets.len() implies (#[trigger] bullets[k]).velocity.deviation
        == 0 && bullets[k] == pellet(gunner, now, 0) by {
        assert(bullets[k] == pellet(gunner, now, bullets[k].velocity.deviation));
    }
}

/// Every projectile of a volley is told to every client, and to nobody
/// else: the volley queues as many messages as projectiles times clients.
pub proof fn lemma_volley_reaches_everyone(clients: Seq<ClientHandle>, bullets: Seq<BulletSpawn>)
    ensures
        volley_messages(clients, bullets).len() == bullets.len() * clients.len(),
        forall|k: int|
            0 <= k < volley_messages(clients, bullets).len() ==> (#[trigger] volley_messages(
                clients,
                bullets,
            )[k]).payload is ShotEvent,
    decreases bullets.len(),
{
    if bullets.len() == 0 {
        assert(bullets.len() * clients.len() == 0) by (nonlinear_arith)
            requires
                bullets.len() == 0,
        ;
    } else {
        lemma_volley_reaches_everyone(clients, bullets.drop_last());
        let earlier = volley_messages(clients, bullets.drop_last());
        let latest = shot_messages(clients, shot_event_of(bullets.last()));
        assert(bullets.len() * clients.len() == (bullets.len() - 1) * clients.len()
            + clients.len()) by (nonlinear_arith);
        assert forall|k: int| 0 <= k < volley_messages(clients, bullets).len() implies (
        #[trigger] volley_messages(clients, bullets)[k]).payload is ShotEvent by {
            if k < earlier.len() {
                assert(volley_messages(clients, bullets)[k] == earlier[k]);
            } else {
                assert(volley_messages(clients, bullets)[k] == latest[k - earlier.len()]);
            }
        }
    }
}

/// The ammunition left is told to the gunner's own client and to nobody
/// else: one message where the registry has that client, none where the
/// gunner has no client or the registry does not know it.
pub proof fn lemma_ammo_goes_to_the_shooter(
    clients: Seq<ClientHandle>,
    client: Option<Client>,
    ammo_in_magazine: u32,
)
    ensures
        ammo_messages(clients, client, ammo_in_magazine).len() == if client is Some && lookup(
            clients,
            client->Some_0.id,
        ) is Some {
            1nat
        } else {
            0nat
        },
        ammo_messages(clients, client, ammo_in_magazine).len() == 1 ==> {
            &&& ammo_messages(clients, client, ammo_in_magazine)[0].destination == lookup(
                clients,
                client->Some_0.id,
            )->Some_0.addr
            &&& ammo_messages(clients, client, ammo_in_magazine)[0].payload
                == PacketType::PlayerUpdate(PlayerUpdate::AmmoUpdate { ammo_in_magazine })
        },
{
}

/// A weapon that is put away in the middle of a reload keeps reloading, from
/// the start: the time at which the reload began becomes the time of the
/// switch, and nothing else about the weapon changes.
pub proof fn lemma_switch_restarts_reload(gunner: Gunner, now: u64)
    requires
        gunner.holster.wf(),
        switches_to(gunner) is Some,
        gunner.holster.gun().reload_started_at is Some,
    ensures
        slots_after_switch(gunner, now)[gunner.holster.active()].weapon == (Weapon {
            reload_started_at: Some(now),
            ..gunner.holster.gun()
        }),
        slots_after_switch(gunner, now)[gunner.holster.active()].name
            == gunner.holster@[gunner.holster.active()].name,
        forall|slot: int|
            0 <= slot < gunner.holster@.len() && slot != gunner.holster.active()
                ==> #[trigger] slots_after_switch(gunner, now)[slot] == gunner.holster@[slot],
{
}

} // verus!
