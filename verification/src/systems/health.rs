//! Damage: health goes down, entities are eliminated, clients are told.

use vstd::prelude::*;
use crate::components::{Client, Damage, Eliminated, Health};
use crate::entity::{
    find_row, first_row, has_row, lemma_first_row_found, lemma_no_row, Entity, Identified,
};
use crate::events::DamageEvent;
use crate::network::{
    reliable_sequenced, sequenced_on, Message, PacketType, PlayerUpdate, SendError, StreamId,
    TransportResource, UrgencyRequirement,
};
use crate::registry::{lookup, ClientHandle, ClientID, ClientRegistry};

verus! {

/// An entity that can be hurt, as the damage stage sees it.
#[derive(Copy, Clone, Debug, PartialEq, Eq, Structural)]
pub struct Vitals {
    pub entity: Entity,
    pub health: Health,
    pub client: Option<Client>,
    /// Set once the entity's health has reached zero, and never again.
    pub eliminated: Option<Eliminated>,
}

impl Identified for Vitals {
    open spec fn owner(&self) -> Entity {
        self.entity
    }

    fn entity(&self) -> (entity: Entity) {
        self.entity
    }
}

/// The row `vitals` after it took `damage` at `now`. Damage that is at least
/// the health left brings the health to zero, and eliminates the entity at
/// `now` unless it was eliminated before; less damage is taken off the
/// health.
pub open spec fn damaged(vitals: Vitals, damage: Damage, now: u64) -> Vitals {
    if vitals.health.0 <= damage.0 {
        Vitals {
            health: Health(0),
            eliminated: match vitals.eliminated {
                Some(earlier) => Some(earlier),
                None => Some(Eliminated { elimination_time: now }),
            },
            ..vitals
        }
    } else {
        Vitals { health: Health((vitals.health.0 - damage.0) as u32), ..vitals }
    }
}

/// Deals `damage` to the entity of `vitals` at `now`.
pub fn apply_damage(vitals: &mut Vitals, damage: Damage, now: u64)
    ensures
        *final(vitals) == damaged(*old(vitals), damage, now),
{
    let health_drained = vitals.health.0 <= damage.0;
    if health_drained {
        vitals.health = Health(0);
        if vitals.eliminated.is_none() {
            vitals.eliminated = Some(Eliminated { elimination_time: now });
        }
    } else {
        vitals.health = Health(vitals.health.0 - damage.0);
    }
}

/// Damage that is at least the health left brings the health to zero and
/// eliminates the entity, once: an entity that was eliminated before stays
/// eliminated at the earlier time. Less damage is taken off the health, and
/// eliminates nobody. Whatever the damage, health does not rise.
pub proof fn lemma_damage_drains_or_lowers(vitals: Vitals, damage: Damage, now: u64)
    ensures
        damage.0 >= vitals.health.0 ==> {
            &&& damaged(vitals, damage, now).health == Health(0)
            &&& damaged(vitals, damage, now).eliminated is Some
            &&& vitals.eliminated is None ==> damaged(vitals, damage, now).eliminated == Some(
                Eliminated { elimination_time: now },
            )
            &&& vitals.eliminated is Some ==> damaged(vitals, damage, now).eliminated
                == vitals.eliminated
        },
        damage.0 < vitals.health.0 ==> {
            &&& damaged(vitals, damage, now).health.0 == vitals.health.0 - damage.0
            &&& damaged(vitals, damage, now).eliminated == vitals.eliminated
        },
        damaged(vitals, damage, now).health.0 <= vitals.health.0,
        damaged(vitals, damage, now).entity == vitals.entity,
        damaged(vitals, damage, now).client == vitals.client,
{
}

/// The news of the health left, for the client behind `handle`.
pub open spec fn health_message(handle: ClientHandle, health: Health) -> Message {
    Message {
        destination: handle.addr,
        payload: PacketType::PlayerUpdate(PlayerUpdate::HealthUpdate(health)),
        delivery: reliable_sequenced(StreamId::HealthUpdate),
        urgency: UrgencyRequirement::OnTick,
    }
}

/// Tells the client `client` of its entity's health. A client that the
/// registry does not know gets nothing, and the caller is told.
pub fn notify_client(
    client_registry: &ClientRegistry,
    transport: &mut TransportResource,
    new_health: Health,
    client: &ClientID,
) -> (result: Result<(), SendError>)
    ensures
        match lookup(client_registry@, *client) {
            Some(handle) => result is Ok && final(transport)@ == old(transport)@.push(
                health_message(handle, new_health),
            ),
            None => result == Err::<(), SendError>(SendError::ClientNotFound(*client))
                && final(transport)@ == old(transport)@,
        },
{
    let client_handle = match client_registry.find_client(*client) {
        Some(handle) => handle,
        None => { return Err(SendError::ClientNotFound(*client)); },
    };
    transport.send_with_requirements(
        client_handle.addr,
        PacketType::PlayerUpdate(PlayerUpdate::HealthUpdate(new_health)),
        sequenced_on(StreamId::HealthUpdate),
        UrgencyRequirement::OnTick,
    );
    Ok(())
}

/// The rows `rows` after the damage `event` at `now`: the first row of the
/// target takes the damage; without such a row nothing changes.
pub open spec fn vitals_after_event(rows: Seq<Vitals>, event: DamageEvent, now: u64) -> Seq<
    Vitals,
> {
    match first_row(rows, event.target) {
        Some(index) => rows.update(index, damaged(rows[index], event.damage, now)),
        None => rows,
    }
}

/// The messages that the damage `event` at `now` queues, `rows` being the
/// rows before it: the health left, for the target's own client, where the
/// target has a row and a client and `clients` has that client.
pub open spec fn event_messages(
    rows: Seq<Vitals>,
    event: DamageEvent,
    now: u64,
    clients: Seq<ClientHandle>,
) -> Seq<Message> {
    match first_row(rows, event.target) {
        Some(index) => match rows[index].client {
            Some(client) => match lookup(clients, client.id) {
                Some(handle) => seq![
                    health_message(handle, damaged(rows[index], event.damage, now).health),
                ],
                None => Seq::empty(),
            },
            None => Seq::empty(),
        },
        None => Seq::empty(),
    }
}

/// The rows `rows` after the damage events `events` at `now`, one after the
/// other.
pub open spec fn vitals_after(rows: Seq<Vitals>, events: Seq<DamageEvent>, now: u64) -> Seq<
    Vitals,
>
    decreases events.len(),
{
    if events.len() == 0 {
        rows
    } else {
        vitals_after_event(vitals_after(rows, events.drop_last(), now), events.last(), now)
    }
}

/// The messages that the damage events `events` at `now` queue, one event
/// after the other, `rows` being the rows before the first.
pub open spec fn damage_traffic(
    rows: Seq<Vitals>,
    events: Seq<DamageEvent>,
    now: u64,
    clients: Seq<ClientHandle>,
) -> Seq<Message>
    decreases events.len(),
{
    if events.len() == 0 {
        Seq::empty()
    } else {
        damage_traffic(rows, events.drop_last(), now, clients) + event_messages(
            vitals_after(rows, events.drop_last(), now),
            events.last(),
            now,
            clients,
        )
    }
}

/// The damage stage of the tick at `now`: deals the damage of each event to
/// its target, in the order of the events, and tells the target's client of
/// the health left. An event whose target has no row, and a client that the
/// registry does not know, stop nothing.
pub fn handle_damage(
    now: u64,
    damage_events: &Vec<DamageEvent>,
    healths: &mut Vec<Vitals>,
    client_registry: &ClientRegistry,
    transport: &mut TransportResource,
)
    ensures
        final(healths)@ == vitals_after(old(healths)@, damage_events@, now),
        final(transport)@ == old(transport)@ + damage_traffic(
            old(healths)@,
            damage_events@,
            now,
            client_registry@,
        ),
{
    let n = damage_events.len();
    let mut k: usize = 0;
    proof {
        assert(damage_events@.take(0).len() == 0);
        assert(transport@ + Seq::<Message>::empty() =~= transport@);
    }
    while k < n
        invariant
            k <= n,
            n == damage_events@.len(),
            healths@ == vitals_after(old(healths)@, damage_events@.take(k as int), now),
            transport@ == old(transport)@ + damage_traffic(
                old(healths)@,
                damage_events@.take(k as int),
                now,
                client_registry@,
            ),
        decreases n - k,
    {
        let damage_event = damage_events[k];
        let ghost before = healths@;
        let ghost queued = transport@;
        proof {
            let done = damage_events@.take(k as int + 1);
            assert(done.last() == damage_event);
            assert(done.drop_last() =~= damage_events@.take(k as int));
            assert(queued + Seq::<Message>::empty() =~= queued);
        }
        match find_row(healths, damage_event.target) {
            Some(index) => {
                let vitals = &mut healths[index];
                apply_damage(vitals, damage_event.damage, now);
                let health = vitals.health;
                match vitals.client {
                    Some(client) => {
                        let _ = notify_client(client_registry, transport, health, &client.id);
                        proof {
                            match lookup(client_registry@, client.id) {
                                Some(handle) => {
                                    assert(transport@ =~= queued + seq![
                                        health_message(handle, health),
                                    ]);
                                },
                                None => {},
                            }
                        }
                    },
                    None => {},
                }
            },
            None => {},
        }
        k += 1;
    }
    proof {
        assert(damage_events@.take(n as int) =~= damage_events@);
    }
}

/// A damage event whose target has no row changes no row and queues no
/// message.
pub proof fn lemma_damage_without_health_is_idle(
    rows: Seq<Vitals>,
    event: DamageEvent,
    now: u64,
    clients: Seq<ClientHandle>,
)
    requires
        !has_row(rows, event.target),
    ensures
        vitals_after_event(rows, event, now) == rows,
        event_messages(rows, event, now, clients) == Seq::<Message>::empty(),
{
    lemma_no_row(rows, event.target);
}

/// Whatever damage events come, in whatever number: every row stays the row
/// of its entity and its client; health does not rise; an entity that is
/// eliminated stays eliminated at the time at which it first was, and an
/// entity that the events eliminate is eliminated at `now` with no health
/// left.
pub proof fn lemma_damage_only_lowers(rows: Seq<Vitals>, events: Seq<DamageEvent>, now: u64)
    ensures
        vitals_after(rows, events, now).len() == rows.len(),
        forall|i: int|
            0 <= i < rows.len() ==> {
                &&& (#[trigger] vitals_after(rows, events, now)[i]).entity == rows[i].entity
                &&& vitals_after(rows, events, now)[i].client == rows[i].client
                &&& vitals_after(rows, events, now)[i].health.0 <= rows[i].health.0
                &&& rows[i].eliminated is Some ==> vitals_after(rows, events, now)[i].eliminated
                    == rows[i].eliminated
                &&& rows[i].eliminated is None && vitals_after(
                    rows,
                    events,
                    now,
                )[i].eliminated is Some ==> {
                    &&& vitals_after(rows, events, now)[i].health == Health(0)
                    &&& vitals_after(rows, events, now)[i].eliminated == Some(
                        Eliminated { elimination_time: now },
                    )
                }
            },
    decreases events.len(),
{
    if events.len() > 0 {
        lemma_damage_only_lowers(rows, events.drop_last(), now);
        let before = vitals_after(rows, events.drop_last(), now);
        lemma_first_row_found(before, events.last().target);
    }
}

} // verus!
