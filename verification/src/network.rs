//! Delivery channels, delivery classes and the queue of outgoing messages.

use vstd::prelude::*;
use vstd::std_specs::convert::FromSpecImpl;
use crate::components::Health;
use crate::geometry::{PolarVelocity, Vec2};
use crate::registry::{Address, ClientID};

verus! {

/// A logical delivery stream. Messages of one stream arrive in order and
/// without duplicates; nothing is promised across streams.
#[derive(Copy, Clone, Debug, PartialEq, Eq, Structural)]
pub enum StreamId {
    InputState,
    HealthUpdate,
    WeaponSwitch,
    ShotEvent,
    AmmoUpdate,
}

impl StreamId {
    /// The number that names the stream on the wire.
    pub open spec fn channel(self) -> u8 {
        match self {
            StreamId::InputState => 0,
            StreamId::HealthUpdate => 1,
            StreamId::WeaponSwitch => 2,
            StreamId::ShotEvent => 3,
            StreamId::AmmoUpdate => 4,
        }
    }
}

impl From<StreamId> for Option<u8> {
    fn from(id: StreamId) -> (channel: Option<u8>) {
        match id {
            StreamId::InputState => Some(0),
            StreamId::HealthUpdate => Some(1),
            StreamId::WeaponSwitch => Some(2),
            StreamId::ShotEvent => Some(3),
            StreamId::AmmoUpdate => Some(4),
        }
    }
}

impl FromSpecImpl<StreamId> for Option<u8> {
    open spec fn obeys_from_spec() -> bool {
        true
    }

    open spec fn from_spec(id: StreamId) -> Option<u8> {
        Some(id.channel())
    }
}

/// How hard the transport tries to deliver a message, and in what order.
#[derive(Copy, Clone, Debug, PartialEq, Eq, Structural)]
pub enum DeliveryRequirement {
    Unreliable,
    UnreliableSequenced(Option<u8>),
    Reliable,
    ReliableSequenced(Option<u8>),
    ReliableOrdered(Option<u8>),
}

/// When the transport sends a queued message.
#[derive(Copy, Clone, Debug, PartialEq, Eq, Structural)]
pub enum UrgencyRequirement {
    /// With the other messages of the tick.
    OnTick,
    /// As soon as it is queued.
    Immediate,
}

/// News for one player about their own entity.
#[derive(Clone, Debug, PartialEq, Eq)]
pub enum PlayerUpdate {
    HealthUpdate(Health),
    WeaponSwitch { name: String, magazine_size: u32, ammo_in_magazine: u32 },
    AmmoUpdate { ammo_in_magazine: u32 },
}

/// A projectile has left a weapon.
#[derive(Copy, Clone, Debug, PartialEq, Eq, Structural)]
pub struct ShotEvent {
    /// Where the projectile starts.
    pub position: Vec2,
    pub velocity: PolarVelocity,
    /// Milliseconds that the projectile lives.
    pub bullet_time_limit: u64,
}

/// What goes over the wire.
#[derive(Clone, Debug, PartialEq, Eq)]
pub enum PacketType {
    PlayerUpdate(PlayerUpdate),
    ShotEvent(ShotEvent),
}

/// A packet on its way to one client.
#[derive(Clone, Debug, PartialEq, Eq)]
pub struct Message {
    pub destination: Address,
    pub payload: PacketType,
    pub delivery: DeliveryRequirement,
    pub urgency: UrgencyRequirement,
}

/// Why a message to a client was not queued.
#[derive(Copy, Clone, Debug, PartialEq, Eq, Structural)]
pub enum SendError {
    /// The registry has no client of this id.
    ClientNotFound(ClientID),
}

/// The messages that the stages of a tick have handed over for sending.
/// Handing one over never blocks and never fails.
#[derive(Debug)]
pub struct TransportResource {
    messages: Vec<Message>,
}

/// The delivery stream `stream`, reliable and in sequence.
pub open spec fn reliable_sequenced(stream: StreamId) -> DeliveryRequirement {
    DeliveryRequirement::ReliableSequenced(Some(stream.channel()))
}

impl TransportResource {
    /// The queued messages, oldest first.
    pub closed spec fn view(self) -> Seq<Message> {
        self.messages@
    }

    /// An empty queue.
    pub fn new() -> (transport: Self)
        ensures
            transport@ == Seq::<Message>::empty(),
    {
        TransportResource { messages: Vec::new() }
    }

    /// Queues `payload` for the client at `addr`.
    pub fn send_with_requirements(
        &mut self,
        addr: Address,
        payload: PacketType,
        delivery: DeliveryRequirement,
        urgency: UrgencyRequirement,
    )
        ensures
            final(self)@ == old(self)@.push(
                Message { destination: addr, payload, delivery, urgency },
            ),
    {
        self.messages.push(Message { destination: addr, payload, delivery, urgency });
    }

    /// The queued messages, oldest first.
    pub fn get_messages(&self) -> (messages: &Vec<Message>)
        ensures
            messages@ == self@,
    {
        &self.messages
    }

    /// Empties the queue and returns what was in it, oldest first.
    pub fn drain_messages(&mut self) -> (messages: Vec<Message>)
        ensures
            messages@ == old(self)@,
            final(self)@ == Seq::<Message>::empty(),
    {
        let mut drained: Vec<Message> = Vec::new();
        core::mem::swap(&mut self.messages, &mut drained);
        drained
    }
}

impl Default for TransportResource {
    fn default() -> (transport: Self)
        ensures
            transport@ == Seq::<Message>::empty(),
    {
        TransportResource::new()
    }
}

/// The delivery class of the stream `stream`: reliable and in sequence.
pub fn sequenced_on(stream: StreamId) -> (delivery: DeliveryRequirement)
    ensures
        delivery == reliable_sequenced(stream),
{
    DeliveryRequirement::ReliableSequenced(Option::<u8>::from(stream))
}

} // verus!
