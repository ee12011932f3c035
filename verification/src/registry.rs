//! The registry of connected clients.

use vstd::prelude::*;

verus! {

/// Identifies a registered client.
#[derive(Copy, Clone, Debug, PartialEq, Eq, Structural, Hash)]
pub struct ClientID(pub u64);

/// A network endpoint as plain numbers: the host as a 128-bit address (an
/// IPv4 host in its IPv6-mapped form) and the port.
#[derive(Copy, Clone, Debug, PartialEq, Eq, Structural, Hash)]
pub struct Address {
    pub host: u128,
    pub port: u16,
}

/// What the registry knows of one client.
#[derive(Clone, Debug, PartialEq, Eq)]
pub struct ClientHandle {
    pub id: ClientID,
    pub addr: Address,
    pub player_name: String,
}

/// Why a registration was turned down.
#[derive(Copy, Clone, Debug, PartialEq, Eq, Structural)]
pub enum RegistryError {
    /// Every slot of the registry is taken.
    CapacityExceeded,
}

/// A bounded set of clients. Ids are handed out in the order of
/// registration, starting at zero, so an entry's id is its place in the
/// list; no two entries share an address.
pub struct ClientRegistry {
    clients: Vec<ClientHandle>,
    capacity: usize,
}

/// The entries `entries` as a registry of at most `capacity` clients would
/// hold them.
pub open spec fn well_formed_entries(entries: Seq<ClientHandle>, capacity: nat) -> bool {
    &&& entries.len() <= capacity
    &&& forall|i: int| 0 <= i < entries.len() ==> (#[trigger] entries[i]).id == ClientID(i as u64)
    &&& forall|i: int, j: int|
        0 <= i < j < entries.len() ==> (#[trigger] entries[i]).addr != (#[trigger] entries[j]).addr
}

/// The entry of `entries` with the id `id`, if there is one.
pub open spec fn lookup(entries: Seq<ClientHandle>, id: ClientID) -> Option<ClientHandle> {
    if id.0 < entries.len() {
        Some(entries[id.0 as int])
    } else {
        None
    }
}

/// Whether some entry of `entries` has the address `addr`.
pub open spec fn has_address(entries: Seq<ClientHandle>, addr: Address) -> bool {
    exists|i: int| 0 <= i < entries.len() && (#[trigger] entries[i]).addr == addr
}

impl ClientRegistry {
    /// The registered clients, oldest first.
    pub closed spec fn view(self) -> Seq<ClientHandle> {
        self.clients@
    }

    /// The number of clients that the registry admits.
    pub closed spec fn slots(self) -> nat {
        self.capacity as nat
    }

    /// The invariant of every registry: `new` establishes it and every
    /// method keeps it.
    pub open spec fn wf(self) -> bool {
        well_formed_entries(self@, self.slots())
    }

    /// An empty registry with room for `capacity` clients.
    pub fn new(capacity: usize) -> (registry: Self)
        ensures
            registry.wf(),
            registry@ == Seq::<ClientHandle>::empty(),
            registry.slots() == capacity,
    {
        ClientRegistry { clients: Vec::new(), capacity }
    }

    /// Registers the client at `addr`. An address that is registered already
    /// keeps its entry and gets its id back; a new address is turned down
    /// when the registry is full, and else gets the next id.
    pub fn add(&mut self, addr: &Address, player_name: &str) -> (result: Result<
        ClientID,
        RegistryError,
    >)
        requires
            old(self).wf(),
        ensures
            final(self).wf(),
            final(self).slots() == old(self).slots(),
            result is Err <==> !has_address(old(self)@, *addr) && old(self)@.len() >= old(
                self,
            ).slots(),
            result is Err ==> result == Err::<ClientID, RegistryError>(
                RegistryError::CapacityExceeded,
            ) && final(self)@ == old(self)@,
            has_address(old(self)@, *addr) ==> final(self)@ == old(self)@ && result is Ok
                && lookup(old(self)@, result->Ok_0) is Some && lookup(
                old(self)@,
                result->Ok_0,
            )->Some_0.addr == *addr,
            !has_address(old(self)@, *addr) && old(self)@.len() < old(self).slots() ==> {
                &&& result == Ok::<ClientID, RegistryError>(ClientID(old(self)@.len() as u64))
                &&& final(self)@.len() == old(self)@.len() + 1
                &&& final(self)@.drop_last() == old(self)@
                &&& final(self)@.last().id == ClientID(old(self)@.len() as u64)
                &&& final(self)@.last().addr == *addr
                &&& final(self)@.last().player_name@ == player_name@
            },
    {
        let n = self.clients.len();
        let mut i: usize = 0;
        while i < n
            invariant
                i <= n,
                n == self.clients@.len(),
                self.clients@ == old(self).clients@,
                self.capacity == old(self).capacity,
                self.wf(),
                forall|j: int| 0 <= j < i ==> (#[trigger] self.clients@[j]).addr != *addr,
            decreases n - i,
        {
            if self.clients[i].addr == *addr {
                return Ok(self.clients[i].id);
            }
            i += 1;
        }
        if n >= self.capacity {
            return Err(RegistryError::CapacityExceeded);
        }
        let id = ClientID(n as u64);
        self.clients.push(ClientHandle { id, addr: *addr, player_name: player_name.to_owned() });
        proof {
            assert(self.clients@.drop_last() =~= old(self).clients@);
        }
        Ok(id)
    }

    /// The entry of the client `id`.
    pub fn find_client(&self, id: ClientID) -> (found: Option<&ClientHandle>)
        ensures
            match found {
                Some(handle) => lookup(self@, id) == Some(*handle),
                None => lookup(self@, id) is None,
            },
    {
        if id.0 < self.clients.len() as u64 {
            Some(&self.clients[id.0 as usize])
        } else {
            None
        }
    }

    /// All registered clients, oldest first.
    pub fn get_clients(&self) -> (clients: &Vec<ClientHandle>)
        ensures
            clients@ == self@,
    {
        &self.clients
    }

    /// The number of registered clients.
    pub fn client_count(&self) -> (count: usize)
        ensures
            count == self@.len(),
    {
        self.clients.len()
    }

    /// The number of clients that the registry admits.
    pub fn capacity(&self) -> (capacity: usize)
        ensures
            capacity == self.slots(),
    {
        self.capacity
    }
}

/// In a registry no id and no address occurs twice, and an entry is found
/// under its own id and under no other.
pub proof fn lemma_ids_and_addresses_pair_up(registry: ClientRegistry, i: int, j: int)
    requires
        registry.wf(),
        0 <= i < registry@.len(),
        0 <= j < registry@.len(),
    ensures
        registry@[i].id == registry@[j].id <==> i == j,
        registry@[i].addr == registry@[j].addr <==> i == j,
        lookup(registry@, registry@[i].id) == Some(registry@[i]),
{
    if i < j {
        assert(registry@[i].addr != registry@[j].addr);
    } else if j < i {
        assert(registry@[j].addr != registry@[i].addr);
    }
}

/// An id that was never handed out finds no entry.
pub proof fn lemma_unregistered_id_finds_nothing(registry: ClientRegistry, id: ClientID)
    requires
        registry.wf(),
        forall|i: int| 0 <= i < registry@.len() ==> (#[trigger] registry@[i]).id != id,
    ensures
        lookup(registry@, id) is None,
{
    if id.0 < registry@.len() {
        assert(registry@[id.0 as int].id == id);
    }
}

} // verus!
