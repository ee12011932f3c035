use westiny::registry::{Address, ClientID, ClientRegistry, RegistryError};

fn address(last: u128, port: u16) -> Address {
    Address { host: 0xffff_0000_0000 + last, port }
}

#[test]
fn new_registry_is_empty() {
    let registry = ClientRegistry::new(3);
    assert_eq!(registry.client_count(), 0);
    assert_eq!(registry.capacity(), 3);
    assert!(registry.get_clients().is_empty());
    assert!(registry.find_client(ClientID(0)).is_none());
}

#[test]
fn ids_are_handed_out_in_order() {
    let mut registry = ClientRegistry::new(3);
    assert_eq!(registry.add(&address(1, 9999), "player1"), Ok(ClientID(0)));
    assert_eq!(registry.add(&address(2, 9999), "player2"), Ok(ClientID(1)));
    assert_eq!(registry.add(&address(3, 9999), "player3"), Ok(ClientID(2)));
    assert_eq!(registry.client_count(), 3);
}

#[test]
fn fourth_registration_exceeds_capacity_of_three() {
    let mut registry = ClientRegistry::new(3);
    registry.add(&address(1, 9999), "player1").unwrap();
    registry.add(&address(2, 9999), "player2").unwrap();
    registry.add(&address(3, 9999), "player3").unwrap();
    assert_eq!(registry.add(&address(4, 9999), "player4"), Err(RegistryError::CapacityExceeded));
    assert_eq!(registry.client_count(), 3);
    assert!(registry.find_client(ClientID(3)).is_none());
}

#[test]
fn registry_without_room_takes_nobody() {
    let mut registry = ClientRegistry::new(0);
    assert_eq!(registry.add(&address(1, 1), "nobody"), Err(RegistryError::CapacityExceeded));
    assert_eq!(registry.client_count(), 0);
}

#[test]
fn find_on_unregistered_id_returns_nothing() {
    let mut registry = ClientRegistry::new(3);
    registry.add(&address(1, 9999), "player1").unwrap();
    assert!(registry.find_client(ClientID(1)).is_none());
    assert!(registry.find_client(ClientID(42)).is_none());
    assert!(registry.find_client(ClientID(u64::MAX)).is_none());
}

#[test]
fn find_returns_address_and_name() {
    let mut registry = ClientRegistry::new(2);
    let first = registry.add(&address(1, 1000), "alice").unwrap();
    let second = registry.add(&address(1, 1001), "bob").unwrap();
    let handle = registry.find_client(second).unwrap();
    assert_eq!(handle.id, second);
    assert_eq!(handle.addr, address(1, 1001));
    assert_eq!(handle.player_name, "bob");
    let handle = registry.find_client(first).unwrap();
    assert_eq!(handle.id, first);
    assert_eq!(handle.addr, address(1, 1000));
    assert_eq!(handle.player_name, "alice");
}

#[test]
fn registering_an_address_twice_keeps_one_entry() {
    let mut registry = ClientRegistry::new(2);
    let first = registry.add(&address(7, 4000), "alice").unwrap();
    let again = registry.add(&address(7, 4000), "alice again").unwrap();
    assert_eq!(first, again);
    assert_eq!(registry.client_count(), 1);
    assert_eq!(registry.find_client(first).unwrap().player_name, "alice");
}

#[test]
fn known_address_is_welcome_in_a_full_registry() {
    let mut registry = ClientRegistry::new(1);
    let first = registry.add(&address(7, 4000), "alice").unwrap();
    assert_eq!(registry.add(&address(7, 4000), "alice"), Ok(first));
    assert_eq!(registry.add(&address(7, 4001), "bob"), Err(RegistryError::CapacityExceeded));
}

#[test]
fn no_two_entries_share_an_id_or_an_address() {
    let mut registry = ClientRegistry::new(8);
    for i in 0..8u128 {
        registry.add(&address(i % 4, (i / 4) as u16), "player").unwrap();
    }
    let clients = registry.get_clients();
    assert_eq!(clients.len(), 8);
    for i in 0..clients.len() {
        for j in 0..clients.len() {
            if i != j {
                assert_ne!(clients[i].id, clients[j].id);
                assert_ne!(clients[i].addr, clients[j].addr);
            }
        }
    }
}

#[test]
fn clients_are_listed_oldest_first() {
    let mut registry = ClientRegistry::new(3);
    registry.add(&address(3, 1), "c").unwrap();
    registry.add(&address(1, 1), "a").unwrap();
    registry.add(&address(2, 1), "b").unwrap();
    let names: Vec<&str> =
        registry.get_clients().iter().map(|handle| handle.player_name.as_str()).collect();
    assert_eq!(names, vec!["c", "a", "b"]);
}
