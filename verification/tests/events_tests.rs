use bevy::math::Vec3;
use tanker::events::{
    ClientEvent, EventRule, EventType, MoveDirection, Register, Registry, Replicated, SpawnBomb,
};
use tanker::{PORT, PROTOCOL_ID};

#[test]
fn port_and_protocol() {
    assert_eq!(PORT, 42069);
    assert_eq!(PROTOCOL_ID, 0);
}

#[test]
fn move_direction_carries_a_vector() {
    let wish = MoveDirection(Vec3::new(1.0, 0.0, 0.0));
    assert_eq!(wish.0, Vec3::X);
    assert_eq!(MoveDirection::default().0, Vec3::ZERO);
}

#[test]
fn spawn_bomb_has_no_payload() {
    assert_eq!(std::mem::size_of::<SpawnBomb>(), 0);
}

#[test]
fn new_registry_is_empty() {
    let registry = Registry::new();
    assert!(registry.events.is_empty());
    assert!(registry.replications.is_empty());
}

#[test]
fn events_are_registered_ordered() {
    let mut registry = Registry::new();
    registry.register_events();
    assert_eq!(
        registry.events,
        vec![
            EventRule { event: ClientEvent::MoveDirection, delivery: EventType::Ordered },
            EventRule { event: ClientEvent::SpawnBomb, delivery: EventType::Ordered },
        ]
    );
    assert!(registry.replications.is_empty());
}

#[test]
fn replications_are_registered() {
    let mut registry = Registry::new();
    registry.register_replications();
    assert_eq!(
        registry.replications,
        vec![
            Replicated::PlayerPosition,
            Replicated::PlayerColor,
            Replicated::BombPosition,
            Replicated::BombExplosion,
        ]
    );
    assert!(registry.events.is_empty());
}

#[test]
fn registrations_chain() {
    let mut registry = Registry::new();
    registry.register_replications().register_events();
    assert_eq!(registry.events.len(), 2);
    assert_eq!(registry.replications.len(), 4);
}

#[test]
fn both_sides_register_alike_in_either_order() {
    let mut server = Registry::new();
    server.register_replications().register_events();
    let mut client = Registry::new();
    client.register_events().register_replications();
    assert_eq!(server.events, client.events);
    assert_eq!(server.replications, client.replications);
}
