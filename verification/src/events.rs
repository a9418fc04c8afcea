//! What clients send to the server, and what both sides must register in
//! the same way for the connection to work.

use bevy::math::Vec3;
use vstd::prelude::*;

verus! {

/// A client's wish to move: a direction of unit length in the ground plane.
#[derive(Clone, Copy, Debug, Default)]
pub struct MoveDirection(pub Vec3);

/// A client's wish to place a bomb where its player stands.
#[derive(Clone, Copy, Debug, Default)]
pub struct SpawnBomb;

/// Event delivery guarantee.
#[derive(Clone, Copy, Debug, PartialEq, Eq, Structural)]
pub enum EventType {
    /// Unreliable and unordered.
    Unreliable,
    /// Reliable and unordered.
    Unordered,
    /// Reliable and ordered.
    Ordered,
}

/// The kinds of event a client may send.
#[derive(Clone, Copy, Debug, PartialEq, Eq, Structural)]
pub enum ClientEvent {
    MoveDirection,
    SpawnBomb,
}

/// The kinds of component the server mirrors to its clients.
#[derive(Clone, Copy, Debug, PartialEq, Eq, Structural)]
pub enum Replicated {
    PlayerPosition,
    PlayerColor,
    BombPosition,
    BombExplosion,
}

/// A client event together with how it is delivered.
#[derive(Clone, Copy, Debug, PartialEq, Eq, Structural)]
pub struct EventRule {
    pub event: ClientEvent,
    pub delivery: EventType,
}

/// What one side of the connection has registered so far, in the order of
/// registration. The order matters: it fixes the channel each kind travels
/// on, so both sides must arrive at the same lists.
pub struct Registry {
    pub events: Vec<EventRule>,
    pub replications: Vec<Replicated>,
}

/// The registered kinds as two sequences.
pub struct RegistryView {
    pub events: Seq<EventRule>,
    pub replications: Seq<Replicated>,
}

impl View for Registry {
    type V = RegistryView;

    open spec fn view(&self) -> RegistryView {
        RegistryView { events: self.events@, replications: self.replications@ }
    }
}

/// The client events of the game: movement and bomb placement, both
/// reliable and ordered.
pub open spec fn client_events() -> Seq<EventRule> {
    seq![
        EventRule { event: ClientEvent::MoveDirection, delivery: EventType::Ordered },
        EventRule { event: ClientEvent::SpawnBomb, delivery: EventType::Ordered },
    ]
}

/// The replicated components of the game.
pub open spec fn replicated_components() -> Seq<Replicated> {
    seq![
        Replicated::PlayerPosition,
        Replicated::PlayerColor,
        Replicated::BombPosition,
        Replicated::BombExplosion,
    ]
}

impl RegistryView {
    /// The registry once the client events have been added.
    pub open spec fn with_events(self) -> RegistryView {
        RegistryView { events: self.events + client_events(), replications: self.replications }
    }

    /// The registry once the replicated components have been added.
    pub open spec fn with_replications(self) -> RegistryView {
        RegistryView {
            events: self.events,
            replications: self.replications + replicated_components(),
        }
    }
}

/// Registration of everything that crosses the network.
pub trait Register: Sized {
    /// What has been registered so far.
    spec fn registered(&self) -> RegistryView;

    /// Registers every client event, ordered and reliable.
    fn register_events(&mut self) -> (this: &mut Self)
        ensures
            this.registered() == old(self).registered().with_events(),
            *final(self) == *final(this),
    ;

    /// Registers every replicated component.
    fn register_replications(&mut self) -> (this: &mut Self)
        ensures
            this.registered() == old(self).registered().with_replications(),
            *final(self) == *final(this),
    ;
}

impl Registry {
    /// A registry with nothing in it.
    pub fn new() -> (registry: Registry)
        ensures
            registry@.events.len() == 0,
            registry@.replications.len() == 0,
    {
        Registry { events: Vec::new(), replications: Vec::new() }
    }
}

impl Register for Registry {
    open spec fn registered(&self) -> RegistryView {
        self@
    }

    fn register_events(&mut self) -> (this: &mut Self) {
        self.events.push(
            EventRule { event: ClientEvent::MoveDirection, delivery: EventType::Ordered },
        );
        self.events.push(EventRule { event: ClientEvent::SpawnBomb, delivery: EventType::Ordered });
        assert(self.events@ =~= old(self).events@ + client_events());
        self
    }

    fn register_replications(&mut self) -> (this: &mut Self) {
        self.replications.push(Replicated::PlayerPosition);
        self.replications.push(Replicated::PlayerColor);
        self.replications.push(Replicated::BombPosition);
        self.replications.push(Replicated::BombExplosion);
        assert(self.replications@ =~= old(self).replications@ + replicated_components());
        self
    }
}

/// The two registrations do not disturb each other: whichever comes first,
/// the same events and the same components end up registered, in the same
/// order within each list.
pub proof fn registrations_commute(registry: RegistryView)
    ensures
        registry.with_events().with_replications() == registry.with_replications().with_events(),
{
}

} // verus!
