//! The authoritative simulation that the server advances once per fixed
//! step: who is connected, where they stand, which bombs lie about and when
//! they go off.
//!
//! A step runs in this order: the cooldowns and fuses advance by the time
//! that has passed; connections and disconnections are applied; players
//! move; bomb requests are granted or dropped; bombs whose fuse has run out
//! go off. Positions are carried, never computed: whoever drives the arena
//! works out where a move leads and hands the new position to
//! [`Arena::relocate`].

use crate::color::{client_color, derived_color};
use crate::components::{
    BombBundle, BombControl, BombExplosion, BombExplosionBundle, BombFuse, BombPosition,
    BombRadius, Player, PlayerBundle, PlayerColor, PlayerPosition,
};
use crate::timer::{Countdown, NANOS_PER_MILLI, NANOS_PER_SECOND};
use bevy::math::Vec3;
use vstd::prelude::*;

verus! {

/// How far a player moves per second of travel, in scene units.
pub const MOVE_SPEED: u32 = 3;

/// How far an explosion reaches, in scene units.
pub const BOMB_RADIUS: u32 = 3;

/// How long a player waits between two bombs, in milliseconds.
pub const BOMB_DELAY: u64 = 3000;

/// How long a bomb lies before it goes off, in seconds.
pub const BOMB_FUSE_DELAY: u64 = 3;

/// The wait between two bombs, in nanoseconds.
pub const BOMB_DELAY_NANOS: u64 = BOMB_DELAY * NANOS_PER_MILLI;

/// The length of a fuse, in nanoseconds.
pub const BOMB_FUSE_NANOS: u64 = BOMB_FUSE_DELAY * NANOS_PER_SECOND;

/// A connected player: what clients see of it, and its private cooldown.
#[derive(Clone, Copy, Debug)]
pub struct PlayerEntity {
    pub bundle: PlayerBundle,
    pub control: BombControl,
}

/// A bomb that has not gone off yet: what clients see of it, and its fuse.
#[derive(Clone, Copy, Debug)]
pub struct BombEntity {
    pub bundle: BombBundle,
    pub fuse: BombFuse,
}

/// A change in who is connected, as the transport reports it.
#[derive(Clone, Copy, Debug)]
pub enum ServerEvent {
    ClientConnected { client_id: u64 },
    ClientDisconnected { client_id: u64 },
}

/// A bomb that went off: the slot it held among the bombs, and the
/// explosion that takes its place.
#[derive(Clone, Copy, Debug)]
pub struct Detonation {
    pub slot: usize,
    pub explosion: BombExplosionBundle,
}

/// The game state the server owns. Players and bombs are kept in the order
/// in which they appeared.
pub struct Arena {
    /// Where a player stands when its client connects.
    pub spawn: Vec3,
    pub players: Vec<PlayerEntity>,
    pub bombs: Vec<BombEntity>,
}

/// The game state with its players and bombs as sequences.
pub struct ArenaView {
    pub spawn: Vec3,
    pub players: Seq<PlayerEntity>,
    pub bombs: Seq<BombEntity>,
}

impl View for Arena {
    type V = ArenaView;

    open spec fn view(&self) -> ArenaView {
        ArenaView { spawn: self.spawn, players: self.players@, bombs: self.bombs@ }
    }
}

/// Whether the player belongs to the given client.
pub open spec fn carries(entity: PlayerEntity, client_id: u64) -> bool {
    entity.bundle.player.0 == client_id
}

/// The player a client starts as: at the given position, in the colour
/// derived from its identifier, free to place a bomb at once.
pub open spec fn newcomer(client_id: u64, position: Vec3) -> PlayerEntity {
    PlayerEntity {
        bundle: PlayerBundle {
            player: Player(client_id),
            position: PlayerPosition(position),
            color: PlayerColor(derived_color(client_id)),
        },
        control: BombControl(Countdown::spent()),
    }
}

/// Whether some player belongs to the given client.
pub open spec fn has_player(players: Seq<PlayerEntity>, client_id: u64) -> bool {
    exists|i: int| 0 <= i < players.len() && carries(#[trigger] players[i], client_id)
}

/// Whether `slot` is the earliest player of the given client.
pub open spec fn is_first_slot(players: Seq<PlayerEntity>, client_id: u64, slot: int) -> bool {
    &&& 0 <= slot < players.len()
    &&& carries(players[slot], client_id)
    &&& forall|j: int| 0 <= j < slot ==> !carries(#[trigger] players[j], client_id)
}

/// The earliest player of the given client, if it has one.
pub open spec fn first_slot(players: Seq<PlayerEntity>, client_id: u64) -> Option<int> {
    if exists|i: int| is_first_slot(players, client_id, i) {
        Some(choose|i: int| is_first_slot(players, client_id, i))
    } else {
        None
    }
}

/// No two players belong to the same client.
pub open spec fn distinct_clients(players: Seq<PlayerEntity>) -> bool {
    forall|i: int, j: int|
        0 <= i < j < players.len() ==> (#[trigger] players[i]).bundle.player.0 != (
        #[trigger] players[j]).bundle.player.0
}

/// The slots, in rising order, whose players belong to the given client.
pub open spec fn slots_of(players: Seq<PlayerEntity>, client_id: u64) -> Seq<usize> {
    Seq::new(players.len(), |i: int| i as usize).filter(
        |i: usize| i < players.len() && carries(players[i as int], client_id),
    )
}

/// The bomb a player lays: at the player's position, in the player's
/// colour, with a full fuse.
pub open spec fn bomb_of(entity: PlayerEntity) -> BombEntity {
    BombEntity {
        bundle: BombBundle {
            position: BombPosition(entity.bundle.position.0),
            color: entity.bundle.color,
        },
        fuse: BombFuse(Countdown::started(BOMB_FUSE_NANOS)),
    }
}

/// The player once it has laid a bomb: its cooldown runs anew.
pub open spec fn rearmed(entity: PlayerEntity) -> PlayerEntity {
    PlayerEntity {
        bundle: entity.bundle,
        control: BombControl(Countdown::started(BOMB_DELAY_NANOS)),
    }
}

/// The player at a new position.
pub open spec fn placed_at(entity: PlayerEntity, position: Vec3) -> PlayerEntity {
    PlayerEntity {
        bundle: PlayerBundle {
            player: entity.bundle.player,
            position: PlayerPosition(position),
            color: entity.bundle.color,
        },
        control: entity.control,
    }
}

/// The player after `delta` nanoseconds of cooldown.
pub open spec fn cooled(entity: PlayerEntity, delta: u64) -> PlayerEntity {
    PlayerEntity { bundle: entity.bundle, control: BombControl(entity.control.0.ticked(delta)) }
}

/// The bomb after `delta` nanoseconds of burning.
pub open spec fn burned(bomb: BombEntity, delta: u64) -> BombEntity {
    BombEntity { bundle: bomb.bundle, fuse: BombFuse(bomb.fuse.0.ticked(delta)) }
}

/// The explosion a bomb leaves: at the bomb's position, with the fixed
/// radius.
pub open spec fn explosion_of(bomb: BombEntity) -> BombExplosionBundle {
    BombExplosionBundle {
        explosion: BombExplosion {
            position: BombPosition(bomb.bundle.position.0),
            radius: BombRadius(BOMB_RADIUS),
        },
    }
}

/// The bombs whose fuses still burn, in order.
pub open spec fn live(bombs: Seq<BombEntity>) -> Seq<BombEntity> {
    bombs.filter(|b: BombEntity| !b.fuse.0.finished)
}

/// One detonation for each bomb whose fuse has run out, in order of slot.
pub open spec fn detonations(bombs: Seq<BombEntity>) -> Seq<Detonation> {
    Seq::new(
        bombs.len(),
        |i: int| Detonation { slot: i as usize, explosion: explosion_of(bombs[i]) },
    ).filter(|d: Detonation| d.slot < bombs.len() && bombs[d.slot as int].fuse.0.finished)
}

impl ArenaView {
    /// Whether a bomb request of the given client is granted: the client
    /// has a player, and that player's cooldown has run out.
    pub open spec fn may_place(self, client_id: u64) -> bool {
        match first_slot(self.players, client_id) {
            Some(slot) => self.players[slot].control.0.finished,
            None => false,
        }
    }

    /// The state after a bomb request: where it is granted, the player's
    /// cooldown runs anew and its bomb comes last among the bombs; where it
    /// is not, nothing changes.
    pub open spec fn bomb_requested(self, client_id: u64) -> ArenaView {
        match first_slot(self.players, client_id) {
            Some(slot) => if self.players[slot].control.0.finished {
                ArenaView {
                    spawn: self.spawn,
                    players: self.players.update(slot, rearmed(self.players[slot])),
                    bombs: self.bombs.push(bomb_of(self.players[slot])),
                }
            } else {
                self
            },
            None => self,
        }
    }

    /// The state after a run of bomb requests, taken in order.
    pub open spec fn bombs_requested(self, requests: Seq<u64>) -> ArenaView
        decreases requests.len(),
    {
        if requests.len() == 0 {
            self
        } else {
            self.bombs_requested(requests.drop_last()).bomb_requested(requests.last())
        }
    }

    /// The state once the given client's player stands at `position`;
    /// unchanged where the client has no player.
    pub open spec fn relocated(self, client_id: u64, position: Vec3) -> ArenaView {
        match first_slot(self.players, client_id) {
            Some(slot) => ArenaView {
                spawn: self.spawn,
                players: self.players.update(slot, placed_at(self.players[slot], position)),
                bombs: self.bombs,
            },
            None => self,
        }
    }

    /// The state once every cooldown has advanced by `delta` nanoseconds.
    pub open spec fn controls_ticked(self, delta: u64) -> ArenaView {
        ArenaView {
            spawn: self.spawn,
            players: self.players.map_values(|p: PlayerEntity| cooled(p, delta)),
            bombs: self.bombs,
        }
    }

    /// The state once every fuse has advanced by `delta` nanoseconds.
    pub open spec fn fuses_ticked(self, delta: u64) -> ArenaView {
        ArenaView {
            spawn: self.spawn,
            players: self.players,
            bombs: self.bombs.map_values(|b: BombEntity| burned(b, delta)),
        }
    }

    /// The state once every bomb whose fuse has run out is gone.
    pub open spec fn blown(self) -> ArenaView {
        ArenaView { spawn: self.spawn, players: self.players, bombs: live(self.bombs) }
    }

    /// The state once a client has connected: its player stands at the
    /// spawn point and comes last.
    pub open spec fn joined(self, client_id: u64) -> ArenaView {
        ArenaView {
            spawn: self.spawn,
            players: self.players.push(newcomer(client_id, self.spawn)),
            bombs: self.bombs,
        }
    }

    /// The state once a client has disconnected: its players are gone, all
    /// others stay in order, and every bomb stays.
    pub open spec fn departed(self, client_id: u64) -> ArenaView {
        ArenaView {
            spawn: self.spawn,
            players: self.players.filter(|p: PlayerEntity| !carries(p, client_id)),
            bombs: self.bombs,
        }
    }

    /// The state after one connection event.
    pub open spec fn after_event(self, event: ServerEvent) -> ArenaView {
        match event {
            ServerEvent::ClientConnected { client_id } => self.joined(client_id),
            ServerEvent::ClientDisconnected { client_id } => self.departed(client_id),
        }
    }

    /// The state after a run of connection events, taken in order.
    pub open spec fn after_events(self, events: Seq<ServerEvent>) -> ArenaView
        decreases events.len(),
    {
        if events.len() == 0 {
            self
        } else {
            self.after_events(events.drop_last()).after_event(events.last())
        }
    }
}

/// The earliest player of a client is found at one slot only.
pub proof fn first_slot_is_unique(players: Seq<PlayerEntity>, client_id: u64, slot: int)
    requires
        is_first_slot(players, client_id, slot),
    ensures
        first_slot(players, client_id) == Some(slot),
        has_player(players, client_id),
{
    let chosen = choose|i: int| is_first_slot(players, client_id, i);
    assert(is_first_slot(players, client_id, chosen));
    if chosen < slot {
        assert(!carries(players[chosen], client_id));
    } else if slot < chosen {
        assert(!carries(players[slot], client_id));
    }
}

/// A client without a player has no earliest player.
pub proof fn no_player_no_slot(players: Seq<PlayerEntity>, client_id: u64)
    requires
        !has_player(players, client_id),
    ensures
        first_slot(players, client_id).is_none(),
{
    if exists|i: int| is_first_slot(players, client_id, i) {
        let i = choose|i: int| is_first_slot(players, client_id, i);
        assert(carries(players[i], client_id));
    }
}

impl Arena {
    /// An arena with nobody in it, whose players will appear at `spawn`.
    pub fn new(spawn: Vec3) -> (arena: Arena)
        ensures
            arena@ == (ArenaView { spawn, players: Seq::empty(), bombs: Seq::empty() }),
    {
        Arena { spawn, players: Vec::new(), bombs: Vec::new() }
    }

    /// Looks up the earliest player of the given client.
    pub fn find_player(&self, client_id: u64) -> (found: Option<usize>)
        ensures
            first_slot(self@.players, client_id) == (match found {
                Some(slot) => Some(slot as int),
                None => None,
            }),
            found.is_some() <==> has_player(self@.players, client_id),
    {
        let mut i: usize = 0;
        while i < self.players.len()
            invariant
                i <= self.players.len(),
                forall|j: int| 0 <= j < i ==> !carries(#[trigger] self.players@[j], client_id),
            decreases self.players.len() - i,
        {
            if self.players[i].bundle.player.0 == client_id {
                proof {
                    first_slot_is_unique(self@.players, client_id, i as int);
                }
                return Some(i);
            }
            i += 1;
        }
        proof {
            no_player_no_slot(self@.players, client_id);
        }
        None
    }

    /// Admits a client: a player in the client's derived colour appears at
    /// the spawn point, after all others, with its cooldown already run out.
    pub fn connect(&mut self, client_id: u64)
        ensures
            final(self)@ == old(self)@.joined(client_id),
    {
        let bundle = PlayerBundle::new(client_id, self.spawn, client_color(client_id));
        self.players.push(PlayerEntity { bundle, control: BombControl(Countdown::expired()) });
    }

    /// Removes every player of the given client and reports the slots they
    /// held. Other players keep their order; bombs are not touched, whoever
    /// placed them.
    pub fn disconnect(&mut self, client_id: u64) -> (vacated: Vec<usize>)
        ensures
            final(self)@ == old(self)@.departed(client_id),
            vacated@ == slots_of(old(self)@.players, client_id),
    {
        let ghost before = self.players@;
        let ghost stays = |p: PlayerEntity| !carries(p, client_id);
        let ghost leaves = |i: usize| i < before.len() && carries(before[i as int], client_id);
        let ghost numbered = Seq::new(before.len(), |i: int| i as usize);
        let mut kept: Vec<PlayerEntity> = Vec::new();
        let mut vacated: Vec<usize> = Vec::new();
        let mut i: usize = 0;
        proof {
            assert(before.take(0) =~= Seq::empty());
            assert(numbered.take(0) =~= Seq::empty());
            reveal(Seq::filter);
        }
        while i < self.players.len()
            invariant
                i <= self.players.len(),
                self.players@ == before,
                self.bombs@ == old(self).bombs@,
                self.spawn == old(self).spawn,
                numbered == Seq::new(before.len(), |i: int| i as usize),
                stays == |p: PlayerEntity| !carries(p, client_id),
                leaves == |i: usize| i < before.len() && carries(before[i as int], client_id),
                kept@ == before.take(i as int).filter(stays),
                vacated@ == numbered.take(i as int).filter(leaves),
            decreases self.players.len() - i,
        {
            let entity = self.players[i];
            proof {
                assert(before.take(i + 1) =~= before.take(i as int).push(before[i as int]));
                assert(numbered.take(i + 1) =~= numbered.take(i as int).push(i));
                before.take(i as int).lemma_filter_push(before[i as int], stays);
                numbered.take(i as int).lemma_filter_push(i, leaves);
            }
            if entity.bundle.player.0 == client_id {
                vacated.push(i);
            } else {
                kept.push(entity);
            }
            i += 1;
        }
        proof {
            assert(before.take(i as int) =~= before);
            assert(numbered.take(i as int) =~= numbered);
        }
        self.players = kept;
        vacated
    }

    /// Applies one connection event and reports the slots it vacated, none
    /// for a connection.
    pub fn server_event(&mut self, event: ServerEvent) -> (vacated: Vec<usize>)
        ensures
            final(self)@ == old(self)@.after_event(event),
            vacated@ == (match event {
                ServerEvent::ClientConnected { .. } => Seq::empty(),
                ServerEvent::ClientDisconnected { client_id } => slots_of(
                    old(self)@.players,
                    client_id,
                ),
            }),
    {
        match event {
            ServerEvent::ClientConnected { client_id } => {
                self.connect(client_id);
                Vec::new()
            },
            ServerEvent::ClientDisconnected { client_id } => self.disconnect(client_id),
        }
    }

    /// Applies the connection events of one tick in the order they came:
    /// each connection adds a player at the spawn point, each disconnection removes
    /// the client's players.
    pub fn server_event_system(&mut self, events: &Vec<ServerEvent>)
        ensures
            final(self)@ == old(self)@.after_events(events@),
    {
        let mut i: usize = 0;
        proof {
            assert(events@.take(0) =~= Seq::empty());
        }
        while i < events.len()
            invariant
                i <= events.len(),
                self@ == old(self)@.after_events(events@.take(i as int)),
            decreases events.len() - i,
        {
            proof {
                assert(events@.take(i + 1).drop_last() =~= events@.take(i as int));
            }
            self.server_event(events[i]);
            i += 1;
        }
        proof {
            assert(events@.take(i as int) =~= events@);
        }
    }

    /// The position of the given client's player, if it has one.
    pub fn player_position(&self, client_id: u64) -> (position: Option<Vec3>)
        ensures
            position == (match first_slot(self@.players, client_id) {
                Some(slot) => Some(self@.players[slot].bundle.position.0),
                None => None,
            }),
    {
        match self.find_player(client_id) {
            Some(slot) => Some(self.players[slot].bundle.position.0),
            None => None,
        }
    }

    /// Moves the given client's player to `position` and says whether there
    /// was one to move. A client without a player changes nothing.
    pub fn relocate(&mut self, client_id: u64, position: Vec3) -> (moved: bool)
        ensures
            final(self)@ == old(self)@.relocated(client_id, position),
            moved == has_player(old(self)@.players, client_id),
    {
        match self.find_player(client_id) {
            Some(slot) => {
                self.players[slot].bundle.position = PlayerPosition(position);
                true
            },
            None => false,
        }
    }

    /// Advances every player's cooldown by `delta` nanoseconds.
    pub fn tick_bomb_control_timers_system(&mut self, delta: u64)
        ensures
            final(self)@ == old(self)@.controls_ticked(delta),
    {
        let ghost before = self.players@;
        let mut i: usize = 0;
        while i < self.players.len()
            invariant
                i <= self.players.len(),
                self.players@.len() == before.len(),
                self.bombs@ == old(self).bombs@,
                self.spawn == old(self).spawn,
                forall|j: int| 0 <= j < i ==> #[trigger] self.players@[j] == cooled(before[j], delta),
                forall|j: int| i <= j < before.len() ==> #[trigger] self.players@[j] == before[j],
            decreases self.players.len() - i,
        {
            self.players[i].control.0.tick(delta);
            i += 1;
        }
        assert(self.players@ =~= before.map_values(|p: PlayerEntity| cooled(p, delta)));
    }

    /// Advances every bomb's fuse by `delta` nanoseconds.
    pub fn tick_bomb_fuse_timers_system(&mut self, delta: u64)
        ensures
            final(self)@ == old(self)@.fuses_ticked(delta),
    {
        let ghost before = self.bombs@;
        let mut i: usize = 0;
        while i < self.bombs.len()
            invariant
                i <= self.bombs.len(),
                self.bombs@.len() == before.len(),
                self.players@ == old(self).players@,
                self.spawn == old(self).spawn,
                forall|j: int| 0 <= j < i ==> #[trigger] self.bombs@[j] == burned(before[j], delta),
                forall|j: int| i <= j < before.len() ==> #[trigger] self.bombs@[j] == before[j],
            decreases self.bombs.len() - i,
        {
            self.bombs[i].fuse.0.tick(delta);
            i += 1;
        }
        assert(self.bombs@ =~= before.map_values(|b: BombEntity| burned(b, delta)));
    }

    /// Handles one bomb request and says whether it was granted. A granted
    /// request lays a bomb at the player's position, in the player's colour
    /// and with a full fuse, and starts the player's cooldown anew. A
    /// request from a player still cooling down, or from a client without a
    /// player, changes nothing.
    pub fn spawn_bomb(&mut self, client_id: u64) -> (granted: bool)
        ensures
            final(self)@ == old(self)@.bomb_requested(client_id),
            granted == old(self)@.may_place(client_id),
    {
        match self.find_player(client_id) {
            Some(slot) => {
                if !self.players[slot].control.0.finished() {
                    return false;
                }
                self.players[slot].control.0.restart(BOMB_DELAY_NANOS);
                let bundle = BombBundle::new(
                    self.players[slot].bundle.position.0,
                    self.players[slot].bundle.color.0,
                );
                self.bombs.push(BombEntity { bundle, fuse: BombFuse(Countdown::new(BOMB_FUSE_NANOS)) });
                true
            },
            None => false,
        }
    }

    /// Handles the bomb requests of one tick in the order they came, each
    /// on its own: a refused request does not hold up those behind it.
    pub fn spawn_bombs_system(&mut self, requests: &Vec<u64>)
        ensures
            final(self)@ == old(self)@.bombs_requested(requests@),
    {
        let mut i: usize = 0;
        proof {
            assert(requests@.take(0) =~= Seq::empty());
        }
        while i < requests.len()
            invariant
                i <= requests.len(),
                self@ == old(self)@.bombs_requested(requests@.take(i as int)),
            decreases requests.len() - i,
        {
            proof {
                assert(requests@.take(i + 1).drop_last() =~= requests@.take(i as int));
            }
            self.spawn_bomb(requests[i]);
            i += 1;
        }
        proof {
            assert(requests@.take(i as int) =~= requests@);
        }
    }

    /// Sets off every bomb whose fuse has run out: the bomb is removed and
    /// one explosion, at the bomb's position and of the fixed radius, is
    /// reported with the slot the bomb held. Bombs still burning keep their
    /// order; players are not touched.
    pub fn blow_bombs_system(&mut self) -> (blasts: Vec<Detonation>)
        ensures
            final(self)@ == old(self)@.blown(),
            blasts@ == detonations(old(self)@.bombs),
    {
        let ghost before = self.bombs@;
        let ghost burning = |b: BombEntity| !b.fuse.0.finished;
        let ghost numbered = Seq::new(
            before.len(),
            |i: int| Detonation { slot: i as usize, explosion: explosion_of(before[i]) },
        );
        let ghost spent = |d: Detonation|
            d.slot < before.len() && before[d.slot as int].fuse.0.finished;
        let mut kept: Vec<BombEntity> = Vec::new();
        let mut blasts: Vec<Detonation> = Vec::new();
        let mut i: usize = 0;
        proof {
            assert(before.take(0) =~= Seq::empty());
            assert(numbered.take(0) =~= Seq::empty());
            reveal(Seq::filter);
        }
        while i < self.bombs.len()
            invariant
                i <= self.bombs.len(),
                self.bombs@ == before,
                self.players@ == old(self).players@,
                self.spawn == old(self).spawn,
                burning == |b: BombEntity| !b.fuse.0.finished,
                numbered == Seq::new(
                    before.len(),
                    |i: int| Detonation { slot: i as usize, explosion: explosion_of(before[i]) },
                ),
                spent == |d: Detonation|
                    d.slot < before.len() && before[d.slot as int].fuse.0.finished,
                kept@ == before.take(i as int).filter(burning),
                blasts@ == numbered.take(i as int).filter(spent),
            decreases self.bombs.len() - i,
        {
            let bomb = self.bombs[i];
            let blast = Detonation {
                slot: i,
                explosion: BombExplosionBundle::new(bomb.bundle.position.0, BOMB_RADIUS),
            };
            proof {
                assert(before.take(i + 1) =~= before.take(i as int).push(before[i as int]));
                assert(numbered.take(i + 1) =~= numbered.take(i as int).push(blast));
                before.take(i as int).lemma_filter_push(before[i as int], burning);
                numbered.take(i as int).lemma_filter_push(blast, spent);
            }
            if bomb.fuse.0.finished() {
                blasts.push(blast);
            } else {
                kept.push(bomb);
            }
            i += 1;
        }
        proof {
            assert(before.take(i as int) =~= before);
            assert(numbered.take(i as int) =~= numbered);
        }
        self.bombs = kept;
        blasts
    }
}

} // verus!
