//! What holds of the simulation whatever happens in it. Each law is stated
//! over the same views and transitions as the contracts in [`crate::tick`].

use crate::components::BombExplosionBundle;
use crate::components::BombFuse;
use crate::tick::{
    bomb_of, burned, carries, detonations, distinct_clients, explosion_of, first_slot_is_unique,
    has_player, is_first_slot, live, newcomer, no_player_no_slot, rearmed, ArenaView, BombEntity,
    Detonation, PlayerEntity, BOMB_DELAY, BOMB_DELAY_NANOS, BOMB_FUSE_DELAY, BOMB_FUSE_NANOS,
    BOMB_RADIUS,
};
use crate::timer::{finishes_exactly_when_due, total, Countdown, NANOS_PER_MILLI, NANOS_PER_SECOND};
use bevy::math::Vec3;
use vstd::prelude::*;

verus! {

/// The players of one client, in order.
pub open spec fn players_of(players: Seq<PlayerEntity>, client_id: u64) -> Seq<PlayerEntity> {
    players.filter(|p: PlayerEntity| carries(p, client_id))
}

/// Every cooldown and every fuse is well formed.
pub open spec fn timers_wf(arena: ArenaView) -> bool {
    &&& forall|i: int| 0 <= i < arena.players.len() ==> (#[trigger] arena.players[i]).control.0.wf()
    &&& forall|i: int| 0 <= i < arena.bombs.len() ==> (#[trigger] arena.bombs[i]).fuse.0.wf()
}

/// Filtering keeps a sequence whole when every item passes.
proof fn filter_keeps_all<A>(s: Seq<A>, pred: spec_fn(A) -> bool)
    requires
        forall|i: int| 0 <= i < s.len() ==> pred(#[trigger] s[i]),
    ensures
        s.filter(pred) == s,
    decreases s.len(),
{
    reveal(Seq::filter);
    if s.len() > 0 {
        filter_keeps_all(s.drop_last(), pred);
        assert(s.drop_last().push(s.last()) =~= s);
    }
}

/// Filtering leaves nothing when no item passes.
proof fn filter_drops_all<A>(s: Seq<A>, pred: spec_fn(A) -> bool)
    requires
        forall|i: int| 0 <= i < s.len() ==> !pred(#[trigger] s[i]),
    ensures
        s.filter(pred) == Seq::<A>::empty(),
    decreases s.len(),
{
    reveal(Seq::filter);
    if s.len() > 0 {
        filter_drops_all(s.drop_last(), pred);
    }
}

/// Every item of a filtered sequence passes the filter and comes from the
/// sequence, and items keep their relative order.
proof fn filter_is_ordered_subsequence<A>(s: Seq<A>, pred: spec_fn(A) -> bool) -> (origin: Seq<int>)
    ensures
        origin.len() == s.filter(pred).len(),
        forall|k: int|
            0 <= k < origin.len() ==> 0 <= #[trigger] origin[k] < s.len() && s.filter(pred)[k]
                == s[origin[k]] && pred(s[origin[k]]),
        forall|k: int, l: int| 0 <= k < l < origin.len() ==> origin[k] < origin[l],
        forall|i: int|
            0 <= i < s.len() && pred(s[i]) ==> exists|k: int|
                0 <= k < origin.len() && #[trigger] origin[k] == i,
    decreases s.len(),
{
    reveal(Seq::filter);
    if s.len() == 0 {
        Seq::empty()
    } else {
        let before = filter_is_ordered_subsequence(s.drop_last(), pred);
        let origin = if pred(s.last()) {
            before.push(s.len() - 1)
        } else {
            before
        };
        assert forall|i: int| 0 <= i < s.len() && pred(s[i]) implies exists|k: int|
            0 <= k < origin.len() && #[trigger] origin[k] == i by {
            if i < s.len() - 1 {
                assert(pred(s.drop_last()[i]));
                let k = choose|k: int| 0 <= k < before.len() && #[trigger] before[k] == i;
                assert(origin[k] == i);
            } else {
                assert(origin[origin.len() - 1] == i);
            }
        }
        origin
    }
}

/// Connecting a client adds exactly one player, which belongs to that
/// client: the client has one player more than before, every other client
/// has the players it had, and the bombs are as they were. Where the client
/// was not connected yet, identifiers stay distinct.
pub proof fn connecting_adds_one_player(arena: ArenaView, client_id: u64)
    ensures
        arena.joined(client_id).players.len() == arena.players.len() + 1,
        players_of(arena.joined(client_id).players, client_id) == players_of(
            arena.players,
            client_id,
        ).push(newcomer(client_id, arena.spawn)),
        forall|other: u64|
            other != client_id ==> #[trigger] players_of(
                arena.joined(client_id).players,
                other,
            ) == players_of(arena.players, other),
        arena.joined(client_id).bombs == arena.bombs,
        distinct_clients(arena.players) && !has_player(arena.players, client_id)
            ==> distinct_clients(arena.joined(client_id).players),
{
    let fresh = newcomer(client_id, arena.spawn);
    arena.players.lemma_filter_push(fresh, |p: PlayerEntity| carries(p, client_id));
    assert forall|other: u64| other != client_id implies #[trigger] players_of(
        arena.joined(client_id).players,
        other,
    ) == players_of(arena.players, other) by {
        arena.players.lemma_filter_push(fresh, |p: PlayerEntity| carries(p, other));
    }
    if distinct_clients(arena.players) && !has_player(arena.players, client_id) {
        let after = arena.joined(client_id).players;
        assert forall|i: int, j: int| 0 <= i < j < after.len() implies (#[trigger] after[i]).bundle.player.0
            != (#[trigger] after[j]).bundle.player.0 by {
            if j == arena.players.len() {
                assert(!carries(arena.players[i], client_id));
            }
        }
    }
}

/// Disconnecting a client removes that client's players and no others: the
/// client has no player left, every other client has the players it had,
/// in order, and the bombs are as they were. Distinct identifiers stay
/// distinct, and where they are, at most one player goes.
pub proof fn disconnecting_removes_that_client_only(arena: ArenaView, client_id: u64)
    ensures
        !has_player(arena.departed(client_id).players, client_id),
        forall|other: u64|
            other != client_id ==> #[trigger] players_of(arena.departed(client_id).players, other)
                == players_of(arena.players, other),
        arena.departed(client_id).bombs == arena.bombs,
        distinct_clients(arena.players) ==> distinct_clients(arena.departed(client_id).players),
        distinct_clients(arena.players) && has_player(arena.players, client_id)
            ==> arena.departed(client_id).players.len() == arena.players.len() - 1,
        !has_player(arena.players, client_id) ==> arena.departed(client_id) == arena,
{
    let stays = |p: PlayerEntity| !carries(p, client_id);
    let after = arena.departed(client_id).players;
    let origin = filter_is_ordered_subsequence(arena.players, stays);
    assert forall|other: u64| other != client_id implies #[trigger] players_of(after, other)
        == players_of(arena.players, other) by {
        filter_of_filter(arena.players, client_id, other);
    }
    if distinct_clients(arena.players) {
        assert forall|i: int, j: int| 0 <= i < j < after.len() implies (#[trigger] after[i]).bundle.player.0
            != (#[trigger] after[j]).bundle.player.0 by {
            assert(after[i] == arena.players[origin[i]]);
            assert(after[j] == arena.players[origin[j]]);
        }
        if has_player(arena.players, client_id) {
            one_player_fewer(arena.players, client_id);
        }
    }
    if !has_player(arena.players, client_id) {
        filter_keeps_all(arena.players, stays);
    }
}

/// Removing one client's players does not disturb another client's.
proof fn filter_of_filter(players: Seq<PlayerEntity>, gone: u64, other: u64)
    requires
        other != gone,
    ensures
        players.filter(|p: PlayerEntity| !carries(p, gone)).filter(
            |p: PlayerEntity| carries(p, other),
        ) == players.filter(|p: PlayerEntity| carries(p, other)),
    decreases players.len(),
{
    reveal(Seq::filter);
    let stays = |p: PlayerEntity| !carries(p, gone);
    let wanted = |p: PlayerEntity| carries(p, other);
    if players.len() > 0 {
        filter_of_filter(players.drop_last(), gone, other);
        players.drop_last().filter(stays).lemma_filter_push(players.last(), wanted);
    }
}

/// Among distinct identifiers, a connected client holds exactly one slot.
proof fn one_player_fewer(players: Seq<PlayerEntity>, client_id: u64)
    requires
        distinct_clients(players),
        has_player(players, client_id),
    ensures
        players.filter(|p: PlayerEntity| !carries(p, client_id)).len() == players.len() - 1,
    decreases players.len(),
{
    reveal(Seq::filter);
    let stays = |p: PlayerEntity| !carries(p, client_id);
    let rest = players.drop_last();
    let slot = choose|i: int| 0 <= i < players.len() && carries(#[trigger] players[i], client_id);
    if carries(players.last(), client_id) {
        assert forall|i: int| 0 <= i < rest.len() implies stays(#[trigger] rest[i]) by {
            assert(rest[i] == players[i]);
        }
        filter_keeps_all(rest, stays);
    } else {
        assert(carries(rest[slot], client_id));
        assert forall|i: int, j: int| 0 <= i < j < rest.len() implies (#[trigger] rest[i]).bundle.player.0
            != (#[trigger] rest[j]).bundle.player.0 by {
            assert(rest[i] == players[i]);
            assert(rest[j] == players[j]);
        }
        one_player_fewer(rest, client_id);
    }
}

/// A client that connects and disconnects again leaves the arena as it
/// found it: its one player came and went, and nobody else was touched.
pub proof fn connect_then_disconnect_restores(arena: ArenaView, client_id: u64)
    requires
        !has_player(arena.players, client_id),
    ensures
        arena.joined(client_id).departed(client_id) == arena,
{
    let stays = |p: PlayerEntity| !carries(p, client_id);
    arena.players.lemma_filter_push(newcomer(client_id, arena.spawn), stays);
    filter_keeps_all(arena.players, stays);
}

/// An event that names a client without a player changes nothing: a move
/// moves nobody, and a bomb request is refused.
pub proof fn dangling_events_change_nothing(arena: ArenaView, client_id: u64, position: Vec3)
    requires
        !has_player(arena.players, client_id),
    ensures
        arena.relocated(client_id, position) == arena,
        arena.bomb_requested(client_id) == arena,
        !arena.may_place(client_id),
{
    no_player_no_slot(arena.players, client_id);
}

/// While a player's cooldown runs, its bomb request lays no bomb and leaves
/// the cooldown alone.
pub proof fn cooling_player_gets_no_bomb(arena: ArenaView, client_id: u64)
    requires
        !arena.may_place(client_id),
    ensures
        arena.bomb_requested(client_id) == arena,
{
}

/// A granted bomb request lays exactly one bomb, at the player's position
/// and in the player's colour, with a fuse of three seconds; the player's
/// cooldown then has 3000 milliseconds to run, so the same request made
/// again at once is refused. Nobody else and no earlier bomb is touched.
pub proof fn granted_request_lays_one_bomb(arena: ArenaView, client_id: u64, slot: int)
    requires
        is_first_slot(arena.players, client_id, slot),
        arena.players[slot].control.0.finished,
    ensures
        arena.may_place(client_id),
        arena.bomb_requested(client_id).bombs == arena.bombs.push(bomb_of(arena.players[slot])),
        bomb_of(arena.players[slot]).bundle.position.0 == arena.players[slot].bundle.position.0,
        bomb_of(arena.players[slot]).bundle.color == arena.players[slot].bundle.color,
        bomb_of(arena.players[slot]).fuse.0 == Countdown::started(BOMB_FUSE_NANOS),
        BOMB_FUSE_NANOS == BOMB_FUSE_DELAY * NANOS_PER_SECOND,
        arena.bomb_requested(client_id).players == arena.players.update(
            slot,
            rearmed(arena.players[slot]),
        ),
        arena.bomb_requested(client_id).players[slot].bundle == arena.players[slot].bundle,
        arena.bomb_requested(client_id).players[slot].control.0.remaining() == BOMB_DELAY
            * NANOS_PER_MILLI,
        !arena.bomb_requested(client_id).players[slot].control.0.finished,
        !arena.bomb_requested(client_id).may_place(client_id),
        arena.bomb_requested(client_id).bomb_requested(client_id) == arena.bomb_requested(
            client_id,
        ),
{
    first_slot_is_unique(arena.players, client_id, slot);
    let after = arena.bomb_requested(client_id);
    assert(is_first_slot(after.players, client_id, slot)) by {
        assert forall|j: int| 0 <= j < slot implies !carries(#[trigger] after.players[j], client_id) by {
            assert(after.players[j] == arena.players[j]);
        }
    }
    first_slot_is_unique(after.players, client_id, slot);
}

/// What the bombs are after one tick of `delta` nanoseconds: every fuse has
/// burned, and the bombs whose fuse ran out are gone.
pub open spec fn bombs_after_tick(bombs: Seq<BombEntity>, delta: u64) -> Seq<BombEntity> {
    live(bombs.map_values(|b: BombEntity| burned(b, delta)))
}

/// What the bombs are after a run of ticks.
pub open spec fn bombs_after_ticks(bombs: Seq<BombEntity>, deltas: Seq<u64>) -> Seq<BombEntity>
    decreases deltas.len(),
{
    if deltas.len() == 0 {
        bombs
    } else {
        bombs_after_tick(bombs_after_ticks(bombs, deltas.drop_last()), deltas.last())
    }
}

/// The explosions that the last tick of a run sets off.
pub open spec fn blasts_of_last_tick(bombs: Seq<BombEntity>, deltas: Seq<u64>) -> Seq<
    BombExplosionBundle,
>
    recommends
        deltas.len() > 0,
{
    detonations(
        bombs_after_ticks(bombs, deltas.drop_last()).map_values(
            |b: BombEntity| burned(b, deltas.last()),
        ),
    ).map_values(|d: Detonation| d.explosion)
}

/// Setting off bombs sorts them in two: each bomb whose fuse has run out
/// gives exactly one detonation, which names the bomb's slot and carries an
/// explosion at the bomb's position with the fixed radius; each bomb still
/// burning stays. Nothing is lost and nothing is made up.
pub proof fn detonations_match_spent_bombs(bombs: Seq<BombEntity>)
    requires
        bombs.len() <= usize::MAX,
    ensures
        detonations(bombs).len() + live(bombs).len() == bombs.len(),
        forall|k: int|
            0 <= k < detonations(bombs).len() ==> ({
                let blast = #[trigger] detonations(bombs)[k];
                &&& blast.slot < bombs.len()
                &&& bombs[blast.slot as int].fuse.0.finished
                &&& blast.explosion == explosion_of(bombs[blast.slot as int])
                &&& blast.explosion.explosion.position.0 == bombs[blast.slot as int].bundle.position.0
                &&& blast.explosion.explosion.radius.0 == BOMB_RADIUS
            }),
        forall|k: int, l: int|
            0 <= k < l < detonations(bombs).len() ==> (#[trigger] detonations(bombs)[k]).slot < (
            #[trigger] detonations(bombs)[l]).slot,
        forall|i: int|
            0 <= i < bombs.len() && (#[trigger] bombs[i]).fuse.0.finished ==> exists|k: int|
                0 <= k < detonations(bombs).len() && (#[trigger] detonations(bombs)[k]).slot == i,
        forall|k: int| 0 <= k < live(bombs).len() ==> !(#[trigger] live(bombs)[k]).fuse.0.finished,
{
    let numbered = Seq::new(
        bombs.len(),
        |i: int| Detonation { slot: i as usize, explosion: explosion_of(bombs[i]) },
    );
    let spent = |d: Detonation| d.slot < bombs.len() && bombs[d.slot as int].fuse.0.finished;
    let burning = |b: BombEntity| !b.fuse.0.finished;
    let blast_origin = filter_is_ordered_subsequence(numbered, spent);
    let live_origin = filter_is_ordered_subsequence(bombs, burning);
    split_counts(bombs, bombs.len() as int);
    assert(bombs.take(bombs.len() as int) =~= bombs);
    assert(numbered.take(bombs.len() as int) =~= numbered);
    assert forall|i: int|
        0 <= i < bombs.len() && (#[trigger] bombs[i]).fuse.0.finished implies exists|k: int|
        0 <= k < detonations(bombs).len() && (#[trigger] detonations(bombs)[k]).slot == i by {
        assert(spent(numbered[i]));
        let k = choose|k: int| 0 <= k < blast_origin.len() && #[trigger] blast_origin[k] == i;
        assert(detonations(bombs)[k] == numbered[blast_origin[k]]);
    }
    assert forall|k: int, l: int| 0 <= k < l < detonations(bombs).len() implies (
    #[trigger] detonations(bombs)[k]).slot < (#[trigger] detonations(bombs)[l]).slot by {
        assert(detonations(bombs)[k] == numbered[blast_origin[k]]);
        assert(detonations(bombs)[l] == numbered[blast_origin[l]]);
    }
    assert forall|k: int| 0 <= k < detonations(bombs).len() implies {
        let blast = #[trigger] detonations(bombs)[k];
        &&& blast.slot < bombs.len()
        &&& bombs[blast.slot as int].fuse.0.finished
        &&& blast.explosion == explosion_of(bombs[blast.slot as int])
        &&& blast.explosion.explosion.position.0 == bombs[blast.slot as int].bundle.position.0
        &&& blast.explosion.explosion.radius.0 == BOMB_RADIUS
    } by {
        assert(detonations(bombs)[k] == numbered[blast_origin[k]]);
    }
    assert forall|k: int| 0 <= k < live(bombs).len() implies !(#[trigger] live(bombs)[k]).fuse.0.finished by {
        assert(live(bombs)[k] == bombs[live_origin[k]]);
    }
}

/// Among the first `n` bombs, those that go off and those that stay add up
/// to `n`.
proof fn split_counts(bombs: Seq<BombEntity>, n: int)
    requires
        0 <= n <= bombs.len() <= usize::MAX,
    ensures
        Seq::new(
            bombs.len(),
            |i: int| Detonation { slot: i as usize, explosion: explosion_of(bombs[i]) },
        ).take(n).filter(
            |d: Detonation| d.slot < bombs.len() && bombs[d.slot as int].fuse.0.finished,
        ).len() + bombs.take(n).filter(|b: BombEntity| !b.fuse.0.finished).len() == n,
    decreases n,
{
    let numbered = Seq::new(
        bombs.len(),
        |i: int| Detonation { slot: i as usize, explosion: explosion_of(bombs[i]) },
    );
    let spent = |d: Detonation| d.slot < bombs.len() && bombs[d.slot as int].fuse.0.finished;
    let burning = |b: BombEntity| !b.fuse.0.finished;
    reveal(Seq::filter);
    if n > 0 {
        split_counts(bombs, n - 1);
        assert(bombs.take(n) =~= bombs.take(n - 1).push(bombs[n - 1]));
        assert(numbered.take(n) =~= numbered.take(n - 1).push(numbered[n - 1]));
        bombs.take(n - 1).lemma_filter_push(bombs[n - 1], burning);
        numbered.take(n - 1).lemma_filter_push(numbered[n - 1], spent);
    } else {
        assert(bombs.take(0) =~= Seq::empty());
        assert(numbered.take(0) =~= Seq::empty());
    }
}

/// A bomb with a running fuse lies exactly as long as the fuse has left. Over
/// any run of ticks it is gone once the ticks add up to what the fuse had
/// left and not before; the tick that reaches that sum sets off exactly one
/// explosion, at the bomb's position, and no other tick sets off any.
pub proof fn bomb_goes_off_exactly_when_due(bomb: BombEntity, deltas: Seq<u64>)
    requires
        bomb.fuse.0.wf(),
        !bomb.fuse.0.finished,
        bomb.fuse.0.remaining() > 0,
    ensures
        bombs_after_ticks(seq![bomb], deltas) == (if total(deltas) >= bomb.fuse.0.remaining() {
            Seq::<BombEntity>::empty()
        } else {
            seq![BombEntity { bundle: bomb.bundle, fuse: BombFuse(bomb.fuse.0.run(deltas)) }]
        }),
        deltas.len() > 0 ==> blasts_of_last_tick(seq![bomb], deltas) == (if total(
            deltas.drop_last(),
        ) < bomb.fuse.0.remaining() <= total(deltas) {
            seq![explosion_of(bomb)]
        } else {
            Seq::<BombExplosionBundle>::empty()
        }),
        explosion_of(bomb).explosion.position.0 == bomb.bundle.position.0,
    decreases deltas.len(),
{
    reveal(Seq::filter);
    let burning = |b: BombEntity| !b.fuse.0.finished;
    if deltas.len() > 0 {
        let earlier = deltas.drop_last();
        let delta = deltas.last();
        bomb_goes_off_exactly_when_due(bomb, earlier);
        finishes_exactly_when_due(bomb.fuse.0, earlier);
        finishes_exactly_when_due(bomb.fuse.0, deltas);
        let before = bombs_after_ticks(seq![bomb], earlier);
        let ticked = before.map_values(|b: BombEntity| burned(b, delta));
        let numbered = Seq::new(
            ticked.len(),
            |i: int| Detonation { slot: i as usize, explosion: explosion_of(ticked[i]) },
        );
        let spent = |d: Detonation| d.slot < ticked.len() && ticked[d.slot as int].fuse.0.finished;
        if total(earlier) >= bomb.fuse.0.remaining() {
            assert(ticked =~= Seq::empty());
            assert(numbered =~= Seq::empty());
            assert(numbered.filter(spent).map_values(|d: Detonation| d.explosion) =~= Seq::empty());
        } else {
            let held = BombEntity { bundle: bomb.bundle, fuse: BombFuse(bomb.fuse.0.run(earlier)) };
            assert(before =~= seq![held]);
            assert(ticked =~= seq![burned(held, delta)]);
            assert(ticked.drop_last() =~= Seq::empty());
            assert(ticked.last() == burned(held, delta));
            assert(numbered.drop_last() =~= Seq::empty());
            assert(ticked.drop_last().filter(burning) =~= Seq::empty());
            assert(numbered.drop_last().filter(spent) =~= Seq::empty());
            assert(numbered.last().slot == 0);
            assert(burned(held, delta).fuse.0 == bomb.fuse.0.run(deltas));
            if total(deltas) >= bomb.fuse.0.remaining() {
                assert(live(ticked) =~= Seq::empty());
                assert(numbered.filter(spent) =~= seq![numbered.last()]);
                assert(numbered.filter(spent).map_values(|d: Detonation| d.explosion) =~= seq![
                    explosion_of(bomb),
                ]);
            } else {
                assert(live(ticked) =~= seq![burned(held, delta)]);
                assert(numbered.filter(spent) =~= Seq::empty());
                assert(numbered.filter(spent).map_values(|d: Detonation| d.explosion)
                    =~= Seq::empty());
            }
        }
    } else {
        assert(bomb.fuse.0.run(deltas) == bomb.fuse.0);
    }
}

/// A bomb just laid lies for three seconds of ticks, whatever their
/// lengths, and then gives way to one explosion where it lay.
pub proof fn laid_bomb_lies_three_seconds(player: PlayerEntity, deltas: Seq<u64>)
    ensures
        bombs_after_ticks(seq![bomb_of(player)], deltas).len() == (if total(deltas) >= 3
            * NANOS_PER_SECOND {
            0nat
        } else {
            1nat
        }),
        deltas.len() > 0 ==> blasts_of_last_tick(seq![bomb_of(player)], deltas) == (if total(
            deltas.drop_last(),
        ) < 3 * NANOS_PER_SECOND <= total(deltas) {
            seq![explosion_of(bomb_of(player))]
        } else {
            Seq::<BombExplosionBundle>::empty()
        }),
        explosion_of(bomb_of(player)).explosion.position.0 == player.bundle.position.0,
{
    bomb_goes_off_exactly_when_due(bomb_of(player), deltas);
}

/// Bombs outlive whoever placed them: a disconnection leaves every bomb
/// and every fuse as it was, so the bombs burn and go off just as they
/// would have with the client still connected.
pub proof fn orphaned_bombs_burn_on(arena: ArenaView, client_id: u64, deltas: Seq<u64>)
    ensures
        arena.departed(client_id).bombs == arena.bombs,
        bombs_after_ticks(arena.departed(client_id).bombs, deltas) == bombs_after_ticks(
            arena.bombs,
            deltas,
        ),
        deltas.len() > 0 ==> blasts_of_last_tick(arena.departed(client_id).bombs, deltas)
            == blasts_of_last_tick(arena.bombs, deltas),
        forall|delta: u64| #[trigger]
            arena.departed(client_id).fuses_ticked(delta).blown().bombs == arena.fuses_ticked(
                delta,
            ).blown().bombs,
{
}

/// No transition but a connection can make two players share a client:
/// moving, placing bombs, ticking timers, setting off bombs and
/// disconnecting all keep distinct identifiers distinct.
pub proof fn clients_stay_distinct(arena: ArenaView, client_id: u64, position: Vec3, delta: u64)
    requires
        distinct_clients(arena.players),
    ensures
        distinct_clients(arena.departed(client_id).players),
        distinct_clients(arena.relocated(client_id, position).players),
        distinct_clients(arena.bomb_requested(client_id).players),
        distinct_clients(arena.controls_ticked(delta).players),
        distinct_clients(arena.fuses_ticked(delta).players),
        distinct_clients(arena.blown().players),
{
    disconnecting_removes_that_client_only(arena, client_id);
    let moved = arena.relocated(client_id, position).players;
    assert forall|i: int, j: int| 0 <= i < j < moved.len() implies (#[trigger] moved[i]).bundle.player.0
        != (#[trigger] moved[j]).bundle.player.0 by {
        assert(moved[i].bundle.player == arena.players[i].bundle.player);
        assert(moved[j].bundle.player == arena.players[j].bundle.player);
    }
    let armed = arena.bomb_requested(client_id).players;
    assert forall|i: int, j: int| 0 <= i < j < armed.len() implies (#[trigger] armed[i]).bundle.player.0
        != (#[trigger] armed[j]).bundle.player.0 by {
        assert(armed[i].bundle.player == arena.players[i].bundle.player);
        assert(armed[j].bundle.player == arena.players[j].bundle.player);
    }
    let cooled = arena.controls_ticked(delta).players;
    assert forall|i: int, j: int| 0 <= i < j < cooled.len() implies (#[trigger] cooled[i]).bundle.player.0
        != (#[trigger] cooled[j]).bundle.player.0 by {
        assert(cooled[i].bundle.player == arena.players[i].bundle.player);
        assert(cooled[j].bundle.player == arena.players[j].bundle.player);
    }
}

/// Timers stay well formed through every transition, and ticking never
/// turns one back: no cooldown and no fuse loses elapsed time, and none
/// that has finished starts running again by itself.
pub proof fn timers_only_run_forward(arena: ArenaView, client_id: u64, position: Vec3, delta: u64)
    requires
        timers_wf(arena),
    ensures
        timers_wf(arena.joined(client_id)),
        timers_wf(arena.departed(client_id)),
        timers_wf(arena.relocated(client_id, position)),
        timers_wf(arena.bomb_requested(client_id)),
        timers_wf(arena.controls_ticked(delta)),
        timers_wf(arena.fuses_ticked(delta)),
        timers_wf(arena.blown()),
        forall|i: int|
            0 <= i < arena.players.len() ==> ({
                let before = (#[trigger] arena.players[i]).control.0;
                let after = arena.controls_ticked(delta).players[i].control.0;
                &&& after.duration == before.duration
                &&& after.elapsed >= before.elapsed
                &&& before.finished ==> after.finished
            }),
        forall|i: int|
            0 <= i < arena.bombs.len() ==> ({
                let before = (#[trigger] arena.bombs[i]).fuse.0;
                let after = arena.fuses_ticked(delta).bombs[i].fuse.0;
                &&& after.duration == before.duration
                &&& after.elapsed >= before.elapsed
                &&& before.finished ==> after.finished
            }),
{
    let stays = |p: PlayerEntity| !carries(p, client_id);
    let origin = filter_is_ordered_subsequence(arena.players, stays);
    let gone = arena.departed(client_id);
    assert forall|i: int| 0 <= i < gone.players.len() implies (#[trigger] gone.players[i]).control.0.wf() by {
        assert(gone.players[i] == arena.players[origin[i]]);
    }
    let burning = |b: BombEntity| !b.fuse.0.finished;
    let live_origin = filter_is_ordered_subsequence(arena.bombs, burning);
    let rest = arena.blown();
    assert forall|i: int| 0 <= i < rest.bombs.len() implies (#[trigger] rest.bombs[i]).fuse.0.wf() by {
        assert(rest.bombs[i] == arena.bombs[live_origin[i]]);
    }
    let moved = arena.relocated(client_id, position);
    assert forall|i: int| 0 <= i < moved.players.len() implies (#[trigger] moved.players[i]).control.0.wf() by {
        assert(moved.players[i].control == arena.players[i].control);
    }
    let armed = arena.bomb_requested(client_id);
    assert forall|i: int| 0 <= i < armed.players.len() implies (#[trigger] armed.players[i]).control.0.wf() by {
        assert(armed.players[i].control == arena.players[i].control || armed.players[i].control.0
            == Countdown::started(BOMB_DELAY_NANOS));
    }
    assert forall|i: int| 0 <= i < armed.bombs.len() implies (#[trigger] armed.bombs[i]).fuse.0.wf() by {
        if i < arena.bombs.len() {
            assert(armed.bombs[i] == arena.bombs[i]);
        }
    }
    let joined = arena.joined(client_id);
    assert forall|i: int| 0 <= i < joined.players.len() implies (#[trigger] joined.players[i]).control.0.wf() by {
        if i < arena.players.len() {
            assert(joined.players[i] == arena.players[i]);
        }
    }
    let cooled = arena.controls_ticked(delta);
    assert forall|i: int| 0 <= i < cooled.players.len() implies (#[trigger] cooled.players[i]).control.0.wf() by {
        assert(arena.players[i].control.0.wf());
    }
    let burnt = arena.fuses_ticked(delta);
    assert forall|i: int| 0 <= i < burnt.bombs.len() implies (#[trigger] burnt.bombs[i]).fuse.0.wf() by {
        assert(arena.bombs[i].fuse.0.wf());
    }
}

} // verus!
