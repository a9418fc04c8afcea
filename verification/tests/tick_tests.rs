use bevy::math::Vec3;
use tanker::color::client_color;
use tanker::tick::{
    Arena, ServerEvent, BOMB_DELAY, BOMB_FUSE_DELAY, BOMB_FUSE_NANOS, BOMB_RADIUS, MOVE_SPEED,
};
use tanker::timer::{NANOS_PER_MILLI, NANOS_PER_SECOND};

fn spawn_point() -> Vec3 {
    Vec3::new(0.0, 0.5, 0.0)
}

fn seconds(count: u64) -> u64 {
    count * NANOS_PER_SECOND
}

/// Applies one movement event the way the server does between its lookups.
fn step(arena: &mut Arena, client_id: u64, direction: Vec3, elapsed_seconds: f32) -> bool {
    match arena.player_position(client_id) {
        Some(position) => {
            arena.relocate(client_id, position + direction * elapsed_seconds * MOVE_SPEED as f32)
        }
        None => false,
    }
}

#[test]
fn constants_have_their_values() {
    assert_eq!(MOVE_SPEED, 3);
    assert_eq!(BOMB_RADIUS, 3);
    assert_eq!(BOMB_DELAY, 3000);
    assert_eq!(BOMB_FUSE_DELAY, 3);
    assert_eq!(BOMB_FUSE_NANOS, 3_000_000_000);
}

#[test]
fn new_arena_is_empty() {
    let arena = Arena::new(spawn_point());
    assert!(arena.players.is_empty());
    assert!(arena.bombs.is_empty());
    assert_eq!(arena.spawn, spawn_point());
}

#[test]
fn connect_creates_one_player_at_the_spawn_point() {
    let mut arena = Arena::new(spawn_point());
    arena.connect(42);
    assert_eq!(arena.players.len(), 1);
    let player = arena.players[0];
    assert_eq!(player.bundle.player.0, 42);
    assert_eq!(player.bundle.position.0, Vec3::new(0.0, 0.5, 0.0));
    assert_eq!(player.bundle.color.0, client_color(42));
    assert!(player.control.0.finished());
    assert_eq!(player.control.0.duration, 0);
}

#[test]
fn connect_keeps_earlier_players_first() {
    let mut arena = Arena::new(spawn_point());
    arena.connect(1);
    arena.connect(2);
    arena.connect(3);
    let ids: Vec<u64> = arena.players.iter().map(|p| p.bundle.player.0).collect();
    assert_eq!(ids, vec![1, 2, 3]);
}

#[test]
fn disconnect_removes_exactly_that_player() {
    let mut arena = Arena::new(spawn_point());
    // 5 and 5 + 24219 leave the same remainders, so they share a colour
    arena.connect(5);
    arena.connect(9);
    arena.connect(5 + 24_219);
    assert_eq!(arena.players[0].bundle.color.0, arena.players[2].bundle.color.0);
    let vacated = arena.disconnect(5);
    assert_eq!(vacated, vec![0]);
    let ids: Vec<u64> = arena.players.iter().map(|p| p.bundle.player.0).collect();
    assert_eq!(ids, vec![9, 5 + 24_219]);
}

#[test]
fn disconnect_of_a_stranger_changes_nothing() {
    let mut arena = Arena::new(spawn_point());
    arena.connect(1);
    arena.connect(2);
    let vacated = arena.disconnect(77);
    assert!(vacated.is_empty());
    assert_eq!(arena.players.len(), 2);
}

#[test]
fn connect_then_disconnect_leaves_the_arena_as_it_was() {
    let mut arena = Arena::new(spawn_point());
    arena.connect(1);
    arena.connect(2);
    arena.disconnect(2);
    assert_eq!(arena.players.len(), 1);
    assert_eq!(arena.players[0].bundle.player.0, 1);
}

#[test]
fn server_events_are_applied_in_order() {
    let mut arena = Arena::new(spawn_point());
    let events = vec![
        ServerEvent::ClientConnected { client_id: 1 },
        ServerEvent::ClientConnected { client_id: 2 },
        ServerEvent::ClientDisconnected { client_id: 1 },
        ServerEvent::ClientConnected { client_id: 3 },
    ];
    arena.server_event_system(&events);
    let ids: Vec<u64> = arena.players.iter().map(|p| p.bundle.player.0).collect();
    assert_eq!(ids, vec![2, 3]);
}

#[test]
fn server_event_reports_vacated_slots() {
    let mut arena = Arena::new(spawn_point());
    assert!(arena.server_event(ServerEvent::ClientConnected { client_id: 1 }).is_empty());
    assert!(arena.server_event(ServerEvent::ClientConnected { client_id: 2 }).is_empty());
    assert_eq!(arena.server_event(ServerEvent::ClientDisconnected { client_id: 2 }), vec![1]);
}

#[test]
fn find_player_gives_the_slot() {
    let mut arena = Arena::new(spawn_point());
    arena.connect(10);
    arena.connect(20);
    assert_eq!(arena.find_player(10), Some(0));
    assert_eq!(arena.find_player(20), Some(1));
    assert_eq!(arena.find_player(30), None);
}

#[test]
fn movement_for_one_second_covers_three_units() {
    let mut arena = Arena::new(Vec3::ZERO);
    arena.connect(1);
    assert!(step(&mut arena, 1, Vec3::new(1.0, 0.0, 0.0), 1.0));
    assert_eq!(arena.players[0].bundle.position.0, Vec3::new(3.0, 0.0, 0.0));
}

#[test]
fn movement_in_two_halves_adds_up() {
    let mut arena = Arena::new(Vec3::ZERO);
    arena.connect(1);
    assert!(step(&mut arena, 1, Vec3::new(1.0, 0.0, 0.0), 0.5));
    assert_eq!(arena.players[0].bundle.position.0, Vec3::new(1.5, 0.0, 0.0));
    assert!(step(&mut arena, 1, Vec3::new(1.0, 0.0, 0.0), 0.5));
    assert_eq!(arena.players[0].bundle.position.0, Vec3::new(3.0, 0.0, 0.0));
}

#[test]
fn movement_moves_only_the_named_player() {
    let mut arena = Arena::new(spawn_point());
    arena.connect(1);
    arena.connect(2);
    assert!(arena.relocate(2, Vec3::new(4.0, 0.5, -2.0)));
    assert_eq!(arena.players[0].bundle.position.0, spawn_point());
    assert_eq!(arena.players[1].bundle.position.0, Vec3::new(4.0, 0.5, -2.0));
    assert_eq!(arena.players[1].bundle.player.0, 2);
    assert_eq!(arena.players[1].bundle.color.0, client_color(2));
}

#[test]
fn movement_of_a_stranger_changes_nothing() {
    let mut arena = Arena::new(spawn_point());
    arena.connect(1);
    assert_eq!(arena.player_position(99), None);
    assert!(!arena.relocate(99, Vec3::new(9.0, 9.0, 9.0)));
    assert!(!step(&mut arena, 99, Vec3::X, 1.0));
    assert_eq!(arena.players.len(), 1);
    assert_eq!(arena.players[0].bundle.position.0, spawn_point());
}

#[test]
fn first_bomb_is_never_blocked() {
    let mut arena = Arena::new(spawn_point());
    arena.connect(7);
    assert!(arena.spawn_bomb(7));
    assert_eq!(arena.bombs.len(), 1);
}

#[test]
fn granted_bomb_copies_position_and_color() {
    let mut arena = Arena::new(spawn_point());
    arena.connect(7);
    arena.relocate(7, Vec3::new(2.0, 0.5, -1.0));
    assert!(arena.spawn_bomb(7));
    let bomb = arena.bombs[0];
    assert_eq!(bomb.bundle.position.0, Vec3::new(2.0, 0.5, -1.0));
    assert_eq!(bomb.bundle.color.0, client_color(7));
    assert_eq!(bomb.fuse.0.duration, 3 * NANOS_PER_SECOND);
    assert_eq!(bomb.fuse.0.elapsed, 0);
    assert!(!bomb.fuse.0.finished());
}

#[test]
fn granted_bomb_restarts_the_cooldown_at_3000_ms() {
    let mut arena = Arena::new(spawn_point());
    arena.connect(7);
    assert!(arena.spawn_bomb(7));
    let control = arena.players[0].control.0;
    assert!(!control.finished());
    assert_eq!(control.remaining_nanos(), 3000 * NANOS_PER_MILLI);
}

#[test]
fn bomb_request_during_cooldown_is_dropped() {
    let mut arena = Arena::new(spawn_point());
    arena.connect(7);
    assert!(arena.spawn_bomb(7));
    arena.tick_bomb_control_timers_system(seconds(1));
    let before = arena.players[0].control.0;
    assert!(!arena.spawn_bomb(7));
    assert_eq!(arena.bombs.len(), 1);
    assert_eq!(arena.players[0].control.0.elapsed, before.elapsed);
    assert_eq!(arena.players[0].control.0.duration, before.duration);
    assert_eq!(arena.players[0].control.0.remaining_nanos(), seconds(2));
}

#[test]
fn bomb_request_after_cooldown_is_granted_again() {
    let mut arena = Arena::new(spawn_point());
    arena.connect(7);
    assert!(arena.spawn_bomb(7));
    arena.tick_bomb_control_timers_system(3000 * NANOS_PER_MILLI - 1);
    assert!(!arena.spawn_bomb(7));
    arena.tick_bomb_control_timers_system(1);
    assert!(arena.spawn_bomb(7));
    assert_eq!(arena.bombs.len(), 2);
}

#[test]
fn bomb_request_of_a_stranger_is_dropped() {
    let mut arena = Arena::new(spawn_point());
    arena.connect(7);
    assert!(!arena.spawn_bomb(8));
    assert!(arena.bombs.is_empty());
    assert!(arena.players[0].control.0.finished());
}

#[test]
fn bomb_requests_are_handled_each_on_its_own() {
    let mut arena = Arena::new(spawn_point());
    arena.connect(1);
    arena.connect(2);
    arena.relocate(2, Vec3::new(5.0, 0.5, 5.0));
    // client 1 asks twice, a stranger asks once, and client 2 asks last
    arena.spawn_bombs_system(&vec![1, 1, 99, 2]);
    assert_eq!(arena.bombs.len(), 2);
    assert_eq!(arena.bombs[0].bundle.position.0, spawn_point());
    assert_eq!(arena.bombs[0].bundle.color.0, client_color(1));
    assert_eq!(arena.bombs[1].bundle.position.0, Vec3::new(5.0, 0.5, 5.0));
    assert_eq!(arena.bombs[1].bundle.color.0, client_color(2));
}

#[test]
fn bomb_stays_where_it_was_placed() {
    let mut arena = Arena::new(spawn_point());
    arena.connect(1);
    assert!(arena.spawn_bomb(1));
    arena.relocate(1, Vec3::new(8.0, 0.5, 8.0));
    assert_eq!(arena.bombs[0].bundle.position.0, spawn_point());
}

#[test]
fn bomb_goes_off_after_three_seconds_and_not_before() {
    let mut arena = Arena::new(spawn_point());
    arena.connect(1);
    arena.relocate(1, Vec3::new(1.0, 0.5, 2.0));
    assert!(arena.spawn_bomb(1));
    assert!(arena.blow_bombs_system().is_empty());

    arena.tick_bomb_fuse_timers_system(seconds(1));
    assert!(arena.blow_bombs_system().is_empty());
    arena.tick_bomb_fuse_timers_system(seconds(1));
    assert!(arena.blow_bombs_system().is_empty());
    arena.tick_bomb_fuse_timers_system(seconds(1) - 1);
    assert!(arena.blow_bombs_system().is_empty());
    assert_eq!(arena.bombs.len(), 1);

    arena.tick_bomb_fuse_timers_system(1);
    let blasts = arena.blow_bombs_system();
    assert_eq!(blasts.len(), 1);
    assert_eq!(blasts[0].slot, 0);
    assert_eq!(blasts[0].explosion.explosion.position.0, Vec3::new(1.0, 0.5, 2.0));
    assert_eq!(blasts[0].explosion.explosion.radius.0, 3);
    assert!(arena.bombs.is_empty());

    arena.tick_bomb_fuse_timers_system(seconds(5));
    assert!(arena.blow_bombs_system().is_empty());
}

#[test]
fn bombs_go_off_each_at_its_own_time() {
    let mut arena = Arena::new(spawn_point());
    arena.connect(1);
    arena.connect(2);
    arena.relocate(1, Vec3::new(1.0, 0.5, 0.0));
    arena.relocate(2, Vec3::new(2.0, 0.5, 0.0));
    assert!(arena.spawn_bomb(1));
    arena.tick_bomb_fuse_timers_system(seconds(2));
    assert!(arena.spawn_bomb(2));
    arena.tick_bomb_fuse_timers_system(seconds(1));
    let first = arena.blow_bombs_system();
    assert_eq!(first.len(), 1);
    assert_eq!(first[0].slot, 0);
    assert_eq!(first[0].explosion.explosion.position.0, Vec3::new(1.0, 0.5, 0.0));
    assert_eq!(arena.bombs.len(), 1);
    assert_eq!(arena.bombs[0].bundle.position.0, Vec3::new(2.0, 0.5, 0.0));

    arena.tick_bomb_fuse_timers_system(seconds(2));
    let second = arena.blow_bombs_system();
    assert_eq!(second.len(), 1);
    assert_eq!(second[0].slot, 0);
    assert_eq!(second[0].explosion.explosion.position.0, Vec3::new(2.0, 0.5, 0.0));
    assert!(arena.bombs.is_empty());
}

#[test]
fn detonations_name_the_slots_in_rising_order() {
    let mut arena = Arena::new(spawn_point());
    arena.connect(1);
    arena.connect(2);
    arena.connect(3);
    assert!(arena.spawn_bomb(1));
    arena.tick_bomb_fuse_timers_system(seconds(1));
    assert!(arena.spawn_bomb(2));
    arena.tick_bomb_fuse_timers_system(seconds(1));
    assert!(arena.spawn_bomb(3));
    // fuses now stand at 2 s, 1 s and 0 s
    arena.bombs[0].fuse.0.tick(0);
    arena.bombs[2].fuse.0.tick(seconds(3));
    arena.bombs[0].fuse.0.tick(seconds(1));
    let blasts = arena.blow_bombs_system();
    let slots: Vec<usize> = blasts.iter().map(|b| b.slot).collect();
    assert_eq!(slots, vec![0, 2]);
    assert_eq!(arena.bombs.len(), 1);
    assert_eq!(arena.bombs[0].bundle.color.0, client_color(2));
}

#[test]
fn orphaned_bomb_still_goes_off() {
    let mut arena = Arena::new(spawn_point());
    arena.connect(1);
    arena.relocate(1, Vec3::new(-3.0, 0.5, 6.0));
    assert!(arena.spawn_bomb(1));
    arena.tick_bomb_fuse_timers_system(seconds(1));
    arena.disconnect(1);
    assert!(arena.players.is_empty());
    assert_eq!(arena.bombs.len(), 1);
    assert_eq!(arena.bombs[0].fuse.0.elapsed, seconds(1));

    arena.tick_bomb_fuse_timers_system(seconds(1));
    assert!(arena.blow_bombs_system().is_empty());
    arena.tick_bomb_fuse_timers_system(seconds(1));
    let blasts = arena.blow_bombs_system();
    assert_eq!(blasts.len(), 1);
    assert_eq!(blasts[0].explosion.explosion.position.0, Vec3::new(-3.0, 0.5, 6.0));
    assert!(arena.bombs.is_empty());
}

#[test]
fn control_timers_tick_for_every_player() {
    let mut arena = Arena::new(spawn_point());
    arena.connect(1);
    arena.connect(2);
    assert!(arena.spawn_bomb(1));
    assert!(arena.spawn_bomb(2));
    arena.tick_bomb_control_timers_system(seconds(1));
    assert_eq!(arena.players[0].control.0.elapsed, seconds(1));
    assert_eq!(arena.players[1].control.0.elapsed, seconds(1));
    assert_eq!(arena.bombs[0].fuse.0.elapsed, 0);
}

#[test]
fn fuse_timers_tick_for_every_bomb() {
    let mut arena = Arena::new(spawn_point());
    arena.connect(1);
    arena.connect(2);
    assert!(arena.spawn_bomb(1));
    assert!(arena.spawn_bomb(2));
    arena.tick_bomb_fuse_timers_system(seconds(2));
    assert_eq!(arena.bombs[0].fuse.0.elapsed, seconds(2));
    assert_eq!(arena.bombs[1].fuse.0.elapsed, seconds(2));
    assert_eq!(arena.players[0].control.0.elapsed, 0);
}

#[test]
fn a_whole_round_in_tick_order() {
    let mut arena = Arena::new(spawn_point());
    let tick = NANOS_PER_SECOND / 2;
    let mut explosions = 0;
    for number in 0..10u32 {
        arena.tick_bomb_control_timers_system(tick);
        arena.tick_bomb_fuse_timers_system(tick);
        if number == 0 {
            arena.server_event_system(&vec![ServerEvent::ClientConnected { client_id: 1 }]);
        }
        step(&mut arena, 1, Vec3::X, 0.5);
        // the bomb key is held all the time
        arena.spawn_bombs_system(&vec![1]);
        explosions += arena.blow_bombs_system().len();
    }
    // bombs are laid in ticks 0 and 6; the first goes off in tick 6
    assert_eq!(explosions, 1);
    assert_eq!(arena.bombs.len(), 1);
    assert_eq!(arena.bombs[0].bundle.position.0, Vec3::new(10.5, 0.5, 0.0));
    assert_eq!(arena.players[0].bundle.position.0, Vec3::new(15.0, 0.5, 0.0));
}
