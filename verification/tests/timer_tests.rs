use tanker::timer::{Countdown, NANOS_PER_MILLI, NANOS_PER_SECOND};

#[test]
fn new_timer_is_running_from_zero() {
    let timer = Countdown::new(5 * NANOS_PER_SECOND);
    assert_eq!(timer.duration, 5_000_000_000);
    assert_eq!(timer.elapsed, 0);
    assert!(!timer.finished());
    assert_eq!(timer.remaining_nanos(), 5_000_000_000);
}

#[test]
fn expired_timer_is_finished_at_once() {
    let timer = Countdown::expired();
    assert!(timer.finished());
    assert_eq!(timer.duration, 0);
    assert_eq!(timer.remaining_nanos(), 0);
}

#[test]
fn tick_adds_elapsed_time() {
    let mut timer = Countdown::new(10);
    timer.tick(4);
    assert!(!timer.finished());
    assert_eq!(timer.elapsed, 4);
    assert_eq!(timer.remaining_nanos(), 6);
}

#[test]
fn tick_finishes_exactly_at_the_duration() {
    let mut timer = Countdown::new(10);
    timer.tick(9);
    assert!(!timer.finished());
    timer.tick(1);
    assert!(timer.finished());
    assert_eq!(timer.elapsed, 10);
}

#[test]
fn tick_past_the_duration_holds_at_the_duration() {
    let mut timer = Countdown::new(10);
    timer.tick(25);
    assert!(timer.finished());
    assert_eq!(timer.elapsed, 10);
    assert_eq!(timer.remaining_nanos(), 0);
}

#[test]
fn finished_timer_ignores_further_ticks() {
    let mut timer = Countdown::new(10);
    timer.tick(10);
    timer.tick(7);
    assert!(timer.finished());
    assert_eq!(timer.elapsed, 10);
    assert_eq!(timer.duration, 10);
}

#[test]
fn timer_of_no_duration_finishes_on_its_first_tick() {
    let mut timer = Countdown::new(0);
    assert!(!timer.finished());
    timer.tick(0);
    assert!(timer.finished());
}

#[test]
fn tick_of_nothing_changes_nothing() {
    let mut timer = Countdown::new(10);
    timer.tick(3);
    timer.tick(0);
    assert_eq!(timer.elapsed, 3);
    assert!(!timer.finished());
}

#[test]
fn huge_ticks_do_not_overflow() {
    let mut timer = Countdown::new(u64::MAX);
    timer.tick(u64::MAX - 1);
    assert!(!timer.finished());
    assert_eq!(timer.elapsed, u64::MAX - 1);
    timer.tick(u64::MAX);
    assert!(timer.finished());
    assert_eq!(timer.elapsed, u64::MAX);
}

#[test]
fn restart_gives_a_new_duration_and_runs_from_zero() {
    let mut timer = Countdown::expired();
    timer.restart(3000 * NANOS_PER_MILLI);
    assert!(!timer.finished());
    assert_eq!(timer.elapsed, 0);
    assert_eq!(timer.duration, 3_000_000_000);
    assert_eq!(timer.remaining_nanos(), 3_000_000_000);
}

#[test]
fn timer_never_runs_backward() {
    let mut timer = Countdown::new(1_000);
    let mut last = timer.elapsed;
    for delta in [0u64, 1, 10, 100, 400, 400, 400, 5] {
        timer.tick(delta);
        assert!(timer.elapsed >= last);
        last = timer.elapsed;
    }
    assert!(timer.finished());
}

#[test]
fn timer_finishes_when_ticks_add_up_to_the_duration() {
    let deltas = [700_000_000u64, 700_000_000, 700_000_000, 700_000_000, 700_000_000];
    let mut timer = Countdown::new(3 * NANOS_PER_SECOND);
    let mut total: u64 = 0;
    for delta in deltas {
        timer.tick(delta);
        total += delta;
        assert_eq!(timer.finished(), total >= 3 * NANOS_PER_SECOND);
    }
}
