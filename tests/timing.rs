use slimegame::timer::{Timer, TimerMode};

#[test]
fn once_timer_finishes_and_holds() {
    let mut t = Timer::new(1_000, TimerMode::Once);
    t.tick(400);
    assert_eq!(t.elapsed, 400);
    assert!(!t.is_finished() && !t.is_just_finished());
    t.tick(600);
    assert_eq!(t.elapsed, 1_000);
    assert!(t.is_finished() && t.is_just_finished());
    t.tick(10);
    assert_eq!(t.elapsed, 1_000);
    assert!(t.is_finished() && !t.is_just_finished());
}

#[test]
fn repeating_timer_wraps() {
    let mut t = Timer::new(700, TimerMode::Repeating);
    t.tick(1_500);
    assert_eq!(t.elapsed, 100);
    assert!(t.is_just_finished());
    t.tick(100);
    assert_eq!(t.elapsed, 200);
    assert!(!t.is_just_finished() && !t.is_finished());
}

#[test]
fn paused_timer_waits() {
    let mut t = Timer::new_paused(100, TimerMode::Once);
    t.tick(1_000);
    assert_eq!(t.elapsed, 0);
    assert!(!t.is_finished());
    t.unpause();
    t.tick(100);
    assert!(t.is_finished() && t.is_just_finished());
    t.reset();
    assert_eq!(t.elapsed, 0);
    assert!(!t.is_finished());
    t.pause();
    assert!(t.is_paused());
}

#[test]
fn zero_duration_repeating_fires_every_tick() {
    let mut t = Timer::new(0, TimerMode::Repeating);
    t.tick(5);
    assert!(t.is_just_finished());
    assert_eq!(t.elapsed, 0);
    t.tick(0);
    assert!(t.is_just_finished());
}

#[test]
fn huge_ticks_do_not_overflow() {
    let mut t = Timer::new(u64::MAX - 1, TimerMode::Repeating);
    t.tick(u64::MAX - 1);
    assert_eq!(t.elapsed, 0);
    assert!(t.is_just_finished());
    t.tick(u64::MAX);
    assert_eq!(t.elapsed, 1);
    let mut o = Timer::new(u64::MAX, TimerMode::Once);
    o.tick(u64::MAX - 3);
    o.tick(u64::MAX);
    assert_eq!(o.elapsed, u64::MAX);
    assert!(o.is_finished());
}
