use moodels::chance::{draw_below, draw_in_range};
use moodels::timer::{Timer, TimerMode};

#[test]
fn once_timer_finishes_and_stays_finished() {
    let mut t = Timer::from_millis(1000, TimerMode::Once);
    t.tick(400);
    assert!(!t.is_finished());
    assert!(!t.just_finished());
    assert_eq!(t.elapsed, 400);
    t.tick(700);
    assert!(t.is_finished());
    assert!(t.just_finished());
    assert_eq!(t.elapsed, 1000);
    t.tick(10);
    assert!(t.is_finished());
    assert!(!t.just_finished());
}

#[test]
fn repeating_timer_wraps() {
    let mut t = Timer::from_millis(500, TimerMode::Repeating);
    t.tick(1200);
    assert!(t.just_finished());
    assert_eq!(t.times_finished_this_tick, 2);
    assert_eq!(t.elapsed, 200);
    t.tick(100);
    assert!(!t.just_finished());
    assert!(!t.is_finished());
    assert_eq!(t.elapsed, 300);
}

#[test]
fn restart_clears_progress() {
    let mut t = Timer::from_millis(100, TimerMode::Once);
    t.tick(150);
    t.restart_with(4000);
    assert_eq!(t.duration, 4000);
    assert_eq!(t.elapsed, 0);
    assert!(!t.is_finished());
    assert!(!t.just_finished());
    t.tick(50);
    t.reset();
    assert_eq!(t.elapsed, 0);
}

#[test]
fn draws_stay_in_range_and_vary() {
    let mut distinct = Vec::new();
    for _ in 0..200 {
        let v = draw_in_range(1000, 1_000_000);
        assert!(v >= 1000 && v < 1_000_000);
        if !distinct.contains(&v) {
            distinct.push(v);
        }
    }
    assert!(distinct.len() > 1);
    assert_eq!(draw_below(1), 0);
    assert_eq!(draw_in_range(7, 8), 7);
}
