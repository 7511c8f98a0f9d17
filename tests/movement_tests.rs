use moodels::forces::PlayArea;
use moodels::movement::{
    apply_movement_with_smoothing, apply_play_area_boundaries, apply_screen_wrap,
    MovementSmoothing, PlayAreaBounded,
};
use moodels::sim::MovementController;
use moodels::world::Vec2;

fn pushing(x: i64, y: i64) -> MovementController {
    MovementController { intent: Vec2 { x, y }, max_speed: 400_000 }
}

#[test]
fn direct_force_chases_the_target_velocity() {
    let (force, s) = apply_movement_with_smoothing(pushing(1000, 0), Vec2 { x: 100_000, y: 0 }, None, 16);
    assert_eq!(force, Vec2 { x: 6_000_000, y: 0 });
    assert!(s.is_none());
}

#[test]
fn smoothing_accelerates_at_a_bounded_rate() {
    let (force, s) = apply_movement_with_smoothing(pushing(1000, 0), Vec2 { x: 0, y: 0 }, Some(MovementSmoothing::default()), 100);
    let s = s.unwrap();
    assert_eq!(s.current_velocity, Vec2 { x: 80_000, y: 0 });
    assert_eq!(force, Vec2 { x: 1_600_000, y: 0 });
    let (_, s2) = apply_movement_with_smoothing(pushing(1000, 0), Vec2 { x: 0, y: 0 }, Some(s), 1000);
    assert_eq!(s2.unwrap().current_velocity, Vec2 { x: 400_000, y: 0 });
}

#[test]
fn smoothing_decelerates_at_its_own_rate() {
    let s = MovementSmoothing { current_velocity: Vec2 { x: 400_000, y: 0 }, ..MovementSmoothing::default() };
    let (_, s) = apply_movement_with_smoothing(pushing(0, 0), Vec2 { x: 0, y: 0 }, Some(s), 100);
    assert_eq!(s.unwrap().current_velocity, Vec2 { x: 280_000, y: 0 });
}

#[test]
fn smoothing_snaps_when_close() {
    let s = MovementSmoothing { current_velocity: Vec2 { x: 5, y: 0 }, ..MovementSmoothing::default() };
    let (force, s) = apply_movement_with_smoothing(pushing(0, 0), Vec2 { x: 1, y: 1 }, Some(s), 1);
    assert_eq!(s.unwrap().current_velocity, Vec2 { x: 0, y: 0 });
    assert_eq!(force, Vec2 { x: -20, y: -20 });
}

#[test]
fn agents_bounce_off_the_play_area() {
    let area = PlayArea::default();
    let bounded = PlayAreaBounded::default();
    assert_eq!(bounded.restitution, 800);
    let smooth = Some(MovementSmoothing::default());
    let r = apply_play_area_boundaries(&area, Vec2 { x: -450_000, y: 350_000 }, Vec2 { x: -1000, y: 500 }, smooth, &bounded);
    assert_eq!((r.0, r.1, r.2), (Vec2 { x: -400_000, y: 300_000 }, Vec2 { x: 800, y: -400 }, true));
    assert_eq!(r.3.unwrap().current_velocity, Vec2 { x: 800, y: -400 });
    assert_eq!(r.3.unwrap().acceleration, 800_000);
    let inside = apply_play_area_boundaries(&area, Vec2 { x: 10, y: 10 }, Vec2 { x: -1000, y: 500 }, smooth, &bounded);
    assert_eq!((inside.0, inside.1, inside.2), (Vec2 { x: 10, y: 10 }, Vec2 { x: -1000, y: 500 }, false));
    assert_eq!(inside.3, smooth);
    let bare = apply_play_area_boundaries(&area, Vec2 { x: 500_000, y: 0 }, Vec2 { x: 300, y: 0 }, None, &bounded);
    assert_eq!((bare.0, bare.1, bare.2, bare.3), (Vec2 { x: 400_000, y: 0 }, Vec2 { x: -240, y: 0 }, true, None));
}

#[test]
fn positions_wrap_around_the_window() {
    let window = Vec2 { x: 1_280_000, y: 720_000 };
    assert_eq!(apply_screen_wrap(window, Vec2 { x: 800_000, y: -500_000 }), Vec2 { x: -736_000, y: 476_000 });
    assert_eq!(apply_screen_wrap(window, Vec2 { x: 0, y: 0 }), Vec2 { x: 0, y: 0 });
}
