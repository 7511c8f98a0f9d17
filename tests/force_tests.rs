use moodels::ai::{AiAction, AiConfig};
use moodels::forces::{update_ai_boundary_avoidance, update_ai_magnetism, AiMagnetism, PlayArea};
use moodels::mood::Mood;
use moodels::vecmath::{div_toward_zero, isqrt, normalize_or_zero, scale};
use moodels::world::{distance_squared, AgentSnapshot, Vec2};

fn snap(id: u64, x: i64, y: i64, mood: Mood) -> AgentSnapshot {
    AgentSnapshot { id, position: Vec2 { x, y }, mood }
}

fn sight(vision: i64, separation: i64) -> AiMagnetism {
    AiMagnetism {
        vision_radius: vision,
        cohesion_strength: 0,
        separation_strength: 0,
        separation_distance: separation,
    }
}

#[test]
fn cohesion_pulls_towards_a_liked_neighbour() {
    let config = AiConfig::default();
    let all = vec![snap(1, 0, 0, Mood::Happy), snap(2, 100_000, 0, Mood::Happy)];
    let r = update_ai_magnetism(&config, 1, Vec2 { x: 0, y: 0 }, Mood::Happy, AiAction::Wandering, &sight(1_000_000, 0), &all, Vec2 { x: 10, y: 20 });
    assert_eq!(r, Vec2 { x: 5010, y: 20 });
}

#[test]
fn cohesion_is_averaged_over_liked_neighbours_only() {
    let config = AiConfig::default();
    let all = vec![
        snap(2, 100_000, 0, Mood::Happy),
        snap(3, 0, 100_000, Mood::Happy),
        snap(4, -50_000, 0, Mood::Rage),
    ];
    let r = update_ai_magnetism(&config, 1, Vec2 { x: 0, y: 0 }, Mood::Sad, AiAction::Wandering, &sight(1_000_000, 0), &all, Vec2 { x: 0, y: 0 });
    // Sad likes nobody here: -0.8 towards each happy agent, -1.0 towards the raging one.
    assert_eq!(r, Vec2 { x: -1500, y: -4000 });
}

#[test]
fn separation_pushes_away_from_a_close_neighbour() {
    let mut config = AiConfig::default();
    config.separation_strength = 1000;
    let all = vec![snap(2, 3_000, 4_000, Mood::Happy)];
    let r = update_ai_magnetism(&config, 1, Vec2 { x: 0, y: 0 }, Mood::Calm, AiAction::Wandering, &sight(1_000_000, 10_000), &all, Vec2 { x: 0, y: 0 });
    assert_eq!(r, Vec2 { x: -117, y: -156 });
}

#[test]
fn neighbours_out_of_sight_are_ignored() {
    let config = AiConfig::default();
    let all = vec![snap(2, 100_000, 0, Mood::Happy)];
    let r = update_ai_magnetism(&config, 1, Vec2 { x: 0, y: 0 }, Mood::Happy, AiAction::Wandering, &sight(100_000, 0), &all, Vec2 { x: 3, y: 4 });
    assert_eq!(r, Vec2 { x: 3, y: 4 });
}

#[test]
fn forces_leave_aiming_and_charging_agents_alone() {
    let config = AiConfig::default();
    let area = PlayArea::default();
    let all = vec![snap(2, 100_000, 0, Mood::Happy)];
    let corner = Vec2 { x: -399_000, y: 299_000 };
    for action in [AiAction::Aiming { target: 2 }, AiAction::Charging { target_pos: Vec2 { x: 5, y: 5 } }] {
        let base = Vec2 { x: 600, y: -800 };
        let f = update_ai_magnetism(&config, 1, corner, Mood::Happy, action, &sight(1_000_000, 50_000), &all, base);
        assert_eq!(f, base);
        let b = update_ai_boundary_avoidance(&area, &config, corner, action, f);
        assert_eq!(b, base);
    }
}

#[test]
fn corner_gets_force_on_both_axes() {
    let config = AiConfig::default();
    let area = PlayArea::default();
    let r = update_ai_boundary_avoidance(&area, &config, Vec2 { x: -350_000, y: 250_000 }, AiAction::Wandering, Vec2 { x: 1, y: 1 });
    assert_eq!(r, Vec2 { x: 2001, y: -1999 });
}

#[test]
fn centre_gets_no_avoidance() {
    let config = AiConfig::default();
    let area = PlayArea::default();
    let r = update_ai_boundary_avoidance(&area, &config, Vec2 { x: 0, y: 0 }, AiAction::Wandering, Vec2 { x: 5, y: -5 });
    assert_eq!(r, Vec2 { x: 5, y: -5 });
    let right = update_ai_boundary_avoidance(&area, &config, Vec2 { x: 350_000, y: -250_000 }, AiAction::Wandering, Vec2 { x: 0, y: 0 });
    assert_eq!(right, Vec2 { x: -2000, y: 2000 });
}

#[test]
fn integer_square_roots() {
    assert_eq!(isqrt(0), 0);
    assert_eq!(isqrt(1), 1);
    assert_eq!(isqrt(24), 4);
    assert_eq!(isqrt(25), 5);
    assert_eq!(isqrt(u64::MAX as u128), 4_294_967_295);
    assert_eq!(isqrt(u128::MAX), u64::MAX as u128);
}

#[test]
fn normalisation_and_scaling() {
    assert_eq!(normalize_or_zero(Vec2 { x: 3, y: 4 }), Vec2 { x: 600, y: 800 });
    assert_eq!(normalize_or_zero(Vec2 { x: -3, y: 4 }), Vec2 { x: -600, y: 800 });
    assert_eq!(normalize_or_zero(Vec2 { x: 0, y: 0 }), Vec2 { x: 0, y: 0 });
    assert_eq!(normalize_or_zero(Vec2 { x: 1, y: 1 }), Vec2 { x: 707, y: 707 });
    assert_eq!(normalize_or_zero(Vec2 { x: 0, y: -1 }), Vec2 { x: 0, y: -1000 });
    assert_eq!(normalize_or_zero(Vec2 { x: 1000, y: 1000 }), Vec2 { x: 707, y: 707 });
    assert_eq!(scale(Vec2 { x: -999, y: 5 }, 1, 2), Vec2 { x: -499, y: 2 });
    assert_eq!(div_toward_zero(-7, 2), -3);
    assert_eq!(div_toward_zero(7, 2), 3);
    assert_eq!(distance_squared(Vec2 { x: 1, y: 2 }, Vec2 { x: 4, y: 6 }), 25);
}
