use moodels::ai::{
    find_nearest_target, get_wander_intent, step_ai_behavior, update_ai_behavior,
    wander_noise_params, AiAction, AiConfig, AiWanderState, ConfigError, Rolls,
};
use moodels::mood::Mood;
use moodels::timer::{Timer, TimerMode};
use moodels::world::{AgentSnapshot, Vec2};

fn snap(id: u64, x: i64, y: i64, mood: Mood) -> AgentSnapshot {
    AgentSnapshot { id, position: Vec2 { x, y }, mood }
}

fn state(action: AiAction, state_ms: u64, cooldown_ms: u64) -> AiWanderState {
    AiWanderState {
        state_timer: Timer::from_millis(state_ms, TimerMode::Once),
        noise_seed: 7,
        action,
        ability_cooldown: Timer::from_millis(cooldown_ms, TimerMode::Once),
        charge_hit_count: 2,
    }
}

const ROLLS: Rolls = Rolls { cooldown: 6000, pause: 4000 };
const NO_NOISE: Vec2 = Vec2 { x: 0, y: 0 };

#[test]
fn rage_aims_at_the_nearer_candidate() {
    let config = AiConfig::default();
    let all = vec![
        snap(1, 0, 0, Mood::Rage),
        snap(3, 0, 20_000, Mood::Calm),
        snap(2, 10_000, 0, Mood::Happy),
    ];
    let mut ws = state(AiAction::Wandering, 1000, 100);
    let intent = step_ai_behavior(&config, 1, Vec2 { x: 0, y: 0 }, Mood::Rage, &mut ws, &all, 100, NO_NOISE, ROLLS);
    assert_eq!(ws.action, AiAction::Aiming { target: 2 });
    assert_eq!(intent, Vec2 { x: 0, y: 0 });
    assert_eq!(ws.state_timer.duration, 750);
    assert_eq!(ws.charge_hit_count, 0);
}

#[test]
fn rage_ignores_raging_and_self_and_breaks_ties_by_order() {
    let config = AiConfig::default();
    let all = vec![
        snap(1, 0, 0, Mood::Rage),
        snap(4, 1_000, 0, Mood::Rage),
        snap(5, 0, 5_000, Mood::Sad),
        snap(6, 5_000, 0, Mood::Neutral),
    ];
    let mut ws = state(AiAction::Wandering, 1000, 100);
    step_ai_behavior(&config, 1, Vec2 { x: 0, y: 0 }, Mood::Rage, &mut ws, &all, 100, NO_NOISE, ROLLS);
    assert_eq!(ws.action, AiAction::Aiming { target: 5 });
    assert_eq!(find_nearest_target(&all, 1, Vec2 { x: 0, y: 0 }), Some(2));
}

#[test]
fn rage_without_targets_keeps_wandering() {
    let config = AiConfig::default();
    let all = vec![snap(1, 0, 0, Mood::Rage), snap(2, 10, 0, Mood::Rage)];
    let mut ws = state(AiAction::Wandering, 1000, 100);
    let intent = step_ai_behavior(&config, 1, Vec2 { x: 0, y: 0 }, Mood::Rage, &mut ws, &all, 100, Vec2 { x: 0, y: -500 }, ROLLS);
    assert_eq!(ws.action, AiAction::Wandering);
    assert_eq!(intent, Vec2 { x: 0, y: -1000 });
    assert_eq!(find_nearest_target(&all, 1, Vec2 { x: 0, y: 0 }), None);
}

#[test]
fn calm_agent_never_aims() {
    let config = AiConfig::default();
    let all = vec![snap(1, 0, 0, Mood::Calm), snap(2, 10, 0, Mood::Happy)];
    let mut ws = state(AiAction::Wandering, 10_000, 100);
    let intent = step_ai_behavior(&config, 1, Vec2 { x: 0, y: 0 }, Mood::Calm, &mut ws, &all, 100, Vec2 { x: 300, y: 400 }, ROLLS);
    assert_eq!(ws.action, AiAction::Wandering);
    assert_eq!(intent, Vec2 { x: 300, y: 400 });
}

#[test]
fn aiming_stands_still_then_charges_at_frozen_position() {
    let config = AiConfig::default();
    let me = Vec2 { x: 0, y: 0 };
    let mut ws = state(AiAction::Aiming { target: 2 }, 750, 5000);
    let all = vec![snap(1, 0, 0, Mood::Rage), snap(2, 30_000, 40_000, Mood::Happy)];
    let i1 = step_ai_behavior(&config, 1, me, Mood::Rage, &mut ws, &all, 500, Vec2 { x: 1000, y: 0 }, ROLLS);
    assert_eq!(i1, Vec2 { x: 0, y: 0 });
    assert_eq!(ws.action, AiAction::Aiming { target: 2 });
    let i2 = step_ai_behavior(&config, 1, me, Mood::Rage, &mut ws, &all, 300, Vec2 { x: 1000, y: 0 }, ROLLS);
    assert_eq!(i2, Vec2 { x: 0, y: 0 });
    assert_eq!(ws.action, AiAction::Charging { target_pos: Vec2 { x: 30_000, y: 40_000 } });
    assert_eq!(ws.state_timer.duration, 1500);
    let moved = vec![snap(1, 0, 0, Mood::Rage), snap(2, -90_000, 5, Mood::Happy)];
    let i3 = step_ai_behavior(&config, 1, me, Mood::Rage, &mut ws, &moved, 100, Vec2 { x: 1000, y: 0 }, ROLLS);
    assert_eq!(i3, Vec2 { x: 600, y: 800 });
}

#[test]
fn aiming_at_a_vanished_target_falls_back_to_wandering() {
    let config = AiConfig::default();
    let mut ws = state(AiAction::Aiming { target: 9 }, 750, 5000);
    let all = vec![snap(1, 0, 0, Mood::Rage)];
    let i = step_ai_behavior(&config, 1, Vec2 { x: 0, y: 0 }, Mood::Rage, &mut ws, &all, 800, NO_NOISE, ROLLS);
    assert_eq!(i, Vec2 { x: 0, y: 0 });
    assert_eq!(ws.action, AiAction::Wandering);
}

#[test]
fn charge_ends_with_a_cooldown_in_range() {
    let config = AiConfig::default();
    for _ in 0..50 {
        let mut ws = state(AiAction::Charging { target_pos: Vec2 { x: 0, y: 5_000 } }, 1500, 1);
        let all = vec![snap(1, 0, 0, Mood::Rage)];
        let i = update_ai_behavior(&config, 1, Vec2 { x: 0, y: 0 }, Mood::Rage, &mut ws, &all, 1600, NO_NOISE);
        assert_eq!(i, Vec2 { x: 0, y: 1000 });
        assert_eq!(ws.action, AiAction::Wandering);
        assert!(ws.ability_cooldown.duration >= 5000 && ws.ability_cooldown.duration < 8000);
        assert_eq!(ws.ability_cooldown.elapsed, 0);
    }
}

#[test]
fn charging_at_own_position_stands_still() {
    let config = AiConfig::default();
    let mut ws = state(AiAction::Charging { target_pos: Vec2 { x: 7, y: 7 } }, 1500, 1);
    let i = step_ai_behavior(&config, 1, Vec2 { x: 7, y: 7 }, Mood::Rage, &mut ws, &vec![], 10, NO_NOISE, ROLLS);
    assert_eq!(i, Vec2 { x: 0, y: 0 });
}

#[test]
fn sad_wander_alternates_between_moving_and_pausing() {
    let mut ws = state(AiAction::Wandering, 1000, 100_000);
    let noise = Vec2 { x: 1000, y: 0 };
    ws.state_timer.tick(500);
    let moving = get_wander_intent(Mood::Sad, &mut ws, noise, 4000);
    assert_eq!(moving, Vec2 { x: 400, y: 0 });
    ws.state_timer.tick(500);
    let paused = get_wander_intent(Mood::Sad, &mut ws, noise, 4000);
    assert_eq!(paused, Vec2 { x: 0, y: 0 });
    assert_eq!(ws.state_timer.duration, 4000);
    assert_eq!(ws.state_timer.elapsed, 0);
    ws.state_timer.tick(100);
    let again = get_wander_intent(Mood::Sad, &mut ws, noise, 5000);
    assert_eq!(again, Vec2 { x: 400, y: 0 });
}

#[test]
fn sad_agent_through_the_state_machine() {
    let config = AiConfig::default();
    let mut ws = state(AiAction::Wandering, 1000, 100_000);
    let noise = Vec2 { x: 0, y: -800 };
    let all = vec![snap(1, 0, 0, Mood::Sad)];
    let a = step_ai_behavior(&config, 1, Vec2 { x: 0, y: 0 }, Mood::Sad, &mut ws, &all, 600, noise, ROLLS);
    assert_eq!(a, Vec2 { x: 0, y: -400 });
    let b = step_ai_behavior(&config, 1, Vec2 { x: 0, y: 0 }, Mood::Sad, &mut ws, &all, 600, noise, ROLLS);
    assert_eq!(b, Vec2 { x: 0, y: 0 });
    assert_eq!(ws.state_timer.duration, 4000);
    let c = step_ai_behavior(&config, 1, Vec2 { x: 0, y: 0 }, Mood::Sad, &mut ws, &all, 600, noise, ROLLS);
    assert_eq!(c, Vec2 { x: 0, y: -400 });
}

#[test]
fn mood_shapes_of_wander() {
    let noise = Vec2 { x: 300, y: 400 };
    let mut ws = state(AiAction::Wandering, 1000, 1000);
    assert_eq!(get_wander_intent(Mood::Happy, &mut ws, noise, 4000), Vec2 { x: 90, y: 120 });
    assert_eq!(get_wander_intent(Mood::Rage, &mut ws, noise, 4000), Vec2 { x: 600, y: 800 });
    assert_eq!(get_wander_intent(Mood::Calm, &mut ws, noise, 4000), Vec2 { x: 300, y: 400 });
    assert_eq!(get_wander_intent(Mood::Neutral, &mut ws, noise, 4000), Vec2 { x: 360, y: 480 });
    assert_eq!(get_wander_intent(Mood::Sad, &mut ws, noise, 4000), Vec2 { x: 240, y: 320 });
    assert_eq!(get_wander_intent(Mood::Happy, &mut ws, Vec2 { x: -1000, y: 0 }, 4000), Vec2 { x: -300, y: 0 });
}

#[test]
fn noise_parameters_per_mood() {
    assert_eq!(wander_noise_params(Mood::Happy), (200, 2));
    assert_eq!(wander_noise_params(Mood::Rage), (500, 4));
    assert_eq!(wander_noise_params(Mood::Calm), (100, 1));
    assert_eq!(wander_noise_params(Mood::Neutral), (300, 2));
    assert_eq!(wander_noise_params(Mood::Sad), (100, 1));
}

#[test]
fn new_wander_state_draws_in_ranges() {
    for _ in 0..50 {
        let ws = AiWanderState::new();
        assert_eq!(ws.action, AiAction::Wandering);
        assert!(ws.state_timer.duration >= 500 && ws.state_timer.duration < 1500);
        assert!(ws.ability_cooldown.duration >= 3000 && ws.ability_cooldown.duration < 6000);
        assert_eq!(ws.charge_hit_count, 0);
    }
}

#[test]
fn default_config_is_valid() {
    let c = AiConfig::default();
    assert_eq!(c.validate(), Ok(()));
    assert_eq!(c.cohesion_strength, 50);
    assert_eq!(c.rage_charge_aim_duration, 750);
    assert_eq!(c.rage_charge_cooldown_start, 5000);
    assert_eq!(c.rage_charge_cooldown_end, 8000);
}

#[test]
fn config_errors() {
    let mut c = AiConfig::default();
    c.rage_charge_cooldown_start = 9000;
    assert_eq!(c.validate(), Err(ConfigError::EmptyCooldownRange));
    let mut c = AiConfig::default();
    c.rage_charge_cooldown_end = 5000;
    assert_eq!(c.validate(), Err(ConfigError::EmptyCooldownRange));
    let mut c = AiConfig::default();
    c.separation_strength = -1_000_001;
    assert_eq!(c.validate(), Err(ConfigError::StrengthOutOfRange));
    let mut c = AiConfig::default();
    c.cohesion_strength = -50;
    assert_eq!(c.validate(), Ok(()));
    let mut c = AiConfig::default();
    c.avoidance_margin = -5;
    assert_eq!(c.validate(), Err(ConfigError::AvoidanceOutOfRange));
}

#[test]
fn spawn_config_defaults() {
    let c = moodels::ai::AiSpawnConfig::default();
    assert_eq!(c.positions.len(), 15);
    assert_eq!(c.positions[0], Vec2 { x: -200_000, y: 100_000 });
    assert_eq!(c.positions[14], Vec2 { x: 150_000, y: 50_000 });
    assert_eq!(c.max_speed, 350_000);
}

#[test]
fn wander_noise_samples_per_mood() {
    let (x, y) = moodels::ai::wander_noise_samples(Mood::Rage, 10_000, 5);
    assert_eq!(x.point, Vec2 { x: 5000, y: 0 });
    assert_eq!(y.point, Vec2 { x: 0, y: 5000 });
    assert_eq!((x.octaves, x.seed, y.seed), (4, 5, 1005));
    let (a, b) = moodels::ai::get_2d_noise(7, 1, u64::MAX);
    assert_eq!(a.seed, u64::MAX);
    assert_eq!(b.seed, 999);
    let (c, _) = moodels::ai::wander_noise_samples(Mood::Sad, 3_000, 0);
    assert_eq!(c.point, Vec2 { x: 300, y: 0 });
}
