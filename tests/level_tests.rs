use moodels::ai::{AiAction, AiConfig, Rolls};
use moodels::level::{
    create_tutorial_from_code, get_level_by_id, parse_mood, spawn_level_entities,
    spawn_moodel_bundle, GoalZoneData, Level, LevelError, MoodelData, ObstacleKind,
};
use moodels::mood::Mood;
use moodels::sim::{take_snapshot, tick_agents, MovementController};
use moodels::forces::{AiMagnetism, PlayArea};
use moodels::world::Vec2;

const BLIND: AiMagnetism = AiMagnetism {
    vision_radius: 0,
    cohesion_strength: 0,
    separation_strength: 0,
    separation_distance: 0,
};

const SIGHTED: AiMagnetism = AiMagnetism {
    vision_radius: 1_000_000,
    cohesion_strength: 0,
    separation_strength: 0,
    separation_distance: 0,
};

#[test]
fn tutorial_level_by_id() {
    let level = get_level_by_id("tutorial_code").unwrap();
    assert_eq!(level.name, "Programmatic Tutorial");
    assert_eq!(level.play_area, Vec2 { x: 900_000, y: 600_000 });
    assert_eq!(level.moodels, vec![MoodelData { mood: Mood::Happy, position: Vec2 { x: -200_000, y: 0 } }]);
    assert_eq!(level.obstacles[0].kind, ObstacleKind::Wall { size: Vec2 { x: 20_000, y: 300_000 } });
    assert_eq!(level.goal_zones[0].required_count, 1);
    assert_eq!(level.goal_zones[0].target_mood, Mood::Happy);
    assert!(get_level_by_id("tutorial").is_none());
    assert!(get_level_by_id("").is_none());
}

#[test]
fn mood_names() {
    assert_eq!(parse_mood("Neutral"), Some(Mood::Neutral));
    assert_eq!(parse_mood("Calm"), Some(Mood::Calm));
    assert_eq!(parse_mood("Happy"), Some(Mood::Happy));
    assert_eq!(parse_mood("Rage"), Some(Mood::Rage));
    assert_eq!(parse_mood("Sad"), Some(Mood::Sad));
    assert_eq!(parse_mood("rage"), None);
    assert_eq!(parse_mood("Angry"), None);
}

#[test]
fn level_validation() {
    assert_eq!(create_tutorial_from_code().validate(), Ok(()));
    let mut bad = create_tutorial_from_code();
    bad.play_area = Vec2 { x: -1, y: 10 };
    assert_eq!(bad.validate(), Err(LevelError::PlayAreaOutOfRange));
    let mut far = create_tutorial_from_code();
    far.moodels.push(MoodelData { mood: Mood::Sad, position: Vec2 { x: 2_000_000_000, y: 0 } });
    assert_eq!(far.validate(), Err(LevelError::PositionOutOfBounds));
    let crowded = Level {
        name: "crowd".to_string(),
        play_area: Vec2 { x: 10, y: 10 },
        moodels: vec![MoodelData { mood: Mood::Calm, position: Vec2 { x: 0, y: 0 } }; 600_000],
        obstacles: vec![],
        goal_zones: vec![
            GoalZoneData { position: Vec2 { x: 0, y: 0 }, size: Vec2 { x: 1, y: 1 }, target_mood: Mood::Calm, required_count: 1 };
            400_001
        ],
    };
    assert_eq!(crowded.validate(), Err(LevelError::TooManyEntities));
}

#[test]
fn spawned_agent_is_wandering_with_mood_speed() {
    let a = spawn_moodel_bundle(4, Mood::Sad, Vec2 { x: 1, y: 2 }, 350_000, BLIND);
    assert_eq!(a.id, 4);
    assert_eq!(a.mood, Mood::Sad);
    assert_eq!(a.wander_state.action, AiAction::Wandering);
    assert_eq!(a.controller, MovementController { intent: Vec2 { x: 0, y: 0 }, max_speed: 131_250 });
    assert_eq!(a.mood_entity.mood_stability, 0);
    assert_eq!(MovementController::default().max_speed, 400_000);
}

#[test]
fn spawning_numbers_agents_then_zones() {
    let level = create_tutorial_from_code();
    let state = spawn_level_entities(&level, &BLIND);
    assert_eq!(state.agents.len(), 1);
    assert_eq!(state.agents[0].id, 0);
    assert_eq!(state.zones.len(), 1);
    assert_eq!(state.zones[0].id, 1);
    assert!(!state.zones[0].is_satisfied);
    assert!(!state.level_won);
    assert_eq!(state.play_area, PlayArea { center: Vec2 { x: 0, y: 0 }, size: Vec2 { x: 900_000, y: 600_000 } });
    let snap = take_snapshot(&state.agents);
    assert_eq!(snap[0].position, Vec2 { x: -200_000, y: 0 });
}

#[test]
fn tutorial_is_won_when_the_agent_enters_the_zone() {
    let level = create_tutorial_from_code();
    let mut state = spawn_level_entities(&level, &BLIND);
    let config = AiConfig::default();
    let rolls = vec![Rolls { cooldown: 6000, pause: 4000 }];
    let noises = vec![Vec2 { x: 1000, y: 0 }];
    let first = state.tick(&config, 100, &vec![3], &noises, &rolls, &vec![], &vec![]);
    assert!(!first.level_complete);
    assert!(!state.zones[0].is_satisfied);
    assert_eq!(state.agents[0].controller.intent, Vec2 { x: 300, y: 0 });
    let second = state.tick(&config, 100, &vec![3], &noises, &rolls, &vec![(0, 1)], &vec![]);
    assert_eq!(second.correct_entries, vec![0]);
    assert!(second.level_complete);
    assert!(state.level_won);
    assert_eq!(state.zones[0].current_count, 1);
    let third = state.tick(&config, 100, &vec![3], &noises, &rolls, &vec![], &vec![(1, 0)]);
    assert!(!third.level_complete);
    assert!(!state.zones[0].is_satisfied);
    assert!(state.level_won);
}

#[test]
fn tick_reads_one_snapshot_for_all_agents() {
    let config = AiConfig::default();
    let area = PlayArea::default();
    let mut a = vec![
        spawn_moodel_bundle(1, Mood::Happy, Vec2 { x: 0, y: 0 }, 350_000, SIGHTED),
        spawn_moodel_bundle(2, Mood::Happy, Vec2 { x: 100_000, y: 0 }, 350_000, SIGHTED),
    ];
    assert_eq!(a[0].magnetism, SIGHTED);
    let mut b = vec![a[1], a[0]];
    let noises = vec![Vec2 { x: 0, y: 0 }, Vec2 { x: 0, y: 0 }];
    let rolls = vec![Rolls { cooldown: 6000, pause: 4000 }; 2];
    tick_agents(&config, &area, &mut a, &vec![1, 1], 100, &noises, &rolls);
    tick_agents(&config, &area, &mut b, &vec![1, 1], 100, &noises, &rolls);
    assert_eq!(a[0].controller.intent, b[1].controller.intent);
    assert_eq!(a[1].controller.intent, b[0].controller.intent);
    assert_eq!(a[0].controller.intent, Vec2 { x: 5000, y: 0 });
    assert_eq!(a[1].controller.intent, Vec2 { x: -5000, y: 0 });
}

#[test]
fn tick_reports_mood_changes() {
    let config = AiConfig::default();
    let area = PlayArea::default();
    let mut a = vec![
        spawn_moodel_bundle(7, Mood::Happy, Vec2 { x: 0, y: 0 }, 350_000, BLIND),
        spawn_moodel_bundle(8, Mood::Sad, Vec2 { x: 1_000, y: 0 }, 350_000, BLIND),
    ];
    a[1].mood_entity.next_cycle_progression.elapsed = 7_900;
    let noises = vec![Vec2 { x: 0, y: 0 }; 2];
    let rolls = vec![Rolls { cooldown: 6000, pause: 4000 }; 2];
    let changes = tick_agents(&config, &area, &mut a, &vec![0, 0], 500, &noises, &rolls);
    assert_eq!(
        changes,
        vec![
            (7, moodels::transitions::MoodChange { old: Mood::Happy, new: Mood::Sad }),
            (8, moodels::transitions::MoodChange { old: Mood::Sad, new: Mood::Rage }),
        ]
    );
    assert_eq!(a[0].mood, Mood::Sad);
    assert_eq!(a[1].mood, Mood::Rage);
}

#[test]
fn spawned_agent_has_fresh_timers_and_takes_large_speeds() {
    let a = spawn_moodel_bundle(1, Mood::Rage, Vec2 { x: 0, y: 0 }, 4_000_000_000_000_000, BLIND);
    assert_eq!(a.controller.max_speed, 6_000_000_000_000_000);
    assert_eq!(a.mood_entity.next_mood_check.duration, 500);
    assert_eq!(a.mood_entity.next_cycle_progression.duration, 8000);
    assert_eq!(a.mood_entity.collision_count, 0);
    assert_eq!(a.wander_state.charge_hit_count, 0);
    let state = spawn_level_entities(&create_tutorial_from_code(), &BLIND);
    assert_eq!(state.agents[0].wander_state.action, AiAction::Wandering);
    assert_eq!(state.zones[0].current_count, 0);
}

#[test]
fn spawned_level_agents_get_the_given_perception() {
    let state = spawn_level_entities(&create_tutorial_from_code(), &SIGHTED);
    assert_eq!(state.agents[0].magnetism, SIGHTED);
}

#[test]
fn drawn_rolls_fit_the_configuration() {
    let config = AiConfig::default();
    let rolls = moodels::ai::draw_rolls(&config, 40);
    assert_eq!(rolls.len(), 40);
    for r in rolls {
        assert!(r.cooldown >= 5000 && r.cooldown < 8000);
        assert!(r.pause >= 3000 && r.pause < 6000);
    }
}
