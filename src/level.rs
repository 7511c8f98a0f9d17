//! Levels: the descriptor a level is built from, the built-in levels, and the
//! running state of a level with its per-tick step.
use vstd::prelude::*;

use crate::ai::{noise_ok, AiAction, AiConfig, AiWanderState, Rolls};
use crate::forces::{AiMagnetism, PlayArea, MAX_AGENTS};
use crate::mood::{spec_speed_multiplier, Mood};
use crate::sim::{
    all_changes, intent_phase, mood_phase, snapshot_of, take_snapshot, tick_agents, Agent,
    MovementController,
};
use crate::timer::{Timer, TimerMode};
use crate::transitions::{MoodChange, MoodEntity, COLLISION_CHECK_PERIOD_MS, CYCLE_PERIOD_MS};
use crate::world::{Vec2, COORD_LIMIT};
use crate::zone::{
    after_entries, after_exits, all_satisfied, check_win_condition, correct_entries,
    handle_zone_collisions, update_zones, zone_count, zone_ids, GoalZone,
};

verus! {

/// Base top speed of an agent before its mood multiplier, in position steps
/// per second.
pub const BASE_MAX_SPEED: i64 = 350_000;

/// Largest base top speed whose mood-scaled value still fits the machine
/// integer.
pub const MAX_SPEED_LIMIT: i64 = 6_148_914_691_236_517;

/// An agent of a level descriptor.
#[derive(Clone, Copy, Debug, PartialEq, Eq, Structural)]
pub struct MoodelData {
    pub mood: Mood,
    pub position: Vec2,
}

/// The shape of an obstacle.
#[derive(Clone, Copy, Debug, PartialEq, Eq, Structural)]
pub enum ObstacleKind {
    Wall { size: Vec2 },
}

/// An obstacle of a level descriptor.
#[derive(Clone, Copy, Debug, PartialEq, Eq, Structural)]
pub struct ObstacleData {
    pub position: Vec2,
    pub kind: ObstacleKind,
}

/// A goal zone of a level descriptor.
#[derive(Clone, Copy, Debug, PartialEq, Eq, Structural)]
pub struct GoalZoneData {
    pub position: Vec2,
    pub size: Vec2,
    pub target_mood: Mood,
    pub required_count: u32,
}

/// An already parsed, immutable level descriptor.
#[derive(Clone, Debug)]
pub struct Level {
    pub name: String,
    /// Full width and height of the play area, centred on the origin.
    pub play_area: Vec2,
    pub moodels: Vec<MoodelData>,
    pub obstacles: Vec<ObstacleData>,
    pub goal_zones: Vec<GoalZoneData>,
}

/// Why a level descriptor was rejected.
#[derive(Clone, Copy, Debug, PartialEq, Eq, Structural)]
pub enum LevelError {
    /// The play area has a negative or oversized side.
    PlayAreaOutOfRange,
    /// The level holds more agents and zones than the simulation takes.
    TooManyEntities,
    /// An agent starts outside the position limits.
    PositionOutOfBounds,
}

impl Level {
    pub open spec fn play_area_ok(&self) -> bool {
        0 <= self.play_area.x <= 2 * COORD_LIMIT && 0 <= self.play_area.y <= 2 * COORD_LIMIT
    }

    pub open spec fn counts_ok(&self) -> bool {
        self.moodels.len() + self.goal_zones.len() <= MAX_AGENTS
    }

    pub open spec fn positions_ok(&self) -> bool {
        forall|i: int| 0 <= i < self.moodels.len() ==> (#[trigger] self.moodels@[i]).position.in_bounds()
    }

    /// A level the simulation can be built from.
    pub open spec fn wf(&self) -> bool {
        self.play_area_ok() && self.counts_ok() && self.positions_ok()
    }

    /// Checks a descriptor before a level is built from it.
    pub fn validate(&self) -> (r: Result<(), LevelError>)
        ensures
            r is Ok <==> self.wf(),
            r == Err::<(), LevelError>(LevelError::PlayAreaOutOfRange) <==> !self.play_area_ok(),
            r == Err::<(), LevelError>(LevelError::TooManyEntities) <==> self.play_area_ok()
                && !self.counts_ok(),
            r == Err::<(), LevelError>(LevelError::PositionOutOfBounds) <==> self.play_area_ok()
                && self.counts_ok() && !self.positions_ok(),
    {
        if self.play_area.x < 0 || self.play_area.x > 2 * COORD_LIMIT || self.play_area.y < 0
            || self.play_area.y > 2 * COORD_LIMIT {
            return Err(LevelError::PlayAreaOutOfRange);
        }
        if self.moodels.len() > MAX_AGENTS || self.goal_zones.len() > MAX_AGENTS
            - self.moodels.len() {
            return Err(LevelError::TooManyEntities);
        }
        let mut i: usize = 0;
        while i < self.moodels.len()
            invariant
                0 <= i <= self.moodels.len(),
                self.play_area_ok(),
                self.counts_ok(),
                forall|j: int| 0 <= j < i ==> (#[trigger] self.moodels@[j]).position.in_bounds(),
            decreases self.moodels.len() - i,
        {
            let p = self.moodels[i].position;
            if p.x < -COORD_LIMIT || p.x > COORD_LIMIT || p.y < -COORD_LIMIT || p.y > COORD_LIMIT {
                return Err(LevelError::PositionOutOfBounds);
            }
            i += 1;
        }
        Ok(())
    }
}

/// Whether two strings hold the same characters.
fn same_text(a: &str, b: &str) -> (r: bool)
    ensures
        r == (a@ == b@),
{
    let a = a.to_owned();
    let b = b.to_owned();
    a == b
}

/// The name under which a mood is written in level files.
pub open spec fn mood_name(m: Mood) -> Seq<char> {
    match m {
        Mood::Neutral => "Neutral"@,
        Mood::Calm => "Calm"@,
        Mood::Happy => "Happy"@,
        Mood::Rage => "Rage"@,
        Mood::Sad => "Sad"@,
    }
}

/// The mood written as `name` in a level file; an unknown name is refused.
pub fn parse_mood(name: &str) -> (r: Option<Mood>)
    ensures
        r matches Some(m) ==> name@ == mood_name(m),
        r is None <==> forall|m: Mood| name@ != #[trigger] mood_name(m),
{
    proof {
        reveal_strlit("Neutral");
        reveal_strlit("Calm");
        reveal_strlit("Happy");
        reveal_strlit("Rage");
        reveal_strlit("Sad");
    }
    if same_text(name, "Neutral") {
        assert(name@ == mood_name(Mood::Neutral));
        Some(Mood::Neutral)
    } else if same_text(name, "Calm") {
        assert(name@ == mood_name(Mood::Calm));
        Some(Mood::Calm)
    } else if same_text(name, "Happy") {
        assert(name@ == mood_name(Mood::Happy));
        Some(Mood::Happy)
    } else if same_text(name, "Rage") {
        assert(name@ == mood_name(Mood::Rage));
        Some(Mood::Rage)
    } else if same_text(name, "Sad") {
        assert(name@ == mood_name(Mood::Sad));
        Some(Mood::Sad)
    } else {
        proof {
            assert forall|m: Mood| name@ != #[trigger] mood_name(m) by {
                match m {
                    Mood::Neutral => {},
                    Mood::Calm => {},
                    Mood::Happy => {},
                    Mood::Rage => {},
                    Mood::Sad => {},
                }
            }
        }
        None
    }
}

/// The tutorial level written in code: one happy agent left of a wall, and a
/// zone to its right that wants one happy agent.
pub open spec fn is_tutorial(r: Level) -> bool {
    &&& r.name@ == "Programmatic Tutorial"@
    &&& r.play_area == (Vec2 { x: 900_000, y: 600_000 })
    &&& r.moodels@ == seq![MoodelData { mood: Mood::Happy, position: Vec2 { x: -200_000i64, y: 0 } }]
    &&& r.obstacles@ == seq![
        ObstacleData {
            position: Vec2 { x: 0, y: 0 },
            kind: ObstacleKind::Wall { size: Vec2 { x: 20_000, y: 300_000 } },
        },
    ]
    &&& r.goal_zones@ == seq![
        GoalZoneData {
            position: Vec2 { x: 350_000, y: 0 },
            size: Vec2 { x: 200_000, y: 200_000 },
            target_mood: Mood::Happy,
            required_count: 1,
        },
    ]
}

/// Builds the tutorial level.
pub fn create_tutorial_from_code() -> (r: Level)
    ensures
        is_tutorial(r),
        r.wf(),
{
    let mut moodels: Vec<MoodelData> = Vec::new();
    moodels.push(MoodelData { mood: Mood::Happy, position: Vec2 { x: -200_000, y: 0 } });
    let mut obstacles: Vec<ObstacleData> = Vec::new();
    obstacles.push(
        ObstacleData {
            position: Vec2 { x: 0, y: 0 },
            kind: ObstacleKind::Wall { size: Vec2 { x: 20_000, y: 300_000 } },
        },
    );
    let mut goal_zones: Vec<GoalZoneData> = Vec::new();
    goal_zones.push(
        GoalZoneData {
            position: Vec2 { x: 350_000, y: 0 },
            size: Vec2 { x: 200_000, y: 200_000 },
            target_mood: Mood::Happy,
            required_count: 1,
        },
    );
    let name = "Programmatic Tutorial".to_owned();
    let r = Level {
        name,
        play_area: Vec2 { x: 900_000, y: 600_000 },
        moodels,
        obstacles,
        goal_zones,
    };
    assert(r.moodels@ =~= seq![MoodelData { mood: Mood::Happy, position: Vec2 { x: -200_000i64, y: 0 } }]);
    assert(r.obstacles@ =~= seq![
        ObstacleData {
            position: Vec2 { x: 0, y: 0 },
            kind: ObstacleKind::Wall { size: Vec2 { x: 20_000, y: 300_000 } },
        },
    ]);
    assert(r.goal_zones@ =~= seq![
        GoalZoneData {
            position: Vec2 { x: 350_000, y: 0 },
            size: Vec2 { x: 200_000, y: 200_000 },
            target_mood: Mood::Happy,
            required_count: 1,
        },
    ]);
    r
}

/// The built-in level named `id`, if there is one.
pub fn get_level_by_id(id: &str) -> (r: Option<Level>)
    ensures
        r is Some <==> id@ == "tutorial_code"@,
        r matches Some(l) ==> is_tutorial(l) && l.wf(),
{
    if same_text(id, "tutorial_code") {
        Some(create_tutorial_from_code())
    } else {
        None
    }
}

/// A new agent in `mood` at `position`: wandering, with fresh mood timers,
/// random wander timers, the given perception of neighbours, and a top speed
/// scaled by its mood.
pub fn spawn_moodel_bundle(
    id: u64,
    mood: Mood,
    position: Vec2,
    max_speed: i64,
    magnetism: AiMagnetism,
) -> (r: Agent)
    requires
        position.in_bounds(),
        magnetism.wf(),
        0 <= max_speed <= MAX_SPEED_LIMIT,
    ensures
        r.wf(),
        r.id == id,
        r.mood == mood,
        r.position == position,
        r.mood_entity.collision_count == 0,
        r.mood_entity.mood_stability == 0,
        r.mood_entity.next_mood_check == Timer::from_millis_spec(
            COLLISION_CHECK_PERIOD_MS,
            TimerMode::Repeating,
        ),
        r.mood_entity.next_cycle_progression == Timer::from_millis_spec(
            CYCLE_PERIOD_MS,
            TimerMode::Repeating,
        ),
        r.wander_state.action == AiAction::Wandering,
        r.wander_state.charge_hit_count == 0,
        r.magnetism == magnetism,
        r.controller.intent == Vec2::zero_spec(),
        r.controller.max_speed == max_speed * spec_speed_multiplier(mood) / 1000,
{
    let m = mood.speed_multiplier() as i64;
    assert(max_speed * m <= MAX_SPEED_LIMIT * 1500) by (nonlinear_arith)
        requires
            0 <= max_speed <= MAX_SPEED_LIMIT,
            0 <= m <= 1500,
    ;
    assert(max_speed * m >= 0) by (nonlinear_arith)
        requires
            0 <= max_speed,
            0 <= m,
    ;
    let speed = max_speed * m / 1000;
    Agent {
        id,
        position,
        mood,
        mood_entity: MoodEntity::default(),
        wander_state: AiWanderState::new(),
        magnetism,
        controller: MovementController { intent: Vec2::zero(), max_speed: speed },
    }
}

/// A level in play.
#[derive(Debug)]
pub struct LevelState {
    pub play_area: PlayArea,
    pub agents: Vec<Agent>,
    pub obstacles: Vec<ObstacleData>,
    pub zones: Vec<GoalZone>,
    /// The one-way level-complete latch.
    pub level_won: bool,
}

impl LevelState {
    pub open spec fn wf(&self) -> bool {
        &&& self.play_area.wf()
        &&& self.agents.len() <= MAX_AGENTS
        &&& forall|k: int| 0 <= k < self.agents.len() ==> (#[trigger] self.agents@[k]).wf()
        &&& forall|k: int| 0 <= k < self.zones.len() ==> (#[trigger] self.zones@[k]).wf()
    }
}

/// Builds a level in play from its descriptor: agent `i` gets identifier `i`,
/// zone `j` identifier `n + j` for `n` agents; every zone starts empty and the
/// latch unset. Every agent perceives its neighbours as `magnetism` says.
pub fn spawn_level_entities(level: &Level, magnetism: &AiMagnetism) -> (r: LevelState)
    requires
        level.wf(),
        magnetism.wf(),
    ensures
        r.wf(),
        r.play_area == (PlayArea { center: Vec2 { x: 0, y: 0 }, size: level.play_area }),
        r.agents.len() == level.moodels.len(),
        r.zones.len() == level.goal_zones.len(),
        r.obstacles@ == level.obstacles@,
        !r.level_won,
        forall|i: int|
            0 <= i < r.agents.len() ==> {
                &&& (#[trigger] r.agents@[i]).id == i
                &&& r.agents@[i].mood == level.moodels@[i].mood
                &&& r.agents@[i].position == level.moodels@[i].position
                &&& r.agents@[i].wander_state.action == AiAction::Wandering
                &&& r.agents@[i].wander_state.charge_hit_count == 0
                &&& r.agents@[i].mood_entity.mood_stability == 0
                &&& r.agents@[i].controller.intent == Vec2::zero_spec()
                &&& r.agents@[i].magnetism == *magnetism
            },
        forall|j: int|
            0 <= j < r.zones.len() ==> {
                &&& (#[trigger] r.zones@[j]).id == level.moodels.len() + j
                &&& r.zones@[j].target_mood == level.goal_zones@[j].target_mood
                &&& r.zones@[j].required_count == level.goal_zones@[j].required_count
                &&& r.zones@[j].occupancy() == Set::<u64>::empty()
                &&& r.zones@[j].current_count == 0
                &&& !r.zones@[j].is_satisfied
            },
{
    let mut agents: Vec<Agent> = Vec::new();
    let mut i: usize = 0;
    while i < level.moodels.len()
        invariant
            0 <= i <= level.moodels.len(),
            level.wf(),
            magnetism.wf(),
            agents.len() == i,
            forall|k: int|
                0 <= k < i ==> {
                    &&& (#[trigger] agents@[k]).wf()
                    &&& agents@[k].id == k
                    &&& agents@[k].mood == level.moodels@[k].mood
                    &&& agents@[k].position == level.moodels@[k].position
                    &&& agents@[k].wander_state.action == AiAction::Wandering
                    &&& agents@[k].wander_state.charge_hit_count == 0
                    &&& agents@[k].mood_entity.mood_stability == 0
                    &&& agents@[k].controller.intent == Vec2::zero_spec()
                    &&& agents@[k].magnetism == *magnetism
                },
        decreases level.moodels.len() - i,
    {
        let data = level.moodels[i];
        assert(level.moodels@[i as int].position.in_bounds());
        agents.push(spawn_moodel_bundle(
            i as u64,
            data.mood,
            data.position,
            BASE_MAX_SPEED,
            *magnetism,
        ));
        i += 1;
    }
    let n = level.moodels.len();
    let mut zones: Vec<GoalZone> = Vec::new();
    let mut j: usize = 0;
    while j < level.goal_zones.len()
        invariant
            0 <= j <= level.goal_zones.len(),
            n == level.moodels.len(),
            level.wf(),
            zones.len() == j,
            forall|k: int|
                0 <= k < j ==> {
                    &&& (#[trigger] zones@[k]).wf()
                    &&& zones@[k].id == n + k
                    &&& zones@[k].target_mood == level.goal_zones@[k].target_mood
                    &&& zones@[k].required_count == level.goal_zones@[k].required_count
                    &&& zones@[k].occupancy() == Set::<u64>::empty()
                    &&& zones@[k].current_count == 0
                    &&& !zones@[k].is_satisfied
                },
        decreases level.goal_zones.len() - j,
    {
        let data = level.goal_zones[j];
        zones.push(GoalZone::new((n + j) as u64, data.target_mood, data.required_count));
        j += 1;
    }
    LevelState {
        play_area: PlayArea { center: Vec2::zero(), size: level.play_area },
        agents,
        obstacles: level.obstacles.clone(),
        zones,
        level_won: false,
    }
}

/// What one tick of a level surfaces to the outside.
#[derive(Debug)]
pub struct TickReport {
    /// Agents that entered a zone whose target is their mood.
    pub correct_entries: Vec<u64>,
    /// Whether the level-complete signal fired on this tick.
    pub level_complete: bool,
    /// Mood changes of the tick, each with the agent's identifier.
    pub mood_changes: Vec<(u64, MoodChange)>,
}

impl LevelState {
    /// One tick of a level in play: agent moods and intents (see
    /// `tick_agents`); then the collision events against the zones, a recount
    /// of every zone, and the win check.
    pub fn tick(
        &mut self,
        config: &AiConfig,
        delta: u64,
        counts: &Vec<usize>,
        noises: &Vec<Vec2>,
        rolls: &Vec<Rolls>,
        started: &Vec<(u64, u64)>,
        ended: &Vec<(u64, u64)>,
    ) -> (r: TickReport)
        requires
            old(self).wf(),
            config.wf(),
            counts.len() == old(self).agents.len(),
            noises.len() == old(self).agents.len(),
            rolls.len() == old(self).agents.len(),
            forall|k: int| 0 <= k < rolls.len() ==> (#[trigger] rolls@[k]).fit(*config),
            forall|k: int| 0 <= k < noises.len() ==> noise_ok(#[trigger] noises@[k]),
            forall|k: int|
                0 <= k < old(self).zones.len() ==> (#[trigger] old(self).zones@[k]).entities_inside.len()
                    + started.len() <= u32::MAX,
        ensures
            final(self).wf(),
            final(self).agents.len() == old(self).agents.len(),
            final(self).zones.len() == old(self).zones.len(),
            ({
                let mid = Seq::new(
                    old(self).agents.len() as nat,
                    |k: int| mood_phase(old(self).agents@[k], counts@[k], delta),
                );
                forall|k: int|
                    0 <= k < final(self).agents.len() ==> #[trigger] final(self).agents@[k]
                        == intent_phase(
                        *config,
                        old(self).play_area,
                        mid[k],
                        snapshot_of(mid),
                        delta,
                        noises@[k],
                        rolls@[k],
                    )
            }),
            forall|k: int|
                0 <= k < final(self).zones.len() ==> {
                    let live = snapshot_of(final(self).agents@);
                    let ids = zone_ids(old(self).zones@);
                    let occ = after_exits(
                        after_entries(old(self).zones@[k].occupancy(), k, live, ids, started@),
                        k,
                        live,
                        ids,
                        ended@,
                    );
                    &&& (#[trigger] final(self).zones@[k]).same_settings(&old(self).zones@[k])
                    &&& final(self).zones@[k].occupancy() == occ
                    &&& final(self).zones@[k].current_count == zone_count(
                        occ,
                        live,
                        old(self).zones@[k].target_mood,
                    )
                    &&& final(self).zones@[k].is_satisfied == (final(self).zones@[k].current_count
                        >= final(self).zones@[k].required_count)
                },
            r.correct_entries@ == correct_entries(
                snapshot_of(final(self).agents@),
                old(self).zones@,
                started@,
            ),
            r.level_complete == (all_satisfied(final(self).zones@) && !old(self).level_won),
            final(self).level_won == (old(self).level_won || r.level_complete),
            r.mood_changes@ == all_changes(old(self).agents@, counts@, delta),
    {
        let changes = tick_agents(
            config,
            &self.play_area,
            &mut self.agents,
            counts,
            delta,
            noises,
            rolls,
        );
        let all = take_snapshot(&self.agents);
        let cues = handle_zone_collisions(&mut self.zones, &all, started, ended);
        update_zones(&mut self.zones, &all);
        let fired = check_win_condition(&self.zones, &mut self.level_won);
        TickReport { correct_entries: cues, level_complete: fired, mood_changes: changes }
    }
}

} // verus!
