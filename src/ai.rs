//! Agent behaviour: the Wandering / Aiming / Charging action state machine,
//! mood-shaped wandering, flocking forces and boundary avoidance.
use vstd::prelude::*;

use crate::chance::draw_in_range;
use crate::mood::Mood;
use crate::timer::{Timer, TimerMode};
use crate::vecmath::{
    lemma_normalized_is_unit, normalize_or_zero, scale, spec_normalize_or_zero, spec_scale,
};
use crate::world::{
    all_in_bounds, dist_sq, distance_squared, find_agent, first_index_of, AgentSnapshot, Vec2,
    COORD_LIMIT, UNIT,
};

verus! {

/// Largest magnitude of a cohesion or separation strength, in thousandths.
pub const STRENGTH_LIMIT: i64 = 1_000_000;

/// Largest boundary avoidance strength, in thousandths of a unit of speed.
pub const AVOIDANCE_LIMIT: i64 = 1_000_000_000;

/// Shortest pause of a sad agent, in milliseconds.
pub const SAD_PAUSE_MIN_MS: u64 = 3000;

/// Pauses of a sad agent are shorter than this, in milliseconds.
pub const SAD_PAUSE_END_MS: u64 = 6000;

/// Tunables of the agents' behaviour, fixed for a whole simulation.
#[derive(Clone, Copy, Debug, PartialEq, Eq, Structural)]
pub struct AiConfig {
    /// Weight of the cohesion force, in thousandths.
    pub cohesion_strength: i64,
    /// Weight of the separation force, in thousandths.
    pub separation_strength: i64,
    /// Distance from an edge at which avoidance starts, in position steps.
    pub avoidance_margin: i64,
    /// Magnitude of the avoidance force per axis, in thousandths.
    pub avoidance_strength: i64,
    /// How long a raging agent aims before charging, in milliseconds.
    pub rage_charge_aim_duration: u64,
    /// How long a charge lasts, in milliseconds.
    pub rage_charge_duration: u64,
    /// Shortest cooldown between charges, in milliseconds.
    pub rage_charge_cooldown_start: u64,
    /// Cooldowns between charges are shorter than this, in milliseconds.
    pub rage_charge_cooldown_end: u64,
    /// Hits a charge sequence may land before the agent burns out.
    pub rage_max_hits_before_burnout: u32,
}

/// Why a configuration was rejected.
#[derive(Clone, Copy, Debug, PartialEq, Eq, Structural)]
pub enum ConfigError {
    /// The cooldown range holds no value.
    EmptyCooldownRange,
    /// A cohesion or separation strength lies outside
    /// `-STRENGTH_LIMIT..=STRENGTH_LIMIT`.
    StrengthOutOfRange,
    /// The avoidance margin or strength lies outside its range.
    AvoidanceOutOfRange,
}

impl AiConfig {
    pub open spec fn cooldown_ok(&self) -> bool {
        self.rage_charge_cooldown_start < self.rage_charge_cooldown_end
    }

    pub open spec fn strengths_ok(&self) -> bool {
        &&& -STRENGTH_LIMIT <= self.cohesion_strength <= STRENGTH_LIMIT
        &&& -STRENGTH_LIMIT <= self.separation_strength <= STRENGTH_LIMIT
    }

    pub open spec fn avoidance_ok(&self) -> bool {
        &&& 0 <= self.avoidance_margin <= COORD_LIMIT
        &&& 0 <= self.avoidance_strength <= AVOIDANCE_LIMIT
    }

    /// A configuration the simulation can run with.
    pub open spec fn wf(&self) -> bool {
        self.cooldown_ok() && self.strengths_ok() && self.avoidance_ok()
    }

    /// Checks the configuration before a simulation starts.
    pub fn validate(&self) -> (r: Result<(), ConfigError>)
        ensures
            r is Ok <==> self.wf(),
            r == Err::<(), ConfigError>(ConfigError::EmptyCooldownRange) <==> !self.cooldown_ok(),
            r == Err::<(), ConfigError>(ConfigError::StrengthOutOfRange) <==> self.cooldown_ok()
                && !self.strengths_ok(),
            r == Err::<(), ConfigError>(ConfigError::AvoidanceOutOfRange) <==> self.cooldown_ok()
                && self.strengths_ok() && !self.avoidance_ok(),
    {
        if self.rage_charge_cooldown_start >= self.rage_charge_cooldown_end {
            return Err(ConfigError::EmptyCooldownRange);
        }
        if self.cohesion_strength < -STRENGTH_LIMIT || self.cohesion_strength > STRENGTH_LIMIT
            || self.separation_strength < -STRENGTH_LIMIT || self.separation_strength
            > STRENGTH_LIMIT {
            return Err(ConfigError::StrengthOutOfRange);
        }
        if self.avoidance_margin < 0 || self.avoidance_margin > COORD_LIMIT
            || self.avoidance_strength < 0 || self.avoidance_strength > AVOIDANCE_LIMIT {
            return Err(ConfigError::AvoidanceOutOfRange);
        }
        Ok(())
    }
}

impl Default for AiConfig {
    fn default() -> (r: AiConfig)
        ensures
            r == (AiConfig {
                cohesion_strength: 50,
                separation_strength: 10,
                avoidance_margin: 100_000,
                avoidance_strength: 2000,
                rage_charge_aim_duration: 750,
                rage_charge_duration: 1500,
                rage_charge_cooldown_start: 5000,
                rage_charge_cooldown_end: 8000,
                rage_max_hits_before_burnout: 3,
            }),
            r.wf(),
    {
        AiConfig {
            cohesion_strength: 50,
            separation_strength: 10,
            avoidance_margin: 100_000,
            avoidance_strength: 2000,
            rage_charge_aim_duration: 750,
            rage_charge_duration: 1500,
            rage_charge_cooldown_start: 5000,
            rage_charge_cooldown_end: 8000,
            rage_max_hits_before_burnout: 3,
        }
    }
}

/// What an agent is doing.
#[derive(Clone, Copy, Debug, PartialEq, Eq, Structural)]
pub enum AiAction {
    /// Moving about by noise-driven wandering.
    Wandering,
    /// Pausing to lock onto the agent `target`.
    Aiming { target: u64 },
    /// Rushing towards where the target stood when the aim ended.
    Charging { target_pos: Vec2 },
}

/// Per-agent state of the behaviour.
#[derive(Clone, Copy, Debug)]
pub struct AiWanderState {
    /// Duration of the current aim or charge, and a sad agent's pauses.
    pub state_timer: Timer,
    /// Fixed seed of this agent's wander noise.
    pub noise_seed: u64,
    pub action: AiAction,
    /// Time until a raging agent may charge again.
    pub ability_cooldown: Timer,
    /// Hits landed in the current charge sequence.
    pub charge_hit_count: u32,
}

/// The outcome of the random draws a behaviour step may need.
#[derive(Clone, Copy, Debug, PartialEq, Eq, Structural)]
pub struct Rolls {
    /// Cooldown to arm when a charge ends, in milliseconds.
    pub cooldown: u64,
    /// Next pause of a sad agent, in milliseconds.
    pub pause: u64,
}

impl Rolls {
    /// Both draws lie in their ranges.
    pub open spec fn fit(&self, config: AiConfig) -> bool {
        &&& config.rage_charge_cooldown_start <= self.cooldown < config.rage_charge_cooldown_end
        &&& SAD_PAUSE_MIN_MS <= self.pause < SAD_PAUSE_END_MS
    }
}

impl AiWanderState {
    pub open spec fn wf(&self) -> bool {
        &&& self.state_timer.wf()
        &&& self.ability_cooldown.wf()
        &&& self.state_timer.mode == TimerMode::Once
        &&& self.ability_cooldown.mode == TimerMode::Once
        &&& self.action matches AiAction::Charging { target_pos } ==> target_pos.in_bounds()
    }

    /// A wandering state with a random first pause (0.5 to 1.5 s), a random
    /// noise seed and a random first cooldown (3 to 6 s).
    pub fn new() -> (r: AiWanderState)
        ensures
            r.wf(),
            r.action == AiAction::Wandering,
            r.charge_hit_count == 0,
            r.state_timer.mode == TimerMode::Once,
            500 <= r.state_timer.duration < 1500,
            r.state_timer.elapsed == 0 && !r.state_timer.finished,
            r.ability_cooldown.mode == TimerMode::Once,
            3000 <= r.ability_cooldown.duration < 6000,
            r.ability_cooldown.elapsed == 0 && !r.ability_cooldown.finished,
    {
        let pause = draw_in_range(500, 1500);
        let seed = draw_in_range(0, u64::MAX);
        let cooldown = draw_in_range(3000, 6000);
        AiWanderState {
            state_timer: Timer::from_millis(pause, TimerMode::Once),
            noise_seed: seed,
            action: AiAction::Wandering,
            ability_cooldown: Timer::from_millis(cooldown, TimerMode::Once),
            charge_hit_count: 0,
        }
    }
}

/// Agent `i` of the snapshot may be charged at by agent `self_id`.
pub open spec fn eligible(all: Seq<AgentSnapshot>, self_id: u64, i: int) -> bool {
    0 <= i < all.len() && all[i].mood != Mood::Rage && all[i].id != self_id
}

/// Agent `i` is the eligible agent nearest to `pos`, the first in snapshot
/// order among equally near ones.
pub open spec fn is_nearest(all: Seq<AgentSnapshot>, self_id: u64, pos: Vec2, i: int) -> bool {
    &&& eligible(all, self_id, i)
    &&& forall|j: int|
        eligible(all, self_id, j) ==> dist_sq(pos, all[i].position) <= dist_sq(
            pos,
            #[trigger] all[j].position,
        )
    &&& forall|j: int|
        0 <= j < i && eligible(all, self_id, j) ==> dist_sq(pos, all[i].position) < dist_sq(
            pos,
            #[trigger] all[j].position,
        )
}

/// Index of the agent that `self_id` at `pos` would aim at, if any.
pub open spec fn nearest_target(all: Seq<AgentSnapshot>, self_id: u64, pos: Vec2) -> Option<int> {
    if exists|i: int| is_nearest(all, self_id, pos, i) {
        Some(choose|i: int| is_nearest(all, self_id, pos, i))
    } else {
        None
    }
}

/// At most one agent is the nearest target.
pub proof fn lemma_nearest_unique(all: Seq<AgentSnapshot>, self_id: u64, pos: Vec2, i: int, j: int)
    requires
        is_nearest(all, self_id, pos, i),
        is_nearest(all, self_id, pos, j),
    ensures
        i == j,
{
    if i < j {
        assert(dist_sq(pos, all[j].position) < dist_sq(pos, all[i].position));
        assert(dist_sq(pos, all[i].position) <= dist_sq(pos, all[j].position));
    } else if j < i {
        assert(dist_sq(pos, all[i].position) < dist_sq(pos, all[j].position));
        assert(dist_sq(pos, all[j].position) <= dist_sq(pos, all[i].position));
    }
}

/// Finds the agent nearest to `position` that is not raging and is not
/// `self_id`; the first in snapshot order wins a tie.
pub fn find_nearest_target(all: &Vec<AgentSnapshot>, self_id: u64, position: Vec2) -> (r: Option<
    usize,
>)
    requires
        all_in_bounds(all@),
        position.in_bounds(),
    ensures
        r matches Some(i) ==> nearest_target(all@, self_id, position) == Some(i as int)
            && is_nearest(all@, self_id, position, i as int),
        r is None ==> nearest_target(all@, self_id, position) == None::<int> && forall|j: int|
            !eligible(all@, self_id, j),
{
    let mut best: Option<usize> = None;
    let mut best_d: u64 = 0;
    let mut i: usize = 0;
    while i < all.len()
        invariant
            0 <= i <= all.len(),
            all_in_bounds(all@),
            position.in_bounds(),
            best is None ==> forall|j: int| 0 <= j < i ==> !eligible(all@, self_id, j),
            best matches Some(b) ==> {
                &&& b < i
                &&& eligible(all@, self_id, b as int)
                &&& best_d == dist_sq(position, all@[b as int].position)
                &&& forall|j: int|
                    0 <= j < i && eligible(all@, self_id, j) ==> best_d <= dist_sq(
                        position,
                        #[trigger] all@[j].position,
                    )
                &&& forall|j: int|
                    0 <= j < b && eligible(all@, self_id, j) ==> best_d < dist_sq(
                        position,
                        #[trigger] all@[j].position,
                    )
            },
        decreases all.len() - i,
    {
        let other = all[i];
        if other.mood != Mood::Rage && other.id != self_id {
            assert(all@[i as int].position.in_bounds());
            let d = distance_squared(position, other.position);
            if best.is_none() || d < best_d {
                best = Some(i);
                best_d = d;
            }
        }
        i += 1;
    }
    match best {
        Some(b) => {
            proof {
                assert(is_nearest(all@, self_id, position, b as int));
                let c = choose|c: int| is_nearest(all@, self_id, position, c);
                lemma_nearest_unique(all@, self_id, position, b as int, c);
            }
            Some(b)
        },
        None => {
            proof {
                if exists|c: int| is_nearest(all@, self_id, position, c) {
                    let c = choose|c: int| is_nearest(all@, self_id, position, c);
                    assert(eligible(all@, self_id, c));
                }
            }
            None
        },
    }
}

/// Largest magnitude per axis of a noise sample, in thousandths.
pub const NOISE_LIMIT: i64 = 1_000_000;

/// A noise sample lies within `NOISE_LIMIT` on each axis.
pub open spec fn noise_ok(noise: Vec2) -> bool {
    -NOISE_LIMIT <= noise.x <= NOISE_LIMIT && -NOISE_LIMIT <= noise.y <= NOISE_LIMIT
}

/// Frequency (in thousandths of the elapsed seconds) and octave count of the
/// wander noise that drives an agent in `mood`.
pub fn wander_noise_params(mood: Mood) -> (r: (u32, u8))
    ensures
        mood == Mood::Happy ==> r == (200u32, 2u8),
        mood == Mood::Rage ==> r == (500u32, 4u8),
        mood == Mood::Calm ==> r == (100u32, 1u8),
        mood == Mood::Neutral ==> r == (300u32, 2u8),
        mood == Mood::Sad ==> r == (100u32, 1u8),
{
    match mood {
        Mood::Happy => (200, 2),
        Mood::Rage => (500, 4),
        Mood::Calm => (100, 1),
        Mood::Neutral => (300, 2),
        Mood::Sad => (100, 1),
    }
}

/// Wander intent and state of an agent in `mood` driven by `noise`: a small
/// smooth drift when happy, unit-length pacing when raging, damped unit
/// wandering when calm or neutral, and for a sad agent slow wandering while its
/// pause timer runs, then standing still, with a new pause armed on the tick
/// the timer finishes.
pub open spec fn wander(mood: Mood, ws: AiWanderState, noise: Vec2, pause: u64) -> (
    AiWanderState,
    Vec2,
) {
    match mood {
        Mood::Happy => (ws, spec_scale(noise, 300, 1000)),
        Mood::Rage => (ws, spec_normalize_or_zero(noise)),
        Mood::Calm => (ws, spec_scale(spec_normalize_or_zero(noise), 500, 1000)),
        Mood::Neutral => (ws, spec_scale(spec_normalize_or_zero(noise), 600, 1000)),
        Mood::Sad => if !ws.state_timer.finished {
            (ws, spec_scale(spec_normalize_or_zero(noise), 400, 1000))
        } else if ws.state_timer.spec_just_finished() {
            (
                AiWanderState { state_timer: Timer::restarted_spec(ws.state_timer, pause), ..ws },
                Vec2::zero_spec(),
            )
        } else {
            (ws, Vec2::zero_spec())
        },
    }
}

/// The wander intent of an agent in `mood`, from this tick's noise sample.
pub fn get_wander_intent(mood: Mood, wander_state: &mut AiWanderState, noise: Vec2, pause: u64) -> (r:
    Vec2)
    requires
        noise_ok(noise),
        old(wander_state).wf(),
    ensures
        (*final(wander_state), r) == wander(mood, *old(wander_state), noise, pause),
        final(wander_state).wf(),
        -NOISE_LIMIT <= r.x <= NOISE_LIMIT && -NOISE_LIMIT <= r.y <= NOISE_LIMIT,
{
    match mood {
        Mood::Happy => scale(noise, 300, 1000),
        Mood::Rage => normalize_or_zero(noise),
        Mood::Calm => scale(normalize_or_zero(noise), 500, 1000),
        Mood::Neutral => scale(normalize_or_zero(noise), 600, 1000),
        Mood::Sad => {
            if !wander_state.state_timer.is_finished() {
                scale(normalize_or_zero(noise), 400, 1000)
            } else {
                if wander_state.state_timer.just_finished() {
                    wander_state.state_timer.restart_with(pause);
                }
                Vec2::zero()
            }
        },
    }
}

/// Both timers of `ws` advanced by `delta`.
pub open spec fn ticked(ws: AiWanderState, delta: u64) -> AiWanderState {
    AiWanderState {
        state_timer: ws.state_timer.spec_tick(delta),
        ability_cooldown: ws.ability_cooldown.spec_tick(delta),
        ..ws
    }
}

/// Whether a raging wanderer starts aiming on this tick.
pub open spec fn starts_aiming(
    all: Seq<AgentSnapshot>,
    self_id: u64,
    pos: Vec2,
    mood: Mood,
    ws: AiWanderState,
    delta: u64,
) -> bool {
    &&& ws.action == AiAction::Wandering
    &&& mood == Mood::Rage
    &&& ticked(ws, delta).ability_cooldown.spec_just_finished()
    &&& nearest_target(all, self_id, pos) is Some
}

/// One tick of the action state machine of agent `self_id` at `pos`: its new
/// state and its movement intent.
pub open spec fn behavior(
    config: AiConfig,
    self_id: u64,
    pos: Vec2,
    mood: Mood,
    ws: AiWanderState,
    all: Seq<AgentSnapshot>,
    delta: u64,
    noise: Vec2,
    rolls: Rolls,
) -> (AiWanderState, Vec2) {
    let ws1 = ticked(ws, delta);
    match ws.action {
        AiAction::Wandering => if starts_aiming(all, self_id, pos, mood, ws, delta) {
            (
                AiWanderState {
                    action: AiAction::Aiming {
                        target: all[nearest_target(all, self_id, pos)->Some_0].id,
                    },
                    state_timer: Timer::restarted_spec(
                        ws1.state_timer,
                        config.rage_charge_aim_duration,
                    ),
                    charge_hit_count: 0,
                    ..ws1
                },
                Vec2::zero_spec(),
            )
        } else {
            wander(mood, ws1, noise, rolls.pause)
        },
        AiAction::Aiming { target } => if ws1.state_timer.spec_just_finished() {
            match first_index_of(all, target) {
                Some(k) => (
                    AiWanderState {
                        action: AiAction::Charging { target_pos: all[k].position },
                        state_timer: Timer::restarted_spec(
                            ws1.state_timer,
                            config.rage_charge_duration,
                        ),
                        ..ws1
                    },
                    Vec2::zero_spec(),
                ),
                None => (AiWanderState { action: AiAction::Wandering, ..ws1 }, Vec2::zero_spec()),
            }
        } else {
            (ws1, Vec2::zero_spec())
        },
        AiAction::Charging { target_pos } => {
            let intent = spec_normalize_or_zero(
                Vec2 { x: (target_pos.x - pos.x) as i64, y: (target_pos.y - pos.y) as i64 },
            );
            if ws1.state_timer.spec_just_finished() {
                (
                    AiWanderState {
                        action: AiAction::Wandering,
                        ability_cooldown: Timer::restarted_spec(
                            ws1.ability_cooldown,
                            rolls.cooldown,
                        ),
                        ..ws1
                    },
                    intent,
                )
            } else {
                (ws1, intent)
            }
        },
    }
}

/// One tick of the action state machine, with the tick's random draws given.
pub fn step_ai_behavior(
    config: &AiConfig,
    self_id: u64,
    position: Vec2,
    mood: Mood,
    wander_state: &mut AiWanderState,
    all: &Vec<AgentSnapshot>,
    delta: u64,
    noise: Vec2,
    rolls: Rolls,
) -> (intent: Vec2)
    requires
        old(wander_state).wf(),
        all_in_bounds(all@),
        position.in_bounds(),
        noise_ok(noise),
    ensures
        (*final(wander_state), intent) == behavior(
            *config,
            self_id,
            position,
            mood,
            *old(wander_state),
            all@,
            delta,
            noise,
            rolls,
        ),
        final(wander_state).wf(),
        -NOISE_LIMIT <= intent.x <= NOISE_LIMIT && -NOISE_LIMIT <= intent.y <= NOISE_LIMIT,
{
    wander_state.state_timer.tick(delta);
    wander_state.ability_cooldown.tick(delta);
    match wander_state.action {
        AiAction::Wandering => {
            if mood == Mood::Rage && wander_state.ability_cooldown.just_finished() {
                let found = find_nearest_target(all, self_id, position);
                if let Some(t) = found {
                    wander_state.action = AiAction::Aiming { target: all[t].id };
                    wander_state.state_timer.restart_with(config.rage_charge_aim_duration);
                    wander_state.charge_hit_count = 0;
                    return Vec2::zero();
                }
            }
            get_wander_intent(mood, wander_state, noise, rolls.pause)
        },
        AiAction::Aiming { target } => {
            if wander_state.state_timer.just_finished() {
                let found = find_agent(all, target);
                match found {
                    Some(k) => {
                        assert(all@[k as int].position.in_bounds());
                        wander_state.action = AiAction::Charging {
                            target_pos: all[k].position,
                        };
                        wander_state.state_timer.restart_with(config.rage_charge_duration);
                    },
                    None => {
                        wander_state.action = AiAction::Wandering;
                    },
                }
            }
            Vec2::zero()
        },
        AiAction::Charging { target_pos } => {
            let intent = normalize_or_zero(
                Vec2 { x: target_pos.x - position.x, y: target_pos.y - position.y },
            );
            if wander_state.state_timer.just_finished() {
                wander_state.action = AiAction::Wandering;
                wander_state.ability_cooldown.restart_with(rolls.cooldown);
            }
            intent
        },
    }
}

/// One tick of the action state machine, drawing the cooldown and pause it may
/// need.
pub fn update_ai_behavior(
    config: &AiConfig,
    self_id: u64,
    position: Vec2,
    mood: Mood,
    wander_state: &mut AiWanderState,
    all: &Vec<AgentSnapshot>,
    delta: u64,
    noise: Vec2,
) -> (intent: Vec2)
    requires
        config.wf(),
        old(wander_state).wf(),
        all_in_bounds(all@),
        position.in_bounds(),
        noise_ok(noise),
    ensures
        exists|rolls: Rolls|
            rolls.fit(*config) && (*final(wander_state), intent) == #[trigger] behavior(
                *config,
                self_id,
                position,
                mood,
                *old(wander_state),
                all@,
                delta,
                noise,
                rolls,
            ),
        final(wander_state).wf(),
{
    let cooldown = draw_in_range(config.rage_charge_cooldown_start, config.rage_charge_cooldown_end);
    let pause = draw_in_range(SAD_PAUSE_MIN_MS, SAD_PAUSE_END_MS);
    let rolls = Rolls { cooldown, pause };
    step_ai_behavior(config, self_id, position, mood, wander_state, all, delta, noise, rolls)
}

/// Agent `b` is the nearest eligible agent among the first `n`, the first of
/// equally near ones.
pub open spec fn is_nearest_in(all: Seq<AgentSnapshot>, self_id: u64, pos: Vec2, b: int, n: int) -> bool {
    &&& 0 <= b < n
    &&& eligible(all, self_id, b)
    &&& forall|j: int|
        0 <= j < n && eligible(all, self_id, j) ==> dist_sq(pos, all[b].position) <= dist_sq(
            pos,
            #[trigger] all[j].position,
        )
    &&& forall|j: int|
        0 <= j < b && eligible(all, self_id, j) ==> dist_sq(pos, all[b].position) < dist_sq(
            pos,
            #[trigger] all[j].position,
        )
}

proof fn lemma_nearest_in_prefix(all: Seq<AgentSnapshot>, self_id: u64, pos: Vec2, n: int)
    requires
        0 <= n <= all.len(),
    ensures
        (exists|j: int| 0 <= j < n && #[trigger] eligible(all, self_id, j)) ==> exists|b: int|
            #[trigger] is_nearest_in(all, self_id, pos, b, n),
    decreases n,
{
    if n > 0 {
        lemma_nearest_in_prefix(all, self_id, pos, n - 1);
        let last = n - 1;
        if exists|b: int| #[trigger] is_nearest_in(all, self_id, pos, b, n - 1) {
            let b = choose|b: int| #[trigger] is_nearest_in(all, self_id, pos, b, n - 1);
            if eligible(all, self_id, last) && dist_sq(pos, all[last].position) < dist_sq(
                pos,
                all[b].position,
            ) {
                assert(is_nearest_in(all, self_id, pos, last, n));
            } else {
                assert(is_nearest_in(all, self_id, pos, b, n));
            }
        } else if eligible(all, self_id, last) {
            assert(is_nearest_in(all, self_id, pos, last, n));
        }
    }
}

/// Whenever some agent is eligible, a nearest one exists.
pub proof fn lemma_nearest_exists(all: Seq<AgentSnapshot>, self_id: u64, pos: Vec2, j: int)
    requires
        eligible(all, self_id, j),
    ensures
        nearest_target(all, self_id, pos) matches Some(i) && is_nearest(all, self_id, pos, i),
{
    lemma_nearest_in_prefix(all, self_id, pos, all.len() as int);
    let b = choose|b: int| #[trigger] is_nearest_in(all, self_id, pos, b, all.len() as int);
    assert(is_nearest(all, self_id, pos, b));
}

/// A raging wanderer whose cooldown elapses on this tick, and that sees at
/// least one agent that is not raging, starts aiming at the nearest such agent
/// by Euclidean distance and stands still for the tick.
pub proof fn lemma_rage_aims_at_nearest(
    config: AiConfig,
    self_id: u64,
    pos: Vec2,
    ws: AiWanderState,
    all: Seq<AgentSnapshot>,
    delta: u64,
    noise: Vec2,
    rolls: Rolls,
    j: int,
)
    requires
        ws.action == AiAction::Wandering,
        ticked(ws, delta).ability_cooldown.spec_just_finished(),
        eligible(all, self_id, j),
    ensures
        ({
            let (ws2, intent) = behavior(
                config,
                self_id,
                pos,
                Mood::Rage,
                ws,
                all,
                delta,
                noise,
                rolls,
            );
            &&& exists|i: int|
                is_nearest(all, self_id, pos, i) && ws2.action == (AiAction::Aiming {
                    target: all[i].id,
                })
            &&& intent == Vec2::zero_spec()
            &&& ws2.charge_hit_count == 0
            &&& ws2.state_timer.duration == config.rage_charge_aim_duration
        }),
{
    lemma_nearest_exists(all, self_id, pos, j);
}

/// An aiming agent stands still; a charging agent heads for the position
/// frozen when its aim ended, at unit speed up to rounding, whatever any agent
/// (its target included) does meanwhile.
pub proof fn lemma_aim_and_charge_intent(
    config: AiConfig,
    self_id: u64,
    pos: Vec2,
    mood: Mood,
    ws: AiWanderState,
    all1: Seq<AgentSnapshot>,
    all2: Seq<AgentSnapshot>,
    delta: u64,
    noise: Vec2,
    rolls: Rolls,
)
    requires
        pos.in_bounds(),
        ws.wf(),
    ensures
        ws.action is Aiming ==> behavior(config, self_id, pos, mood, ws, all1, delta, noise, rolls).1
            == Vec2::zero_spec(),
        ws.action matches AiAction::Charging { target_pos } ==> {
            let intent = behavior(config, self_id, pos, mood, ws, all1, delta, noise, rolls).1;
            let ax: int = if intent.x >= 0 { intent.x as int } else { -intent.x };
            let ay: int = if intent.y >= 0 { intent.y as int } else { -intent.y };
            &&& intent == spec_normalize_or_zero(
                Vec2 { x: (target_pos.x - pos.x) as i64, y: (target_pos.y - pos.y) as i64 },
            )
            &&& behavior(config, self_id, pos, mood, ws, all1, delta, noise, rolls)
                == behavior(config, self_id, pos, mood, ws, all2, delta, noise, rolls)
            &&& target_pos != pos ==> ax * ax + ay * ay < (UNIT + 1) * (UNIT + 1) && (ax + 1) * (
            ax + 1) + (ay + 1) * (ay + 1) > UNIT * UNIT
        },
{
    if let AiAction::Charging { target_pos } = ws.action {
        let d = Vec2 { x: (target_pos.x - pos.x) as i64, y: (target_pos.y - pos.y) as i64 };
        if target_pos != pos {
            assert(d != Vec2::zero_spec());
            lemma_normalized_is_unit(d);
        }
    }
}

/// When the charge timer elapses the agent goes back to wandering, with a
/// fresh cooldown drawn from the configured range.
pub proof fn lemma_charge_ends_with_cooldown(
    config: AiConfig,
    self_id: u64,
    pos: Vec2,
    mood: Mood,
    ws: AiWanderState,
    all: Seq<AgentSnapshot>,
    delta: u64,
    noise: Vec2,
    rolls: Rolls,
)
    requires
        ws.action is Charging,
        ticked(ws, delta).state_timer.spec_just_finished(),
        rolls.fit(config),
    ensures
        ({
            let ws2 = behavior(config, self_id, pos, mood, ws, all, delta, noise, rolls).0;
            &&& ws2.action == AiAction::Wandering
            &&& config.rage_charge_cooldown_start <= ws2.ability_cooldown.duration
                < config.rage_charge_cooldown_end
            &&& ws2.ability_cooldown.elapsed == 0
            &&& !ws2.ability_cooldown.finished
        }),
{
}

/// Where a demonstration population starts, and its base top speed.
#[derive(Clone, Debug)]
pub struct AiSpawnConfig {
    pub positions: Vec<Vec2>,
    /// Base top speed, in position steps per second.
    pub max_speed: i64,
}

/// The default spawn positions, in position steps.
pub open spec fn default_spawn_positions() -> Seq<Vec2> {
    seq![
            Vec2 { x: -200000i64, y: 100000i64 },
            Vec2 { x: 200000i64, y: -100000i64 },
            Vec2 { x: 0i64, y: 200000i64 },
            Vec2 { x: -150000i64, y: -150000i64 },
            Vec2 { x: 300000i64, y: 0i64 },
            Vec2 { x: -100000i64, y: 0i64 },
            Vec2 { x: 100000i64, y: 150000i64 },
            Vec2 { x: -250000i64, y: -50000i64 },
            Vec2 { x: 250000i64, y: 100000i64 },
            Vec2 { x: 0i64, y: -200000i64 },
            Vec2 { x: -350000i64, y: 0i64 },
            Vec2 { x: 350000i64, y: -50000i64 },
            Vec2 { x: -50000i64, y: 250000i64 },
            Vec2 { x: 50000i64, y: -250000i64 },
            Vec2 { x: 150000i64, y: 50000i64 },
    ]
}

impl Default for AiSpawnConfig {
    fn default() -> (r: AiSpawnConfig)
        ensures
            r.positions@ == default_spawn_positions(),
            r.max_speed == 350_000,
    {
        let mut positions: Vec<Vec2> = Vec::new();
        positions.push(Vec2 { x: -200000, y: 100000 });
        positions.push(Vec2 { x: 200000, y: -100000 });
        positions.push(Vec2 { x: 0, y: 200000 });
        positions.push(Vec2 { x: -150000, y: -150000 });
        positions.push(Vec2 { x: 300000, y: 0 });
        positions.push(Vec2 { x: -100000, y: 0 });
        positions.push(Vec2 { x: 100000, y: 150000 });
        positions.push(Vec2 { x: -250000, y: -50000 });
        positions.push(Vec2 { x: 250000, y: 100000 });
        positions.push(Vec2 { x: 0, y: -200000 });
        positions.push(Vec2 { x: -350000, y: 0 });
        positions.push(Vec2 { x: 350000, y: -50000 });
        positions.push(Vec2 { x: -50000, y: 250000 });
        positions.push(Vec2 { x: 50000, y: -250000 });
        positions.push(Vec2 { x: 150000, y: 50000 });
        assert(positions@ =~= default_spawn_positions());
        AiSpawnConfig { positions, max_speed: 350_000 }
    }
}

/// Offset between the noise seeds of the two axes, which decorrelates them.
pub const AXIS_SEED_OFFSET: u64 = 1000;

/// Where to sample the fractal noise for one axis of a wander vector.
#[derive(Clone, Copy, Debug, PartialEq, Eq, Structural)]
pub struct NoiseSample {
    /// Sample point, in thousandths.
    pub point: Vec2,
    pub octaves: u8,
    pub seed: u64,
}

/// The seed of the second axis: the agent's seed shifted by the axis offset,
/// wrapping around.
pub open spec fn second_axis_seed(seed: u64) -> u64 {
    ((seed + AXIS_SEED_OFFSET) % 0x1_0000_0000_0000_0000) as u64
}

/// The two samples of a wander vector at noise coordinate `input`
/// (thousandths): the first axis along x with the agent's seed, the second
/// along y with the shifted seed.
pub fn get_2d_noise(input: i64, octaves: u8, seed: u64) -> (r: (NoiseSample, NoiseSample))
    ensures
        r.0 == (NoiseSample { point: Vec2 { x: input, y: 0 }, octaves, seed }),
        r.1 == (NoiseSample {
            point: Vec2 { x: 0, y: input },
            octaves,
            seed: second_axis_seed(seed),
        }),
{
    let second = if seed <= u64::MAX - AXIS_SEED_OFFSET {
        seed + AXIS_SEED_OFFSET
    } else {
        seed - (u64::MAX - AXIS_SEED_OFFSET) - 1
    };
    (
        NoiseSample { point: Vec2 { x: input, y: 0 }, octaves, seed },
        NoiseSample { point: Vec2 { x: 0, y: input }, octaves, seed: second },
    )
}

/// The noise samples that drive an agent in `mood` after `elapsed_ms`
/// milliseconds of simulation: the elapsed time scaled by the mood's
/// frequency, with the mood's octave count.
pub fn wander_noise_samples(mood: Mood, elapsed_ms: u64, seed: u64) -> (r: (NoiseSample, NoiseSample))
    ensures
        ({
            let (freq, octaves) = if mood == Mood::Happy {
                (200int, 2u8)
            } else if mood == Mood::Rage {
                (500int, 4u8)
            } else if mood == Mood::Neutral {
                (300int, 2u8)
            } else {
                (100int, 1u8)
            };
            let input = (elapsed_ms * freq / 1000) as i64;
            &&& r.0 == (NoiseSample { point: Vec2 { x: input, y: 0 }, octaves, seed })
            &&& r.1 == (NoiseSample {
                point: Vec2 { x: 0, y: input },
                octaves,
                seed: second_axis_seed(seed),
            })
        }),
{
    let (freq, octaves) = wander_noise_params(mood);
    let scaled = (elapsed_ms as u128) * (freq as u128) / 1000;
    assert(scaled <= i64::MAX) by (nonlinear_arith)
        requires
            scaled == (elapsed_ms as int) * (freq as int) / 1000,
            freq <= 500,
            elapsed_ms <= u64::MAX,
    ;
    get_2d_noise(scaled as i64, octaves, seed)
}

/// A sad wanderer alternates: while its pause timer runs it moves (at a
/// non-zero speed whenever the noise is non-zero); on the tick the timer
/// finishes it stands exactly still and arms a new pause of 3 to 6 s, so that
/// it moves again on the following ticks.
pub proof fn lemma_sad_wander_alternates(ws: AiWanderState, noise: Vec2, pause: u64)
    requires
        ws.wf(),
        noise_ok(noise),
        SAD_PAUSE_MIN_MS <= pause < SAD_PAUSE_END_MS,
    ensures
        !ws.state_timer.finished ==> {
            let (ws2, v) = wander(Mood::Sad, ws, noise, pause);
            &&& ws2 == ws
            &&& v == spec_scale(spec_normalize_or_zero(noise), 400, 1000)
            &&& noise != Vec2::zero_spec() ==> v != Vec2::zero_spec()
        },
        ws.state_timer.spec_just_finished() ==> {
            let (ws2, v) = wander(Mood::Sad, ws, noise, pause);
            &&& v == Vec2::zero_spec()
            &&& SAD_PAUSE_MIN_MS <= ws2.state_timer.duration < SAD_PAUSE_END_MS
            &&& ws2.state_timer.elapsed == 0
            &&& !ws2.state_timer.finished
            &&& !ws2.state_timer.spec_just_finished()
            &&& ws2.action == ws.action
            &&& ws2.ability_cooldown == ws.ability_cooldown
        },
{
    if !ws.state_timer.finished && noise != Vec2::zero_spec() {
        lemma_normalized_is_unit(noise);
        let r = spec_normalize_or_zero(noise);
        let ax: int = if r.x >= 0 { r.x as int } else { -r.x };
        let ay: int = if r.y >= 0 { r.y as int } else { -r.y };
        if ax < 3 && ay < 3 {
            assert((ax + 1) * (ax + 1) + (ay + 1) * (ay + 1) <= 32) by (nonlinear_arith)
                requires
                    0 <= ax < 3,
                    0 <= ay < 3,
            ;
        }
        if ax >= 3 {
            lemma_scaled_nonzero(r.x as int);
        } else {
            lemma_scaled_nonzero(r.y as int);
        }
    }
}

proof fn lemma_scaled_nonzero(c: int)
    requires
        c >= 3 || c <= -3,
    ensures
        crate::vecmath::tdiv(c * 400, 1000) != 0,
{
    if c >= 3 {
        assert((c * 400) / 1000 >= 1) by (nonlinear_arith)
            requires
                c >= 3,
        ;
    } else {
        assert((-(c * 400)) / 1000 >= 1) by (nonlinear_arith)
            requires
                c <= -3,
        ;
    }
}

/// One set of draws for each of `n` agents, each in its configured range.
pub fn draw_rolls(config: &AiConfig, n: usize) -> (r: Vec<Rolls>)
    requires
        config.wf(),
    ensures
        r.len() == n,
        forall|k: int| 0 <= k < n ==> (#[trigger] r@[k]).fit(*config),
{
    let mut r: Vec<Rolls> = Vec::new();
    let mut i: usize = 0;
    while i < n
        invariant
            0 <= i <= n,
            r.len() == i,
            config.wf(),
            forall|k: int| 0 <= k < i ==> (#[trigger] r@[k]).fit(*config),
        decreases n - i,
    {
        let cooldown = draw_in_range(
            config.rage_charge_cooldown_start,
            config.rage_charge_cooldown_end,
        );
        let pause = draw_in_range(SAD_PAUSE_MIN_MS, SAD_PAUSE_END_MS);
        r.push(Rolls { cooldown, pause });
        i += 1;
    }
    r
}

} // verus!
