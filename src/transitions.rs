//! Mood transitions: a debounced crowd-density rule and a cyclic progression
//! rule, evaluated in that order every tick.
use vstd::prelude::*;

use crate::mood::{crowd_mood, spec_crowd_mood, spec_next_in_cycle, Mood};
use crate::timer::{Timer, TimerMode};

verus! {

/// Period of the crowd-density check, in milliseconds.
pub const COLLISION_CHECK_PERIOD_MS: u64 = 500;

/// Period of the natural mood cycle, in milliseconds.
pub const CYCLE_PERIOD_MS: u64 = 8000;

/// The crowd-density rule only changes a mood that has been stable for less
/// than this many milliseconds, and never twice within this many
/// milliseconds.
pub const STABILITY_DEBOUNCE_MS: u64 = 1500;

/// Per-agent bookkeeping of the mood rules.
#[derive(Clone, Copy, Debug)]
pub struct MoodEntity {
    /// Neighbours touching the agent at the last check.
    pub collision_count: usize,
    /// Repeating timer of the crowd-density rule.
    pub next_mood_check: Timer,
    /// Repeating timer of the natural cycle.
    pub next_cycle_progression: Timer,
    /// Milliseconds since the mood last changed.
    pub mood_stability: u64,
    /// Whether the last mood change came from the crowd-density rule.
    pub changed_by_crowd: bool,
}

/// A mood change, reported for cosmetic and audio reactions.
#[derive(Clone, Copy, Debug, PartialEq, Eq, Structural)]
pub struct MoodChange {
    pub old: Mood,
    pub new: Mood,
}

impl MoodEntity {
    pub open spec fn wf(&self) -> bool {
        &&& self.next_mood_check.wf()
        &&& self.next_cycle_progression.wf()
    }
}

impl Default for MoodEntity {
    fn default() -> (r: MoodEntity)
        ensures
            r.collision_count == 0,
            r.mood_stability == 0,
            !r.changed_by_crowd,
            r.next_mood_check == Timer::from_millis_spec(
                COLLISION_CHECK_PERIOD_MS,
                TimerMode::Repeating,
            ),
            r.next_cycle_progression == Timer::from_millis_spec(
                CYCLE_PERIOD_MS,
                TimerMode::Repeating,
            ),
            r.wf(),
    {
        MoodEntity {
            collision_count: 0,
            next_mood_check: Timer::from_millis(COLLISION_CHECK_PERIOD_MS, TimerMode::Repeating),
            next_cycle_progression: Timer::from_millis(CYCLE_PERIOD_MS, TimerMode::Repeating),
            mood_stability: 0,
            changed_by_crowd: false,
        }
    }
}

/// Whether the crowd-density rule changes the mood on this tick: its check is
/// due, the mood changed less than the debounce window ago, that change was
/// not the crowd rule's own, and the crowd asks for another mood.
pub open spec fn collision_rule_fires(
    mood: Mood,
    e: MoodEntity,
    collision_count: usize,
    delta: u64,
) -> bool {
    &&& e.next_mood_check.spec_tick(delta).spec_just_finished()
    &&& e.mood_stability < STABILITY_DEBOUNCE_MS
    &&& !e.changed_by_crowd
    &&& spec_crowd_mood(collision_count as nat) != mood
}

/// Mood and bookkeeping after the crowd-density rule.
pub open spec fn collision_rule(mood: Mood, e: MoodEntity, collision_count: usize, delta: u64) -> (
    Mood,
    MoodEntity,
) {
    let e1 = MoodEntity {
        collision_count,
        next_mood_check: e.next_mood_check.spec_tick(delta),
        ..e
    };
    if collision_rule_fires(mood, e, collision_count, delta) {
        (
            spec_crowd_mood(collision_count as nat),
            MoodEntity { mood_stability: 0, changed_by_crowd: true, ..e1 },
        )
    } else {
        (mood, e1)
    }
}

/// Mood and bookkeeping after the cyclic rule.
pub open spec fn cycle_rule(mood: Mood, e: MoodEntity, delta: u64) -> (Mood, MoodEntity) {
    let t = e.next_cycle_progression.spec_tick(delta);
    if t.spec_just_finished() {
        (
            spec_next_in_cycle(mood),
            MoodEntity {
                next_cycle_progression: t,
                mood_stability: 0,
                changed_by_crowd: false,
                ..e
            },
        )
    } else {
        let s: int = if e.mood_stability + delta > u64::MAX {
            u64::MAX as int
        } else {
            e.mood_stability + delta
        };
        (mood, MoodEntity { next_cycle_progression: t, mood_stability: s as u64, ..e })
    }
}

/// Applies the crowd-density rule: every check period, an agent whose mood
/// changed less than the debounce window ago, by a change that was not this
/// rule's own, takes the mood of its crowd.
pub fn update_mood_based_on_collisions(
    mood: &mut Mood,
    entity: &mut MoodEntity,
    collision_count: usize,
    delta: u64,
) -> (r: Option<MoodChange>)
    requires
        old(entity).wf(),
    ensures
        (*final(mood), *final(entity)) == collision_rule(
            *old(mood),
            *old(entity),
            collision_count,
            delta,
        ),
        final(entity).wf(),
        r == (if collision_rule_fires(*old(mood), *old(entity), collision_count, delta) {
            Some(MoodChange { old: *old(mood), new: *final(mood) })
        } else {
            None
        }),
{
    entity.collision_count = collision_count;
    entity.next_mood_check.tick(delta);
    if entity.next_mood_check.just_finished() && entity.mood_stability < STABILITY_DEBOUNCE_MS
        && !entity.changed_by_crowd {
        let candidate = crowd_mood(collision_count);
        if candidate != *mood {
            let change = MoodChange { old: *mood, new: candidate };
            *mood = candidate;
            entity.mood_stability = 0;
            entity.changed_by_crowd = true;
            return Some(change);
        }
    }
    None
}

/// Applies the cyclic rule: whenever its timer fires the mood advances to its
/// successor, however stable it was.
pub fn update_mood_natural_progression(mood: &mut Mood, entity: &mut MoodEntity, delta: u64) -> (r:
    Option<MoodChange>)
    requires
        old(entity).wf(),
    ensures
        (*final(mood), *final(entity)) == cycle_rule(*old(mood), *old(entity), delta),
        final(entity).wf(),
        r == (if old(entity).next_cycle_progression.spec_tick(delta).spec_just_finished() {
            Some(MoodChange { old: *old(mood), new: *final(mood) })
        } else {
            None
        }),
{
    entity.next_cycle_progression.tick(delta);
    entity.mood_stability = entity.mood_stability.saturating_add(delta);
    if entity.next_cycle_progression.just_finished() {
        let change = MoodChange { old: *mood, new: mood.next_in_cycle() };
        *mood = change.new;
        entity.mood_stability = 0;
        entity.changed_by_crowd = false;
        Some(change)
    } else {
        None
    }
}

/// The changes each rule makes in one tick, crowd-density rule first.
pub open spec fn tick_changes(mood: Mood, e: MoodEntity, collision_count: usize, delta: u64) -> (
    Option<MoodChange>,
    Option<MoodChange>,
) {
    let (m1, e1) = collision_rule(mood, e, collision_count, delta);
    (
        if collision_rule_fires(mood, e, collision_count, delta) {
            Some(MoodChange { old: mood, new: m1 })
        } else {
            None
        },
        if e1.next_cycle_progression.spec_tick(delta).spec_just_finished() {
            Some(MoodChange { old: m1, new: spec_next_in_cycle(m1) })
        } else {
            None
        },
    )
}

/// One tick of both mood rules, crowd-density rule first, so that the cyclic
/// rule may override it within the same tick. Returns the change each rule
/// made, in that order.
pub fn update_mood(mood: &mut Mood, entity: &mut MoodEntity, collision_count: usize, delta: u64) -> (r:
    (Option<MoodChange>, Option<MoodChange>))
    requires
        old(entity).wf(),
    ensures
        ({
            let (m1, e1) = collision_rule(*old(mood), *old(entity), collision_count, delta);
            (*final(mood), *final(entity)) == cycle_rule(m1, e1, delta)
        }),
        r == tick_changes(*old(mood), *old(entity), collision_count, delta),
        final(entity).wf(),
{
    let first = update_mood_based_on_collisions(mood, entity, collision_count, delta);
    let second = update_mood_natural_progression(mood, entity, delta);
    (first, second)
}

/// The crowd-density rule never changes a mood within the debounce window
/// after its own last change, nor a mood that has been stable for the whole
/// window, nor one that already matches the crowd.
pub proof fn lemma_collision_rule_debounced(
    mood: Mood,
    e: MoodEntity,
    collision_count: usize,
    delta: u64,
)
    requires
        e.changed_by_crowd || e.mood_stability >= STABILITY_DEBOUNCE_MS || spec_crowd_mood(
            collision_count as nat,
        ) == mood,
    ensures
        collision_rule(mood, e, collision_count, delta).0 == mood,
{
}

/// The cyclic rule overrides whatever the crowd-density rule did in the same
/// tick, and fires regardless of how stable the mood was.
pub proof fn lemma_cycle_overrides(mood: Mood, e: MoodEntity, collision_count: usize, delta: u64)
    requires
        e.next_cycle_progression.spec_tick(delta).spec_just_finished(),
    ensures
        ({
            let (m1, e1) = collision_rule(mood, e, collision_count, delta);
            let (m2, e2) = cycle_rule(m1, e1, delta);
            m2 == spec_next_in_cycle(m1) && e2.mood_stability == 0
        }),
{
}

/// Mood, bookkeeping, and whether the cyclic rule fired at least once, after
/// ticks with the given neighbour counts and durations.
pub open spec fn run_ticks(mood: Mood, e: MoodEntity, steps: Seq<(usize, u64)>) -> (
    Mood,
    MoodEntity,
    bool,
)
    decreases steps.len(),
{
    if steps.len() == 0 {
        (mood, e, false)
    } else {
        let (m0, e0, cycled) = run_ticks(mood, e, steps.drop_last());
        let (count, delta) = steps.last();
        let (m1, e1) = collision_rule(m0, e0, count, delta);
        let fired = e1.next_cycle_progression.spec_tick(delta).spec_just_finished();
        let (m2, e2) = cycle_rule(m1, e1, delta);
        (m2, e2, cycled || fired)
    }
}

/// Once the crowd-density rule has changed a mood, or once a mood has been
/// stable for the whole debounce window, the crowd-density rule does not
/// change it again, whatever the crowds of the following ticks: until a
/// cyclic progression fires, the mood stays as it is.
pub proof fn lemma_stable_mood_stays(mood: Mood, e: MoodEntity, steps: Seq<(usize, u64)>)
    requires
        e.changed_by_crowd || e.mood_stability >= STABILITY_DEBOUNCE_MS,
    ensures
        !run_ticks(mood, e, steps).2 ==> {
            let e2 = run_ticks(mood, e, steps).1;
            &&& run_ticks(mood, e, steps).0 == mood
            &&& e2.changed_by_crowd == e.changed_by_crowd
            &&& e2.mood_stability >= e.mood_stability
        },
    decreases steps.len(),
{
    if steps.len() > 0 {
        lemma_stable_mood_stays(mood, e, steps.drop_last());
    }
}

/// No two mood changes by the crowd-density rule come within the debounce
/// window of each other: after the rule changes a mood, later ticks leave it
/// as the rule set it until a cyclic progression fires.
pub proof fn lemma_no_second_crowd_change(
    mood: Mood,
    e: MoodEntity,
    collision_count: usize,
    delta: u64,
    steps: Seq<(usize, u64)>,
)
    requires
        collision_rule_fires(mood, e, collision_count, delta),
    ensures
        ({
            let (m1, e1) = collision_rule(mood, e, collision_count, delta);
            let (m2, e2) = cycle_rule(m1, e1, delta);
            !e1.next_cycle_progression.spec_tick(delta).spec_just_finished() && !run_ticks(
                m2,
                e2,
                steps,
            ).2 ==> m2 == spec_crowd_mood(collision_count as nat) && run_ticks(m2, e2, steps).0
                == m2
        }),
{
    let (m1, e1) = collision_rule(mood, e, collision_count, delta);
    let (m2, e2) = cycle_rule(m1, e1, delta);
    if !e1.next_cycle_progression.spec_tick(delta).spec_just_finished() {
        lemma_stable_mood_stays(m2, e2, steps);
    }
}

} // verus!
