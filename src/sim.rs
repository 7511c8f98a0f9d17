//! One simulation tick over all agents: moods first, then a snapshot, then
//! each agent's movement intent from that snapshot.
use vstd::prelude::*;

use crate::ai::{behavior, step_ai_behavior, AiConfig, AiWanderState, Rolls, noise_ok};
use crate::forces::{
    update_ai_boundary_avoidance, update_ai_magnetism, with_avoidance, with_magnetism,
    AiMagnetism, PlayArea, MAX_AGENTS,
};
use crate::mood::Mood;
use crate::transitions::{collision_rule, cycle_rule, tick_changes, update_mood, MoodChange, MoodEntity};
use crate::world::{all_in_bounds, AgentSnapshot, Vec2};

verus! {

/// The movement an agent asks of the outside integrator.
#[derive(Clone, Copy, Debug, PartialEq, Eq, Structural)]
pub struct MovementController {
    /// Direction and strength of the wanted motion, in thousandths of a unit
    /// of speed per axis.
    pub intent: Vec2,
    /// Top speed, in position steps per second.
    pub max_speed: i64,
}

impl Default for MovementController {
    fn default() -> (r: MovementController)
        ensures
            r == (MovementController { intent: Vec2 { x: 0, y: 0 }, max_speed: 400_000 }),
    {
        MovementController { intent: Vec2::zero(), max_speed: 400_000 }
    }
}

/// Everything the simulation keeps about one agent.
#[derive(Clone, Copy, Debug)]
pub struct Agent {
    pub id: u64,
    pub position: Vec2,
    pub mood: Mood,
    pub mood_entity: MoodEntity,
    pub wander_state: AiWanderState,
    pub magnetism: AiMagnetism,
    pub controller: MovementController,
}

impl Agent {
    pub open spec fn wf(&self) -> bool {
        &&& self.position.in_bounds()
        &&& self.mood_entity.wf()
        &&& self.wander_state.wf()
        &&& self.magnetism.wf()
    }

    pub open spec fn snapshot(&self) -> AgentSnapshot {
        AgentSnapshot { id: self.id, position: self.position, mood: self.mood }
    }
}

/// The picture of every agent that all agents read within a tick.
pub open spec fn snapshot_of(agents: Seq<Agent>) -> Seq<AgentSnapshot> {
    agents.map_values(|a: Agent| a.snapshot())
}

/// An agent after the mood rules of a tick, touched by `count` neighbours.
pub open spec fn mood_phase(a: Agent, count: usize, delta: u64) -> Agent {
    let (m1, e1) = collision_rule(a.mood, a.mood_entity, count, delta);
    let (m2, e2) = cycle_rule(m1, e1, delta);
    Agent { mood: m2, mood_entity: e2, ..a }
}

/// The mood changes one agent reports in a tick, each with its identifier.
pub open spec fn agent_changes(a: Agent, count: usize, delta: u64) -> Seq<(u64, MoodChange)> {
    let (c1, c2) = tick_changes(a.mood, a.mood_entity, count, delta);
    let first = match c1 {
        Some(c) => seq![(a.id, c)],
        None => Seq::empty(),
    };
    let second = match c2 {
        Some(c) => seq![(a.id, c)],
        None => Seq::empty(),
    };
    first + second
}

/// The mood changes of a tick, agent by agent in order.
pub open spec fn all_changes(agents: Seq<Agent>, counts: Seq<usize>, delta: u64) -> Seq<
    (u64, MoodChange),
>
    decreases agents.len(),
{
    if agents.len() == 0 {
        Seq::empty()
    } else {
        let k = agents.len() - 1;
        all_changes(agents.drop_last(), counts.take(k), delta) + agent_changes(
            agents[k],
            counts[k],
            delta,
        )
    }
}

/// An agent after the movement phase of a tick: its action state machine
/// sets the base intent, then flocking and boundary forces are added.
pub open spec fn intent_phase(
    config: AiConfig,
    area: PlayArea,
    a: Agent,
    all: Seq<AgentSnapshot>,
    delta: u64,
    noise: Vec2,
    rolls: Rolls,
) -> Agent {
    let (ws, base) = behavior(
        config,
        a.id,
        a.position,
        a.mood,
        a.wander_state,
        all,
        delta,
        noise,
        rolls,
    );
    let flocked = with_magnetism(config, a.id, a.position, a.mood, ws.action, a.magnetism, all, base);
    let intent = with_avoidance(area, config, a.position, ws.action, flocked);
    Agent { wander_state: ws, controller: MovementController { intent, ..a.controller }, ..a }
}

/// Runs the movement phase of one agent against the snapshot `all`.
pub fn update_agent_intent(
    config: &AiConfig,
    area: &PlayArea,
    agent: &mut Agent,
    all: &Vec<AgentSnapshot>,
    delta: u64,
    noise: Vec2,
    rolls: Rolls,
)
    requires
        config.wf(),
        area.wf(),
        old(agent).wf(),
        all_in_bounds(all@),
        all.len() <= MAX_AGENTS,
        noise_ok(noise),
    ensures
        *final(agent) == intent_phase(*config, *area, *old(agent), all@, delta, noise, rolls),
        final(agent).wf(),
{
    let base = step_ai_behavior(
        config,
        agent.id,
        agent.position,
        agent.mood,
        &mut agent.wander_state,
        all,
        delta,
        noise,
        rolls,
    );
    let action = agent.wander_state.action;
    let flocked = update_ai_magnetism(
        config,
        agent.id,
        agent.position,
        agent.mood,
        action,
        &agent.magnetism,
        all,
        base,
    );
    let intent = update_ai_boundary_avoidance(area, config, agent.position, action, flocked);
    agent.controller.intent = intent;
}

/// Takes the snapshot of all agents.
pub fn take_snapshot(agents: &Vec<Agent>) -> (r: Vec<AgentSnapshot>)
    ensures
        r@ == snapshot_of(agents@),
{
    let mut r: Vec<AgentSnapshot> = Vec::new();
    let mut i: usize = 0;
    while i < agents.len()
        invariant
            0 <= i <= agents.len(),
            r@ == snapshot_of(agents@.take(i as int)),
        decreases agents.len() - i,
    {
        let a = &agents[i];
        r.push(AgentSnapshot { id: a.id, position: a.position, mood: a.mood });
        proof {
            assert(snapshot_of(agents@.take(i + 1)) =~= snapshot_of(agents@.take(i as int)).push(
                agents@[i as int].snapshot(),
            ));
        }
        i += 1;
    }
    proof {
        assert(agents@.take(i as int) =~= agents@);
    }
    r
}

/// One tick of the whole population: every agent's mood rules run first,
/// with `counts[k]` neighbours touching agent `k`; then the snapshot of all
/// agents is taken, and every agent's intent is computed from that same
/// snapshot, so the order of the agents does not matter. Returns the mood
/// changes of the tick.
pub fn tick_agents(
    config: &AiConfig,
    area: &PlayArea,
    agents: &mut Vec<Agent>,
    counts: &Vec<usize>,
    delta: u64,
    noises: &Vec<Vec2>,
    rolls: &Vec<Rolls>,
) -> (changes: Vec<(u64, MoodChange)>)
    requires
        config.wf(),
        area.wf(),
        old(agents).len() <= MAX_AGENTS,
        counts.len() == old(agents).len(),
        noises.len() == old(agents).len(),
        rolls.len() == old(agents).len(),
        forall|k: int| 0 <= k < rolls.len() ==> (#[trigger] rolls@[k]).fit(*config),
        forall|k: int| 0 <= k < old(agents).len() ==> (#[trigger] old(agents)@[k]).wf(),
        forall|k: int| 0 <= k < noises.len() ==> noise_ok(#[trigger] noises@[k]),
    ensures
        final(agents).len() == old(agents).len(),
        ({
            let mid = Seq::new(
                old(agents).len() as nat,
                |k: int| mood_phase(old(agents)@[k], counts@[k], delta),
            );
            forall|k: int|
                0 <= k < final(agents).len() ==> #[trigger] final(agents)@[k] == intent_phase(
                    *config,
                    *area,
                    mid[k],
                    snapshot_of(mid),
                    delta,
                    noises@[k],
                    rolls@[k],
                )
        }),
        forall|k: int| 0 <= k < final(agents).len() ==> (#[trigger] final(agents)@[k]).wf(),
        changes@ == all_changes(old(agents)@, counts@, delta),
{
    let mut changes: Vec<(u64, MoodChange)> = Vec::new();
    let ghost mid = Seq::new(
        old(agents).len() as nat,
        |k: int| mood_phase(old(agents)@[k], counts@[k], delta),
    );
    let mut i: usize = 0;
    while i < agents.len()
        invariant
            0 <= i <= agents.len(),
            agents.len() == old(agents).len(),
            counts.len() == old(agents).len(),
            mid.len() == old(agents).len(),
            mid == Seq::new(
                old(agents).len() as nat,
                |k: int| mood_phase(old(agents)@[k], counts@[k], delta),
            ),
            forall|k: int| 0 <= k < old(agents).len() ==> (#[trigger] old(agents)@[k]).wf(),
            forall|k: int| 0 <= k < i ==> (#[trigger] agents@[k]) == mid[k],
            forall|k: int| i <= k < agents.len() ==> (#[trigger] agents@[k]) == old(agents)@[k],
            changes@ == all_changes(old(agents)@.take(i as int), counts@.take(i as int), delta),
        decreases agents.len() - i,
    {
        let ghost before = agents@;
        let id = agents[i].id;
        let agent = &mut agents[i];
        let (c1, c2) = update_mood(&mut agent.mood, &mut agent.mood_entity, counts[i], delta);
        let ghost prev = changes@;
        if let Some(c) = c1 {
            changes.push((id, c));
        }
        if let Some(c) = c2 {
            changes.push((id, c));
        }
        proof {
            let o = old(agents)@;
            assert(o.take(i + 1).drop_last() =~= o.take(i as int));
            assert(counts@.take(i + 1).take(i as int) =~= counts@.take(i as int));
            assert(o.take(i + 1)[i as int] == o[i as int]);
            assert(counts@.take(i + 1)[i as int] == counts@[i as int]);
            assert(changes@ =~= prev + agent_changes(o[i as int], counts@[i as int], delta));
            assert forall|k: int| 0 <= k < i + 1 implies (#[trigger] agents@[k]) == mid[k] by {
                if k < i {
                    assert(agents@[k] == before[k]);
                }
            }
            assert forall|k: int| i + 1 <= k < agents.len() implies (#[trigger] agents@[k])
                == old(agents)@[k] by {
                assert(agents@[k] == before[k]);
            }
        }
        i += 1;
    }
    proof {
        assert(old(agents)@.take(i as int) =~= old(agents)@);
        assert(counts@.take(i as int) =~= counts@);
        assert(agents@ =~= mid);
        assert forall|k: int| 0 <= k < mid.len() implies (#[trigger] mid[k]).wf() by {
            assert(old(agents)@[k].wf());
        }
    }
    let all = take_snapshot(agents);
    proof {
        assert forall|j: int| 0 <= j < all@.len() implies (#[trigger] all@[j]).position.in_bounds() by {
            assert(mid[j].wf());
        }
    }
    let mut i: usize = 0;
    while i < agents.len()
        invariant
            0 <= i <= agents.len(),
            agents.len() == mid.len(),
            noises.len() == mid.len(),
            rolls.len() == mid.len(),
            mid.len() <= MAX_AGENTS,
            config.wf(),
            area.wf(),
            all@ == snapshot_of(mid),
            all_in_bounds(all@),
            forall|k: int| 0 <= k < noises.len() ==> noise_ok(#[trigger] noises@[k]),
            forall|k: int| 0 <= k < mid.len() ==> (#[trigger] mid[k]).wf(),
            forall|k: int|
                0 <= k < i ==> (#[trigger] agents@[k]) == intent_phase(
                    *config,
                    *area,
                    mid[k],
                    all@,
                    delta,
                    noises@[k],
                    rolls@[k],
                ) && agents@[k].wf(),
            forall|k: int| i <= k < agents.len() ==> (#[trigger] agents@[k]) == mid[k],
        decreases agents.len() - i,
    {
        let ghost before = agents@;
        assert(noise_ok(noises@[i as int]));
        update_agent_intent(config, area, &mut agents[i], &all, delta, noises[i], rolls[i]);
        proof {
            assert forall|k: int| 0 <= k < i + 1 implies (#[trigger] agents@[k]) == intent_phase(
                *config,
                *area,
                mid[k],
                all@,
                delta,
                noises@[k],
                rolls@[k],
            ) && agents@[k].wf() by {
                if k < i {
                    assert(agents@[k] == before[k]);
                }
            }
            assert forall|k: int| i + 1 <= k < agents.len() implies (#[trigger] agents@[k])
                == mid[k] by {
                assert(agents@[k] == before[k]);
            }
        }
        i += 1;
    }
    changes
}

} // verus!
