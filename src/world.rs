//! The shared picture of the world: fixed-point positions and a snapshot of
//! every live agent.
use vstd::prelude::*;

use crate::mood::Mood;

verus! {

/// Fixed-point scale: one world unit is this many position steps, and an
/// intent of this length is one full unit of speed.
pub const UNIT: i64 = 1000;

/// Largest magnitude a position coordinate may take, in position steps.
pub const COORD_LIMIT: i64 = 1_000_000_000;

/// A point or vector on the plane, in fixed-point steps.
#[derive(Clone, Copy, Debug, PartialEq, Eq, Structural)]
pub struct Vec2 {
    pub x: i64,
    pub y: i64,
}

impl Vec2 {
    pub open spec fn zero_spec() -> Vec2 {
        Vec2 { x: 0, y: 0 }
    }

    /// Both coordinates lie within the position limits.
    pub open spec fn in_bounds(self) -> bool {
        -COORD_LIMIT <= self.x <= COORD_LIMIT && -COORD_LIMIT <= self.y <= COORD_LIMIT
    }

    /// The zero vector.
    pub fn zero() -> (r: Vec2)
        ensures
            r == Vec2::zero_spec(),
    {
        Vec2 { x: 0, y: 0 }
    }
}

/// Squared Euclidean distance between two points.
pub open spec fn dist_sq(a: Vec2, b: Vec2) -> int {
    (a.x - b.x) * (a.x - b.x) + (a.y - b.y) * (a.y - b.y)
}

/// Squared distance between two in-bounds points, exactly.
pub fn distance_squared(a: Vec2, b: Vec2) -> (r: u64)
    requires
        a.in_bounds(),
        b.in_bounds(),
    ensures
        r == dist_sq(a, b),
{
    let dx = (a.x - b.x) as i128;
    let dy = (a.y - b.y) as i128;
    assert(dx * dx <= 4_000_000_000_000_000_000) by (nonlinear_arith)
        requires
            -2_000_000_000 <= dx <= 2_000_000_000,
    ;
    assert(dy * dy <= 4_000_000_000_000_000_000) by (nonlinear_arith)
        requires
            -2_000_000_000 <= dy <= 2_000_000_000,
    ;
    assert(dx * dx >= 0 && dy * dy >= 0) by (nonlinear_arith);
    (dx * dx + dy * dy) as u64
}

/// What the simulation knows of one live agent at the start of a tick.
#[derive(Clone, Copy, Debug, PartialEq, Eq, Structural)]
pub struct AgentSnapshot {
    pub id: u64,
    pub position: Vec2,
    pub mood: Mood,
}

/// Mood of the first agent of the snapshot with identifier `id`, if any.
pub open spec fn live_mood(agents: Seq<AgentSnapshot>, id: u64) -> Option<Mood>
    decreases agents.len(),
{
    if agents.len() == 0 {
        None
    } else if agents[0].id == id {
        Some(agents[0].mood)
    } else {
        live_mood(agents.drop_first(), id)
    }
}

/// Index of the first agent of the snapshot with identifier `id`, if any.
pub open spec fn first_index_of(agents: Seq<AgentSnapshot>, id: u64) -> Option<int>
    decreases agents.len(),
{
    if agents.len() == 0 {
        None
    } else if agents[0].id == id {
        Some(0)
    } else {
        match first_index_of(agents.drop_first(), id) {
            Some(i) => Some(i + 1),
            None => None,
        }
    }
}

/// Every snapshot position is in bounds.
pub open spec fn all_in_bounds(agents: Seq<AgentSnapshot>) -> bool {
    forall|i: int| 0 <= i < agents.len() ==> (#[trigger] agents[i]).position.in_bounds()
}

proof fn lemma_first_index(agents: Seq<AgentSnapshot>, id: u64, i: int)
    requires
        0 <= i <= agents.len(),
        forall|j: int| 0 <= j < i ==> agents[j].id != id,
    ensures
        i < agents.len() && agents[i].id == id ==> first_index_of(agents, id) == Some(i)
            && live_mood(agents, id) == Some(agents[i].mood),
        i == agents.len() ==> first_index_of(agents, id) == None::<int> && live_mood(agents, id)
            == None::<Mood>,
    decreases i,
{
    if i > 0 {
        let rest = agents.drop_first();
        assert forall|j: int| 0 <= j < i - 1 implies rest[j].id != id by {
            assert(rest[j] == agents[j + 1]);
        }
        lemma_first_index(rest, id, i - 1);
        if i < agents.len() {
            assert(rest[i - 1] == agents[i]);
        }
    } else {
        if agents.len() == 0 {
        }
    }
}

/// Finds the first agent of the snapshot with identifier `id`.
pub fn find_agent(agents: &Vec<AgentSnapshot>, id: u64) -> (r: Option<usize>)
    ensures
        r matches Some(i) ==> first_index_of(agents@, id) == Some(i as int) && i < agents.len()
            && agents@[i as int].id == id && live_mood(agents@, id) == Some(
            agents@[i as int].mood,
        ),
        r is None ==> first_index_of(agents@, id) == None::<int> && live_mood(agents@, id)
            == None::<Mood>,
{
    let mut i: usize = 0;
    while i < agents.len()
        invariant
            0 <= i <= agents.len(),
            forall|j: int| 0 <= j < i ==> agents@[j].id != id,
        decreases agents.len() - i,
    {
        if agents[i].id == id {
            proof {
                lemma_first_index(agents@, id, i as int);
            }
            return Some(i);
        }
        i += 1;
    }
    proof {
        lemma_first_index(agents@, id, i as int);
    }
    None
}

} // verus!
