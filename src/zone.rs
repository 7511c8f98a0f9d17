//! Goal zones: occupancy kept from enter/exit notifications, a satisfaction
//! recount every tick, and a one-way level-complete latch.
use vstd::prelude::*;

use crate::mood::Mood;
use crate::world::{find_agent, live_mood, AgentSnapshot};

verus! {

/// A region that wants `required_count` agents of `target_mood` inside it.
#[derive(Debug)]
pub struct GoalZone {
    pub id: u64,
    pub target_mood: Mood,
    pub required_count: u32,
    pub current_count: u32,
    pub is_satisfied: bool,
    /// Identifiers of the agents currently inside, each once.
    pub entities_inside: Vec<u64>,
}

/// Residents of `occupancy` whose live mood is `target`.
pub open spec fn matching_residents(
    occupancy: Set<u64>,
    agents: Seq<AgentSnapshot>,
    target: Mood,
) -> Set<u64> {
    occupancy.filter(|id: u64| live_mood(agents, id) == Some(target))
}

/// Number of residents of `occupancy` whose live mood is `target`.
pub open spec fn zone_count(occupancy: Set<u64>, agents: Seq<AgentSnapshot>, target: Mood) -> nat {
    matching_residents(occupancy, agents, target).len()
}

impl GoalZone {
    pub open spec fn wf(&self) -> bool {
        &&& self.entities_inside@.no_duplicates()
        &&& self.entities_inside@.len() <= u32::MAX
    }

    /// The set of agents inside the zone.
    pub open spec fn occupancy(&self) -> Set<u64> {
        self.entities_inside@.to_set()
    }

    /// Everything but the occupancy is as in `other`.
    pub open spec fn same_settings(&self, other: &GoalZone) -> bool {
        &&& self.id == other.id
        &&& self.target_mood == other.target_mood
        &&& self.required_count == other.required_count
    }

    /// An empty, unsatisfied zone.
    pub fn new(id: u64, target_mood: Mood, required_count: u32) -> (r: GoalZone)
        ensures
            r.wf(),
            r.id == id,
            r.target_mood == target_mood,
            r.required_count == required_count,
            r.current_count == 0,
            !r.is_satisfied,
            r.occupancy() == Set::<u64>::empty(),
    {
        let r = GoalZone {
            id,
            target_mood,
            required_count,
            current_count: 0,
            is_satisfied: false,
            entities_inside: Vec::new(),
        };
        assert(r.occupancy() =~= Set::<u64>::empty());
        r
    }

    /// Records that `agent` is inside; a no-op if it already was.
    pub fn insert_entity(&mut self, agent: u64)
        requires
            old(self).wf(),
            old(self).entities_inside.len() < u32::MAX,
        ensures
            final(self).wf(),
            final(self).occupancy() == old(self).occupancy().insert(agent),
            final(self).entities_inside.len() <= old(self).entities_inside.len() + 1,
            final(self).same_settings(old(self)),
            final(self).current_count == old(self).current_count,
            final(self).is_satisfied == old(self).is_satisfied,
    {
        let mut i: usize = 0;
        while i < self.entities_inside.len()
            invariant
                0 <= i <= self.entities_inside.len(),
                forall|j: int| 0 <= j < i ==> self.entities_inside@[j] != agent,
                *self == *old(self),
                old(self).wf(),
            decreases self.entities_inside.len() - i,
        {
            if self.entities_inside[i] == agent {
                proof {
                    assert(old(self).occupancy().contains(agent));
                    assert(old(self).occupancy().insert(agent) =~= old(self).occupancy());
                    assert(self.entities_inside@ == old(self).entities_inside@);
                    assert(self.wf());
                }
                return ;
            }
            i += 1;
        }
        proof {
            old(self).entities_inside@.lemma_push_to_set_commute(agent);
        }
        self.entities_inside.push(agent);
        proof {
            let s = self.entities_inside@;
            assert forall|a: int, b: int|
                0 <= a < s.len() && 0 <= b < s.len() && a != b implies s[a] != s[b] by {
                if b == s.len() - 1 {
                    assert(s[a] == old(self).entities_inside@[a]);
                } else if a == s.len() - 1 {
                    assert(s[b] == old(self).entities_inside@[b]);
                }
            }
        }
    }

    /// Records that `agent` has left; a no-op if it was not inside.
    pub fn remove_entity(&mut self, agent: u64)
        requires
            old(self).wf(),
        ensures
            final(self).wf(),
            final(self).occupancy() == old(self).occupancy().remove(agent),
            final(self).same_settings(old(self)),
            final(self).current_count == old(self).current_count,
            final(self).is_satisfied == old(self).is_satisfied,
    {
        let mut i: usize = 0;
        while i < self.entities_inside.len()
            invariant
                0 <= i <= self.entities_inside.len(),
                forall|j: int| 0 <= j < i ==> self.entities_inside@[j] != agent,
                *self == *old(self),
                old(self).wf(),
            decreases self.entities_inside.len() - i,
        {
            if self.entities_inside[i] == agent {
                let ghost s = self.entities_inside@;
                self.entities_inside.remove(i);
                proof {
                    let t = self.entities_inside@;
                    s.remove_ensures(i as int);
                    assert(s == old(self).entities_inside@);
                    assert(s.no_duplicates());
                    assert(t =~= s.remove(i as int));
                    assert(s[i as int] == agent);
                    assert forall|x: u64| #[trigger] t.contains(x) <==> (s.contains(x) && x != agent) by {
                        if t.contains(x) {
                            let k = choose|k: int| 0 <= k < t.len() && t[k] == x;
                            let k2 = if k < i { k } else { k + 1 };
                            assert(s[k2] == x);
                            assert(k2 != i);
                            assert(s[k2] != s[i as int]);
                        }
                        if s.contains(x) && x != agent {
                            let k = choose|k: int| 0 <= k < s.len() && s[k] == x;
                            if k < i {
                                assert(t[k] == x);
                            } else {
                                assert(k != i);
                                assert(t[k - 1] == x);
                            }
                        }
                    }
                    assert(self.occupancy() =~= old(self).occupancy().remove(agent));
                    assert forall|a: int, b: int|
                        0 <= a < t.len() && 0 <= b < t.len() && a != b implies t[a] != t[b] by {
                        let a2 = if a < i { a } else { a + 1 };
                        let b2 = if b < i { b } else { b + 1 };
                        assert(t[a] == s[a2] && t[b] == s[b2]);
                        assert(s[a2] != s[b2]);
                    }
                }
                return ;
            }
            i += 1;
        }
        proof {
            assert(!old(self).occupancy().contains(agent));
            assert(old(self).occupancy().remove(agent) =~= old(self).occupancy());
        }
    }

    /// Recounts the residents in the target mood and whether the requirement is
    /// met, from the occupancy and the live moods alone.
    pub fn update_zone_state(&mut self, agents: &Vec<AgentSnapshot>)
        requires
            old(self).wf(),
        ensures
            final(self).wf(),
            final(self).entities_inside@ == old(self).entities_inside@,
            final(self).same_settings(old(self)),
            final(self).current_count == zone_count(
                old(self).occupancy(),
                agents@,
                old(self).target_mood,
            ),
            final(self).is_satisfied == (final(self).current_count >= final(self).required_count),
    {
        let ghost inside = self.entities_inside@;
        let ghost target = self.target_mood;
        let ghost pred = |id: u64| live_mood(agents@, id) == Some(target);
        let mut count: u32 = 0;
        let mut i: usize = 0;
        proof {
            assert(inside.take(0).to_set() =~= Set::<u64>::empty());
            assert(inside.take(0).to_set().filter(pred) =~= Set::<u64>::empty());
        }
        while i < self.entities_inside.len()
            invariant
                0 <= i <= self.entities_inside.len(),
                self.entities_inside@ == inside,
                self.target_mood == target,
                inside.no_duplicates(),
                inside.len() <= u32::MAX,
                pred == (|id: u64| live_mood(agents@, id) == Some(target)),
                count == inside.take(i as int).to_set().filter(pred).len(),
                count <= i,
                inside.take(i as int).to_set().filter(pred).finite(),
            decreases self.entities_inside.len() - i,
        {
            let id = self.entities_inside[i];
            let found = find_agent(agents, id);
            let ghost before = inside.take(i as int).to_set();
            proof {
                assert(inside.take(i + 1) =~= inside.take(i as int).push(id));
                inside.take(i as int).lemma_push_to_set_commute(id);
                assert(!before.contains(id)) by {
                    if before.contains(id) {
                        let k = choose|k: int| 0 <= k < i && inside.take(i as int)[k] == id;
                        assert(inside[k] == inside[i as int]);
                    }
                }
            }
            let matches = match found {
                Some(k) => agents[k].mood == self.target_mood,
                None => false,
            };
            if matches {
                proof {
                    assert(before.insert(id).filter(pred) =~= before.filter(pred).insert(id));
                }
                count = count + 1;
            } else {
                proof {
                    assert(before.insert(id).filter(pred) =~= before.filter(pred));
                }
            }
            i += 1;
        }
        proof {
            assert(inside.take(i as int) =~= inside);
        }
        self.current_count = count;
        self.is_satisfied = self.current_count >= self.required_count;
    }
}

/// Identifiers of the zones, in order.
pub open spec fn zone_ids(zones: Seq<GoalZone>) -> Seq<u64> {
    zones.map_values(|z: GoalZone| z.id)
}

/// Index of the first zone with identifier `id`, if any.
pub open spec fn zone_index_of(ids: Seq<u64>, id: u64) -> Option<int>
    decreases ids.len(),
{
    if ids.len() == 0 {
        None
    } else if ids[0] == id {
        Some(0)
    } else {
        match zone_index_of(ids.drop_first(), id) {
            Some(i) => Some(i + 1),
            None => None,
        }
    }
}

/// The agent and the zone of a collision between `e1` and `e2`, in either
/// order, when one is a live agent and the other a zone.
pub open spec fn classify(e1: u64, e2: u64, agents: Seq<AgentSnapshot>, ids: Seq<u64>) -> Option<
    (u64, int),
> {
    if live_mood(agents, e1) is Some && zone_index_of(ids, e2) is Some {
        Some((e1, zone_index_of(ids, e2)->Some_0))
    } else if live_mood(agents, e2) is Some && zone_index_of(ids, e1) is Some {
        Some((e2, zone_index_of(ids, e1)->Some_0))
    } else {
        None
    }
}

/// Occupancy of zone `k` after the collision-begin events `evs`.
pub open spec fn after_entries(
    occ: Set<u64>,
    k: int,
    agents: Seq<AgentSnapshot>,
    ids: Seq<u64>,
    evs: Seq<(u64, u64)>,
) -> Set<u64>
    decreases evs.len(),
{
    if evs.len() == 0 {
        occ
    } else {
        let prev = after_entries(occ, k, agents, ids, evs.drop_last());
        match classify(evs.last().0, evs.last().1, agents, ids) {
            Some((a, zi)) => if zi == k {
                prev.insert(a)
            } else {
                prev
            },
            None => prev,
        }
    }
}

/// Occupancy of zone `k` after the collision-end events `evs`.
pub open spec fn after_exits(
    occ: Set<u64>,
    k: int,
    agents: Seq<AgentSnapshot>,
    ids: Seq<u64>,
    evs: Seq<(u64, u64)>,
) -> Set<u64>
    decreases evs.len(),
{
    if evs.len() == 0 {
        occ
    } else {
        let prev = after_exits(occ, k, agents, ids, evs.drop_last());
        match classify(evs.last().0, evs.last().1, agents, ids) {
            Some((a, zi)) => if zi == k {
                prev.remove(a)
            } else {
                prev
            },
            None => prev,
        }
    }
}

/// Agents that entered a zone whose target is their live mood, in event order.
pub open spec fn correct_entries(
    agents: Seq<AgentSnapshot>,
    zones: Seq<GoalZone>,
    evs: Seq<(u64, u64)>,
) -> Seq<u64>
    decreases evs.len(),
{
    if evs.len() == 0 {
        Seq::empty()
    } else {
        let prev = correct_entries(agents, zones, evs.drop_last());
        match classify(evs.last().0, evs.last().1, agents, zone_ids(zones)) {
            Some((a, zi)) => if live_mood(agents, a) == Some(zones[zi].target_mood) {
                prev.push(a)
            } else {
                prev
            },
            None => prev,
        }
    }
}

proof fn lemma_zone_index(ids: Seq<u64>, id: u64, i: int)
    requires
        0 <= i <= ids.len(),
        forall|j: int| 0 <= j < i ==> ids[j] != id,
    ensures
        i < ids.len() && ids[i] == id ==> zone_index_of(ids, id) == Some(i),
        i == ids.len() ==> zone_index_of(ids, id) == None::<int>,
    decreases i,
{
    if i > 0 {
        let rest = ids.drop_first();
        assert forall|j: int| 0 <= j < i - 1 implies rest[j] != id by {
            assert(rest[j] == ids[j + 1]);
        }
        lemma_zone_index(rest, id, i - 1);
        if i < ids.len() {
            assert(rest[i - 1] == ids[i]);
        }
    }
}

/// Finds the first zone with identifier `id`.
pub fn find_zone(zones: &Vec<GoalZone>, id: u64) -> (r: Option<usize>)
    ensures
        r matches Some(i) ==> zone_index_of(zone_ids(zones@), id) == Some(i as int) && i
            < zones.len(),
        r is None ==> zone_index_of(zone_ids(zones@), id) == None::<int>,
{
    let ghost ids = zone_ids(zones@);
    let mut i: usize = 0;
    while i < zones.len()
        invariant
            0 <= i <= zones.len(),
            ids == zone_ids(zones@),
            forall|j: int| 0 <= j < i ==> ids[j] != id,
        decreases zones.len() - i,
    {
        if zones[i].id == id {
            proof {
                lemma_zone_index(ids, id, i as int);
            }
            return Some(i);
        }
        i += 1;
    }
    proof {
        lemma_zone_index(ids, id, i as int);
    }
    None
}

/// Tells which of two colliding entities is an agent and which a zone.
pub fn get_moodel_and_zone(
    entity1: u64,
    entity2: u64,
    agents: &Vec<AgentSnapshot>,
    zones: &Vec<GoalZone>,
) -> (r: Option<(u64, usize)>)
    ensures
        r matches Some((a, k)) ==> classify(entity1, entity2, agents@, zone_ids(zones@)) == Some(
            (a, k as int),
        ) && k < zones.len(),
        r is None ==> classify(entity1, entity2, agents@, zone_ids(zones@)) is None,
{
    let a1 = find_agent(agents, entity1);
    let z2 = find_zone(zones, entity2);
    if a1.is_some() && z2.is_some() {
        return Some((entity1, z2.unwrap()));
    }
    let a2 = find_agent(agents, entity2);
    let z1 = find_zone(zones, entity1);
    if a2.is_some() && z1.is_some() {
        return Some((entity2, z1.unwrap()));
    }
    None
}

/// Every zone keeps its settings, its count and its satisfaction, stays well
/// formed and has occupancy `occ(k)`.
pub open spec fn zones_follow(
    now: Seq<GoalZone>,
    before: Seq<GoalZone>,
    occ: spec_fn(int) -> Set<u64>,
) -> bool {
    &&& now.len() == before.len()
    &&& forall|k: int|
        0 <= k < now.len() ==> {
            &&& (#[trigger] now[k]).wf()
            &&& now[k].same_settings(&before[k])
            &&& now[k].occupancy() == occ(k)
            &&& now[k].current_count == before[k].current_count
            &&& now[k].is_satisfied == before[k].is_satisfied
        }
}

/// Applies a tick's collision events to the zones: every collision-begin
/// between an agent and a zone puts the agent in that zone, then every
/// collision-end takes it out; events between other entities are ignored.
/// Returns the agents that entered a zone whose target is their mood, for the
/// "correct entry" cue.
pub fn handle_zone_collisions(
    zones: &mut Vec<GoalZone>,
    agents: &Vec<AgentSnapshot>,
    started: &Vec<(u64, u64)>,
    ended: &Vec<(u64, u64)>,
) -> (r: Vec<u64>)
    requires
        forall|k: int|
            0 <= k < old(zones).len() ==> (#[trigger] old(zones)@[k]).wf()
                && old(zones)@[k].entities_inside.len() + started.len() <= u32::MAX,
    ensures
        zones_follow(
            final(zones)@,
            old(zones)@,
            |k: int|
                after_exits(
                    after_entries(
                        old(zones)@[k].occupancy(),
                        k,
                        agents@,
                        zone_ids(old(zones)@),
                        started@,
                    ),
                    k,
                    agents@,
                    zone_ids(old(zones)@),
                    ended@,
                ),
        ),
        r@ == correct_entries(agents@, old(zones)@, started@),
{
    let ghost ids = zone_ids(zones@);
    let ghost z0 = zones@;
    let mut cues: Vec<u64> = Vec::new();
    let mut i: usize = 0;
    proof {
        assert(started@.take(0) =~= Seq::<(u64, u64)>::empty());
    }
    while i < started.len()
        invariant
            0 <= i <= started.len(),
            ids == zone_ids(z0),
            zone_ids(zones@) == ids,
            z0 == old(zones)@,
            forall|k: int| 0 <= k < z0.len() ==> (#[trigger] z0[k]).entities_inside.len() + started.len() <= u32::MAX,
            zones_follow(
                zones@,
                z0,
                |k: int| after_entries(z0[k].occupancy(), k, agents@, ids, started@.take(i as int)),
            ),
            forall|k: int|
                0 <= k < zones.len() ==> (#[trigger] zones@[k]).entities_inside.len() <= z0[k].entities_inside.len() + i,
            cues@ == correct_entries(agents@, z0, started@.take(i as int)),
        decreases started.len() - i,
    {
        let (e1, e2) = started[i];
        let pair = get_moodel_and_zone(e1, e2, agents, zones);
        let ghost zb = zones@;
        proof {
            assert(started@.take(i + 1).drop_last() =~= started@.take(i as int));
            assert(started@.take(i + 1).last() == (e1, e2));
        }
        match pair {
            Some((a, k)) => {
                proof {
                    assert(zones@[k as int].wf());
                    assert(zones@[k as int].entities_inside.len() <= z0[k as int].entities_inside.len() + i);
                }
                zones[k].insert_entity(a);
                let found = find_agent(agents, a);
                if let Some(j) = found {
                    if agents[j].mood == zones[k].target_mood {
                        cues.push(a);
                    }
                }
                proof {
                    assert forall|q: int| 0 <= q < zones.len() implies {
                        &&& (#[trigger] zones@[q]).wf()
                        &&& zones@[q].same_settings(&z0[q])
                        &&& zones@[q].occupancy() == after_entries(z0[q].occupancy(), q, agents@, ids, started@.take(i + 1))
                    } by {
                        if q != k {
                            assert(zones@[q] == zb[q]);
                        }
                    }
                    assert forall|q: int| 0 <= q < zones.len() implies (#[trigger] zones@[q]).entities_inside.len() <= z0[q].entities_inside.len() + i + 1 by {
                        if q != k {
                            assert(zones@[q] == zb[q]);
                        }
                    }
                    assert(zone_ids(zones@) =~= ids) by {
                        assert forall|q: int| 0 <= q < zones.len() implies zone_ids(zones@)[q] == ids[q] by {
                            if q != k {
                                assert(zones@[q] == zb[q]);
                            }
                        }
                    }
                    assert(zones@[k as int].target_mood == z0[k as int].target_mood);
                }
            },
            None => {
                proof {
                    assert forall|q: int| 0 <= q < zones.len() implies {
                        &&& (#[trigger] zones@[q]).wf()
                        &&& zones@[q].same_settings(&z0[q])
                        &&& zones@[q].occupancy() == after_entries(z0[q].occupancy(), q, agents@, ids, started@.take(i + 1))
                    } by {
                    }
                }
            },
        }
        i += 1;
    }
    proof {
        assert(started@.take(i as int) =~= started@);
        assert(ended@.take(0) =~= Seq::<(u64, u64)>::empty());
    }
    let ghost z1 = zones@;
    let mut i: usize = 0;
    while i < ended.len()
        invariant
            0 <= i <= ended.len(),
            zone_ids(zones@) == ids,
            z1.len() == z0.len(),
            forall|k: int| 0 <= k < z0.len() ==> (#[trigger] z1[k]).occupancy() == after_entries(z0[k].occupancy(), k, agents@, ids, started@),
            zones_follow(
                zones@,
                z0,
                |k: int| after_exits(z1[k].occupancy(), k, agents@, ids, ended@.take(i as int)),
            ),
        decreases ended.len() - i,
    {
        let (e1, e2) = ended[i];
        let pair = get_moodel_and_zone(e1, e2, agents, zones);
        let ghost zb = zones@;
        proof {
            assert(ended@.take(i + 1).drop_last() =~= ended@.take(i as int));
            assert(ended@.take(i + 1).last() == (e1, e2));
        }
        match pair {
            Some((a, k)) => {
                zones[k].remove_entity(a);
                proof {
                    assert forall|q: int| 0 <= q < zones.len() implies {
                        &&& (#[trigger] zones@[q]).wf()
                        &&& zones@[q].same_settings(&z0[q])
                        &&& zones@[q].occupancy() == after_exits(z1[q].occupancy(), q, agents@, ids, ended@.take(i + 1))
                    } by {
                        if q != k {
                            assert(zones@[q] == zb[q]);
                        }
                    }
                    assert(zone_ids(zones@) =~= ids) by {
                        assert forall|q: int| 0 <= q < zones.len() implies zone_ids(zones@)[q] == ids[q] by {
                            if q != k {
                                assert(zones@[q] == zb[q]);
                            }
                        }
                    }
                }
            },
            None => {
            },
        }
        i += 1;
    }
    proof {
        assert(ended@.take(i as int) =~= ended@);
    }
    cues
}

/// Recounts every zone from its occupancy and the live moods.
pub fn update_zones(zones: &mut Vec<GoalZone>, agents: &Vec<AgentSnapshot>)
    requires
        forall|k: int| 0 <= k < old(zones).len() ==> (#[trigger] old(zones)@[k]).wf(),
    ensures
        final(zones).len() == old(zones).len(),
        forall|k: int|
            0 <= k < final(zones).len() ==> {
                &&& (#[trigger] final(zones)@[k]).wf()
                &&& final(zones)@[k].same_settings(&old(zones)@[k])
                &&& final(zones)@[k].entities_inside@ == old(zones)@[k].entities_inside@
                &&& final(zones)@[k].current_count == zone_count(
                    old(zones)@[k].occupancy(),
                    agents@,
                    old(zones)@[k].target_mood,
                )
                &&& final(zones)@[k].is_satisfied == (final(zones)@[k].current_count
                    >= final(zones)@[k].required_count)
            },
{
    let mut i: usize = 0;
    while i < zones.len()
        invariant
            0 <= i <= zones.len(),
            zones.len() == old(zones).len(),
            forall|k: int| i <= k < zones.len() ==> (#[trigger] zones@[k]) == old(zones)@[k],
            forall|k: int| 0 <= k < old(zones).len() ==> (#[trigger] old(zones)@[k]).wf(),
            forall|k: int|
                0 <= k < i ==> {
                    &&& (#[trigger] zones@[k]).wf()
                    &&& zones@[k].same_settings(&old(zones)@[k])
                    &&& zones@[k].entities_inside@ == old(zones)@[k].entities_inside@
                    &&& zones@[k].current_count == zone_count(
                        old(zones)@[k].occupancy(),
                        agents@,
                        old(zones)@[k].target_mood,
                    )
                    &&& zones@[k].is_satisfied == (zones@[k].current_count
                        >= zones@[k].required_count)
                },
        decreases zones.len() - i,
    {
        let ghost zb = zones@;
        zones[i].update_zone_state(agents);
        proof {
            assert forall|k: int| 0 <= k < zones.len() && k != i implies (#[trigger] zones@[k]) == zb[k] by {}
        }
        i += 1;
    }
}

/// Whether every zone of a non-empty set is satisfied.
pub open spec fn all_satisfied(zones: Seq<GoalZone>) -> bool {
    zones.len() > 0 && forall|k: int| 0 <= k < zones.len() ==> (#[trigger] zones[k]).is_satisfied
}

/// Sets the level-complete latch the first time every zone of a non-empty
/// set is satisfied. Returns whether it fired on this call; once set, the
/// latch never clears.
pub fn check_win_condition(zones: &Vec<GoalZone>, level_won: &mut bool) -> (fired: bool)
    ensures
        fired == (all_satisfied(zones@) && !*old(level_won)),
        *final(level_won) == (*old(level_won) || fired),
        *final(level_won) == latch_after(*old(level_won), seq![zones@]),
{
    proof {
        let h = seq![zones@];
        assert(h.drop_last() =~= Seq::<Seq<GoalZone>>::empty());
        assert(latch_after(*old(level_won), h.drop_last()) == *old(level_won));
        assert(h.last() == zones@);
        assert(latch_after(*old(level_won), h) == (*old(level_won) || all_satisfied(zones@)));
    }
    if zones.len() == 0 {
        return false;
    }
    let mut i: usize = 0;
    while i < zones.len()
        invariant
            0 <= i <= zones.len(),
            forall|k: int| 0 <= k < i ==> (#[trigger] zones@[k]).is_satisfied,
            *level_won == *old(level_won),
            latch_after(*old(level_won), seq![zones@]) == (*old(level_won) || all_satisfied(
                zones@,
            )),
        decreases zones.len() - i,
    {
        if !zones[i].is_satisfied {
            proof {
                assert(!zones@[i as int].is_satisfied);
                assert(!all_satisfied(zones@));
            }
            return false;
        }
        i += 1;
    }
    if *level_won {
        false
    } else {
        *level_won = true;
        true
    }
}

/// The latch after a history of zone states, one per tick, starting from
/// `won`.
pub open spec fn latch_after(won: bool, history: Seq<Seq<GoalZone>>) -> bool
    decreases history.len(),
{
    if history.len() == 0 {
        won
    } else {
        latch_after(won, history.drop_last()) || all_satisfied(history.last())
    }
}

/// The level-complete latch is one-way: once set it stays set whatever the
/// zones do afterwards, and it is set from the first tick on which every zone
/// was satisfied.
pub proof fn lemma_latch_stays_set(won: bool, history: Seq<Seq<GoalZone>>, i: int)
    ensures
        won ==> latch_after(won, history),
        0 <= i < history.len() && all_satisfied(history[i]) ==> latch_after(won, history),
    decreases history.len(),
{
    if history.len() > 0 {
        let rest = history.drop_last();
        lemma_latch_stays_set(won, rest, i);
        if 0 <= i < history.len() - 1 {
            assert(rest[i] == history[i]);
        }
    }
}

/// The recount sees only who is inside: an agent that enters and leaves a
/// zone within one tick leaves the count as if no event had come, and an
/// entry alone raises it by one exactly when the agent is in the target mood.
pub proof fn lemma_recount_after_events(
    occ: Set<u64>,
    k: int,
    agents: Seq<AgentSnapshot>,
    ids: Seq<u64>,
    target: Mood,
    a: u64,
    z: u64,
)
    requires
        occ.finite(),
        !occ.contains(a),
        classify(a, z, agents, ids) == Some((a, k)),
    ensures
        zone_count(
            after_exits(
                after_entries(occ, k, agents, ids, seq![(a, z)]),
                k,
                agents,
                ids,
                seq![(a, z)],
            ),
            agents,
            target,
        ) == zone_count(occ, agents, target),
        zone_count(after_entries(occ, k, agents, ids, seq![(a, z)]), agents, target) == zone_count(
            occ,
            agents,
            target,
        ) + if live_mood(agents, a) == Some(target) {
            1int
        } else {
            0int
        },
{
    let ev = seq![(a, z)];
    assert(ev.drop_last() =~= Seq::<(u64, u64)>::empty());
    assert(ev.last() == (a, z));
    assert(after_entries(occ, k, agents, ids, ev.drop_last()) == occ);
    assert(after_entries(occ, k, agents, ids, ev) == occ.insert(a));
    assert(after_exits(occ.insert(a), k, agents, ids, ev.drop_last()) == occ.insert(a));
    assert(after_exits(occ.insert(a), k, agents, ids, ev) == occ.insert(a).remove(a));
    assert(occ.insert(a).remove(a) =~= occ);
    let pred = |id: u64| live_mood(agents, id) == Some(target);
    let before = matching_residents(occ, agents, target);
    let after = matching_residents(occ.insert(a), agents, target);
    assert(before.finite()) by {
        occ.lemma_len_filter(pred);
    }
    if live_mood(agents, a) == Some(target) {
        assert(after =~= before.insert(a));
        assert(!before.contains(a));
    } else {
        assert(after =~= before);
    }
}


} // verus!
