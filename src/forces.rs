//! Forces added to a wandering agent's intent: flocking (cohesion towards
//! liked neighbours, separation from close ones) and boundary avoidance.
use vstd::prelude::*;

use crate::ai::{AiAction, AiConfig, AVOIDANCE_LIMIT, STRENGTH_LIMIT};
use crate::mood::{get_attraction_factor, spec_attraction, Mood};
use crate::vecmath::{
    div_toward_zero, isqrt, lemma_sqrt_exists, normalize_or_zero, spec_normalize_or_zero,
    sqrt_floor, tdiv,
};
use crate::world::{all_in_bounds, dist_sq, distance_squared, AgentSnapshot, Vec2, COORD_LIMIT, UNIT};

verus! {

/// Largest number of agents the force model accepts in one snapshot.
pub const MAX_AGENTS: usize = 1_000_000;

/// Largest intent magnitude per axis that flocking accepts.
pub const INTENT_LIMIT: i64 = 1_000_000_000_000_000_000;

/// Per-agent perception of neighbours.
#[derive(Clone, Copy, Debug, PartialEq, Eq, Structural)]
pub struct AiMagnetism {
    /// How far the agent sees others, in position steps.
    pub vision_radius: i64,
    /// Cohesion weight of this agent, in thousandths.
    pub cohesion_strength: i64,
    /// Separation weight of this agent, in thousandths.
    pub separation_strength: i64,
    /// Neighbours closer than this push the agent away, in position steps.
    pub separation_distance: i64,
}

impl AiMagnetism {
    pub open spec fn wf(&self) -> bool {
        &&& 0 <= self.vision_radius <= 4 * COORD_LIMIT
        &&& 0 <= self.separation_distance <= 4 * COORD_LIMIT
    }
}

/// The rectangular play area, by centre and full size.
#[derive(Clone, Copy, Debug, PartialEq, Eq, Structural)]
pub struct PlayArea {
    pub center: Vec2,
    pub size: Vec2,
}

impl PlayArea {
    pub open spec fn wf(&self) -> bool {
        &&& self.center.in_bounds()
        &&& 0 <= self.size.x <= 2 * COORD_LIMIT
        &&& 0 <= self.size.y <= 2 * COORD_LIMIT
    }

    pub open spec fn min_x(&self) -> int {
        self.center.x - self.size.x / 2
    }

    pub open spec fn max_x(&self) -> int {
        self.center.x + self.size.x / 2
    }

    pub open spec fn min_y(&self) -> int {
        self.center.y - self.size.y / 2
    }

    pub open spec fn max_y(&self) -> int {
        self.center.y + self.size.y / 2
    }
}

impl Default for PlayArea {
    fn default() -> (r: PlayArea)
        ensures
            r == (PlayArea { center: Vec2 { x: 0, y: 0 }, size: Vec2 { x: 800_000, y: 600_000 } }),
            r.wf(),
    {
        PlayArea { center: Vec2 { x: 0, y: 0 }, size: Vec2 { x: 800_000, y: 600_000 } }
    }
}

/// Separation push of one neighbour at squared distance `d2`, along the unit
/// direction `dir` away from it: the direction divided by the distance plus
/// a tenth of a unit.
pub open spec fn push(dir: int, d2: int) -> int {
    tdiv(dir * UNIT, sqrt_floor(d2) + 100)
}

/// Accumulated cohesion (raw, before averaging), separation, and count of
/// liked neighbours over the snapshot `all`, for agent `self_id` at `pos`.
pub open spec fn flock_sums(
    self_id: u64,
    pos: Vec2,
    mood: Mood,
    mag: AiMagnetism,
    all: Seq<AgentSnapshot>,
) -> (int, int, int, int, int)
    decreases all.len(),
{
    if all.len() == 0 {
        (0, 0, 0, 0, 0)
    } else {
        let (cx, cy, sx, sy, f) = flock_sums(self_id, pos, mood, mag, all.drop_last());
        let o = all.last();
        let d2 = dist_sq(pos, o.position);
        if o.id == self_id || d2 >= mag.vision_radius * mag.vision_radius {
            (cx, cy, sx, sy, f)
        } else {
            let fa = spec_attraction(mood, o.mood);
            let dir = spec_normalize_or_zero(
                Vec2 { x: (pos.x - o.position.x) as i64, y: (pos.y - o.position.y) as i64 },
            );
            let close = d2 < mag.separation_distance * mag.separation_distance;
            (
                cx + (o.position.x - pos.x) * fa,
                cy + (o.position.y - pos.y) * fa,
                if close {
                    sx + push(dir.x as int, d2)
                } else {
                    sx
                },
                if close {
                    sy + push(dir.y as int, d2)
                } else {
                    sy
                },
                if fa > 0 {
                    f + 1
                } else {
                    f
                },
            )
        }
    }
}

/// The flocking force, in thousandths of a unit of speed: cohesion averaged
/// over the liked neighbours, separation summed, each times its strength.
pub open spec fn magnetic_force(config: AiConfig, sums: (int, int, int, int, int)) -> (int, int) {
    let (cx, cy, sx, sy, f) = sums;
    let n = if f > 0 {
        f
    } else {
        1
    };
    (
        tdiv(cx * config.cohesion_strength, 1_000_000 * n) + tdiv(
            sx * config.separation_strength,
            1000,
        ),
        tdiv(cy * config.cohesion_strength, 1_000_000 * n) + tdiv(
            sy * config.separation_strength,
            1000,
        ),
    )
}

/// Intent after flocking: unchanged unless the agent is wandering.
pub open spec fn with_magnetism(
    config: AiConfig,
    self_id: u64,
    pos: Vec2,
    mood: Mood,
    action: AiAction,
    mag: AiMagnetism,
    all: Seq<AgentSnapshot>,
    intent: Vec2,
) -> Vec2 {
    if action != AiAction::Wandering {
        intent
    } else {
        let (fx, fy) = magnetic_force(config, flock_sums(self_id, pos, mood, mag, all));
        Vec2 { x: (intent.x + fx) as i64, y: (intent.y + fy) as i64 }
    }
}

proof fn lemma_neighbour_bounds(c: int, fa: int, dir: int, d2: int)
    requires
        -2 * COORD_LIMIT <= c <= 2 * COORD_LIMIT,
        -1000 <= fa <= 1000,
        -UNIT <= dir <= UNIT,
        d2 >= 0,
    ensures
        -2_000_000_000_000 <= c * fa <= 2_000_000_000_000,
        -10_000 <= push(dir, d2) <= 10_000,
{
    assert(-2_000_000_000_000 <= c * fa <= 2_000_000_000_000) by (nonlinear_arith)
        requires
            -2_000_000_000 <= c <= 2_000_000_000,
            -1000 <= fa <= 1000,
    ;
    let l = sqrt_floor(d2);
    lemma_sqrt_exists(d2);
    if dir >= 0 {
        assert((dir * 1000) / (l + 100) <= 10_000) by (nonlinear_arith)
            requires
                0 <= dir <= 1000,
                l >= 0,
        ;
        assert(dir * 1000 >= 0) by (nonlinear_arith)
            requires
                dir >= 0,
        ;
    } else {
        assert((-(dir * 1000)) / (l + 100) <= 10_000) by (nonlinear_arith)
            requires
                -1000 <= dir < 0,
                l >= 0,
        ;
        assert(-(dir * 1000) >= 0) by (nonlinear_arith)
            requires
                dir < 0,
        ;
    }
}

proof fn lemma_product_bound(c: int, s: int, i: int, per: int)
    requires
        -per * i <= c <= per * i,
        0 <= i <= MAX_AGENTS,
        -STRENGTH_LIMIT <= s <= STRENGTH_LIMIT,
        per >= 0,
    ensures
        -(per * 1_000_000_000_000) <= c * s <= per * 1_000_000_000_000,
{
    let a = if c >= 0 { c } else { -c };
    let b = if s >= 0 { s } else { -s };
    assert((-per) * i == -(per * i)) by (nonlinear_arith);
    assert(0 <= a <= per * i);
    assert(a * b <= per * 1_000_000_000_000) by (nonlinear_arith)
        requires
            0 <= a <= per * i,
            0 <= i <= 1_000_000,
            0 <= b <= 1_000_000,
            per >= 0,
    ;
    assert(c * s == a * b || c * s == -(a * b)) by (nonlinear_arith)
        requires
            a == c || a == -c,
            b == s || b == -s,
    ;
    assert(a * b >= 0) by (nonlinear_arith)
        requires
            a >= 0,
            b >= 0,
    ;
}

proof fn lemma_quotient_bound(a: int, b: int, d: int, bound: int)
    requires
        b >= d > 0,
        bound >= 0,
        -(bound * d) <= a <= bound * d,
    ensures
        -bound <= tdiv(a, b) <= bound,
{
    if a >= 0 {
        assert(a / b <= bound) by (nonlinear_arith)
            requires
                b >= d > 0,
                0 <= a <= bound * d,
                bound >= 0,
        ;
        assert(a / b >= 0) by (nonlinear_arith)
            requires
                b > 0,
                a >= 0,
        ;
    } else {
        assert((-a) / b <= bound) by (nonlinear_arith)
            requires
                b >= d > 0,
                0 <= -a <= bound * d,
                bound >= 0,
        ;
        assert((-a) / b >= 0) by (nonlinear_arith)
            requires
                b > 0,
                -a >= 0,
        ;
    }
}

/// Adds the flocking force to the intent of a wandering agent; any other
/// action leaves the intent as it is.
pub fn update_ai_magnetism(
    config: &AiConfig,
    self_id: u64,
    position: Vec2,
    mood: Mood,
    action: AiAction,
    magnetism: &AiMagnetism,
    all: &Vec<AgentSnapshot>,
    intent: Vec2,
) -> (r: Vec2)
    requires
        config.wf(),
        magnetism.wf(),
        position.in_bounds(),
        all_in_bounds(all@),
        action == AiAction::Wandering ==> all.len() <= MAX_AGENTS && -INTENT_LIMIT <= intent.x
            <= INTENT_LIMIT && -INTENT_LIMIT <= intent.y <= INTENT_LIMIT,
    ensures
        r == with_magnetism(*config, self_id, position, mood, action, *magnetism, all@, intent),
        action != AiAction::Wandering ==> r == intent,
        action == AiAction::Wandering ==> -4 * INTENT_LIMIT <= r.x <= 4 * INTENT_LIMIT && -4
            * INTENT_LIMIT <= r.y <= 4 * INTENT_LIMIT,
{
    if action != AiAction::Wandering {
        return intent;
    }
    let vr = magnetism.vision_radius as u128;
    let sd = magnetism.separation_distance as u128;
    assert(vr * vr <= 16_000_000_000_000_000_000) by (nonlinear_arith)
        requires
            vr <= 4_000_000_000,
    ;
    assert(sd * sd <= 16_000_000_000_000_000_000) by (nonlinear_arith)
        requires
            sd <= 4_000_000_000,
    ;
    let vr2 = vr * vr;
    let sd2 = sd * sd;
    let mut cx: i128 = 0;
    let mut cy: i128 = 0;
    let mut sx: i128 = 0;
    let mut sy: i128 = 0;
    let mut friendly: u64 = 0;
    let mut i: usize = 0;
    proof {
        assert(all@.take(0) =~= Seq::<AgentSnapshot>::empty());
    }
    while i < all.len()
        invariant
            0 <= i <= all.len(),
            all.len() <= MAX_AGENTS,
            all_in_bounds(all@),
            position.in_bounds(),
            magnetism.wf(),
            vr2 == magnetism.vision_radius * magnetism.vision_radius,
            sd2 == magnetism.separation_distance * magnetism.separation_distance,
            (cx as int, cy as int, sx as int, sy as int, friendly as int) == flock_sums(
                self_id,
                position,
                mood,
                *magnetism,
                all@.take(i as int),
            ),
            -2_000_000_000_000 * i <= cx <= 2_000_000_000_000 * i,
            -2_000_000_000_000 * i <= cy <= 2_000_000_000_000 * i,
            -10_000 * i <= sx <= 10_000 * i,
            -10_000 * i <= sy <= 10_000 * i,
            friendly <= i,
        decreases all.len() - i,
    {
        let o = all[i];
        proof {
            assert(all@.take(i + 1).drop_last() =~= all@.take(i as int));
            assert(all@.take(i + 1).last() == o);
            assert(all@[i as int].position.in_bounds());
        }
        let d2 = distance_squared(position, o.position);
        if o.id != self_id && (d2 as u128) < vr2 {
            let fa = get_attraction_factor(mood, o.mood);
            let dxo = (o.position.x - position.x) as i128;
            let dyo = (o.position.y - position.y) as i128;
            let dir = normalize_or_zero(
                Vec2 { x: position.x - o.position.x, y: position.y - o.position.y },
            );
            proof {
                lemma_neighbour_bounds(dxo as int, fa as int, dir.x as int, d2 as int);
                lemma_neighbour_bounds(dyo as int, fa as int, dir.y as int, d2 as int);
            }
            cx = cx + dxo * (fa as i128);
            cy = cy + dyo * (fa as i128);
            if (d2 as u128) < sd2 {
                let l = isqrt(d2 as u128) as i128;
                let px = div_toward_zero(dir.x as i128 * 1000, l + 100);
                let py = div_toward_zero(dir.y as i128 * 1000, l + 100);
                sx = sx + px;
                sy = sy + py;
            }
            if fa > 0 {
                friendly = friendly + 1;
            }
        }
        i += 1;
    }
    proof {
        assert(all@.take(i as int) =~= all@);
    }
    let n: i128 = if friendly > 0 {
        friendly as i128
    } else {
        1
    };
    let cs = config.cohesion_strength as i128;
    let ss = config.separation_strength as i128;
    proof {
        lemma_product_bound(cx as int, cs as int, i as int, 2_000_000_000_000);
        lemma_product_bound(cy as int, cs as int, i as int, 2_000_000_000_000);
        lemma_product_bound(sx as int, ss as int, i as int, 10_000);
        lemma_product_bound(sy as int, ss as int, i as int, 10_000);
    }
    let qx = div_toward_zero(cx * cs, 1_000_000 * n);
    let qy = div_toward_zero(cy * cs, 1_000_000 * n);
    let px = div_toward_zero(sx * ss, 1000);
    let py = div_toward_zero(sy * ss, 1000);
    proof {
        lemma_quotient_bound(
            (cx * cs) as int,
            1_000_000 * n as int,
            1_000_000,
            2_000_000_000_000_000_000,
        );
        lemma_quotient_bound(
            (cy * cs) as int,
            1_000_000 * n as int,
            1_000_000,
            2_000_000_000_000_000_000,
        );
        lemma_quotient_bound((sx * ss) as int, 1000, 1000, 10_000_000_000_000_000);
        lemma_quotient_bound((sy * ss) as int, 1000, 1000, 10_000_000_000_000_000);
    }
    let fx = qx + px;
    let fy = qy + py;
    Vec2 { x: (intent.x as i128 + fx) as i64, y: (intent.y as i128 + fy) as i64 }
}

/// Avoidance force on one axis: inward at full strength within `margin` of
/// either edge, the upper edge winning when both apply.
pub open spec fn axis_avoidance(p: int, lo: int, hi: int, margin: int, strength: int) -> int {
    if p > hi - margin {
        -strength
    } else if p < lo + margin {
        strength
    } else {
        0
    }
}

/// Intent after boundary avoidance: unchanged unless the agent is wandering.
pub open spec fn with_avoidance(
    area: PlayArea,
    config: AiConfig,
    pos: Vec2,
    action: AiAction,
    intent: Vec2,
) -> Vec2 {
    if action != AiAction::Wandering {
        intent
    } else {
        let m = config.avoidance_margin as int;
        let st = config.avoidance_strength as int;
        Vec2 {
            x: (intent.x + axis_avoidance(pos.x as int, area.min_x(), area.max_x(), m, st)) as i64,
            y: (intent.y + axis_avoidance(pos.y as int, area.min_y(), area.max_y(), m, st)) as i64,
        }
    }
}

/// Largest intent magnitude per axis that boundary avoidance accepts.
pub open spec fn avoidance_input_ok(v: Vec2) -> bool {
    -(i64::MAX - AVOIDANCE_LIMIT) <= v.x <= i64::MAX - AVOIDANCE_LIMIT && -(i64::MAX
        - AVOIDANCE_LIMIT) <= v.y <= i64::MAX - AVOIDANCE_LIMIT
}

/// Adds a fixed inward force on each axis along which a wandering agent is
/// within the avoidance margin of an edge of the play area; any other action
/// leaves the intent as it is.
pub fn update_ai_boundary_avoidance(
    area: &PlayArea,
    config: &AiConfig,
    position: Vec2,
    action: AiAction,
    intent: Vec2,
) -> (r: Vec2)
    requires
        area.wf(),
        config.wf(),
        position.in_bounds(),
        action == AiAction::Wandering ==> avoidance_input_ok(intent),
    ensures
        r == with_avoidance(*area, *config, position, action, intent),
        action != AiAction::Wandering ==> r == intent,
{
    if action != AiAction::Wandering {
        return intent;
    }
    let min_x = area.center.x - area.size.x / 2;
    let max_x = area.center.x + area.size.x / 2;
    let min_y = area.center.y - area.size.y / 2;
    let max_y = area.center.y + area.size.y / 2;
    let m = config.avoidance_margin;
    let st = config.avoidance_strength;
    let mut fx: i64 = 0;
    let mut fy: i64 = 0;
    if position.x < min_x + m {
        fx = st;
    }
    if position.x > max_x - m {
        fx = -st;
    }
    if position.y < min_y + m {
        fy = st;
    }
    if position.y > max_y - m {
        fy = -st;
    }
    Vec2 { x: intent.x + fx, y: intent.y + fy }
}

/// Flocking and boundary avoidance leave the intent of an agent that is
/// aiming or charging exactly as the action state machine set it.
pub proof fn lemma_forces_only_move_wanderers(
    config: AiConfig,
    area: PlayArea,
    self_id: u64,
    pos: Vec2,
    mood: Mood,
    action: AiAction,
    mag: AiMagnetism,
    all: Seq<AgentSnapshot>,
    intent: Vec2,
)
    requires
        action != AiAction::Wandering,
    ensures
        with_avoidance(
            area,
            config,
            pos,
            action,
            with_magnetism(config, self_id, pos, mood, action, mag, all, intent),
        ) == intent,
{
}

} // verus!
