//! Turning an intent into motion: velocity smoothing and the force handed to
//! the physics integrator, bouncing off the play area, and screen wrap.
use vstd::prelude::*;

use crate::forces::PlayArea;
use crate::sim::MovementController;
use crate::vecmath::{div_toward_zero, isqrt, sqrt_floor, tdiv};
use crate::world::Vec2;

verus! {

/// Largest intent magnitude per axis that the integrator accepts, in
/// thousandths of a unit of speed.
pub const INTENT_BOUND: i64 = 1_000_000_000;

/// Largest top speed, acceleration or deceleration, per second.
pub const RATE_BOUND: i64 = 1_000_000_000;

/// Largest velocity magnitude per axis, in position steps per second.
pub const VELOCITY_BOUND: i64 = 1_000_000_000_000_000;

/// Gain from velocity error to force.
pub const FORCE_GAIN: i64 = 20;

/// An agent's motion is smoothed: its velocity moves towards the target at a
/// bounded rate.
#[derive(Clone, Copy, Debug, PartialEq, Eq, Structural)]
pub struct MovementSmoothing {
    /// Smoothed velocity, in position steps per second.
    pub current_velocity: Vec2,
    /// Speed gained per second while speeding up, in position steps.
    pub acceleration: i64,
    /// Speed lost per second while slowing down, in position steps.
    pub deceleration: i64,
}

/// Bounces an agent back into the play area.
#[derive(Clone, Copy, Debug, PartialEq, Eq, Structural)]
pub struct PlayAreaBounded {
    /// Share of the speed kept in a bounce, in thousandths (0..=1000).
    pub restitution: i64,
}

impl Default for MovementSmoothing {
    fn default() -> (r: MovementSmoothing)
        ensures
            r == (MovementSmoothing {
                current_velocity: Vec2 { x: 0, y: 0 },
                acceleration: 800_000,
                deceleration: 1_200_000,
            }),
    {
        MovementSmoothing {
            current_velocity: Vec2::zero(),
            acceleration: 800_000,
            deceleration: 1_200_000,
        }
    }
}

impl Default for PlayAreaBounded {
    fn default() -> (r: PlayAreaBounded)
        ensures
            r == (PlayAreaBounded { restitution: 800 }),
    {
        PlayAreaBounded { restitution: 800 }
    }
}

/// Every axis of `v` lies within `b`.
pub open spec fn within(v: Vec2, b: int) -> bool {
    -b <= v.x <= b && -b <= v.y <= b
}

pub open spec fn len_sq_of(x: int, y: int) -> int {
    x * x + y * y
}

/// The velocity an intent asks for.
pub open spec fn target_velocity(c: MovementController) -> (int, int) {
    (tdiv(c.max_speed * c.intent.x, 1000), tdiv(c.max_speed * c.intent.y, 1000))
}

/// The smoothed velocity after `delta` milliseconds: jump to the target when
/// within a hundredth of a unit of it, else move towards it by at most the
/// acceleration (when the target is faster) or deceleration (when it is not)
/// times the elapsed time.
pub open spec fn smoothed(c: MovementController, s: MovementSmoothing, delta: u64) -> (int, int) {
    let (tx, ty) = target_velocity(c);
    let dx = tx - s.current_velocity.x;
    let dy = ty - s.current_velocity.y;
    let dm = sqrt_floor(len_sq_of(dx, dy));
    if dm > 10 {
        let speeding_up = len_sq_of(tx, ty) > len_sq_of(
            s.current_velocity.x as int,
            s.current_velocity.y as int,
        );
        let rate = if speeding_up {
            s.acceleration
        } else {
            s.deceleration
        };
        let max_change = rate * delta / 1000;
        if dm <= max_change {
            (tx, ty)
        } else {
            (
                s.current_velocity.x + tdiv(dx * max_change, dm),
                s.current_velocity.y + tdiv(dy * max_change, dm),
            )
        }
    } else {
        (tx, ty)
    }
}

proof fn lemma_step_bound(d: int, m: int, dm: int)
    requires
        0 <= m < dm,
    ensures
        d >= 0 ==> 0 <= tdiv(d * m, dm) <= d,
        d < 0 ==> d <= tdiv(d * m, dm) <= 0,
{
    if d >= 0 {
        assert(0 <= (d * m) / dm <= d) by (nonlinear_arith)
            requires
                d >= 0,
                0 <= m < dm,
        ;
        assert(d * m >= 0) by (nonlinear_arith)
            requires
                d >= 0,
                m >= 0,
        ;
    } else {
        assert(0 <= (-(d * m)) / dm <= -d) by (nonlinear_arith)
            requires
                d < 0,
                0 <= m < dm,
        ;
        assert(d * m <= 0) by (nonlinear_arith)
            requires
                d < 0,
                m >= 0,
        ;
    }
}

/// Computes the force that steers an agent's velocity towards its intent.
/// With smoothing, the smoothed velocity is advanced first and the force
/// chases it; without, the force chases the target velocity directly.
pub fn apply_movement_with_smoothing(
    controller: MovementController,
    linear_velocity: Vec2,
    smoothing: Option<MovementSmoothing>,
    delta: u64,
) -> (r: (Vec2, Option<MovementSmoothing>))
    requires
        within(controller.intent, INTENT_BOUND as int),
        0 <= controller.max_speed <= RATE_BOUND,
        within(linear_velocity, VELOCITY_BOUND as int),
        smoothing matches Some(s) ==> within(s.current_velocity, VELOCITY_BOUND as int) && 0
            <= s.acceleration <= RATE_BOUND && 0 <= s.deceleration <= RATE_BOUND,
    ensures
        smoothing is None ==> r.1 is None && r.0 == (Vec2 {
            x: ((target_velocity(controller).0 - linear_velocity.x) * FORCE_GAIN) as i64,
            y: ((target_velocity(controller).1 - linear_velocity.y) * FORCE_GAIN) as i64,
        }),
        smoothing matches Some(s) ==> ({
            let (vx, vy) = smoothed(controller, s, delta);
            &&& r.1 == Some(
                MovementSmoothing { current_velocity: Vec2 { x: vx as i64, y: vy as i64 }, ..s },
            )
            &&& r.0 == (Vec2 {
                x: ((vx - linear_velocity.x) * FORCE_GAIN) as i64,
                y: ((vy - linear_velocity.y) * FORCE_GAIN) as i64,
            })
            &&& within(Vec2 { x: vx as i64, y: vy as i64 }, VELOCITY_BOUND as int)
        }),
{
    let ms = controller.max_speed as i128;
    let ix = controller.intent.x as i128;
    let iy = controller.intent.y as i128;
    assert(-1_000_000_000_000_000_000 <= ms * ix <= 1_000_000_000_000_000_000) by (nonlinear_arith)
        requires
            0 <= ms <= 1_000_000_000,
            -1_000_000_000 <= ix <= 1_000_000_000,
    ;
    assert(-1_000_000_000_000_000_000 <= ms * iy <= 1_000_000_000_000_000_000) by (nonlinear_arith)
        requires
            0 <= ms <= 1_000_000_000,
            -1_000_000_000 <= iy <= 1_000_000_000,
    ;
    let tx = div_toward_zero(ms * ix, 1000);
    let ty = div_toward_zero(ms * iy, 1000);
    proof {
        if ms * ix >= 0 {
            assert((ms * ix) as int / 1000 <= 1_000_000_000_000_000) by (nonlinear_arith)
                requires
                    0 <= ms * ix <= 1_000_000_000_000_000_000,
            ;
        } else {
            assert((-(ms * ix) as int) / 1000 <= 1_000_000_000_000_000) by (nonlinear_arith)
                requires
                    0 < -(ms * ix) <= 1_000_000_000_000_000_000,
            ;
        }
        if ms * iy >= 0 {
            assert((ms * iy) as int / 1000 <= 1_000_000_000_000_000) by (nonlinear_arith)
                requires
                    0 <= ms * iy <= 1_000_000_000_000_000_000,
            ;
        } else {
            assert((-(ms * iy) as int) / 1000 <= 1_000_000_000_000_000) by (nonlinear_arith)
                requires
                    0 < -(ms * iy) <= 1_000_000_000_000_000_000,
            ;
        }
    }
    match smoothing {
        None => {
            let fx = (tx - linear_velocity.x as i128) * 20;
            let fy = (ty - linear_velocity.y as i128) * 20;
            (Vec2 { x: fx as i64, y: fy as i64 }, None)
        },
        Some(s) => {
            let cx = s.current_velocity.x as i128;
            let cy = s.current_velocity.y as i128;
            let dx = tx - cx;
            let dy = ty - cy;
            assert(dx * dx <= 4_000_000_000_000_000_000_000_000_000_000 && dx * dx >= 0)
                by (nonlinear_arith)
                requires
                    -2_000_000_000_000_000 <= dx <= 2_000_000_000_000_000,
            ;
            assert(dy * dy <= 4_000_000_000_000_000_000_000_000_000_000 && dy * dy >= 0)
                by (nonlinear_arith)
                requires
                    -2_000_000_000_000_000 <= dy <= 2_000_000_000_000_000,
            ;
            let dm = isqrt((dx * dx + dy * dy) as u128);
            let (vx, vy) = if dm > 10 {
                assert(tx * tx >= 0 && ty * ty >= 0 && cx * cx >= 0 && cy * cy >= 0)
                    by (nonlinear_arith);
                assert(tx * tx <= 1_000_000_000_000_000_000_000_000_000_000 && ty * ty
                    <= 1_000_000_000_000_000_000_000_000_000_000 && cx * cx
                    <= 1_000_000_000_000_000_000_000_000_000_000 && cy * cy
                    <= 1_000_000_000_000_000_000_000_000_000_000) by (nonlinear_arith)
                    requires
                        -1_000_000_000_000_000 <= tx <= 1_000_000_000_000_000,
                        -1_000_000_000_000_000 <= ty <= 1_000_000_000_000_000,
                        -1_000_000_000_000_000 <= cx <= 1_000_000_000_000_000,
                        -1_000_000_000_000_000 <= cy <= 1_000_000_000_000_000,
                ;
                let speeding_up = tx * tx + ty * ty > cx * cx + cy * cy;
                let rate = if speeding_up {
                    s.acceleration
                } else {
                    s.deceleration
                };
                assert((rate as int) * (delta as int) <= 1_000_000_000 * 18_446_744_073_709_551_615)
                    by (nonlinear_arith)
                    requires
                        0 <= rate <= 1_000_000_000,
                        0 <= delta <= 18_446_744_073_709_551_615,
                ;
                assert((rate as int) * (delta as int) >= 0) by (nonlinear_arith)
                    requires
                        0 <= rate,
                        0 <= delta,
                ;
                let max_change = (rate as u128) * (delta as u128) / 1000;
                if (dm as u128) <= max_change {
                    (tx, ty)
                } else {
                    let m = max_change as i128;
                    let d = dm as i128;
                    assert(-40_000_000_000_000_000_000_000_000_000_000_000 <= dx * m
                        <= 40_000_000_000_000_000_000_000_000_000_000_000) by (nonlinear_arith)
                        requires
                            -2_000_000_000_000_000 <= dx <= 2_000_000_000_000_000,
                            0 <= m < 18_446_744_073_709_551_616,
                    ;
                    assert(-40_000_000_000_000_000_000_000_000_000_000_000 <= dy * m
                        <= 40_000_000_000_000_000_000_000_000_000_000_000) by (nonlinear_arith)
                        requires
                            -2_000_000_000_000_000 <= dy <= 2_000_000_000_000_000,
                            0 <= m < 18_446_744_073_709_551_616,
                    ;
                    let sx = div_toward_zero(dx * m, d);
                    let sy = div_toward_zero(dy * m, d);
                    proof {
                        lemma_step_bound(dx as int, m as int, d as int);
                        lemma_step_bound(dy as int, m as int, d as int);
                    }
                    (cx + sx, cy + sy)
                }
            } else {
                (tx, ty)
            };
            let fx = (vx - linear_velocity.x as i128) * 20;
            let fy = (vy - linear_velocity.y as i128) * 20;
            let v = Vec2 { x: vx as i64, y: vy as i64 };
            (Vec2 { x: fx as i64, y: fy as i64 }, Some(MovementSmoothing { current_velocity: v, ..s }))
        },
    }
}

/// Position, velocity and whether it bounced, on one axis: an agent past an
/// edge is put back on it, its speed along the axis kept at `restitution`
/// thousandths and pointed inward.
pub open spec fn bounce_axis(p: int, v: int, lo: int, hi: int, restitution: int) -> (int, int, bool) {
    let speed = if v >= 0 {
        v
    } else {
        -v
    };
    if p < lo {
        (lo, speed * restitution / 1000, true)
    } else if p > hi {
        (hi, -(speed * restitution / 1000), true)
    } else {
        (p, v, false)
    }
}

/// Keeps an agent inside the play area by bouncing it off the edges. Returns
/// the new position and velocity, whether it bounced, and the agent's
/// smoothing, whose velocity takes the new velocity after a bounce.
pub fn apply_play_area_boundaries(
    area: &PlayArea,
    position: Vec2,
    velocity: Vec2,
    smoothing: Option<MovementSmoothing>,
    bounded: &PlayAreaBounded,
) -> (r: (Vec2, Vec2, bool, Option<MovementSmoothing>))
    requires
        area.wf(),
        position.in_bounds(),
        within(velocity, VELOCITY_BOUND as int),
        0 <= bounded.restitution <= 1000,
    ensures
        ({
            let (px, vx, bx) = bounce_axis(
                position.x as int,
                velocity.x as int,
                area.min_x(),
                area.max_x(),
                bounded.restitution as int,
            );
            let (py, vy, by) = bounce_axis(
                position.y as int,
                velocity.y as int,
                area.min_y(),
                area.max_y(),
                bounded.restitution as int,
            );
            let v = Vec2 { x: vx as i64, y: vy as i64 };
            &&& r.0 == (Vec2 { x: px as i64, y: py as i64 })
            &&& r.1 == v
            &&& r.2 == (bx || by)
            &&& r.3 == (match smoothing {
                Some(s) => if bx || by {
                    Some(MovementSmoothing { current_velocity: v, ..s })
                } else {
                    Some(s)
                },
                None => None,
            })
        }),
        area.min_x() <= r.0.x <= area.max_x(),
        area.min_y() <= r.0.y <= area.max_y(),
{
    let min_x = area.center.x - area.size.x / 2;
    let max_x = area.center.x + area.size.x / 2;
    let min_y = area.center.y - area.size.y / 2;
    let max_y = area.center.y + area.size.y / 2;
    let rest = bounded.restitution;
    let sx = if velocity.x >= 0 {
        velocity.x
    } else {
        -velocity.x
    };
    let sy = if velocity.y >= 0 {
        velocity.y
    } else {
        -velocity.y
    };
    assert(0 <= sx * rest <= 1_000_000_000_000_000_000) by (nonlinear_arith)
        requires
            0 <= sx <= 1_000_000_000_000_000,
            0 <= rest <= 1000,
    ;
    assert(0 <= sy * rest <= 1_000_000_000_000_000_000) by (nonlinear_arith)
        requires
            0 <= sy <= 1_000_000_000_000_000,
            0 <= rest <= 1000,
    ;
    let mut p = position;
    let mut v = velocity;
    let mut bounced = false;
    if position.x < min_x {
        p.x = min_x;
        v.x = sx * rest / 1000;
        bounced = true;
    } else if position.x > max_x {
        p.x = max_x;
        v.x = -(sx * rest / 1000);
        bounced = true;
    }
    if position.y < min_y {
        p.y = min_y;
        v.y = sy * rest / 1000;
        bounced = true;
    } else if position.y > max_y {
        p.y = max_y;
        v.y = -(sy * rest / 1000);
        bounced = true;
    }
    let smoothing = match smoothing {
        Some(s) => if bounced {
            Some(MovementSmoothing { current_velocity: v, ..s })
        } else {
            Some(s)
        },
        None => None,
    };
    (p, v, bounced, smoothing)
}

/// `a` modulo a positive `m`, in `0..m`.
fn rem_euclid(a: i64, m: i64) -> (r: i64)
    requires
        m > 0,
    ensures
        r == a % m,
{
    if a >= 0 {
        let r = ((a as u64) % (m as u64)) as i64;
        r
    } else {
        let b = (-(a as i128) - 1) as u64;
        let q = b / (m as u64);
        let k = b % (m as u64);
        proof {
            vstd::arithmetic::div_mod::lemma_fundamental_div_mod(b as int, m as int);
            assert(b as int == (m as int) * (q as int) + (k as int));
            assert(a as int == (-(q as int) - 1) * (m as int) + ((m as int) - 1 - (k as int)))
                by (nonlinear_arith)
                requires
                    b as int == (m as int) * (q as int) + (k as int),
                    b as int == -(a as int) - 1,
            ;
            vstd::arithmetic::div_mod::lemma_fundamental_div_mod_converse(
                a as int,
                m as int,
                -(q as int) - 1,
                (m as int) - 1 - (k as int),
            );
        }
        m - 1 - k as i64
    }
}

/// Wraps a position around a window grown by 256 units, so that an agent
/// leaving one side comes back on the other.
pub fn apply_screen_wrap(window_size: Vec2, position: Vec2) -> (r: Vec2)
    requires
        0 <= window_size.x <= 1_000_000_000,
        0 <= window_size.y <= 1_000_000_000,
        position.in_bounds(),
    ensures
        r.x == (position.x + (window_size.x + 256_000) / 2) % (window_size.x + 256_000) - (
        window_size.x + 256_000) / 2,
        r.y == (position.y + (window_size.y + 256_000) / 2) % (window_size.y + 256_000) - (
        window_size.y + 256_000) / 2,
{
    let sx = window_size.x + 256_000;
    let sy = window_size.y + 256_000;
    let hx = sx / 2;
    let hy = sy / 2;
    let wx = rem_euclid(position.x + hx, sx);
    let wy = rem_euclid(position.y + hy, sy);
    Vec2 { x: wx - hx, y: wy - hy }
}

} // verus!
