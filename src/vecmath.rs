//! Integer vector arithmetic: square roots, truncating division and
//! normalisation to fixed-point unit length.
use vstd::prelude::*;

use crate::world::{Vec2, COORD_LIMIT, UNIT};

verus! {

/// `r` is the integer square root of `n`.
pub open spec fn is_sqrt_floor(n: int, r: int) -> bool {
    r >= 0 && r * r <= n < (r + 1) * (r + 1)
}

/// The integer square root of a non-negative `n`.
pub open spec fn sqrt_floor(n: int) -> int {
    choose|r: int| is_sqrt_floor(n, r)
}

/// Division that rounds towards zero, as integer division of the machine does.
pub open spec fn tdiv(a: int, b: int) -> int {
    if a >= 0 {
        a / b
    } else {
        -((-a) / b)
    }
}

/// Largest magnitude of a vector that may be normalised: the difference of two
/// in-bounds positions.
pub open spec fn small_vec(v: Vec2) -> bool {
    -2 * COORD_LIMIT <= v.x <= 2 * COORD_LIMIT && -2 * COORD_LIMIT <= v.y <= 2 * COORD_LIMIT
}

/// Squared length of a vector.
pub open spec fn len_sq(v: Vec2) -> int {
    v.x * v.x + v.y * v.y
}

/// The length of `v` in thousandths of a step, rounded down.
pub open spec fn fine_len(v: Vec2) -> int {
    sqrt_floor(len_sq(v) * 1_000_000)
}

/// `v` scaled to length `UNIT` (its length measured in thousandths of a step,
/// each axis rounded towards zero), or zero.
pub open spec fn spec_normalize_or_zero(v: Vec2) -> Vec2 {
    let l = fine_len(v);
    if l == 0 {
        Vec2 { x: 0, y: 0 }
    } else {
        Vec2 { x: tdiv(v.x * 1_000_000, l) as i64, y: tdiv(v.y * 1_000_000, l) as i64 }
    }
}

/// `v` with each axis multiplied by `num / den`, rounded towards zero.
pub open spec fn spec_scale(v: Vec2, num: int, den: int) -> Vec2 {
    Vec2 { x: tdiv(v.x * num, den) as i64, y: tdiv(v.y * num, den) as i64 }
}

/// A number has at most one integer square root.
pub proof fn lemma_sqrt_unique(n: int, r1: int, r2: int)
    requires
        is_sqrt_floor(n, r1),
        is_sqrt_floor(n, r2),
    ensures
        r1 == r2,
{
    if r1 < r2 {
        assert((r1 + 1) * (r1 + 1) <= r2 * r2) by (nonlinear_arith)
            requires
                0 <= r1 + 1 <= r2,
        ;
    } else if r2 < r1 {
        assert((r2 + 1) * (r2 + 1) <= r1 * r1) by (nonlinear_arith)
            requires
                0 <= r2 + 1 <= r1,
        ;
    }
}

/// Every non-negative number has an integer square root.
pub proof fn lemma_sqrt_exists(n: int)
    requires
        n >= 0,
    ensures
        is_sqrt_floor(n, sqrt_floor(n)),
{
    lemma_sqrt_exists_from(n, 0);
}

proof fn lemma_sqrt_exists_from(n: int, r: int)
    requires
        n >= 0,
        r >= 0,
        r * r <= n,
    ensures
        is_sqrt_floor(n, sqrt_floor(n)),
    decreases n - r,
{
    if (r + 1) * (r + 1) > n {
        assert(is_sqrt_floor(n, r));
    } else {
        assert(r + 1 <= n) by (nonlinear_arith)
            requires
                (r + 1) * (r + 1) <= n,
                r >= 0,
        ;
        lemma_sqrt_exists_from(n, r + 1);
    }
}

/// The integer square root, by bisection.
pub fn isqrt(n: u128) -> (r: u128)
    ensures
        is_sqrt_floor(n as int, r as int),
        r as int == sqrt_floor(n as int),
        r <= u64::MAX,
{
    let mut lo: u128 = 0;
    let mut hi: u128 = 0x1_0000_0000_0000_0000;
    while hi - lo > 1
        invariant
            lo < hi <= 0x1_0000_0000_0000_0000,
            lo * lo <= n,
            hi * hi > n,
        decreases hi - lo,
    {
        let mid = lo + (hi - lo) / 2;
        assert(mid * mid < 0x1_0000_0000_0000_0000 * 0x1_0000_0000_0000_0000) by (nonlinear_arith)
            requires
                0 <= mid < 0x1_0000_0000_0000_0000,
        ;
        if mid * mid <= n {
            lo = mid;
        } else {
            hi = mid;
        }
    }
    assert(is_sqrt_floor(n as int, lo as int));
    proof {
        let s = sqrt_floor(n as int);
        assert(is_sqrt_floor(n as int, s));
        lemma_sqrt_unique(n as int, s, lo as int);
    }
    lo
}

/// Division rounding towards zero of a value by a positive divisor.
pub fn div_toward_zero(a: i128, b: i128) -> (r: i128)
    requires
        b > 0,
        a > i128::MIN,
    ensures
        r == tdiv(a as int, b as int),
        a >= 0 ==> 0 <= r <= a,
        a < 0 ==> a <= r <= 0,
{
    if a >= 0 {
        let q = ((a as u128) / (b as u128)) as i128;
        assert(q <= a) by (nonlinear_arith)
            requires
                q == (a as int) / (b as int),
                a >= 0,
                b > 0,
        ;
        q
    } else {
        let q = (((-a) as u128) / (b as u128)) as i128;
        assert(q <= -a) by (nonlinear_arith)
            requires
                q == (-(a as int)) / (b as int),
                -a > 0,
                b > 0,
        ;
        -q
    }
}

proof fn lemma_component_bound(c: int, l: int)
    requires
        l >= 1,
        c * c < (l + 1) * (l + 1),
    ensures
        -l <= c <= l,
{
    if c > l {
        assert(c * c >= (l + 1) * (l + 1)) by (nonlinear_arith)
            requires
                c >= l + 1,
                l >= 1,
        ;
    }
    if c < -l {
        assert(c * c >= (l + 1) * (l + 1)) by (nonlinear_arith)
            requires
                c <= -(l + 1),
                l >= 1,
        ;
    }
}

proof fn lemma_unit_component(c: int, l: int, q: int)
    requires
        l >= 1,
        -l <= c * 1000 <= l,
        q == tdiv(c * 1_000_000, l),
    ensures
        -UNIT <= q <= UNIT,
{
    if c >= 0 {
        assert(c * 1_000_000 / l <= 1000) by (nonlinear_arith)
            requires
                0 <= c * 1000 <= l,
                l >= 1,
        ;
        assert(c * 1_000_000 >= 0) by (nonlinear_arith)
            requires
                c >= 0,
        ;
    } else {
        assert((-(c * 1_000_000)) / l <= 1000) by (nonlinear_arith)
            requires
                -l <= c * 1000 < 0,
                l >= 1,
        ;
        assert(-(c * 1_000_000) >= 0) by (nonlinear_arith)
            requires
                c < 0,
        ;
    }
}

/// The longer axis of a vector whose fine length is `l` does not round to
/// zero.
proof fn lemma_long_axis(c: int, l: int)
    requires
        l >= 1,
        2 * (c * c) * 1_000_000 >= l * l,
    ensures
        tdiv(c * 1_000_000, l) != 0,
{
    let a = if c >= 0 { c } else { -c };
    assert(a * a == c * c) by (nonlinear_arith)
        requires
            a == c || a == -c,
    ;
    assert(a >= 1) by (nonlinear_arith)
        requires
            2 * (a * a) * 1_000_000 >= l * l,
            l >= 1,
            a >= 0,
    ;
    assert(a * 1_000_000 >= l) by (nonlinear_arith)
        requires
            2 * (a * a) * 1_000_000 >= l * l,
            l >= 1,
            a >= 1,
    ;
    assert((a * 1_000_000) / l >= 1) by (nonlinear_arith)
        requires
            a * 1_000_000 >= l,
            l >= 1,
    ;
    if c < 0 {
        assert(-(c * 1_000_000) == a * 1_000_000);
    }
}

/// `v` scaled to length `UNIT`, or the zero vector when `v` is zero.
pub fn normalize_or_zero(v: Vec2) -> (r: Vec2)
    requires
        small_vec(v),
    ensures
        r == spec_normalize_or_zero(v),
        -UNIT <= r.x <= UNIT,
        -UNIT <= r.y <= UNIT,
        v == Vec2::zero_spec() <==> r == Vec2::zero_spec(),
{
    let x = v.x as i128;
    let y = v.y as i128;
    assert(x * x <= 4_000_000_000_000_000_000 && x * x >= 0) by (nonlinear_arith)
        requires
            -2_000_000_000 <= x <= 2_000_000_000,
    ;
    assert(y * y <= 4_000_000_000_000_000_000 && y * y >= 0) by (nonlinear_arith)
        requires
            -2_000_000_000 <= y <= 2_000_000_000,
    ;
    let n = ((x * x + y * y) as u128) * 1_000_000;
    assert(n as int == len_sq(v) * 1_000_000);
    let l = isqrt(n);
    if l == 0 {
        proof {
            assert(is_sqrt_floor(n as int, 0));
            assert(n == 0) by (nonlinear_arith)
                requires
                    is_sqrt_floor(n as int, 0),
            ;
            assert(x * x + y * y == 0);
            assert(x == 0 && y == 0) by (nonlinear_arith)
                requires
                    x * x + y * y == 0,
            ;
        }
        Vec2::zero()
    } else {
        let li = l as i128;
        proof {
            assert((x * 1000) * (x * 1000) == x * x * 1_000_000) by (nonlinear_arith);
            assert((y * 1000) * (y * 1000) == y * y * 1_000_000) by (nonlinear_arith);
            assert((x * 1000) * (x * 1000) < (li + 1) * (li + 1));
            assert((y * 1000) * (y * 1000) < (li + 1) * (li + 1));
            lemma_component_bound(x * 1000, li as int);
            lemma_component_bound(y * 1000, li as int);
        }
        let qx = div_toward_zero(x * 1_000_000, li);
        let qy = div_toward_zero(y * 1_000_000, li);
        proof {
            lemma_unit_component(x as int, li as int, qx as int);
            lemma_unit_component(y as int, li as int, qy as int);
            assert((li as int) * (li as int) <= (x * x + y * y) * 1_000_000);
            if x * x >= y * y {
                lemma_long_axis(x as int, li as int);
                assert(qx != 0);
            } else {
                lemma_long_axis(y as int, li as int);
                assert(qy != 0);
            }
            assert(v != Vec2::zero_spec());
        }
        let r = Vec2 { x: qx as i64, y: qy as i64 };
        assert(r.x == qx && r.y == qy);
        assert(r != Vec2::zero_spec());
        r
    }
}

/// Multiplying by at most one and rounding towards zero never moves a value
/// away from zero.
proof fn lemma_shrink(c: int, num: int, den: int)
    requires
        0 <= num <= den,
        den > 0,
    ensures
        c >= 0 ==> 0 <= tdiv(c * num, den) <= c,
        c < 0 ==> c <= tdiv(c * num, den) <= 0,
{
    if c >= 0 {
        assert(0 <= c * num <= c * den) by (nonlinear_arith)
            requires
                c >= 0,
                0 <= num <= den,
        ;
        assert((c * num) / den <= c) by (nonlinear_arith)
            requires
                0 <= c * num <= c * den,
                den > 0,
        ;
        assert((c * num) / den >= 0) by (nonlinear_arith)
            requires
                c * num >= 0,
                den > 0,
        ;
    } else {
        assert(0 <= -(c * num) <= (-c) * den) by (nonlinear_arith)
            requires
                c < 0,
                0 <= num <= den,
        ;
        assert((-(c * num)) / den <= -c) by (nonlinear_arith)
            requires
                0 <= -(c * num) <= (-c) * den,
                den > 0,
        ;
        assert((-(c * num)) / den >= 0) by (nonlinear_arith)
            requires
                -(c * num) >= 0,
                den > 0,
        ;
    }
}

/// `v` with each axis multiplied by `num / den`, rounded towards zero; no
/// axis moves away from zero.
pub fn scale(v: Vec2, num: i64, den: i64) -> (r: Vec2)
    requires
        small_vec(v),
        0 <= num <= den,
        den > 0,
    ensures
        r == spec_scale(v, num as int, den as int),
        v.x >= 0 ==> 0 <= r.x <= v.x,
        v.x < 0 ==> v.x <= r.x <= 0,
        v.y >= 0 ==> 0 <= r.y <= v.y,
        v.y < 0 ==> v.y <= r.y <= 0,
{
    assert(-20_000_000_000_000_000_000_000_000_000 <= (v.x as int) * (num as int)
        <= 20_000_000_000_000_000_000_000_000_000) by (nonlinear_arith)
        requires
            -2_000_000_000 <= v.x <= 2_000_000_000,
            0 <= num <= 9_223_372_036_854_775_807,
    ;
    assert(-20_000_000_000_000_000_000_000_000_000 <= (v.y as int) * (num as int)
        <= 20_000_000_000_000_000_000_000_000_000) by (nonlinear_arith)
        requires
            -2_000_000_000 <= v.y <= 2_000_000_000,
            0 <= num <= 9_223_372_036_854_775_807,
    ;
    let x = v.x as i128 * num as i128;
    let y = v.y as i128 * num as i128;
    let qx = div_toward_zero(x, den as i128);
    let qy = div_toward_zero(y, den as i128);
    proof {
        lemma_shrink(v.x as int, num as int, den as int);
        lemma_shrink(v.y as int, num as int, den as int);
    }
    Vec2 { x: qx as i64, y: qy as i64 }
}

proof fn lemma_floor_div_bracket(a: int, l: int) -> (q: int)
    requires
        a >= 0,
        l >= 1,
    ensures
        q == a / l,
        q >= 0,
        q * l <= a < (q + 1) * l,
{
    let q = a / l;
    vstd::arithmetic::div_mod::lemma_fundamental_div_mod(a, l);
    assert(0 <= a % l < l) by {
        vstd::arithmetic::div_mod::lemma_mod_bound(a, l);
    }
    assert(q >= 0) by (nonlinear_arith)
        requires
            a >= 0,
            l >= 1,
            q == a / l,
    ;
    assert(q * l <= a < (q + 1) * l) by (nonlinear_arith)
        requires
            a == l * q + a % l,
            0 <= a % l < l,
    ;
    q
}

/// A normalised non-zero vector has unit length up to rounding: its squared
/// length is below `(UNIT + 1)^2`, and adding one step to each axis's
/// magnitude brings it above `UNIT^2`.
pub proof fn lemma_normalized_is_unit(v: Vec2)
    requires
        small_vec(v),
        v != Vec2::zero_spec(),
    ensures
        ({
            let r = spec_normalize_or_zero(v);
            let ax: int = if r.x >= 0 { r.x as int } else { -r.x };
            let ay: int = if r.y >= 0 { r.y as int } else { -r.y };
            &&& ax * ax + ay * ay < (UNIT + 1) * (UNIT + 1)
            &&& (ax + 1) * (ax + 1) + (ay + 1) * (ay + 1) > UNIT * UNIT
        }),
{
    let n = len_sq(v);
    let x = v.x as int;
    let y = v.y as int;
    assert(x * x >= 0 && y * y >= 0) by (nonlinear_arith);
    assert(n >= 1) by (nonlinear_arith)
        requires
            n == x * x + y * y,
            x != 0 || y != 0,
    ;
    lemma_sqrt_exists(n * 1_000_000);
    let l = fine_len(v);
    assert(l * l <= n * 1_000_000 < (l + 1) * (l + 1));
    assert(l >= 1000) by (nonlinear_arith)
        requires
            n >= 1,
            n * 1_000_000 < (l + 1) * (l + 1),
            l >= 0,
    ;
    let bx: int = if x >= 0 { x } else { -x };
    let by: int = if y >= 0 { y } else { -y };
    assert(bx * bx == x * x && by * by == y * y) by (nonlinear_arith)
        requires
            bx == x || bx == -x,
            by == y || by == -y,
    ;
    assert(bx * 1_000_000 >= 0 && by * 1_000_000 >= 0);
    let qx = lemma_floor_div_bracket(bx * 1_000_000, l);
    let qy = lemma_floor_div_bracket(by * 1_000_000, l);
    let r = spec_normalize_or_zero(v);
    assert(tdiv(x * 1_000_000, l) == if x >= 0 { qx } else { -qx });
    assert(tdiv(y * 1_000_000, l) == if y >= 0 { qy } else { -qy });
    let ax: int = if r.x >= 0 { r.x as int } else { -r.x };
    let ay: int = if r.y >= 0 { r.y as int } else { -r.y };
    assert(ax == qx && ay == qy);
    assert(qx * qx * (l * l) <= bx * bx * 1_000_000_000_000) by (nonlinear_arith)
        requires
            0 <= qx * l <= bx * 1_000_000,
            qx >= 0,
            l >= 1,
    ;
    assert(qy * qy * (l * l) <= by * by * 1_000_000_000_000) by (nonlinear_arith)
        requires
            0 <= qy * l <= by * 1_000_000,
            qy >= 0,
            l >= 1,
    ;
    assert(bx * bx * 1_000_000_000_000 < (qx + 1) * (qx + 1) * (l * l)) by (nonlinear_arith)
        requires
            0 <= bx * 1_000_000 < (qx + 1) * l,
            qx >= 0,
            l >= 1,
    ;
    assert(by * by * 1_000_000_000_000 < (qy + 1) * (qy + 1) * (l * l)) by (nonlinear_arith)
        requires
            0 <= by * 1_000_000 < (qy + 1) * l,
            qy >= 0,
            l >= 1,
    ;
    assert((qx * qx + qy * qy) * (l * l) < 1_002_001 * (l * l)) by (nonlinear_arith)
        requires
            qx * qx * (l * l) <= bx * bx * 1_000_000_000_000,
            qy * qy * (l * l) <= by * by * 1_000_000_000_000,
            bx * bx + by * by == n,
            n * 1_000_000 < (l + 1) * (l + 1),
            l >= 1000,
    ;
    assert(qx * qx + qy * qy < 1_002_001) by (nonlinear_arith)
        requires
            (qx * qx + qy * qy) * (l * l) < 1_002_001 * (l * l),
            l >= 1,
    ;
    assert(((qx + 1) * (qx + 1) + (qy + 1) * (qy + 1)) * (l * l) > 1_000_000 * (l * l))
        by (nonlinear_arith)
        requires
            bx * bx * 1_000_000_000_000 < (qx + 1) * (qx + 1) * (l * l),
            by * by * 1_000_000_000_000 < (qy + 1) * (qy + 1) * (l * l),
            bx * bx + by * by == n,
            l * l <= n * 1_000_000,
    ;
    assert((qx + 1) * (qx + 1) + (qy + 1) * (qy + 1) > 1_000_000) by (nonlinear_arith)
        requires
            ((qx + 1) * (qx + 1) + (qy + 1) * (qy + 1)) * (l * l) > 1_000_000 * (l * l),
            l >= 1,
    ;
}

} // verus!
