//! Orbital-motion descriptors for enemy flight: an ellipse around a pivot,
//! a phase angle, and the arithmetic that moves an entity smoothly toward
//! its current target point on the ellipse.
use vstd::prelude::*;
use vstd::arithmetic::div_mod::lemma_div_pos_is_pos;
use vstd::arithmetic::div_mod::lemma_div_is_ordered;
use vstd::arithmetic::div_mod::lemma_div_multiples_vanish;
use vstd::arithmetic::div_mod::lemma_fundamental_div_mod;
use vstd::arithmetic::div_mod::lemma_mod_bound;
use crate::geom::Vec2;
use crate::geom::mag;
use crate::geom::cos_milli;
use crate::geom::cos_milli_spec;
use crate::geom::sin_milli;
use crate::geom::sin_milli_spec;
use crate::geom::scale_milli;
use crate::geom::scale_milli_spec;
use crate::geom::lemma_scale_milli_bounds;
use crate::geom::lemma_sin_milli_bounds;
use crate::geom::isqrt_ceil;
use crate::geom::sqrt_ceil_spec;
use crate::geom::lemma_sqrt_ceil_props;
use crate::rng::rand_range;
use crate::rng::rand_ratio;
use crate::components::WinSize;
use crate::components::win_wf;
use crate::ANGLE_FULL;
use crate::ANGLE_RATE;
use crate::BASE_SPEED;
use crate::COORD_LIMIT;

verus! {

/// Orbital path of an enemy: it spawns at `start`, then circles the ellipse
/// centred at `pivot` with the given radii, its phase `angle` advancing by a
/// speed- and radius-dependent step each tick. The sign of `start.x` alone
/// fixes the direction: negative turns counter-clockwise, else clockwise.
#[derive(Clone, Copy, PartialEq, Eq, Structural, Debug)]
pub struct Formation {
    pub start: Vec2,
    pub pivot: Vec2,
    pub radius: Vec2,
    pub angle: i64,
    pub speed: i64,
}

/// Bounds every stored formation obeys: radii nonzero, phase normalized,
/// everything small enough that the orbit arithmetic stays exact.
pub open spec fn formation_wf(f: Formation) -> bool {
    &&& 1 <= f.radius.x <= 1_000_000
    &&& 1 <= f.radius.y <= 1_000_000
    &&& mag(f.pivot.x as int) <= 1_000_000
    &&& mag(f.pivot.y as int) <= 1_000_000
    &&& mag(f.start.x as int) <= 2_000_000
    &&& mag(f.start.y as int) <= 2_000_000
    &&& 0 <= f.angle < ANGLE_FULL
    &&& 1 <= f.speed <= 1_000_000
}

/// The smaller orbit radius, which paces the angular step.
pub open spec fn min_radius(f: Formation) -> int {
    if f.radius.x <= f.radius.y {
        f.radius.x as int
    } else {
        f.radius.y as int
    }
}

/// The phase one tick later: advanced by `speed * ANGLE_RATE / min_radius`
/// angle units, counter-clockwise when `start.x` is negative, else
/// clockwise, renormalized into `[0, ANGLE_FULL)`.
pub open spec fn next_angle_spec(f: Formation) -> int {
    let delta = (f.speed * ANGLE_RATE) / min_radius(f) % (ANGLE_FULL as int);
    if f.start.x < 0 {
        if f.angle + delta < ANGLE_FULL {
            f.angle + delta
        } else {
            f.angle + delta - ANGLE_FULL
        }
    } else {
        if f.angle - delta >= 0 {
            f.angle - delta
        } else {
            f.angle - delta + ANGLE_FULL
        }
    }
}

pub proof fn lemma_next_angle_in_turn(f: Formation)
    requires
        formation_wf(f),
    ensures
        0 <= next_angle_spec(f) < ANGLE_FULL,
{
    lemma_div_pos_is_pos(f.speed * ANGLE_RATE, min_radius(f));
    assert(0 <= f.speed * ANGLE_RATE) by (nonlinear_arith)
        requires 1 <= f.speed;
}

/// Advance the phase one tick.
pub fn next_angle(f: &Formation) -> (a: i64)
    requires
        formation_wf(*f),
    ensures
        a == next_angle_spec(*f),
        0 <= a < ANGLE_FULL,
{
    proof {
        lemma_next_angle_in_turn(*f);
        assert(f.speed * ANGLE_RATE <= 1_000_000 * ANGLE_RATE) by (nonlinear_arith)
            requires 1 <= f.speed <= 1_000_000;
        lemma_div_pos_is_pos(f.speed * ANGLE_RATE, min_radius(*f));
    }
    let minr = if f.radius.x <= f.radius.y { f.radius.x } else { f.radius.y };
    let delta = (f.speed * ANGLE_RATE) / minr % ANGLE_FULL;
    if f.start.x < 0 {
        if f.angle + delta < ANGLE_FULL {
            f.angle + delta
        } else {
            f.angle + delta - ANGLE_FULL
        }
    } else {
        if f.angle - delta >= 0 {
            f.angle - delta
        } else {
            f.angle - delta + ANGLE_FULL
        }
    }
}

/// Target point on the ellipse at phase `a`.
pub open spec fn target_x(f: Formation, a: int) -> int {
    f.pivot.x + scale_milli_spec(f.radius.x as int, cos_milli_spec(a))
}

pub open spec fn target_y(f: Formation, a: int) -> int {
    f.pivot.y + scale_milli_spec(f.radius.y as int, sin_milli_spec(a))
}

pub proof fn lemma_target_bounds(f: Formation, a: int)
    requires
        formation_wf(f),
        0 <= a < ANGLE_FULL,
    ensures
        mag(target_x(f, a)) <= 2_000_000,
        mag(target_y(f, a)) <= 2_000_000,
{
    lemma_sin_milli_bounds(a);
    lemma_scale_milli_bounds(f.radius.x as int, cos_milli_spec(a));
    lemma_scale_milli_bounds(f.radius.y as int, sin_milli_spec(a));
}

/// Compute the ellipse point at phase `a`.
pub fn formation_target(f: &Formation, a: i64) -> (t: Vec2)
    requires
        formation_wf(*f),
        0 <= a < ANGLE_FULL,
    ensures
        t.x == target_x(*f, a as int),
        t.y == target_y(*f, a as int),
        mag(t.x as int) <= 2_000_000,
        mag(t.y as int) <= 2_000_000,
{
    proof {
        lemma_target_bounds(*f, a as int);
    }
    let c = cos_milli(a);
    let s = sin_milli(a);
    let tx = f.pivot.x + scale_milli(f.radius.x, c);
    let ty = f.pivot.y + scale_milli(f.radius.y, s);
    Vec2 { x: tx, y: ty }
}

/// One axis of the capped step toward the target: move by the scaled share
/// of `md`, clamped so the entity never passes the target coordinate.
pub open spec fn move_coord(org: int, dst: int, dist: int, md: int) -> int {
    let d = org - dst;
    let m = mag(d) * md / dist;
    if d > 0 {
        if org - m >= dst {
            org - m
        } else {
            dst
        }
    } else {
        if org + m <= dst {
            org + m
        } else {
            dst
        }
    }
}

/// New position after one tick of orbit motion: a straight step of at most
/// `md` fine units toward `tgt`, never overshooting it on either axis.
pub open spec fn approach_x(pos: Vec2, tgt: Vec2, md: int) -> int {
    let dx = pos.x - tgt.x;
    let dy = pos.y - tgt.y;
    let dist = sqrt_ceil_spec(dx * dx + dy * dy);
    if dist == 0 {
        pos.x as int
    } else {
        move_coord(pos.x as int, tgt.x as int, dist, md)
    }
}

pub open spec fn approach_y(pos: Vec2, tgt: Vec2, md: int) -> int {
    let dx = pos.x - tgt.x;
    let dy = pos.y - tgt.y;
    let dist = sqrt_ceil_spec(dx * dx + dy * dy);
    if dist == 0 {
        pos.y as int
    } else {
        move_coord(pos.y as int, tgt.y as int, dist, md)
    }
}

/// Straight-line distance from `pos` to `tgt`, rounded up; the commit test
/// of the movement system compares it to a speed-scaled threshold.
pub open spec fn approach_dist(pos: Vec2, tgt: Vec2) -> int {
    let dx = pos.x - tgt.x;
    let dy = pos.y - tgt.y;
    sqrt_ceil_spec(dx * dx + dy * dy)
}

pub proof fn lemma_move_coord_between(org: int, dst: int, dist: int, md: int)
    requires
        0 < dist,
        0 <= md,
    ensures
        dst <= org ==> dst <= move_coord(org, dst, dist, md) <= org,
        org <= dst ==> org <= move_coord(org, dst, dist, md) <= dst,
{
    let d = org - dst;
    assert(0 <= mag(d) * md) by (nonlinear_arith)
        requires 0 <= mag(d), 0 <= md;
    lemma_div_pos_is_pos(mag(d) * md, dist);
}

/// The step stays between the old position and the target on both axes.
pub proof fn lemma_approach_between(pos: Vec2, tgt: Vec2, md: int)
    requires
        0 <= md,
    ensures
        mag(approach_x(pos, tgt, md)) <= if mag(pos.x as int) >= mag(tgt.x as int) {
            mag(pos.x as int)
        } else {
            mag(tgt.x as int)
        },
        mag(approach_y(pos, tgt, md)) <= if mag(pos.y as int) >= mag(tgt.y as int) {
            mag(pos.y as int)
        } else {
            mag(tgt.y as int)
        },
{
    let dx = pos.x - tgt.x;
    let dy = pos.y - tgt.y;
    let n = dx * dx + dy * dy;
    assert(0 <= dx * dx && 0 <= dy * dy) by (nonlinear_arith);
    lemma_sqrt_ceil_props(n);
    let dist = sqrt_ceil_spec(n);
    if dist != 0 {
        lemma_move_coord_between(pos.x as int, tgt.x as int, dist, md);
        lemma_move_coord_between(pos.y as int, tgt.y as int, dist, md);
    }
}

/// The capped step really is capped: the Euclidean distance between the
/// old and new position never exceeds `md`.
pub proof fn lemma_approach_continuous(pos: Vec2, tgt: Vec2, md: int)
    requires
        1 <= md,
    ensures
        (approach_x(pos, tgt, md) - pos.x) * (approach_x(pos, tgt, md) - pos.x) + (approach_y(
            pos,
            tgt,
            md,
        ) - pos.y) * (approach_y(pos, tgt, md) - pos.y) <= md * md,
{
    let dx = pos.x - tgt.x;
    let dy = pos.y - tgt.y;
    let n = dx * dx + dy * dy;
    assert(0 <= dx * dx && 0 <= dy * dy) by (nonlinear_arith);
    lemma_sqrt_ceil_props(n);
    let dist = sqrt_ceil_spec(n);
    let qx = approach_x(pos, tgt, md);
    let qy = approach_y(pos, tgt, md);
    if dist == 0 {
        assert(qx == pos.x && qy == pos.y);
        assert(0 <= md * md) by (nonlinear_arith)
            requires 1 <= md;
    } else {
        let ax = mag(dx as int);
        let ay = mag(dy as int);
        let mx = ax * md / dist;
        let my = ay * md / dist;
        assert(0 <= ax * md && 0 <= ay * md) by (nonlinear_arith)
            requires 0 <= ax, 0 <= ay, 1 <= md;
        lemma_div_pos_is_pos(ax * md, dist);
        lemma_div_pos_is_pos(ay * md, dist);
        lemma_fundamental_div_mod(ax * md, dist);
        lemma_fundamental_div_mod(ay * md, dist);
        lemma_mod_bound(ax * md, dist);
        lemma_mod_bound(ay * md, dist);
        assert(mx * dist <= ax * md);
        assert(my * dist <= ay * md);
        assert(-mx <= pos.x - qx <= mx);
        assert(-my <= pos.y - qy <= my);
        let ex = pos.x - qx;
        let ey = pos.y - qy;
        assert(ex * ex <= mx * mx) by (nonlinear_arith)
            requires -mx <= ex <= mx, 0 <= mx;
        assert(ey * ey <= my * my) by (nonlinear_arith)
            requires -my <= ey <= my, 0 <= my;
        assert((mx * mx) * (dist * dist) <= (ax * md) * (ax * md)) by (nonlinear_arith)
            requires 0 <= mx, 0 < dist, mx * dist <= ax * md;
        assert((my * my) * (dist * dist) <= (ay * md) * (ay * md)) by (nonlinear_arith)
            requires 0 <= my, 0 < dist, my * dist <= ay * md;
        assert((ax * md) * (ax * md) == (dx * dx) * (md * md)) by (nonlinear_arith)
            requires ax == dx || ax == -dx;
        assert((ay * md) * (ay * md) == (dy * dy) * (md * md)) by (nonlinear_arith)
            requires ay == dy || ay == -dy;
        assert((ex * ex) * (dist * dist) <= (dx * dx) * (md * md)) by (nonlinear_arith)
            requires
                ex * ex <= mx * mx,
                (mx * mx) * (dist * dist) <= (ax * md) * (ax * md),
                (ax * md) * (ax * md) == (dx * dx) * (md * md),
                0 < dist;
        assert((ey * ey) * (dist * dist) <= (dy * dy) * (md * md)) by (nonlinear_arith)
            requires
                ey * ey <= my * my,
                (my * my) * (dist * dist) <= (ay * md) * (ay * md),
                (ay * md) * (ay * md) == (dy * dy) * (md * md),
                0 < dist;
        assert((ex * ex + ey * ey) * (dist * dist) <= (dx * dx + dy * dy) * (md * md))
            by (nonlinear_arith)
            requires
                (ex * ex) * (dist * dist) <= (dx * dx) * (md * md),
                (ey * ey) * (dist * dist) <= (dy * dy) * (md * md);
        assert((dx * dx + dy * dy) * (md * md) <= (dist * dist) * (md * md)) by (nonlinear_arith)
            requires dx * dx + dy * dy <= dist * dist, 0 <= md * md;
        assert(ex * ex + ey * ey <= md * md) by (nonlinear_arith)
            requires
                (ex * ex + ey * ey) * (dist * dist) <= (dist * dist) * (md * md),
                0 < dist;
        assert((qx - pos.x) * (qx - pos.x) + (qy - pos.y) * (qy - pos.y) <= md * md)
            by (nonlinear_arith)
            requires
                ex == pos.x - qx,
                ey == pos.y - qy,
                ex * ex + ey * ey <= md * md;
    }
}

/// Take one capped step from `pos` toward `tgt`.
pub fn approach_target(pos: Vec2, tgt: Vec2, md: i64) -> (q: Vec2)
    requires
        mag(pos.x as int) <= COORD_LIMIT,
        mag(pos.y as int) <= COORD_LIMIT,
        mag(tgt.x as int) <= 2_000_000,
        mag(tgt.y as int) <= 2_000_000,
        1 <= md <= 1_000_000,
    ensures
        q.x == approach_x(pos, tgt, md as int),
        q.y == approach_y(pos, tgt, md as int),
        mag(q.x as int) <= COORD_LIMIT,
        mag(q.y as int) <= COORD_LIMIT,
{
    let dx = pos.x - tgt.x;
    let dy = pos.y - tgt.y;
    assert(dx * dx + dy * dy <= 40_000_000_000_000_000 && 0 <= dx * dx && 0 <= dy * dy)
        by (nonlinear_arith)
        requires -6_000_000 <= dx <= 6_000_000, -6_000_000 <= dy <= 6_000_000;
    let n = dx * dx + dy * dy;
    let dist = isqrt_ceil(n);
    proof {
        lemma_approach_between(pos, tgt, md as int);
    }
    if dist == 0 {
        pos
    } else {
        let ax = if dx < 0 { -dx } else { dx };
        let ay = if dy < 0 { -dy } else { dy };
        assert(0 <= ax * md <= 6_000_000_000_000 && 0 <= ay * md <= 6_000_000_000_000)
            by (nonlinear_arith)
            requires 0 <= ax <= 6_000_000, 0 <= ay <= 6_000_000, 1 <= md <= 1_000_000;
        let mx = (ax * md) / dist;
        let my = (ay * md) / dist;
        proof {
            lemma_div_pos_is_pos(ax * md, dist as int);
            lemma_div_pos_is_pos(ay * md, dist as int);
        }
        let qx = if dx > 0 {
            if pos.x - mx >= tgt.x {
                pos.x - mx
            } else {
                tgt.x
            }
        } else {
            if pos.x + mx <= tgt.x {
                pos.x + mx
            } else {
                tgt.x
            }
        };
        let qy = if dy > 0 {
            if pos.y - my >= tgt.y {
                pos.y - my
            } else {
                tgt.y
            }
        } else {
            if pos.y + my <= tgt.y {
                pos.y + my
            } else {
                tgt.y
            }
        };
        Vec2 { x: qx, y: qy }
    }
}

/// Distance from `pos` to `tgt`, rounded up.
pub fn distance_to(pos: Vec2, tgt: Vec2) -> (d: i64)
    requires
        mag(pos.x as int) <= COORD_LIMIT,
        mag(pos.y as int) <= COORD_LIMIT,
        mag(tgt.x as int) <= 2_000_000,
        mag(tgt.y as int) <= 2_000_000,
    ensures
        d == approach_dist(pos, tgt),
        0 <= d <= 200_000_000,
{
    let dx = pos.x - tgt.x;
    let dy = pos.y - tgt.y;
    assert(0 <= dx * dx <= 36_000_000_000_000 && 0 <= dy * dy <= 36_000_000_000_000)
        by (nonlinear_arith)
        requires -6_000_000 <= dx <= 6_000_000, -6_000_000 <= dy <= 6_000_000;
    isqrt_ceil(dx * dx + dy * dy)
}

/// Squared distance from the formation's spawn point to the ellipse point
/// at phase `a`; the maker starts the orbit at the nearest sampled phase.
pub open spec fn start_dist2(f: Formation, a: int) -> int {
    let dx = f.start.x - target_x(f, a);
    let dy = f.start.y - target_y(f, a);
    dx * dx + dy * dy
}

/// Pick the sampled phase whose ellipse point lies nearest the spawn point.
fn pick_angle(f: &Formation) -> (a: i64)
    requires
        formation_wf(*f),
    ensures
        0 <= a < ANGLE_FULL,
        forall|k: int| 0 <= k < 36 ==> start_dist2(*f, a as int) <= #[trigger] start_dist2(*f, 100 * k),
{
    let t0 = formation_target(f, 0);
    let dx0 = f.start.x - t0.x;
    let dy0 = f.start.y - t0.y;
    assert(0 <= dx0 * dx0 <= 16_000_000_000_000 && 0 <= dy0 * dy0 <= 16_000_000_000_000)
        by (nonlinear_arith)
        requires -4_000_000 <= dx0 <= 4_000_000, -4_000_000 <= dy0 <= 4_000_000;
    let mut best_a: i64 = 0;
    let mut best_d: i64 = dx0 * dx0 + dy0 * dy0;
    let mut k: i64 = 1;
    while k < 36
        invariant
            1 <= k <= 36,
            formation_wf(*f),
            0 <= best_a < ANGLE_FULL,
            best_d == start_dist2(*f, best_a as int),
            forall|j: int| 0 <= j < k ==> best_d <= #[trigger] start_dist2(*f, 100 * j),
        decreases 36 - k,
    {
        let t = formation_target(f, 100 * k);
        let dx = f.start.x - t.x;
        let dy = f.start.y - t.y;
        assert(0 <= dx * dx <= 16_000_000_000_000 && 0 <= dy * dy <= 16_000_000_000_000)
            by (nonlinear_arith)
            requires -4_000_000 <= dx <= 4_000_000, -4_000_000 <= dy <= 4_000_000;
        let d2 = dx * dx + dy * dy;
        if d2 < best_d {
            best_d = d2;
            best_a = 100 * k;
        }
        k = k + 1;
    }
    best_a
}

/// What the maker guarantees of a formation for a given window: the spawn
/// point sits just off the left or right edge, the pivot and radii are
/// drawn from window-proportional ranges (so the orbit stays in view with
/// margin), the pace is the global base speed, and the initial phase is the
/// sampled point of the ellipse nearest the spawn point.
pub open spec fn formation_from_window(f: Formation, w: WinSize) -> bool {
    &&& f.start.x == w.width / 2 + 6000 || f.start.x == -(w.width / 2 + 6000)
    &&& -(w.height / 2 + 6000) <= f.start.y < w.height / 2 + 6000
    &&& -(w.width / 4) <= f.pivot.x < w.width / 4
    &&& 0 <= f.pivot.y < w.height / 3 - 3000
    &&& w.width / 16 <= f.radius.x < w.width / 8
    &&& f.radius.y == w.height / 7
    &&& f.speed == BASE_SPEED
    &&& forall|k: int| 0 <= k < 36 ==> start_dist2(f, f.angle as int) <= #[trigger] start_dist2(f, 100 * k)
}

proof fn lemma_window_spans(w: int)
    requires
        10_000 <= w <= 1_000_000,
    ensures
        625 <= w / 16,
        w / 16 < w / 8 <= 125_000,
        2_500 <= w / 4 <= 250_000,
        5_000 <= w / 2 <= 500_000,
        3_333 <= w / 3 <= 333_333,
        1_428 <= w / 7 <= 142_857,
{
    lemma_div_is_ordered(10_000, w, 16);
    lemma_div_is_ordered(w, 1_000_000, 16);
    lemma_div_is_ordered(10_000, w, 8);
    lemma_div_is_ordered(w, 1_000_000, 8);
    lemma_div_is_ordered(10_000, w, 4);
    lemma_div_is_ordered(w, 1_000_000, 4);
    lemma_div_is_ordered(10_000, w, 2);
    lemma_div_is_ordered(w, 1_000_000, 2);
    lemma_div_is_ordered(10_000, w, 3);
    lemma_div_is_ordered(w, 1_000_000, 3);
    lemma_div_is_ordered(10_000, w, 7);
    lemma_div_is_ordered(w, 1_000_000, 7);
    let q = w / 16;
    lemma_fundamental_div_mod(w, 16);
    lemma_div_multiples_vanish(2 * q, 8);
    assert(8 * (2 * q) == 16 * q);
    lemma_div_is_ordered(16 * q, w, 8);
}

/// Produce a fresh orbital formation for the given window. The spawn point,
/// pivot and horizontal radius are drawn at random from the ranges that
/// `formation_from_window` records; every outcome satisfies them.
pub fn make(win: &WinSize) -> (f: Formation)
    requires
        win_wf(*win),
    ensures
        formation_wf(f),
        formation_from_window(f, *win),
{
    proof {
        lemma_window_spans(win.width as int);
        lemma_window_spans(win.height as int);
    }
    let w_span = win.width / 2 + 6000;
    let h_span = win.height / 2 + 6000;
    let x = if rand_ratio(1, 2) { w_span } else { -w_span };
    let y = rand_range(-h_span, h_span);
    let pivot_x = rand_range(-(win.width / 4), win.width / 4);
    let pivot_y = rand_range(0, win.height / 3 - 3000);
    let radius_x = rand_range(win.width / 16, win.width / 8);
    let radius_y = win.height / 7;
    let base = Formation {
        start: Vec2 { x, y },
        pivot: Vec2 { x: pivot_x, y: pivot_y },
        radius: Vec2 { x: radius_x, y: radius_y },
        angle: 0,
        speed: BASE_SPEED,
    };
    let a = pick_angle(&base);
    let res = Formation {
        start: base.start,
        pivot: base.pivot,
        radius: base.radius,
        angle: a,
        speed: base.speed,
    };
    proof {
        assert forall|k: int| 0 <= k < 36 implies start_dist2(res, res.angle as int)
            <= #[trigger] start_dist2(res, 100 * k) by {
            assert(start_dist2(res, 100 * k) == start_dist2(base, 100 * k));
            assert(start_dist2(res, res.angle as int) == start_dist2(base, a as int));
        }
    }
    res
}

} // verus!
