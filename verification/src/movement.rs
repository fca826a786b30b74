//! The movement resolver: one velocity-clamped seek-to-target step per
//! tick, rejected outright if it would leave the world rectangle.
use vstd::prelude::*;

use crate::config::{PLAYER_SPEED, TOLERANCE, X_BOUNDS, Y_BOUNDS};
use crate::geom::{abs, abs_i64, isqrt, sqrt_floor, Vec2i};
use vstd::arithmetic::div_mod::{lemma_div_by_multiple, lemma_div_is_ordered};
use vstd::arithmetic::mul::lemma_mul_inequality;

verus! {

/// The displacement a seek step takes from `pos` toward `target`:
/// nothing within the tolerance; otherwise `min(distance, speed)`
/// along the integer-normalized direction, each axis rounded toward
/// zero.
pub open spec fn seek_delta(pos: Vec2i, target: Vec2i) -> (int, int) {
    let dx = target.x - pos.x;
    let dy = target.y - pos.y;
    let d2 = dx * dx + dy * dy;
    if d2 <= TOLERANCE * TOLERANCE {
        (0, 0)
    } else {
        let len = sqrt_floor(d2 as nat) as int;
        let step = if len < PLAYER_SPEED {
            len
        } else {
            PLAYER_SPEED as int
        };
        let mx = abs(dx) * step / len;
        let my = abs(dy) * step / len;
        (if dx < 0 {
            -mx
        } else {
            mx
        }, if dy < 0 {
            -my
        } else {
            my
        })
    }
}

/// Where a player standing at `pos` ends up after one seek step: the
/// stepped point if it stays inside the world, otherwise `pos` itself.
pub open spec fn step_pos(pos: Vec2i, target: Vec2i) -> (int, int) {
    let (mx, my) = seek_delta(pos, target);
    let nx = pos.x + mx;
    let ny = pos.y + my;
    if -X_BOUNDS <= nx <= X_BOUNDS && -Y_BOUNDS <= ny <= Y_BOUNDS {
        (nx, ny)
    } else {
        (pos.x as int, pos.y as int)
    }
}

/// Compute the seek displacement for one tick.
pub fn calculate_movement(pos: Vec2i, target: Vec2i) -> (m: Vec2i)
    requires
        pos.in_bounds(),
        target.in_bounds(),
    ensures
        (m.x as int, m.y as int) == seek_delta(pos, target),
        abs(m.x as int) <= abs(target.x - pos.x),
        abs(m.y as int) <= abs(target.y - pos.y),
{
    let dx = target.x - pos.x;
    let dy = target.y - pos.y;
    proof {
        assert(0 <= dx * dx <= 2000 * 2000) by (nonlinear_arith)
            requires
                -2000 <= dx <= 2000,
        ;
        assert(0 <= dy * dy <= 1000 * 1000) by (nonlinear_arith)
            requires
                -1000 <= dy <= 1000,
        ;
    }
    let d2 = dx * dx + dy * dy;
    if d2 <= TOLERANCE * TOLERANCE {
        Vec2i::new(0, 0)
    } else {
        let len = isqrt(d2);
        proof {
            assert(len >= 1) by (nonlinear_arith)
                requires
                    36 < d2,
                    d2 < (len + 1) * (len + 1),
                    0 <= len,
            ;
        }
        let step = if len < PLAYER_SPEED {
            len
        } else {
            PLAYER_SPEED
        };
        let adx = abs_i64(dx);
        let ady = abs_i64(dy);
        proof {
            assert(adx * step <= 10000 && ady * step <= 10000) by (nonlinear_arith)
                requires
                    0 <= adx <= 2000,
                    0 <= ady <= 2000,
                    0 <= step <= 5,
            ;
            lemma_mul_inequality(step as int, len as int, adx as int);
            lemma_mul_inequality(step as int, len as int, ady as int);
            assert(adx * step <= adx * len);
            assert(ady * step <= ady * len);
            lemma_div_is_ordered(adx * step, adx * len, len as int);
            lemma_div_is_ordered(ady * step, ady * len, len as int);
            lemma_div_by_multiple(adx as int, len as int);
            lemma_div_by_multiple(ady as int, len as int);
        }
        let mxa = ((adx as u64 * step as u64) / (len as u64)) as i64;
        let mya = ((ady as u64 * step as u64) / (len as u64)) as i64;
        let mx = if dx < 0 {
            -mxa
        } else {
            mxa
        };
        let my = if dy < 0 {
            -mya
        } else {
            mya
        };
        Vec2i::new(mx, my)
    }
}

/// Advance `pos` one seek step toward `target`, rejecting any step
/// that would put either axis outside the world bounds.
pub fn apply_seek(pos: Vec2i, target: Vec2i) -> (p2: Vec2i)
    requires
        pos.in_bounds(),
        target.in_bounds(),
    ensures
        (p2.x as int, p2.y as int) == step_pos(pos, target),
        p2.in_bounds(),
{
    let m = calculate_movement(pos, target);
    let nx = pos.x + m.x;
    let ny = pos.y + m.y;
    if abs_i64(nx) <= X_BOUNDS && abs_i64(ny) <= Y_BOUNDS {
        Vec2i::new(nx, ny)
    } else {
        pos
    }
}

} // verus!
