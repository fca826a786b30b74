//! Whole-unit plane geometry: points, world bounds, absolute value and
//! integer square roots, which the movement resolver builds on.
use vstd::prelude::*;

use crate::config::{X_BOUNDS, Y_BOUNDS};

verus! {

/// A 2D point or displacement with whole-unit coordinates.
#[derive(Clone, Copy, PartialEq, Eq, Structural, Debug)]
pub struct Vec2i {
    pub x: i64,
    pub y: i64,
}

impl Vec2i {
    pub fn new(x: i64, y: i64) -> (v: Vec2i)
        ensures
            v.x == x,
            v.y == y,
    {
        Vec2i { x, y }
    }

    /// Both coordinates lie within the world rectangle.
    pub open spec fn in_bounds(self) -> bool {
        -X_BOUNDS <= self.x <= X_BOUNDS && -Y_BOUNDS <= self.y <= Y_BOUNDS
    }
}

/// A point moved to the nearest point of the world rectangle.
pub open spec fn clamp_spec(v: Vec2i) -> Vec2i {
    Vec2i {
        x: if v.x < (-X_BOUNDS) as i64 {
            (-X_BOUNDS) as i64
        } else if v.x > X_BOUNDS {
            X_BOUNDS
        } else {
            v.x
        },
        y: if v.y < (-Y_BOUNDS) as i64 {
            (-Y_BOUNDS) as i64
        } else if v.y > Y_BOUNDS {
            Y_BOUNDS
        } else {
            v.y
        },
    }
}

/// Clamp a point into the world rectangle, axis by axis.
pub fn clamp_to_bounds(v: Vec2i) -> (r: Vec2i)
    ensures
        r == clamp_spec(v),
        r.in_bounds(),
{
    let x = if v.x < -X_BOUNDS {
        -X_BOUNDS
    } else if v.x > X_BOUNDS {
        X_BOUNDS
    } else {
        v.x
    };
    let y = if v.y < -Y_BOUNDS {
        -Y_BOUNDS
    } else if v.y > Y_BOUNDS {
        Y_BOUNDS
    } else {
        v.y
    };
    Vec2i { x, y }
}

/// Mathematical absolute value.
pub open spec fn abs(v: int) -> int {
    if v < 0 {
        -v
    } else {
        v
    }
}

/// Absolute value on machine integers.
pub fn abs_i64(v: i64) -> (r: i64)
    requires
        i64::MIN < v,
    ensures
        r == abs(v as int),
{
    if v < 0 {
        -v
    } else {
        v
    }
}

/// The largest r with r * r <= n.
pub open spec fn sqrt_floor(n: nat) -> nat
    decreases n,
{
    if n == 0 {
        0
    } else {
        let s = sqrt_floor((n - 1) as nat);
        if (s + 1) * (s + 1) <= n {
            s + 1
        } else {
            s
        }
    }
}

pub proof fn lemma_sqrt_floor_bounds(n: nat)
    ensures
        sqrt_floor(n) * sqrt_floor(n) <= n,
        n < (sqrt_floor(n) + 1) * (sqrt_floor(n) + 1),
    decreases n,
{
    if n == 0 {
        assert(sqrt_floor(0) == 0);
        assert(sqrt_floor(n) * sqrt_floor(n) <= n);
        assert(n < (sqrt_floor(n) + 1) * (sqrt_floor(n) + 1)) by (nonlinear_arith)
            requires
                n == 0,
                sqrt_floor(n) == 0,
        ;
    } else {
        let m = (n - 1) as nat;
        let s = sqrt_floor(m);
        lemma_sqrt_floor_bounds(m);
        assert(s * s <= m);
        assert(m < (s + 1) * (s + 1));
        if (s + 1) * (s + 1) <= n {
            assert(sqrt_floor(n) == s + 1);
            assert((s + 1) * (s + 1) < (s + 2) * (s + 2)) by (nonlinear_arith)
                requires
                    s >= 0,
            ;
            assert(sqrt_floor(n) * sqrt_floor(n) <= n);
            assert(n < (sqrt_floor(n) + 1) * (sqrt_floor(n) + 1));
        } else {
            assert(sqrt_floor(n) == s);
            assert(sqrt_floor(n) * sqrt_floor(n) <= n);
            assert(n < (sqrt_floor(n) + 1) * (sqrt_floor(n) + 1));
        }
    }
}

/// Any r bracketing n between consecutive squares is the square root floor.
pub proof fn lemma_sqrt_floor_unique(n: nat, r: nat)
    requires
        r * r <= n,
        n < (r + 1) * (r + 1),
    ensures
        r == sqrt_floor(n),
{
    let s = sqrt_floor(n);
    lemma_sqrt_floor_bounds(n);
    if r < s {
        assert((r + 1) * (r + 1) <= s * s) by (nonlinear_arith)
            requires
                r + 1 <= s,
                r >= 0,
        ;
    }
    if s < r {
        assert((s + 1) * (s + 1) <= r * r) by (nonlinear_arith)
            requires
                s + 1 <= r,
                s >= 0,
        ;
    }
}

/// Integer square root by upward search.
pub fn isqrt(n: i64) -> (r: i64)
    requires
        0 <= n <= 0x1000_0000,
    ensures
        0 <= r,
        r * r <= n,
        n < (r + 1) * (r + 1),
        r as nat == sqrt_floor(n as nat),
{
    let mut r: i64 = 0;
    loop
        invariant
            0 <= r <= 0x4000,
            r <= n <= 0x1000_0000,
            r * r <= n,
        ensures
            0 <= r,
            r * r <= n,
            n < (r + 1) * (r + 1),
        decreases n - r,
    {
        proof {
            assert((r + 1) * (r + 1) <= 0x4001 * 0x4001) by (nonlinear_arith)
                requires
                    0 <= r <= 0x4000,
            ;
        }
        let q = (r + 1) * (r + 1);
        if q <= n {
            proof {
                assert(r + 1 <= 0x4000) by (nonlinear_arith)
                    requires
                        0 <= r,
                        (r + 1) * (r + 1) <= 0x1000_0000,
                ;
                assert(r + 1 <= (r + 1) * (r + 1)) by (nonlinear_arith)
                    requires
                        0 <= r,
                ;
            }
            r = r + 1;
        } else {
            break;
        }
    }
    proof {
        lemma_sqrt_floor_unique(n as nat, r as nat);
    }
    r
}

} // verus!
