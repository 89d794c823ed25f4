//! Fixed-point arithmetic: the scale of lengths and directions, the distance
//! covered in a time step, integer square roots and unit vectors.

use crate::geometry::{magnitude, Vec2};
use vstd::prelude::*;

verus! {

/// Thousandths in one: a length of `UNIT` is one pixel, a direction
/// component of `UNIT` is one.
pub const UNIT: i64 = 1000;

/// Microseconds in a second.
pub const MICROS_PER_SECOND: i64 = 1_000_000;

/// Highest speed, in pixels per second, that `travel` accepts.
pub const SPEED_LIMIT: i64 = 1_000_000;

/// Largest magnitude of a component of a vector that `normalize` accepts.
pub const NORMALIZE_LIMIT: i64 = 0x4000_0000;

/// The quotient of `a` by a positive `b`, rounded toward zero.
pub open spec fn quotient_toward_zero(a: int, b: int) -> int {
    if a >= 0 {
        a / b
    } else {
        -((-a) / b)
    }
}

/// The distance, in thousandths of a pixel, covered in `dt` microseconds at
/// `speed` pixels per second along a direction component given in
/// thousandths. Fractions of a thousandth are dropped.
pub open spec fn distance(component: int, speed: int, dt: int) -> int {
    quotient_toward_zero(component * speed * dt, MICROS_PER_SECOND as int)
}

/// The distance covered never exceeds what a full direction component would
/// give, and it has the sign of the component.
pub proof fn lemma_distance_bounds(component: int, speed: int, dt: int)
    requires
        -UNIT <= component <= UNIT,
        0 <= speed,
        0 <= dt,
    ensures
        magnitude(distance(component, speed, dt)) <= speed * dt / (UNIT as int),
        component >= 0 ==> distance(component, speed, dt) >= 0,
        component <= 0 ==> distance(component, speed, dt) <= 0,
{
    let full: int = speed * dt;
    assert(full >= 0) by (nonlinear_arith)
        requires
            full == speed * dt,
            speed >= 0,
            dt >= 0,
    ;
    let size: int = magnitude(component);
    let scaled: int = size * full;
    assert(0 <= scaled <= 1000 * full) by (nonlinear_arith)
        requires
            scaled == size * full,
            0 <= size <= 1000,
            full >= 0,
    ;
    assert(component * speed * dt == component * full) by (nonlinear_arith)
        requires
            full == speed * dt,
    ;
    if component == 0 {
        assert(component * full == 0) by (nonlinear_arith)
            requires
                component == 0,
        ;
    } else if component > 0 {
        assert(component * full == scaled);
    } else {
        assert(-(component * full) == scaled) by (nonlinear_arith)
            requires
                scaled == (-component) * full,
        ;
    }
}

/// The distance covered in `dt` microseconds at `speed` pixels per second
/// along a direction component given in thousandths.
pub fn travel(component: i64, speed: i64, dt: u32) -> (d: i64)
    requires
        -UNIT <= component <= UNIT,
        0 <= speed <= SPEED_LIMIT,
    ensures
        d == distance(component as int, speed as int, dt as int),
{
    let size: u64 = if component < 0 {
        (-component) as u64
    } else {
        component as u64
    };
    assert(size * speed <= 1_000_000_000) by (nonlinear_arith)
        requires
            size <= 1000,
            0 <= speed <= 1_000_000,
    ;
    let rate: u64 = size * (speed as u64);
    assert(rate * dt <= 1_000_000_000 * 0xffff_ffff) by (nonlinear_arith)
        requires
            rate <= 1_000_000_000,
            dt <= 0xffff_ffff,
    ;
    let product: u64 = rate * (dt as u64);
    let covered: u64 = product / 1_000_000;
    proof {
        let c: int = component as int;
        let s: int = speed as int;
        let t: int = dt as int;
        if component < 0 {
            assert(-(c * s * t) == (-c) * s * t) by (nonlinear_arith);
        }
    }
    if component < 0 {
        -(covered as i64)
    } else {
        covered as i64
    }
}

/// `r` is the integer square root of `n`: the largest integer whose square
/// does not exceed `n`.
pub open spec fn is_floor_sqrt(r: int, n: int) -> bool {
    0 <= r && r * r <= n < (r + 1) * (r + 1)
}

/// The integer square root of a non-negative `n`.
pub open spec fn floor_sqrt(n: int) -> int {
    choose|r: int| is_floor_sqrt(r, n)
}

/// A number has at most one integer square root.
pub proof fn lemma_floor_sqrt_unique(r1: int, r2: int, n: int)
    requires
        is_floor_sqrt(r1, n),
        is_floor_sqrt(r2, n),
    ensures
        r1 == r2,
{
    if r1 < r2 {
        assert((r1 + 1) * (r1 + 1) <= r2 * r2) by (nonlinear_arith)
            requires
                0 <= r1,
                r1 + 1 <= r2,
        ;
    } else if r2 < r1 {
        assert((r2 + 1) * (r2 + 1) <= r1 * r1) by (nonlinear_arith)
            requires
                0 <= r2,
                r2 + 1 <= r1,
        ;
    }
}

/// The integer square root, found by bisection.
pub fn isqrt(n: u64) -> (r: u64)
    ensures
        is_floor_sqrt(r as int, n as int),
        r == floor_sqrt(n as int),
{
    let mut low: u64 = 0;
    let mut high: u64 = 0x1_0000_0000;
    while high - low > 1
        invariant
            low < high <= 0x1_0000_0000,
            low * low <= n < high * high,
        decreases high - low,
    {
        let mid: u64 = low + (high - low) / 2;
        assert(mid * mid <= 0xffff_ffff * 0xffff_ffff) by (nonlinear_arith)
            requires
                mid <= 0xffff_ffff,
        ;
        if mid * mid <= n {
            low = mid;
        } else {
            high = mid;
        }
    }
    proof {
        lemma_floor_sqrt_unique(low as int, floor_sqrt(n as int), n as int);
    }
    low
}

impl Vec2 {
    /// The length of the vector, rounded down.
    pub open spec fn length(self) -> int {
        floor_sqrt(self.x * self.x + self.y * self.y)
    }

    /// The vector scaled to length `UNIT`, each component rounded toward
    /// zero. Meant for vectors that are not zero.
    pub open spec fn normalized(self) -> Vec2 {
        Vec2 {
            x: quotient_toward_zero(self.x * UNIT, self.length()) as i64,
            y: quotient_toward_zero(self.y * UNIT, self.length()) as i64,
        }
    }

    /// The vector can be scaled to unit length: it is not zero and its
    /// components are small enough for their squares to be added.
    pub open spec fn can_normalize(self) -> bool {
        &&& -NORMALIZE_LIMIT <= self.x <= NORMALIZE_LIMIT
        &&& -NORMALIZE_LIMIT <= self.y <= NORMALIZE_LIMIT
        &&& (self.x != 0 || self.y != 0)
    }

    /// The length of a vector that is not zero is positive and at least the
    /// magnitude of each component, so no component of the unit vector
    /// exceeds `UNIT`, and each keeps its sign.
    pub proof fn lemma_normalized_within_unit(self)
        requires
            self.can_normalize(),
        ensures
            self.length() >= 1,
            self.length() >= magnitude(self.x as int),
            self.length() >= magnitude(self.y as int),
            -UNIT <= self.normalized().x <= UNIT,
            -UNIT <= self.normalized().y <= UNIT,
            self.x >= 0 ==> self.normalized().x >= 0,
            self.x <= 0 ==> self.normalized().x <= 0,
            self.y >= 0 ==> self.normalized().y >= 0,
            self.y <= 0 ==> self.normalized().y <= 0,
    {
        let x: int = self.x as int;
        let y: int = self.y as int;
        let n: int = x * x + y * y;
        lemma_square_sum(x, y);
        lemma_floor_sqrt_exists(n);
        let len: int = self.length();
        lemma_root_dominates(magnitude(x), len, n);
        lemma_root_dominates(magnitude(y), len, n);
        lemma_scaled_quotient(x, len);
        lemma_scaled_quotient(y, len);
    }

    /// The vector scaled to length `UNIT`.
    pub fn normalize(self) -> (unit: Vec2)
        requires
            self.can_normalize(),
        ensures
            unit == self.normalized(),
            -UNIT <= unit.x <= UNIT,
            -UNIT <= unit.y <= UNIT,
    {
        proof {
            self.lemma_normalized_within_unit();
            lemma_square_sum(self.x as int, self.y as int);
        }
        let ax: u64 = if self.x < 0 {
            (-self.x) as u64
        } else {
            self.x as u64
        };
        let ay: u64 = if self.y < 0 {
            (-self.y) as u64
        } else {
            self.y as u64
        };
        assert(ax * ax <= 0x4000_0000 * 0x4000_0000) by (nonlinear_arith)
            requires
                ax <= 0x4000_0000,
        ;
        assert(ay * ay <= 0x4000_0000 * 0x4000_0000) by (nonlinear_arith)
            requires
                ay <= 0x4000_0000,
        ;
        let len: u64 = isqrt(ax * ax + ay * ay);
        let qx: u64 = ax * 1000 / len;
        let qy: u64 = ay * 1000 / len;
        Vec2 {
            x: if self.x < 0 {
                -(qx as i64)
            } else {
                qx as i64
            },
            y: if self.y < 0 {
                -(qy as i64)
            } else {
                qy as i64
            },
        }
    }
}

/// A sum of two squares is non-negative, is at least each square, and does
/// not depend on the signs.
proof fn lemma_square_sum(x: int, y: int)
    ensures
        x * x >= 0,
        y * y >= 0,
        x * x == magnitude(x) * magnitude(x),
        y * y == magnitude(y) * magnitude(y),
        (x != 0 || y != 0) ==> x * x + y * y >= 1,
{
    assert(x * x >= 0 && (x != 0 ==> x * x >= 1)) by (nonlinear_arith);
    assert(y * y >= 0 && (y != 0 ==> y * y >= 1)) by (nonlinear_arith);
    assert(x * x == magnitude(x) * magnitude(x)) by (nonlinear_arith)
        requires
            magnitude(x) == x || magnitude(x) == -x,
    ;
    assert(y * y == magnitude(y) * magnitude(y)) by (nonlinear_arith)
        requires
            magnitude(y) == y || magnitude(y) == -y,
    ;
}

/// Every non-negative number has an integer square root.
proof fn lemma_floor_sqrt_exists(n: int)
    requires
        n >= 0,
    ensures
        is_floor_sqrt(floor_sqrt(n), n),
    decreases n,
{
    if n == 0 {
        assert(is_floor_sqrt(0, 0));
    } else {
        lemma_floor_sqrt_exists(n - 1);
        let r: int = floor_sqrt(n - 1);
        if (r + 1) * (r + 1) <= n {
            assert((r + 2) * (r + 2) > n) by (nonlinear_arith)
                requires
                    (r + 1) * (r + 1) == n,
                    r >= 0,
            ;
            assert(is_floor_sqrt(r + 1, n));
        } else {
            assert(is_floor_sqrt(r, n));
        }
    }
}

/// A non-negative number whose square does not exceed `n` does not exceed
/// the integer square root of `n`.
proof fn lemma_root_dominates(m: int, r: int, n: int)
    requires
        0 <= m,
        m * m <= n,
        is_floor_sqrt(r, n),
    ensures
        m <= r,
{
    if m > r {
        assert((r + 1) * (r + 1) <= m * m) by (nonlinear_arith)
            requires
                0 <= r,
                r + 1 <= m,
        ;
    }
}

/// Scaling a component by `UNIT` and dividing by a length that is at least
/// the magnitude of the component gives at most `UNIT`, with the sign of the
/// component.
proof fn lemma_scaled_quotient(v: int, len: int)
    requires
        len >= 1,
        magnitude(v) <= len,
    ensures
        -UNIT <= quotient_toward_zero(v * UNIT, len) <= UNIT,
        v >= 0 ==> quotient_toward_zero(v * UNIT, len) >= 0,
        v <= 0 ==> quotient_toward_zero(v * UNIT, len) <= 0,
        quotient_toward_zero(v * UNIT, len) == if v >= 0 {
            magnitude(v) * 1000 / len
        } else {
            -(magnitude(v) * 1000 / len)
        },
{
    let m: int = magnitude(v);
    let q: int = m * 1000 / len;
    assert(0 <= q <= 1000) by (nonlinear_arith)
        requires
            q == m * 1000 / len,
            0 <= m <= len,
            len >= 1,
    ;
}

} // verus!
