//! Integer plane geometry: the coordinate domain, squared distances,
//! an exact integer square root, and the scaled division used to move
//! entities along non-normalized direction vectors.

use vstd::arithmetic::div_mod::{
    lemma_div_denominator, lemma_div_is_ordered, lemma_div_multiples_vanish,
    lemma_fundamental_div_mod_converse,
};
use vstd::arithmetic::mul::{lemma_mul_inequality, lemma_mul_is_commutative, lemma_mul_upper_bound};
use vstd::prelude::*;

verus! {

/// Half-width of the playfield: every coordinate the world stores lies in
/// `[-POS_MAX, POS_MAX]`. Squared distances between such points then fit
/// comfortably in `i64`.
pub const POS_MAX: i64 = 268435456;

/// Largest hitbox radius and behavior range the world stores.
pub const RADIUS_MAX: i64 = 1048576;

/// Largest speed (world units per second) the world stores.
pub const SPEED_MAX: i64 = 1048576;

/// Largest magnitude a direction-vector component may have: the difference
/// of two in-bounds coordinates.
pub const DIR_MAX: i64 = 536870912;

/// A point or direction on the integer plane.
#[derive(Clone, Copy, PartialEq, Eq, Structural, Debug)]
pub struct Vec2i {
    pub x: i64,
    pub y: i64,
}

impl Vec2i {
    pub open spec fn in_box(self) -> bool {
        -POS_MAX <= self.x <= POS_MAX && -POS_MAX <= self.y <= POS_MAX
    }

    pub open spec fn is_dir(self) -> bool {
        -DIR_MAX <= self.x <= DIR_MAX && -DIR_MAX <= self.y <= DIR_MAX
    }

    pub open spec fn is_zero(self) -> bool {
        self.x == 0 && self.y == 0
    }

    /// The zero point / zero direction.
    pub fn zero() -> (r: Vec2i)
        ensures
            r.x == 0 && r.y == 0,
    {
        Vec2i { x: 0, y: 0 }
    }
}

/// Squared Euclidean distance between two points.
pub open spec fn dist_sq(a: Vec2i, b: Vec2i) -> int {
    (a.x - b.x) * (a.x - b.x) + (a.y - b.y) * (a.y - b.y)
}

/// Computes `dist_sq` exactly for in-bounds points.
pub fn distance_squared(a: Vec2i, b: Vec2i) -> (r: i64)
    requires
        a.in_box(),
        b.in_box(),
    ensures
        r == dist_sq(a, b),
        r >= 0,
{
    let dx: i64 = a.x - b.x;
    let dy: i64 = a.y - b.y;
    proof {
        lemma_square_bound(dx as int, 2 * POS_MAX as int);
        lemma_square_bound(dy as int, 2 * POS_MAX as int);
    }
    dx * dx + dy * dy
}

/// A square of a bounded value is bounded by the square of the bound.
pub proof fn lemma_square_bound(v: int, b: int)
    requires
        -b <= v <= b,
        b >= 0,
    ensures
        0 <= v * v <= b * b,
{
    assert(0 <= v * v <= b * b) by (nonlinear_arith)
        requires
            -b <= v <= b,
            b >= 0,
    ;
}

/// Squaring is strictly monotone on non-negative values, read backwards:
/// a value whose square stays under `(b + 1)^2` is at most `b`.
pub proof fn lemma_sq_below(a: int, b: int)
    requires
        a >= 0,
        b >= 0,
        a * a < (b + 1) * (b + 1),
    ensures
        a <= b,
{
    assert(a <= b) by (nonlinear_arith)
        requires
            a >= 0,
            b >= 0,
            a * a < (b + 1) * (b + 1),
    ;
}

/// The integer square root: the unique `r >= 0` with
/// `r * r <= n < (r + 1) * (r + 1)`.
pub open spec fn sqrt_floor(n: int) -> int {
    choose|r: int| r >= 0 && #[trigger] (r * r) <= n && n < (r + 1) * (r + 1)
}

/// For every `n >= 0` exactly one value satisfies the square-root bracket,
/// and `sqrt_floor` denotes it.
pub proof fn lemma_sqrt_floor_is(n: int, r: int)
    requires
        r >= 0,
        r * r <= n,
        n < (r + 1) * (r + 1),
    ensures
        sqrt_floor(n) == r,
{
    let s = sqrt_floor(n);
    assert(s >= 0 && s * s <= n && n < (s + 1) * (s + 1));
    lemma_sq_below(r, s);
    lemma_sq_below(s, r);
}

/// Computes `sqrt_floor` exactly, by bisection on the answer.
pub fn isqrt64(n: u64) -> (r: u64)
    ensures
        r * r <= n < (r + 1) * (r + 1),
        r == sqrt_floor(n as int),
        r <= 4294967296,
{
    let mut lo: u64 = 0;
    let mut hi: u64 = 4294967296;
    proof {
        assert((4294967296int + 1) * (4294967296int + 1) > u64::MAX as int);
    }
    while lo < hi
        invariant
            lo <= hi <= 4294967296,
            lo * lo <= n,
            n < (hi + 1) * (hi + 1),
        decreases hi - lo,
    {
        let mid: u64 = lo + (hi - lo + 1) / 2;
        proof {
            lemma_square_bound(mid as int, 4294967296);
        }
        if (mid as u128) * (mid as u128) <= n as u128 {
            lo = mid;
        } else {
            hi = mid - 1;
        }
    }
    proof {
        lemma_sqrt_floor_is(n as int, lo as int);
    }
    lo
}

/// Scaling a magnitude toward zero: `v * num / den` with the division
/// truncated toward zero, stated over the sign split so that only
/// divisions of non-negative values occur.
pub open spec fn scale_trunc(v: int, num: int, den: int) -> int
    recommends
        num >= 0,
        den > 0,
{
    if v >= 0 {
        (v * num) / den
    } else {
        -(((-v) * num) / den)
    }
}

/// `scale_trunc` never grows past `(bound * num) / den` in magnitude.
pub proof fn lemma_scale_trunc_bound(v: int, num: int, den: int, bound: int)
    requires
        num >= 0,
        den > 0,
        -bound <= v <= bound,
    ensures
        -((bound * num) / den) <= scale_trunc(v, num, den) <= (bound * num) / den,
        (bound * num) / den >= 0,
{
    let m = if v >= 0 { v } else { -v };
    lemma_mul_inequality(m, bound, num);
    lemma_div_is_ordered(m * num, bound * num, den);
    lemma_mul_inequality(0, bound, num);
    lemma_div_is_ordered(0, m * num, den);
    assert(0int / den == 0int) by {
        lemma_div_multiples_vanish(0, den);
    }
}

/// With a factor of at most one (`num <= den`) the scaled value never
/// overshoots the original magnitude.
pub proof fn lemma_scale_trunc_within(v: int, num: int, den: int)
    requires
        0 <= num <= den,
        den > 0,
    ensures
        v >= 0 ==> 0 <= scale_trunc(v, num, den) <= v,
        v < 0 ==> v <= scale_trunc(v, num, den) <= 0,
{
    let m = if v >= 0 { v } else { -v };
    lemma_mul_inequality(num, den, m);
    lemma_mul_is_commutative(num, m);
    lemma_mul_is_commutative(den, m);
    lemma_div_is_ordered(m * num, m * den, den);
    assert((den * m) / den == m) by {
        lemma_div_multiples_vanish(m, den);
    }
    lemma_mul_inequality(0, m, num);
    lemma_div_is_ordered(0, m * num, den);
    assert(0int / den == 0int) by {
        lemma_div_multiples_vanish(0, den);
    }
}

/// Largest frame delta (in milliseconds) a tick accepts.
pub const DT_MAX: u64 = 65536;

/// Length (rounded down) of a direction vector.
pub open spec fn dir_len(d: Vec2i) -> int {
    sqrt_floor(d.x * d.x + d.y * d.y)
}

/// Displacement of one tick: the direction vector scaled so that its length
/// is (up to rounding) `speed * dt / 1000` world units, componentwise. A zero
/// direction moves nothing.
pub open spec fn step_vec(dir: Vec2i, speed: int, dt: int) -> (int, int) {
    if dir.x == 0 && dir.y == 0 {
        (0, 0)
    } else {
        let len = dir_len(dir);
        (
            scale_trunc(dir.x as int, speed * dt, 1000 * len),
            scale_trunc(dir.y as int, speed * dt, 1000 * len),
        )
    }
}

/// A nonzero value has a square of at least one.
proof fn lemma_nonzero_square(v: int)
    requires
        v != 0,
    ensures
        v * v >= 1,
{
    assert(v * v >= 1) by (nonlinear_arith)
        requires
            v != 0,
    ;
}

/// Advances a position along `dir` by one tick of `speed` world units per
/// second over `dt_ms` milliseconds, clamped into the playfield.
pub fn step_position(pos: Vec2i, dir: Vec2i, speed: i64, dt_ms: u64) -> (p: Vec2i)
    requires
        pos.in_box(),
        dir.is_dir(),
        0 <= speed <= SPEED_MAX,
        dt_ms <= DT_MAX,
    ensures
        ({
            let s = step_vec(dir, speed as int, dt_ms as int);
            p.x == clamp_coord_spec(pos.x + s.0) && p.y == clamp_coord_spec(pos.y + s.1)
        }),
        p.in_box(),
{
    if dir.x == 0 && dir.y == 0 {
        return pos;
    }
    proof {
        lemma_square_bound(dir.x as int, DIR_MAX as int);
        lemma_square_bound(dir.y as int, DIR_MAX as int);
        if dir.x != 0 {
            lemma_nonzero_square(dir.x as int);
        } else {
            lemma_nonzero_square(dir.y as int);
        }
    }
    let sq: u64 = (dir.x * dir.x + dir.y * dir.y) as u64;
    let len: u64 = isqrt64(sq);
    proof {
        // `sq >= 1`, so the root is at least one.
        if len == 0 {
            assert(sq < (0 + 1) * (0 + 1));
            assert(false);
        }
    }
    proof {
        lemma_mul_upper_bound(speed as int, SPEED_MAX as int, dt_ms as int, DT_MAX as int);
    }
    let st: u64 = (speed as u64) * dt_ms;
    let den: u128 = 1000 * (len as u128);
    proof {
        lemma_step_component_bound(dir.x as int, len as int, st as int, sq as int);
        lemma_step_component_bound(dir.y as int, len as int, st as int, sq as int);
        lemma_div_is_ordered(st as int, 68719476736, 1000);
    }
    let magx: u64 = if dir.x >= 0 {
        dir.x as u64
    } else {
        (-dir.x) as u64
    };
    let magy: u64 = if dir.y >= 0 {
        dir.y as u64
    } else {
        (-dir.y) as u64
    };
    proof {
        lemma_mul_upper_bound(magx as int, DIR_MAX as int, st as int, 68719476736);
        lemma_mul_upper_bound(magy as int, DIR_MAX as int, st as int, 68719476736);
    }
    let qx: u64 = ((magx as u128) * (st as u128) / den) as u64;
    let qy: u64 = ((magy as u128) * (st as u128) / den) as u64;
    let sx: i64 = if dir.x >= 0 {
        qx as i64
    } else {
        -(qx as i64)
    };
    let sy: i64 = if dir.y >= 0 {
        qy as i64
    } else {
        -(qy as i64)
    };
    Vec2i { x: clamp_coord(pos.x + sx), y: clamp_coord(pos.y + sy) }
}

/// One component of a tick's displacement stays under `st / 1000`, because
/// no component of a vector is longer than the whole vector.
proof fn lemma_step_component_bound(c: int, len: int, st: int, sq: int)
    requires
        len >= 1,
        st >= 0,
        c * c <= sq,
        sq < (len + 1) * (len + 1),
    ensures
        ({
            let m = if c >= 0 { c } else { -c };
            m <= len && (m * st) / (1000 * len) <= st / 1000
        }),
{
    let m = if c >= 0 { c } else { -c };
    assert(m * m == c * c) by (nonlinear_arith)
        requires
            m == c || m == -c,
    ;
    lemma_sq_below(m, len);
    lemma_mul_inequality(m, len, st);
    lemma_div_is_ordered(m * st, len * st, 1000 * len);
    lemma_mul_is_commutative(1000, len);
    lemma_div_denominator(len * st, len, 1000);
    lemma_div_multiples_vanish(st, len);
}

/// Fixed-factor interpolation from `a` toward `b`: `a + (b - a) * pm / 1000`
/// with the scaling truncated toward zero.
pub open spec fn lerp_spec(a: int, b: int, pm: int) -> int {
    a + scale_trunc(b - a, pm, 1000)
}

/// Moves `a` a fixed per-mille fraction of the way toward `b`. The result
/// never leaves the closed interval between the two.
pub fn lerp_toward(a: i64, b: i64, pm: i64) -> (r: i64)
    requires
        0 <= pm <= 1000,
        -DIR_MAX <= a <= DIR_MAX,
        -DIR_MAX <= b <= DIR_MAX,
    ensures
        r == lerp_spec(a as int, b as int, pm as int),
        a <= b ==> a <= r <= b,
        b <= a ==> b <= r <= a,
{
    let d: i64 = b - a;
    proof {
        lemma_scale_trunc_within(d as int, pm as int, 1000);
    }
    let mag: u64 = if d >= 0 {
        d as u64
    } else {
        (-d) as u64
    };
    let q: u64 = mag * (pm as u64) / 1000;
    proof {
        lemma_mul_inequality(pm as int, 1000, mag as int);
        lemma_mul_is_commutative(pm as int, mag as int);
        lemma_mul_is_commutative(1000, mag as int);
        lemma_div_is_ordered(mag as int * pm as int, mag as int * 1000, 1000);
        lemma_div_multiples_vanish(mag as int, 1000);
    }
    if d >= 0 {
        a + (q as i64)
    } else {
        a - (q as i64)
    }
}

/// The `k`-th of `n` points walked counterclockwise around the axis-aligned
/// square ring of half-width `radius` centered on `center`, starting on the
/// right edge: the integer stand-in for "evenly spaced angular offsets at a
/// fixed distance".
pub open spec fn ring_point_spec(center: Vec2i, k: int, n: int, radius: int) -> (int, int) {
    let s0 = (k * (8 * radius)) / n;
    let s = if s0 >= 8 * radius {
        8 * radius - 1
    } else {
        s0
    };
    let side = s / (2 * radius);
    let off = s % (2 * radius);
    if side == 0 {
        (center.x + radius, center.y - radius + off)
    } else if side == 1 {
        (center.x + radius - off, center.y + radius)
    } else if side == 2 {
        (center.x - radius, center.y + radius - off)
    } else {
        (center.x - radius + off, center.y - radius)
    }
}

/// Computes `ring_point_spec`, clamped into the playfield.
pub fn ring_point(center: Vec2i, k: usize, n: usize, radius: i64) -> (p: Vec2i)
    requires
        0 < n,
        k < n,
        1 <= radius <= RADIUS_MAX,
        center.in_box(),
    ensures
        ({
            let s = ring_point_spec(center, k as int, n as int, radius as int);
            p.x == clamp_coord_spec(s.0) && p.y == clamp_coord_spec(s.1)
        }),
        p.in_box(),
{
    let per: i64 = 8 * radius;
    proof {
        lemma_mul_upper_bound(k as int, u64::MAX as int, per as int, 8 * RADIUS_MAX as int);
        lemma_mul_inequality(k as int, n as int, per as int);
        lemma_div_is_ordered((k as int) * (per as int), (n as int) * (per as int), n as int);
        lemma_div_multiples_vanish(per as int, n as int);
    }
    let s128: u128 = (k as u128) * (per as u128) / (n as u128);
    let s0: i64 = s128 as i64;
    let s: u64 = if s0 >= per {
        (per - 1) as u64
    } else {
        s0 as u64
    };
    let sl: u64 = (2 * radius) as u64;
    proof {
        lemma_fundamental_div_mod_converse(
            8 * (radius as int) - 1,
            2 * (radius as int),
            3,
            2 * (radius as int) - 1,
        );
        lemma_div_is_ordered(s as int, 8 * (radius as int) - 1, 2 * (radius as int));
    }
    let side: u64 = s / sl;
    let off: i64 = (s % sl) as i64;
    let (px, py): (i64, i64) = if side == 0 {
        (center.x + radius, center.y - radius + off)
    } else if side == 1 {
        (center.x + radius - off, center.y + radius)
    } else if side == 2 {
        (center.x - radius, center.y + radius - off)
    } else {
        (center.x - radius + off, center.y - radius)
    };
    Vec2i { x: clamp_coord(px), y: clamp_coord(py) }
}

/// Clamping a coordinate into the playfield.
pub open spec fn clamp_coord_spec(v: int) -> int {
    if v < -POS_MAX {
        -POS_MAX as int
    } else if v > POS_MAX {
        POS_MAX as int
    } else {
        v
    }
}

/// Clamps a coordinate into `[-POS_MAX, POS_MAX]`.
pub fn clamp_coord(v: i64) -> (r: i64)
    ensures
        r == clamp_coord_spec(v as int),
        -POS_MAX <= r <= POS_MAX,
{
    if v < -POS_MAX {
        -POS_MAX
    } else if v > POS_MAX {
        POS_MAX
    } else {
        v
    }
}

} // verus!
