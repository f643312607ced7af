use vstd::arithmetic::mul::*;
use vstd::prelude::*;

verus! {

/// A point on the play field, in hundredths of a pixel.
#[derive(Clone, Copy, Debug, PartialEq, Eq, Structural)]
pub struct Position {
    pub x: i32,
    pub y: i32,
}

/// A velocity, in hundredths of a pixel per second.
#[derive(Clone, Copy, Debug, PartialEq, Eq, Structural)]
pub struct Velocity {
    pub x: i64,
    pub y: i64,
}

/// Squared Euclidean distance between two points.
pub open spec fn dist_sq(a: Position, b: Position) -> int {
    (a.x - b.x) * (a.x - b.x) + (a.y - b.y) * (a.y - b.y)
}

pub open spec fn is_floor_sqrt(n: int, r: int) -> bool {
    0 <= r && r * r <= n < (r + 1) * (r + 1)
}

/// The largest integer whose square does not exceed `n`.
pub open spec fn floor_sqrt(n: int) -> int {
    choose|r: int| is_floor_sqrt(n, r)
}

/// `d * speed / len`, rounded toward zero.
pub open spec fn scale_component(d: int, speed: int, len: int) -> int {
    if d >= 0 {
        (d * speed) / len
    } else {
        -(((-d) * speed) / len)
    }
}

/// A velocity of magnitude `speed` from `from` toward `to`, or zero where the two
/// points coincide.
pub open spec fn toward(from: Position, to: Position, speed: int) -> (int, int) {
    let n = dist_sq(from, to);
    if n == 0 {
        (0, 0)
    } else {
        (
            scale_component(to.x - from.x, speed, floor_sqrt(n)),
            scale_component(to.y - from.y, speed, floor_sqrt(n)),
        )
    }
}

pub open spec fn velocity_of(c: (int, int)) -> Velocity {
    Velocity { x: c.0 as i64, y: c.1 as i64 }
}

/// The index of the first among the points nearest to `origin`.
pub open spec fn first_nearest(origin: Position, points: Seq<Position>) -> int {
    choose|i: int| is_first_nearest(origin, points, i)
}

/// Index `i` holds a point nearest to `origin`, and no earlier index holds one as near.
pub open spec fn is_first_nearest(origin: Position, points: Seq<Position>, i: int) -> bool {
    &&& 0 <= i < points.len()
    &&& forall|j: int| 0 <= j < points.len() ==> dist_sq(origin, points[i]) <= dist_sq(origin, points[j])
    &&& forall|j: int| 0 <= j < i ==> dist_sq(origin, points[j]) > dist_sq(origin, points[i])
}

proof fn lemma_floor_sqrt_unique(n: int, r: int)
    requires
        is_floor_sqrt(n, r),
    ensures
        floor_sqrt(n) == r,
{
    let s = floor_sqrt(n);
    assert(is_floor_sqrt(n, s));
    if s < r {
        assert((s + 1) * (s + 1) <= r * r) by (nonlinear_arith)
            requires
                0 <= s,
                s + 1 <= r,
        ;
    } else if r < s {
        assert((r + 1) * (r + 1) <= s * s) by (nonlinear_arith)
            requires
                0 <= r,
                r + 1 <= s,
        ;
    }
}

proof fn lemma_square_bound(d: int)
    requires
        -0x1_0000_0000 < d < 0x1_0000_0000,
    ensures
        0 <= d * d < 0x1_0000_0000_0000_0000,
{
    assert(0 <= d * d < 0x1_0000_0000_0000_0000) by (nonlinear_arith)
        requires
            -0x1_0000_0000 < d < 0x1_0000_0000,
    ;
}

/// Squared distance between two points; it always fits in 65 bits.
pub fn distance_sq(a: Position, b: Position) -> (r: u128)
    ensures
        r == dist_sq(a, b),
        r < 0x4_0000_0000_0000_0000,
{
    let dx: i64 = a.x as i64 - b.x as i64;
    let dy: i64 = a.y as i64 - b.y as i64;
    proof {
        lemma_square_bound(dx as int);
        lemma_square_bound(dy as int);
    }
    let sx: i128 = (dx as i128) * (dx as i128);
    let sy: i128 = (dy as i128) * (dy as i128);
    (sx + sy) as u128
}

/// Floor of the square root of `n`.
pub fn isqrt(n: u128) -> (r: u64)
    ensures
        is_floor_sqrt(n as int, r as int),
        r == floor_sqrt(n as int),
{
    let mut lo: u128 = 0;
    let mut hi: u128 = 0x1_0000_0000_0000_0000;
    assert(hi * hi == 0x1_0000_0000_0000_0000_0000_0000_0000_0000) by (nonlinear_arith)
        requires
            hi == 0x1_0000_0000_0000_0000,
    ;
    while hi - lo > 1
        invariant
            lo < hi <= 0x1_0000_0000_0000_0000,
            lo * lo <= n,
            n < hi * hi,
        decreases hi - lo,
    {
        let mid = lo + (hi - lo) / 2;
        assert(mid * mid < 0x1_0000_0000_0000_0000_0000_0000_0000_0000) by {
            lemma_mul_strict_upper_bound(
                mid as int,
                0x1_0000_0000_0000_0000,
                mid as int,
                0x1_0000_0000_0000_0000,
            );
        }
        if mid * mid <= n {
            lo = mid;
        } else {
            hi = mid;
        }
    }
    proof {
        lemma_floor_sqrt_unique(n as int, lo as int);
    }
    lo as u64
}

proof fn lemma_first_nearest_unique(origin: Position, points: Seq<Position>, i: int)
    requires
        is_first_nearest(origin, points, i),
    ensures
        first_nearest(origin, points) == i,
{
    let k = first_nearest(origin, points);
    assert(is_first_nearest(origin, points, k));
    if k < i {
        assert(dist_sq(origin, points[k]) > dist_sq(origin, points[i]));
    } else if i < k {
        assert(dist_sq(origin, points[i]) > dist_sq(origin, points[k]));
    }
}

/// Index of the point nearest to `origin`, the first one among equally near points;
/// `None` when there are no points.
pub fn nearest(origin: Position, points: &Vec<Position>) -> (r: Option<usize>)
    ensures
        r.is_none() <==> points@.len() == 0,
        r matches Some(i) ==> is_first_nearest(origin, points@, i as int) && i as int
            == first_nearest(origin, points@),
{
    if points.len() == 0 {
        return None;
    }
    let mut best: usize = 0;
    let mut best_d = distance_sq(origin, points[0]);
    let mut i: usize = 1;
    while i < points.len()
        invariant
            1 <= i <= points@.len(),
            best < i,
            best_d == dist_sq(origin, points@[best as int]),
            forall|j: int| 0 <= j < i ==> dist_sq(origin, points@[best as int]) <= dist_sq(origin, points@[j]),
            forall|j: int| 0 <= j < best ==> dist_sq(origin, points@[j]) > dist_sq(origin, points@[best as int]),
        decreases points@.len() - i,
    {
        let d = distance_sq(origin, points[i]);
        if d < best_d {
            best = i;
            best_d = d;
        }
        i = i + 1;
    }
    proof {
        lemma_first_nearest_unique(origin, points@, best as int);
    }
    Some(best)
}

/// Velocity of magnitude `speed` from `from` toward `to` (each component rounded
/// toward zero); zero where the points coincide.
pub fn velocity_toward(from: Position, to: Position, speed: u32) -> (v: Velocity)
    ensures
        (v.x as int, v.y as int) == toward(from, to, speed as int),
        v == velocity_of(toward(from, to, speed as int)),
        -speed <= v.x <= speed,
        -speed <= v.y <= speed,
{
    let n = distance_sq(from, to);
    if n == 0 {
        return Velocity { x: 0, y: 0 };
    }
    let len = isqrt(n);
    let dx: i64 = to.x as i64 - from.x as i64;
    let dy: i64 = to.y as i64 - from.y as i64;
    proof {
        assert(len >= 1) by (nonlinear_arith)
            requires
                n >= 1,
                n < (len + 1) * (len + 1),
                len >= 0,
        ;
        assert(dist_sq(from, to) == dx * dx + dy * dy) by (nonlinear_arith)
            requires
                dx == to.x - from.x,
                dy == to.y - from.y,
        ;
        lemma_component_le_len(dx as int, dy as int, len as int);
        lemma_component_le_len(dy as int, dx as int, len as int);
    }
    let x = scale(dx, speed, len);
    let y = scale(dy, speed, len);
    Velocity { x, y }
}

proof fn lemma_component_le_len(a: int, b: int, len: int)
    requires
        a * a + b * b < (len + 1) * (len + 1),
        len >= 1,
    ensures
        -len <= a <= len,
{
    assert(b * b >= 0) by (nonlinear_arith);
    if a > len {
        assert(a * a >= (len + 1) * (len + 1)) by (nonlinear_arith)
            requires
                a >= len + 1,
                len >= 1,
        ;
    } else if a < -len {
        assert(a * a >= (len + 1) * (len + 1)) by (nonlinear_arith)
            requires
                -a >= len + 1,
                len >= 1,
        ;
    }
}

fn scale(d: i64, speed: u32, len: u64) -> (r: i64)
    requires
        len >= 1,
        -len <= d <= len,
    ensures
        r == scale_component(d as int, speed as int, len as int),
        -speed <= r <= speed,
{
    let mag: u64 = if d >= 0 {
        d as u64
    } else {
        (-(d as i128)) as u64
    };
    proof {
        lemma_mul_inequality(mag as int, len as int, speed as int);
        lemma_mul_upper_bound(mag as int, len as int, speed as int, 0xffff_ffff);
        vstd::arithmetic::div_mod::lemma_div_is_ordered(
            (mag * speed) as int,
            (len * speed) as int,
            len as int,
        );
        vstd::arithmetic::div_mod::lemma_div_by_multiple(speed as int, len as int);
        lemma_mul_is_commutative(len as int, speed as int);
        lemma_mul_nonnegative(mag as int, speed as int);
    }
    let q: u128 = (mag as u128) * (speed as u128) / (len as u128);
    if d >= 0 {
        q as i64
    } else {
        -(q as i64)
    }
}

/// Whether `p` lies strictly within `size * 75 / 2` hundredths of a pixel of
/// `origin` (an area of effect whose scale is `size` hundredths).
pub open spec fn within_burst(origin: Position, p: Position, size: int) -> bool {
    4 * dist_sq(origin, p) < (75 * size) * (75 * size)
}

pub fn in_burst(origin: Position, p: Position, size: u32) -> (r: bool)
    ensures
        r == within_burst(origin, p, size as int),
{
    let d = distance_sq(origin, p);
    let reach: u128 = 75 * (size as u128);
    proof {
        lemma_mul_upper_bound(reach as int, 0x1_0000_0000_00, reach as int, 0x1_0000_0000_00);
    }
    4 * d < reach * reach
}

} // verus!
