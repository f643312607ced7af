use crate::geometry::{dist_sq, distance_sq, Position};
use crate::progress::GameData;
use crate::weapons::{clamp_i32, SECOND};
use vstd::prelude::*;

verus! {

/// How far the players' centre may drift from the camera anchor before the anchor
/// jumps to it, in hundredths of a pixel.
pub const CAMERA_SLACK: i64 = 20_000;

pub open spec fn sum_x(ps: Seq<Position>) -> int
    decreases ps.len(),
{
    if ps.len() == 0 {
        0
    } else {
        sum_x(ps.drop_last()) + ps.last().x
    }
}

pub open spec fn sum_y(ps: Seq<Position>) -> int
    decreases ps.len(),
{
    if ps.len() == 0 {
        0
    } else {
        sum_y(ps.drop_last()) + ps.last().y
    }
}

/// The players' centre, each coordinate rounded down.
pub open spec fn centre(ps: Seq<Position>) -> Position {
    Position { x: (sum_x(ps) / ps.len() as int) as i32, y: (sum_y(ps) / ps.len() as int) as i32 }
}

/// The anchor after the players have moved: it jumps to their centre once that is
/// more than `CAMERA_SLACK` away, and stays put when there are no players.
pub open spec fn anchored(ps: Seq<Position>, anchor: Position) -> Position {
    if ps.len() > 0 && dist_sq(centre(ps), anchor) > CAMERA_SLACK * CAMERA_SLACK {
        centre(ps)
    } else {
        anchor
    }
}

/// A camera coordinate moved toward its anchor coordinate by the gap times `dt`
/// seconds (rounded toward zero).
pub open spec fn glide(c: int, a: int, dt: u64) -> i32 {
    let gap = a - c;
    let step = if gap >= 0 {
        gap * dt / (SECOND as int)
    } else {
        -((-gap) * dt / (SECOND as int))
    };
    clamp_i32(c + step)
}

proof fn lemma_floor_bounds(s: int, n: int, lo: int, hi: int)
    requires
        n >= 1,
        n * lo <= s <= n * hi,
    ensures
        lo <= s / n <= hi,
{
    vstd::arithmetic::div_mod::lemma_fundamental_div_mod(s, n);
    assert(lo <= s / n <= hi) by (nonlinear_arith)
        requires
            n >= 1,
            n * lo <= s <= n * hi,
            s == n * (s / n) + s % n,
            0 <= s % n < n,
    ;
}

fn floor_div(s: i128, n: u64) -> (r: i128)
    requires
        n >= 1,
        -0x1_0000_0000_0000_0000_0000_0000 <= s <= 0x1_0000_0000_0000_0000_0000_0000,
    ensures
        r == (s as int) / (n as int),
{
    if s >= 0 {
        proof {
            vstd::arithmetic::div_mod::lemma_div_pos_is_pos(s as int, n as int);
            vstd::arithmetic::div_mod::lemma_div_is_ordered_by_denominator(s as int, 1, n as int);
        }
        ((s as u128) / (n as u128)) as i128
    } else {
        let m: u128 = (-s) as u128;
        let q: u128 = (m + (n as u128) - 1) / (n as u128);
        proof {
            let mi = m as int;
            let ni = n as int;
            let qi = q as int;
            vstd::arithmetic::div_mod::lemma_fundamental_div_mod(mi + ni - 1, ni);
            let r = (mi + ni - 1) % ni;
            assert(mi + ni - 1 == ni * qi + r);
            vstd::arithmetic::div_mod::lemma_mod_pos_bound(mi + ni - 1, ni);
            assert(-mi == ni * (-qi) + (ni - 1 - r)) by (nonlinear_arith)
                requires
                    mi + ni - 1 == ni * qi + r,
            ;
            vstd::arithmetic::div_mod::lemma_fundamental_div_mod_converse(
                -mi,
                ni,
                -qi,
                ni - 1 - r,
            );
            assert(qi <= mi + ni) by (nonlinear_arith)
                requires
                    mi + ni - 1 == ni * qi + r,
                    0 <= r,
                    ni >= 1,
                    qi >= 0,
            ;
        }
        -(q as i128)
    }
}

/// Keeps the camera anchor with the players, and moves the camera toward it; the
/// new camera position comes back.
pub fn follow_camera(players: &Vec<Position>, data: &mut GameData, camera: Position, dt: u64) -> (r: Position)
    ensures
        *final(data) == (GameData { camera_pos: anchored(players@, old(data).camera_pos), ..*old(data) }),
        r == (Position {
            x: glide(camera.x as int, final(data).camera_pos.x as int, dt),
            y: glide(camera.y as int, final(data).camera_pos.y as int, dt),
        }),
{
    let n = players.len();
    if n > 0 {
        let mut sx: i128 = 0;
        let mut sy: i128 = 0;
        let mut i: usize = 0;
        while i < n
            invariant
                n == players@.len(),
                i <= n,
                sx == sum_x(players@.subrange(0, i as int)),
                sy == sum_y(players@.subrange(0, i as int)),
                (i as int) * (i32::MIN as int) <= sx <= (i as int) * (i32::MAX as int),
                (i as int) * (i32::MIN as int) <= sy <= (i as int) * (i32::MAX as int),
            decreases n - i,
        {
            proof {
                assert(players@.subrange(0, i + 1).drop_last() =~= players@.subrange(0, i as int));
            }
            sx = sx + players[i].x as i128;
            sy = sy + players[i].y as i128;
            i = i + 1;
        }
        proof {
            assert(players@.subrange(0, n as int) =~= players@);
            lemma_floor_bounds(sx as int, n as int, i32::MIN as int, i32::MAX as int);
            lemma_floor_bounds(sy as int, n as int, i32::MIN as int, i32::MAX as int);
        }
        let cx = floor_div(sx, n as u64);
        let cy = floor_div(sy, n as u64);
        let centre = Position { x: cx as i32, y: cy as i32 };
        if distance_sq(centre, data.camera_pos) > (CAMERA_SLACK * CAMERA_SLACK) as u128 {
            data.camera_pos = centre;
        }
    }
    let anchor = data.camera_pos;
    Position { x: glide_coord(camera.x, anchor.x, dt), y: glide_coord(camera.y, anchor.y, dt) }
}

fn glide_coord(c: i32, a: i32, dt: u64) -> (r: i32)
    ensures
        r == glide(c as int, a as int, dt),
{
    let gap: i64 = a as i64 - c as i64;
    let m: u128 = if gap >= 0 {
        gap as u128
    } else {
        (-gap) as u128
    };
    proof {
        vstd::arithmetic::mul::lemma_mul_upper_bound(
            m as int,
            0x1_0000_0000,
            dt as int,
            u64::MAX as int,
        );
        vstd::arithmetic::mul::lemma_mul_nonnegative(m as int, dt as int);
        vstd::arithmetic::div_mod::lemma_div_is_ordered((m * dt) as int, 0x1_0000_0000 * u64::MAX, SECOND as int);
    }
    let q: u128 = m * (dt as u128) / (SECOND as u128);
    let step: i128 = if gap >= 0 {
        q as i128
    } else {
        -(q as i128)
    };
    let v: i128 = c as i128 + step;
    if v < i32::MIN as i128 {
        i32::MIN
    } else if v > i32::MAX as i128 {
        i32::MAX
    } else {
        v as i32
    }
}

} // verus!
