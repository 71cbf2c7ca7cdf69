use vstd::prelude::*;
use crate::geometry::{bounded, direction, UNIT, direction_of, Vec2, Viewport, TURN};

verus! {

/// Relies on `macroquad::rand::gen_range` (quad-rand's global generator): on
/// integers, with a low bound of zero and a high bound `n > 0`, the draw lies in
/// `[0, n)`.
#[verifier::external_body]
fn gen_below(n: u32) -> (r: u32)
    requires
        n > 0,
    ensures
        r < n,
{
    macroquad::rand::gen_range(0u32, n)
}

/// A uniform draw in `[lo, hi)`, or `lo` itself when the range is empty.
pub fn random_in(lo: u64, hi: u64) -> (r: u64)
    requires
        lo <= hi,
        hi - lo <= u32::MAX,
    ensures
        lo <= r,
        lo < hi ==> r < hi,
        lo == hi ==> r == lo,
{
    if lo == hi {
        lo
    } else {
        lo + gen_below((hi - lo) as u32) as u64
    }
}

/// A random angle in `[0, TURN)`.
pub fn random_angle() -> (r: u64)
    ensures
        r < TURN,
{
    random_in(0, TURN)
}

/// A point on the circle of directions, at a random angle.
pub fn random_unit_vector() -> (r: Vec2)
    ensures
        exists|a: int| 0 <= a < TURN && r == direction(a),
        bounded(r, UNIT as int),
{
    let a = random_angle();
    direction_of(a)
}

pub open spec fn on_screen(p: Vec2, vp: Viewport) -> bool {
    0 <= p.x <= vp.width && 0 <= p.y <= vp.height
}

/// A point on one of the four edges of the screen.
pub open spec fn on_edge(p: Vec2, vp: Viewport) -> bool {
    on_screen(p, vp) && (p.x == 0 || p.x == vp.width || p.y == 0 || p.y == vp.height)
}

/// A random point of the screen.
pub fn random_screen_position(vp: &Viewport) -> (r: Vec2)
    requires
        vp.wf(),
    ensures
        0 <= r.x < vp.width,
        0 <= r.y < vp.height,
{
    let x = random_in(0, vp.width as u64);
    let y = random_in(0, vp.height as u64);
    Vec2 { x: x as i64, y: y as i64 }
}

/// A random point on a random edge of the screen.
pub fn random_screen_edge_position(vp: &Viewport) -> (r: Vec2)
    requires
        vp.wf(),
    ensures
        on_edge(r, *vp),
{
    let side = random_in(0, 4);
    if side == 0 {
        let x = random_in(0, vp.width as u64);
        Vec2 { x: x as i64, y: 0 }
    } else if side == 1 {
        let y = random_in(0, vp.height as u64);
        Vec2 { x: vp.width, y: y as i64 }
    } else if side == 2 {
        let x = random_in(0, vp.width as u64);
        Vec2 { x: x as i64, y: vp.height }
    } else {
        let y = random_in(0, vp.height as u64);
        Vec2 { x: 0, y: y as i64 }
    }
}

} // verus!
