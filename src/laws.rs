use vstd::prelude::*;
use crate::collision::{flagged_after, hit_after, touching, Body};
use crate::entities::{Asteroid, Bullet};
use crate::game::{bonus_due, bonus_lives, LIFE_SCORE};
use crate::geometry::{wrap_coord, Vec2, Viewport};

verus! {

/// A position off the screen on one axis only is moved to the opposite bound
/// of that axis, and its other coordinate is kept.
pub proof fn wrap_moves_one_axis(p: Vec2, vp: Viewport)
    requires
        vp.wf(),
        p.x < 0 || p.x > vp.width,
        0 <= p.y <= vp.height,
    ensures
        wrap_coord(p.x as int, vp.width as int) == if p.x < 0 {
            vp.width as int
        } else {
            0
        },
        wrap_coord(p.y as int, vp.height as int) == p.y,
{
}

/// One asteroid and one bullet, neither flagged before a collision pass: after
/// it both are flagged when their circles overlap, and neither is otherwise.
pub proof fn collision_flags_both_or_neither(a: Asteroid, b: Bullet, a2: Asteroid, b2: Bullet)
    requires
        !a.collided,
        !b.collided,
        flagged_after(a, a2, seq![b]),
        hit_after(b, b2, seq![a]),
    ensures
        a2.collided == touching(a, b),
        b2.collided == touching(a, b),
{
    if touching(a, b) {
        assert(seq![b][0] == b);
        assert(seq![a][0] == a);
    }
}

/// Crossing one life threshold makes one bonus due; once it is granted (the
/// count of rewarded thresholds grows by one) the same score makes none due.
pub proof fn bonus_life_once_per_threshold(lives_awarded: int, score: int)
    requires
        0 <= lives_awarded,
        0 <= score,
        score / LIFE_SCORE as int == lives_awarded + 1,
    ensures
        bonus_lives(lives_awarded, score) == 1,
        !bonus_due(lives_awarded + 1, score),
        bonus_lives(lives_awarded + 1, score) == 0,
{
}

} // verus!
