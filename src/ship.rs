use vstd::prelude::*;
use crate::collision::{move_wrapped, moved};
use crate::geometry::{
    advance, advanced, bounded, cosine, cosine_of, dist_sq, div_toward_zero, heading, heading_of,
    int_sqrt, is_root, isqrt, normalize, normalized, scale, scaled, squared_distance, tdiv, vec2,
    Vec2, Viewport, MAX_EXTENT, MAX_TICK_MICROS, MICROS_PER_SECOND, TURN, UNIT,
};
use crate::rng::random_screen_position;
use crate::spawn::timer_add;

verus! {

pub const SHIP_WIDTH: i64 = 22_000;
pub const SHIP_HEIGHT: i64 = 28_000;
pub const SHIP_COLLISION_RADIUS: i64 = 10_000;
/// Hundredths of a degree per second.
pub const SHIP_ROTATION_SPEED: u64 = 14_400;
pub const SHIP_MAX_SPEED: i64 = 80_000;
pub const SHIP_ACCELERATION: i64 = 200_000;
/// Drag is `-vel * |vel| / SHIP_DRAG_DIVISOR`, in units per second squared.
pub const SHIP_DRAG_DIVISOR: i64 = 50_000;
pub const SHIP_HYPERSPACE_COOLDOWN: u64 = 2_000_000;
pub const SHIP_HYPERSPACE_MIN_DISTANCE: i64 = 100_000;
pub const SHIP_HYPERSPACE_SPEED: i64 = 300_000;
pub const SHIP_SHIELD_TIME: u64 = 3_000_000;
/// Longest hyperspace transit, in microseconds.
pub const MAX_TRANSIT: u64 = 2_000_000_000;
/// Largest velocity component any moving entity holds between ticks.
pub const SPEED_BOUND: i64 = 400_000;
/// Opacity is measured in thousandths.
pub const OPAQUE: u64 = 1000;
/// One period of the flicker of a ship in transit or shielded, in microseconds
/// (twenty radians per second).
pub const FLICKER_PERIOD: u64 = 314_159;
/// Destinations drawn for one hyperspace jump before it is given up.
pub const HYPERSPACE_ATTEMPTS: u64 = 64;

/// Opacity of a flickering outline `t` microseconds into its flicker:
/// `0.5 + 0.5 * cos(20 t)`, in thousandths.
pub open spec fn flicker_alpha(t: int) -> int {
    let a = (t % FLICKER_PERIOD as int) * TURN / FLICKER_PERIOD as int;
    500 + tdiv(cosine(a) * 500, UNIT as int)
}

pub fn flicker(t: u64) -> (r: u64)
    ensures
        r == flicker_alpha(t as int),
        r <= OPAQUE,
{
    let phase = t % FLICKER_PERIOD;
    proof {
        assert(phase * TURN / (FLICKER_PERIOD as int) < TURN) by (nonlinear_arith)
            requires
                phase < FLICKER_PERIOD,
        ;
    }
    let c = cosine_of(phase * TURN / FLICKER_PERIOD);
    proof {
        assert(-500 * UNIT <= c * 500 <= 500 * UNIT) by (nonlinear_arith)
            requires
                -UNIT <= c <= UNIT,
        ;
        crate::geometry::lemma_tdiv_bound(c * 500, UNIT as int, 500);
    }
    (500 + div_toward_zero(c * 500, UNIT)) as u64
}

/// The rotation after turning for `dt` with the given keys held.
pub open spec fn turned_rotation(rot: int, left: bool, right: bool, dt: int) -> int {
    let step = (SHIP_ROTATION_SPEED * dt / MICROS_PER_SECOND as int) % TURN as int;
    let after_left = if left {
        (rot + TURN - step) % TURN as int
    } else {
        rot
    };
    if right {
        (after_left + step) % TURN as int
    } else {
        after_left
    }
}

/// Drag opposes the velocity with a magnitude that grows with the square of the speed.
pub open spec fn drag(v: Vec2) -> Vec2 {
    let l = isqrt(v.x * v.x + v.y * v.y);
    vec2(-tdiv(v.x * l, SHIP_DRAG_DIVISOR as int), -tdiv(v.y * l, SHIP_DRAG_DIVISOR as int))
}

/// A velocity faster than the ship's top speed is cut back to that speed.
pub open spec fn clamp_speed(v: Vec2) -> Vec2 {
    if v.x * v.x + v.y * v.y > SHIP_MAX_SPEED * SHIP_MAX_SPEED {
        scaled(normalized(v), SHIP_MAX_SPEED as int)
    } else {
        v
    }
}

/// The ship after its shield timer runs for `dt`.
pub open spec fn shield_updated(ship: Ship, dt: u64) -> Ship {
    if ship.state == ShipState::Shielded {
        let t = timer_add(ship.shield_time, dt);
        Ship {
            shield_time: t,
            state: if t > SHIP_SHIELD_TIME {
                ShipState::Normal
            } else {
                ShipState::Shielded
            },
            ..ship
        }
    } else {
        ship
    }
}

/// The ship after flying under control for `dt`.
pub open spec fn steered(
    ship: Ship,
    left: bool,
    right: bool,
    thrust: bool,
    dt: u64,
    vp: Viewport,
) -> Ship {
    let rot = turned_rotation(ship.rot as int, left, right, dt as int);
    let acc = if thrust {
        scaled(heading(rot), SHIP_ACCELERATION as int)
    } else {
        drag(ship.vel)
    };
    let vel = clamp_speed(advanced(ship.vel, acc, dt as int));
    Ship { rot: rot as u64, acc, vel, pos: moved(ship.pos, vel, dt as int, vp), ..ship }
}

/// The hyperspace transit time over a distance, in microseconds.
pub open spec fn transit_time(dist: int) -> int {
    dist * MICROS_PER_SECOND / SHIP_HYPERSPACE_SPEED as int
}

/// A straight move from `from` to `to` over `duration` microseconds.
#[derive(Clone, Copy, Debug, PartialEq, Eq, Structural)]
pub struct Translation {
    pub from: Vec2,
    pub to: Vec2,
    pub duration: u64,
    pub current_time: u64,
}

impl Translation {
    pub open spec fn wf(&self) -> bool {
        &&& bounded(self.from, MAX_EXTENT as int)
        &&& bounded(self.to, MAX_EXTENT as int)
        &&& 0 < self.duration <= MAX_TRANSIT
        &&& self.current_time <= self.duration
    }

    /// The point reached after `current_time` of the move.
    pub open spec fn spec_get(&self) -> Vec2 {
        Vec2 {
            x: (self.from.x + tdiv(
                (self.to.x - self.from.x) * self.current_time,
                self.duration as int,
            )) as i64,
            y: (self.from.y + tdiv(
                (self.to.y - self.from.y) * self.current_time,
                self.duration as int,
            )) as i64,
        }
    }

    proof fn lemma_part(d: int, t: int, dur: int)
        requires
            -2 * MAX_EXTENT <= d <= 2 * MAX_EXTENT,
            0 <= t <= dur,
            0 < dur <= MAX_TRANSIT,
        ensures
            -2 * MAX_EXTENT * MAX_TRANSIT <= d * t <= 2 * MAX_EXTENT * MAX_TRANSIT,
            -2 * MAX_EXTENT <= tdiv(d * t, dur) <= 2 * MAX_EXTENT,
            d >= 0 ==> 0 <= tdiv(d * t, dur) <= d,
            d < 0 ==> d <= tdiv(d * t, dur) <= 0,
    {
        if d >= 0 {
            assert(0 <= d * t <= d * dur) by (nonlinear_arith)
                requires
                    0 <= d,
                    0 <= t <= dur,
            ;
            vstd::arithmetic::div_mod::lemma_div_is_ordered(d * t, d * dur, dur);
            vstd::arithmetic::div_mod::lemma_div_by_multiple(d, dur);
            vstd::arithmetic::div_mod::lemma_div_pos_is_pos(d * t, dur);
        } else {
            assert(0 <= -(d * t) <= (-d) * dur) by (nonlinear_arith)
                requires
                    d < 0,
                    0 <= t <= dur,
            ;
            vstd::arithmetic::div_mod::lemma_div_is_ordered(-(d * t), (-d) * dur, dur);
            vstd::arithmetic::div_mod::lemma_div_by_multiple(-d, dur);
            vstd::arithmetic::div_mod::lemma_div_pos_is_pos(-(d * t), dur);
        }
        assert(-(2 * MAX_EXTENT) * dur <= d * t <= (2 * MAX_EXTENT) * dur) by (nonlinear_arith)
            requires
                -2 * MAX_EXTENT <= d <= 2 * MAX_EXTENT,
                0 <= t <= dur,
        ;
        assert(-2 * MAX_EXTENT * MAX_TRANSIT <= d * t <= 2 * MAX_EXTENT * MAX_TRANSIT)
            by (nonlinear_arith)
            requires
                -2 * MAX_EXTENT <= d <= 2 * MAX_EXTENT,
                0 <= t <= dur <= MAX_TRANSIT,
        ;
        crate::geometry::lemma_tdiv_bound(d * t, dur, 2 * MAX_EXTENT);
    }

    pub fn get(&self) -> (r: Vec2)
        requires
            self.wf(),
        ensures
            r == self.spec_get(),
            bounded(r, MAX_EXTENT as int),
    {
        let dx = self.to.x - self.from.x;
        let dy = self.to.y - self.from.y;
        proof {
            Self::lemma_part(dx as int, self.current_time as int, self.duration as int);
            Self::lemma_part(dy as int, self.current_time as int, self.duration as int);
        }
        let t = self.current_time as i64;
        let d = self.duration as i64;
        Vec2 {
            x: self.from.x + div_toward_zero(dx * t, d),
            y: self.from.y + div_toward_zero(dy * t, d),
        }
    }
}

#[derive(Clone, Copy, Debug, PartialEq, Eq, Structural)]
pub enum ShipState {
    Normal,
    Hyperdrive,
    Shielded,
}

impl ShipState {
    pub open spec fn spec_is_translating(&self) -> bool {
        *self == ShipState::Hyperdrive
    }

    pub open spec fn spec_is_invincible(&self) -> bool {
        *self != ShipState::Normal
    }

    pub fn is_translating(&self) -> (r: bool)
        ensures
            r == self.spec_is_translating(),
    {
        match self {
            ShipState::Hyperdrive => true,
            _ => false,
        }
    }

    pub fn is_invincible(&self) -> (r: bool)
        ensures
            r == self.spec_is_invincible(),
    {
        match self {
            ShipState::Normal => false,
            _ => true,
        }
    }
}

#[derive(Clone, Copy, Debug, PartialEq, Eq, Structural)]
pub struct Ship {
    pub pos: Vec2,
    /// Rotation, in hundredths of a degree, clockwise from straight up.
    pub rot: u64,
    pub vel: Vec2,
    pub acc: Vec2,
    /// Opacity of the tint, in thousandths.
    pub alpha: u64,
    pub state: ShipState,
    pub current_translation: Translation,
    pub shield_time: u64,
}

impl Ship {
    pub open spec fn wf(&self) -> bool {
        &&& bounded(self.pos, MAX_EXTENT as int)
        &&& self.rot < TURN
        &&& bounded(self.vel, SPEED_BOUND as int)
        &&& self.alpha <= OPAQUE
        &&& (self.state == ShipState::Hyperdrive ==> self.current_translation.wf())
    }

    /// A ship at rest in the middle of the screen, pointing up.
    pub fn new(vp: &Viewport) -> (r: Ship)
        requires
            vp.wf(),
        ensures
            r.wf(),
            r.pos.x == vp.width / 2,
            r.pos.y == vp.height / 2,
            r.rot == 0,
            r.vel == (Vec2 { x: 0, y: 0 }),
            r.state == ShipState::Normal,
            r.shield_time == 0,
            r.alpha == OPAQUE,
            r.acc == (Vec2 { x: 0, y: 0 }),
            r.current_translation == (Translation {
                from: Vec2 { x: 0, y: 0 },
                to: Vec2 { x: 0, y: 0 },
                duration: 0,
                current_time: 0,
            }),
    {
        let zero = Vec2 { x: 0, y: 0 };
        Ship {
            pos: Vec2 { x: vp.width / 2, y: vp.height / 2 },
            rot: 0,
            vel: zero,
            acc: zero,
            alpha: OPAQUE,
            state: ShipState::Normal,
            current_translation: Translation { from: zero, to: zero, duration: 0, current_time: 0 },
            shield_time: 0,
        }
    }

    /// The direction the nose points to, scaled to `UNIT`.
    pub fn get_unit_direction(&self) -> (r: Vec2)
        requires
            self.rot < TURN,
        ensures
            r == heading(self.rot as int),
            bounded(r, UNIT as int),
    {
        heading_of(self.rot)
    }

    /// While shielded, the shield timer runs; past the shield time the ship
    /// returns to normal.
    pub fn update_shield(&mut self, dt: u64)
        requires
            old(self).wf(),
        ensures
            final(self).wf(),
            *final(self) == shield_updated(*old(self), dt),
            old(self).state != ShipState::Shielded ==> *final(self) == *old(self),
            old(self).state == ShipState::Shielded ==> {
                let t = timer_add(old(self).shield_time, dt);
                &&& *final(self) == (Ship {
                    shield_time: t,
                    state: if t > SHIP_SHIELD_TIME {
                        ShipState::Normal
                    } else {
                        ShipState::Shielded
                    },
                    ..*old(self)
                })
            },
    {
        if let ShipState::Shielded = self.state {
            self.shield_time = self.shield_time.saturating_add(dt);
            if self.shield_time > SHIP_SHIELD_TIME {
                self.state = ShipState::Normal;
            }
        }
    }

    /// Flight under control: the keys turn the ship, thrust pushes it along its
    /// heading (or drag slows it), the speed is capped, and the ship moves and
    /// wraps onto the screen.
    pub fn steer(&mut self, left: bool, right: bool, thrust: bool, dt: u64, vp: &Viewport)
        requires
            old(self).wf(),
            dt <= MAX_TICK_MICROS,
            vp.wf(),
        ensures
            final(self).wf(),
            *final(self) == steered(*old(self), left, right, thrust, dt, *vp),
            final(self).rot == turned_rotation(old(self).rot as int, left, right, dt as int),
            final(self).acc == if thrust {
                scaled(heading(final(self).rot as int), SHIP_ACCELERATION as int)
            } else {
                drag(old(self).vel)
            },
            final(self).vel == clamp_speed(advanced(old(self).vel, final(self).acc, dt as int)),
            final(self).pos == moved(old(self).pos, final(self).vel, dt as int, *vp),
            final(self).state == old(self).state,
            final(self).shield_time == old(self).shield_time,
            final(self).alpha == old(self).alpha,
            final(self).current_translation == old(self).current_translation,
    {
        let step = (SHIP_ROTATION_SPEED * dt / (MICROS_PER_SECOND as u64)) % TURN;
        if left {
            self.rot = (self.rot + TURN - step) % TURN;
        }
        if right {
            self.rot = (self.rot + step) % TURN;
        }
        if thrust {
            let h = self.get_unit_direction();
            self.acc = scale(&h, SHIP_ACCELERATION);
        } else {
            self.acc = Self::drag_of(&self.vel);
        }
        let v = advance(&self.vel, &self.acc, dt);
        self.vel = Self::clamp(&v);
        move_wrapped(&mut self.pos, &self.vel, dt, vp);
    }

    fn drag_of(v: &Vec2) -> (r: Vec2)
        requires
            bounded(*v, SPEED_BOUND as int),
        ensures
            r == drag(*v),
            bounded(r, 10_000_000),
    {
        proof {
            crate::geometry::lemma_square_bound(v.x as int, SPEED_BOUND as int);
            crate::geometry::lemma_square_bound(v.y as int, SPEED_BOUND as int);
        }
        let l = int_sqrt((v.x * v.x + v.y * v.y) as u64) as i64;
        proof {
            if l > 600_000 {
                assert(l * l > 600_000 * 600_000) by (nonlinear_arith)
                    requires
                        l > 600_000,
                ;
            }
            assert(-600_000 * SPEED_BOUND * 1 <= v.x * l <= 600_000 * SPEED_BOUND) by (nonlinear_arith)
                requires
                    0 <= l <= 600_000,
                    -SPEED_BOUND <= v.x <= SPEED_BOUND,
            ;
            assert(-600_000 * SPEED_BOUND * 1 <= v.y * l <= 600_000 * SPEED_BOUND) by (nonlinear_arith)
                requires
                    0 <= l <= 600_000,
                    -SPEED_BOUND <= v.y <= SPEED_BOUND,
            ;
            crate::geometry::lemma_tdiv_bound(v.x * l, SHIP_DRAG_DIVISOR as int, 5_000_000);
            crate::geometry::lemma_tdiv_bound(v.y * l, SHIP_DRAG_DIVISOR as int, 5_000_000);
        }
        Vec2 {
            x: -div_toward_zero(v.x * l, SHIP_DRAG_DIVISOR),
            y: -div_toward_zero(v.y * l, SHIP_DRAG_DIVISOR),
        }
    }

    fn clamp(v: &Vec2) -> (r: Vec2)
        requires
            bounded(*v, 1_000_000_000),
        ensures
            r == clamp_speed(*v),
            bounded(r, 2 * SHIP_MAX_SPEED),
    {
        proof {
            crate::geometry::lemma_square_bound(v.x as int, 1_000_000_000);
            crate::geometry::lemma_square_bound(v.y as int, 1_000_000_000);
        }
        let n = v.x * v.x + v.y * v.y;
        if n > SHIP_MAX_SPEED * SHIP_MAX_SPEED {
            let d = normalize(v);
            scale(&d, SHIP_MAX_SPEED)
        } else {
            proof {
                assert(v.x * v.x <= SHIP_MAX_SPEED * SHIP_MAX_SPEED) by (nonlinear_arith)
                    requires
                        v.x * v.x + v.y * v.y <= SHIP_MAX_SPEED * SHIP_MAX_SPEED,
                ;
                assert(v.y * v.y <= SHIP_MAX_SPEED * SHIP_MAX_SPEED) by (nonlinear_arith)
                    requires
                        v.x * v.x + v.y * v.y <= SHIP_MAX_SPEED * SHIP_MAX_SPEED,
                ;
                assert(-SHIP_MAX_SPEED <= v.x <= SHIP_MAX_SPEED) by (nonlinear_arith)
                    requires
                        v.x * v.x <= SHIP_MAX_SPEED * SHIP_MAX_SPEED,
                ;
                assert(-SHIP_MAX_SPEED <= v.y <= SHIP_MAX_SPEED) by (nonlinear_arith)
                    requires
                        v.y * v.y <= SHIP_MAX_SPEED * SHIP_MAX_SPEED,
                ;
            }
            *v
        }
    }

    /// The ship after a jump toward `to` starts: in transit from where it is.
    pub open spec fn spec_jumped(&self, to: Vec2) -> Ship {
        Ship {
            state: ShipState::Hyperdrive,
            current_translation: Translation {
                from: self.pos,
                to,
                duration: transit_time(isqrt(dist_sq(self.pos, to))) as u64,
                current_time: 0,
            },
            ..*self
        }
    }

    /// Whether `to` is far enough for a hyperspace jump from `from`.
    pub open spec fn far_enough(from: Vec2, to: Vec2) -> bool {
        dist_sq(from, to) > SHIP_HYPERSPACE_MIN_DISTANCE * SHIP_HYPERSPACE_MIN_DISTANCE
    }

    /// Starts a hyperspace transit to `to` when it lies farther than the
    /// minimum distance; otherwise the ship stays as it is.
    pub fn jump_to(&mut self, to: &Vec2) -> (jumped: bool)
        requires
            old(self).wf(),
            bounded(*to, MAX_EXTENT as int),
        ensures
            final(self).wf(),
            jumped == Self::far_enough(old(self).pos, *to),
            jumped ==> *final(self) == old(self).spec_jumped(*to),
            !jumped ==> *final(self) == *old(self),
    {
        let d2 = squared_distance(&self.pos, to);
        if d2 > SHIP_HYPERSPACE_MIN_DISTANCE * SHIP_HYPERSPACE_MIN_DISTANCE {
            proof {
                crate::geometry::lemma_square_bound((self.pos.x - to.x) as int, 2 * MAX_EXTENT);
                crate::geometry::lemma_square_bound((self.pos.y - to.y) as int, 2 * MAX_EXTENT);
            }
            let dist = int_sqrt(d2 as u64) as i64;
            proof {
                if dist > 300_000_000 {
                    assert(dist * dist > 300_000_000 * 300_000_000) by (nonlinear_arith)
                        requires
                            dist > 300_000_000,
                    ;
                }
                if dist < SHIP_HYPERSPACE_MIN_DISTANCE {
                    assert((dist + 1) * (dist + 1) <= SHIP_HYPERSPACE_MIN_DISTANCE
                        * SHIP_HYPERSPACE_MIN_DISTANCE) by (nonlinear_arith)
                        requires
                            0 <= dist < SHIP_HYPERSPACE_MIN_DISTANCE,
                    ;
                }
            }
            let duration = (dist * MICROS_PER_SECOND / SHIP_HYPERSPACE_SPEED) as u64;
            self.current_translation = Translation { from: self.pos, to: *to, duration, current_time: 0 };
            self.state = ShipState::Hyperdrive;
            true
        } else {
            false
        }
    }

    /// Looks for a hyperspace destination: up to `HYPERSPACE_ATTEMPTS` random
    /// points of the screen are drawn, and the first farther than the minimum
    /// distance starts a transit there. When none is found the ship stays as it is.
    pub fn try_hyperspace(&mut self, vp: &Viewport) -> (jumped: bool)
        requires
            old(self).wf(),
            vp.wf(),
        ensures
            final(self).wf(),
            !jumped ==> *final(self) == *old(self),
            jumped ==> exists|to: Vec2|
                0 <= to.x < vp.width && 0 <= to.y < vp.height && Self::far_enough(old(self).pos, to)
                    && *final(self) == #[trigger] old(self).spec_jumped(to),
    {
        let mut tries: u64 = 0;
        while tries < HYPERSPACE_ATTEMPTS
            invariant
                *self == *old(self),
                self.wf(),
                vp.wf(),
            decreases HYPERSPACE_ATTEMPTS - tries,
        {
            let to = random_screen_position(vp);
            if self.jump_to(&to) {
                return true;
            }
            tries = tries + 1;
        }
        false
    }

    /// One step of a hyperspace transit: the ship is placed along the path and
    /// flickers; once the transit time has run out it stands exactly on the
    /// destination, in normal flight and fully opaque.
    pub fn hyperdrive_step(&mut self, dt: u64)
        requires
            old(self).wf(),
            old(self).state == ShipState::Hyperdrive,
        ensures
            final(self).wf(),
            ({
                let tr = old(self).current_translation;
                let t = timer_add(tr.current_time, dt);
                if t > tr.duration {
                    *final(self) == (Ship {
                        pos: tr.to,
                        alpha: OPAQUE,
                        state: ShipState::Normal,
                        current_translation: Translation { current_time: t, ..tr },
                        ..*old(self)
                    })
                } else {
                    *final(self) == (Ship {
                        pos: tr.spec_get(),
                        alpha: flicker_alpha(tr.current_time as int) as u64,
                        current_translation: Translation { current_time: t, ..tr },
                        ..*old(self)
                    })
                }
            }),
    {
        self.pos = self.current_translation.get();
        self.alpha = flicker(self.current_translation.current_time);
        self.current_translation.current_time = self.current_translation.current_time.saturating_add(dt);
        if self.current_translation.current_time > self.current_translation.duration {
            self.pos = self.current_translation.to;
            self.alpha = OPAQUE;
            self.state = ShipState::Normal;
        }
    }

    /// The three corners of the ship's outline: nose, left base, right base.
    pub open spec fn spec_tri(&self) -> (Vec2, Vec2, Vec2) {
        let h = heading(self.rot as int);
        let s = h.x as int;
        let c = -(h.y as int);
        let len = SHIP_HEIGHT - SHIP_COLLISION_RADIUS;
        let half = SHIP_WIDTH / 2;
        let p = |k: int, l: int| tdiv(k * l, UNIT as int);
        (
            Vec2 {
                x: (self.pos.x + p(s, len)) as i64,
                y: (self.pos.y - p(c, len)) as i64,
            },
            Vec2 {
                x: (self.pos.x - p(c, half) - p(s, SHIP_COLLISION_RADIUS as int)) as i64,
                y: (self.pos.y - p(s, half) + p(c, SHIP_COLLISION_RADIUS as int)) as i64,
            },
            Vec2 {
                x: (self.pos.x + p(c, half) - p(s, SHIP_COLLISION_RADIUS as int)) as i64,
                y: (self.pos.y + p(s, half) + p(c, SHIP_COLLISION_RADIUS as int)) as i64,
            },
        )
    }

    pub fn get_tri(&self) -> (r: (Vec2, Vec2, Vec2))
        requires
            self.wf(),
        ensures
            r == self.spec_tri(),
    {
        let h = self.get_unit_direction();
        let len = SHIP_HEIGHT - SHIP_COLLISION_RADIUS;
        let half = SHIP_WIDTH / 2;
        let nose = scale(&h, len);
        let side = Vec2 { x: -h.y, y: h.x };
        let across = scale(&side, half);
        let back = scale(&h, SHIP_COLLISION_RADIUS);
        (
            Vec2 { x: self.pos.x + nose.x, y: self.pos.y + nose.y },
            Vec2 { x: self.pos.x - across.x - back.x, y: self.pos.y - across.y - back.y },
            Vec2 { x: self.pos.x + across.x - back.x, y: self.pos.y + across.y - back.y },
        )
    }
}

} // verus!
