use vstd::prelude::*;
use crate::entities::{Asteroid, Bullet, Saucer, SaucerBullet, BULLET_SIZE, SAUCER_BULLET_TTL};
use crate::geometry::{
    advance, advanced, bounded, circles_overlap, overlap, vec2, wrap_coord, wrap_screen, Vec2,
    Viewport, MAX_EXTENT, MAX_TICK_MICROS,
};
use crate::ship::{Ship, SHIP_COLLISION_RADIUS};
use crate::spawn::timer_add;

verus! {

/// A position moved along a velocity for `dt`, then wrapped onto the screen.
pub open spec fn moved(p: Vec2, v: Vec2, dt: int, vp: Viewport) -> Vec2 {
    let a = advanced(p, v, dt);
    vec2(wrap_coord(a.x as int, vp.width as int), wrap_coord(a.y as int, vp.height as int))
}

/// Moves `p` along `v` for `dt` and wraps it onto the screen.
pub fn move_wrapped(p: &mut Vec2, v: &Vec2, dt: u64, vp: &Viewport)
    requires
        bounded(*old(p), MAX_EXTENT as int),
        bounded(*v, crate::ship::SPEED_BOUND as int),
        dt <= MAX_TICK_MICROS,
        vp.wf(),
    ensures
        *final(p) == moved(*old(p), *v, dt as int, *vp),
        bounded(*final(p), MAX_EXTENT as int),
{
    let mut a = advance(p, v, dt);
    wrap_screen(&mut a, vp);
    *p = a;
}

/// An entity that moves with the screen's wrap and takes part in collisions as
/// a circle, with a flag that marks it for removal.
pub trait Body: Sized {
    spec fn inv(&self) -> bool;

    spec fn center(&self) -> Vec2;

    spec fn radius(&self) -> int;

    spec fn flagged(&self) -> bool;

    /// The same entity with its flag raised.
    spec fn marked(&self) -> Self;

    /// The same entity after moving for `dt`.
    spec fn stepped(&self, dt: int, vp: Viewport) -> Self;

    proof fn lemma_inv(&self)
        requires
            self.inv(),
        ensures
            bounded(self.center(), MAX_EXTENT as int),
            0 <= self.radius() <= 100_000,
            self.marked().inv(),
            self.marked().flagged(),
            self.marked().center() == self.center(),
            self.marked().radius() == self.radius(),
            self.marked().marked() == self.marked(),
    ;

    fn center_of(&self) -> (r: Vec2)
        ensures
            r == self.center(),
    ;

    fn radius_of(&self) -> (r: i64)
        ensures
            r == self.radius(),
    ;

    fn is_flagged(&self) -> (r: bool)
        ensures
            r == self.flagged(),
    ;

    fn mark(&mut self)
        ensures
            *final(self) == old(self).marked(),
    ;

    fn step(&mut self, dt: u64, vp: &Viewport)
        requires
            old(self).inv(),
            dt <= MAX_TICK_MICROS,
            vp.wf(),
        ensures
            *final(self) == old(self).stepped(dt as int, *vp),
            final(self).inv(),
            final(self).center() == moved(
                old(self).center(),
                old(self).velocity(),
                dt as int,
                *vp,
            ),
            final(self).radius() == old(self).radius(),
            final(self).flagged() == old(self).flagged(),
    ;

    spec fn velocity(&self) -> Vec2;

    /// The entity leaves its collection at the end of the tick.
    spec fn gone(&self) -> bool;

    fn is_gone(&self) -> (r: bool)
        ensures
            r == self.gone(),
    ;
}

pub open spec fn all_inv<T: Body>(s: Seq<T>) -> bool {
    forall|i: int| 0 <= i < s.len() ==> (#[trigger] s[i]).inv()
}

/// Two bodies overlap.
pub open spec fn touching<A: Body, B: Body>(a: A, b: B) -> bool {
    circles_overlap(a.center(), a.radius(), b.center(), b.radius())
}

/// After one pass, `t` is flagged if it was or if it touches any of `others`.
pub open spec fn flagged_after<A: Body, B: Body>(old_t: A, t: A, others: Seq<B>) -> bool {
    t.flagged() == (old_t.flagged() || exists|j: int|
        0 <= j < others.len() && touching(old_t, #[trigger] others[j]))
}

/// After one pass, `b` is flagged if it was or if any of `targets` touches it.
pub open spec fn hit_after<A: Body, B: Body>(old_b: B, b: B, targets: Seq<A>) -> bool {
    b.flagged() == (old_b.flagged() || exists|k: int|
        0 <= k < targets.len() && touching(#[trigger] targets[k], old_b))
}

/// `new` is `old` with only the flags of some elements raised.
pub open spec fn only_flags_raised<T: Body>(old_s: Seq<T>, new_s: Seq<T>) -> bool {
    &&& new_s.len() == old_s.len()
    &&& forall|i: int|
        0 <= i < old_s.len() ==> #[trigger] new_s[i] == old_s[i] || new_s[i] == old_s[i].marked()
}

proof fn lemma_flags_keep_inv<T: Body>(old_s: Seq<T>, new_s: Seq<T>)
    requires
        all_inv(old_s),
        only_flags_raised(old_s, new_s),
    ensures
        all_inv(new_s),
{
    assert forall|i: int| 0 <= i < new_s.len() implies (#[trigger] new_s[i]).inv() by {
        old_s[i].lemma_inv();
    }
}

/// Moves every body of `v` for `dt`, wrapping them onto the screen.
pub fn move_all<T: Body>(v: &mut Vec<T>, dt: u64, vp: &Viewport)
    requires
        all_inv(old(v)@),
        dt <= MAX_TICK_MICROS,
        vp.wf(),
    ensures
        final(v)@.len() == old(v)@.len(),
        all_inv(final(v)@),
        forall|i: int|
            0 <= i < old(v)@.len() ==> #[trigger] final(v)@[i] == old(v)@[i].stepped(
                dt as int,
                *vp,
            ),
{
    let n = v.len();
    let mut i: usize = 0;
    while i < n
        invariant
            n == v@.len(),
            n == old(v)@.len(),
            i <= n,
            dt <= MAX_TICK_MICROS,
            vp.wf(),
            all_inv(old(v)@),
            forall|k: int| 0 <= k < i ==> #[trigger] v@[k] == old(v)@[k].stepped(dt as int, *vp),
            forall|k: int| 0 <= k < i ==> (#[trigger] v@[k]).inv(),
            forall|k: int| i <= k < n ==> #[trigger] v@[k] == old(v)@[k],
        decreases n - i,
    {
        assert(old(v)@[i as int].inv());
        v[i].step(dt, vp);
        i = i + 1;
    }
}

/// `t` touches one of `others`.
pub open spec fn touches_any<A: Body, B: Body>(t: A, others: Seq<B>) -> bool {
    exists|j: int| 0 <= j < others.len() && touching(t, #[trigger] others[j])
}

/// One of `hitters` touches `b`.
pub open spec fn touched_by_any<A: Body, B: Body>(b: B, hitters: Seq<A>) -> bool {
    exists|k: int| 0 <= k < hitters.len() && touching(#[trigger] hitters[k], b)
}

/// `s` with every body that touches one of `others` marked.
pub open spec fn struck<A: Body, B: Body>(s: Seq<A>, others: Seq<B>) -> Seq<A> {
    Seq::new(
        s.len(),
        |i: int|
            if touches_any(s[i], others) {
                s[i].marked()
            } else {
                s[i]
            },
    )
}

/// `s` with every body that one of `hitters` touches marked.
pub open spec fn struck_by<A: Body, B: Body>(s: Seq<B>, hitters: Seq<A>) -> Seq<B> {
    Seq::new(
        s.len(),
        |j: int|
            if touched_by_any(s[j], hitters) {
                s[j].marked()
            } else {
                s[j]
            },
    )
}

/// Marks every target and every bullet that touch one another. Flags are only
/// raised, and nothing else of either side changes.
pub fn collide_with_bullets<T: Body>(targets: &mut Vec<T>, bullets: &mut Vec<Bullet>)
    requires
        all_inv(old(targets)@),
        all_inv(old(bullets)@),
    ensures
        final(targets)@ == struck(old(targets)@, old(bullets)@),
        final(bullets)@ == struck_by(old(bullets)@, old(targets)@),
        only_flags_raised(old(targets)@, final(targets)@),
        only_flags_raised(old(bullets)@, final(bullets)@),
        all_inv(final(targets)@),
        all_inv(final(bullets)@),
        forall|i: int|
            0 <= i < old(targets)@.len() ==> flagged_after(
                old(targets)@[i],
                #[trigger] final(targets)@[i],
                old(bullets)@,
            ),
        forall|j: int|
            0 <= j < old(bullets)@.len() ==> hit_after(
                old(bullets)@[j],
                #[trigger] final(bullets)@[j],
                old(targets)@,
            ),
{
    let ghost ot = targets@;
    let ghost ob = bullets@;
    let nt = targets.len();
    let nb = bullets.len();
    let mut i: usize = 0;
    while i < nt
        invariant
            ot == old(targets)@,
            ob == old(bullets)@,
            nt == targets@.len() == ot.len(),
            nb == bullets@.len() == ob.len(),
            i <= nt,
            all_inv(ot),
            all_inv(ob),
            forall|k: int| i <= k < nt ==> #[trigger] targets@[k] == ot[k],
            forall|k: int|
                0 <= k < i ==> #[trigger] targets@[k] == if touches_any(ot[k], ob) {
                    ot[k].marked()
                } else {
                    ot[k]
                },
            forall|m: int|
                0 <= m < nb ==> #[trigger] bullets@[m] == if exists|k: int|
                    0 <= k < i && touching(#[trigger] ot[k], ob[m]) {
                    ob[m].marked()
                } else {
                    ob[m]
                },
        decreases nt - i,
    {
        let ghost t0 = ot[i as int];
        proof {
            t0.lemma_inv();
        }
        let c = targets[i].center_of();
        let r = targets[i].radius_of();
        let mut j: usize = 0;
        while j < nb
            invariant
                ot == old(targets)@,
                ob == old(bullets)@,
                nt == targets@.len() == ot.len(),
                nb == bullets@.len() == ob.len(),
                i < nt,
                j <= nb,
                t0 == ot[i as int],
                t0.inv(),
                c == t0.center(),
                r == t0.radius(),
                bounded(c, MAX_EXTENT as int),
                0 <= r <= 100_000,
                all_inv(ot),
                all_inv(ob),
                forall|k: int| i < k < nt ==> #[trigger] targets@[k] == ot[k],
                forall|k: int|
                    0 <= k < i ==> #[trigger] targets@[k] == if touches_any(ot[k], ob) {
                        ot[k].marked()
                    } else {
                        ot[k]
                    },
                targets@[i as int] == if exists|m: int| 0 <= m < j && touching(t0, #[trigger] ob[m]) {
                    t0.marked()
                } else {
                    t0
                },
                forall|m: int|
                    0 <= m < j ==> #[trigger] bullets@[m] == if exists|k: int|
                        0 <= k <= i && touching(#[trigger] ot[k], ob[m]) {
                        ob[m].marked()
                    } else {
                        ob[m]
                    },
                forall|m: int|
                    j <= m < nb ==> #[trigger] bullets@[m] == if exists|k: int|
                        0 <= k < i && touching(#[trigger] ot[k], ob[m]) {
                        ob[m].marked()
                    } else {
                        ob[m]
                    },
            decreases nb - j,
        {
            let ghost b0 = ob[j as int];
            proof {
                b0.lemma_inv();
                t0.lemma_inv();
            }
            let bc = bullets[j].center_of();
            proof {
                assert(bullets@[j as int].center() == b0.center());
            }
            let hit = overlap(&c, r, &bc, BULLET_SIZE);
            if hit {
                targets[i].mark();
                bullets[j].mark();
            }
            proof {
                assert(hit == touching(t0, b0));
                if hit {
                    assert(touching(ot[i as int], ob[j as int]));
                    assert(touching(t0, ob[j as int]));
                }
                assert forall|m: int| 0 <= m < j + 1 implies #[trigger] bullets@[m] == if exists|k: int|
                    0 <= k <= i && touching(#[trigger] ot[k], ob[m]) {
                    ob[m].marked()
                } else {
                    ob[m]
                } by {
                    if m == j {
                        if exists|k: int| 0 <= k < i && touching(#[trigger] ot[k], ob[m]) {
                            let k = choose|k: int| 0 <= k < i && touching(#[trigger] ot[k], ob[m]);
                            assert(0 <= k <= i && touching(ot[k], ob[m]));
                        }
                        if exists|k: int| 0 <= k <= i && touching(#[trigger] ot[k], ob[m]) {
                            let k = choose|k: int| 0 <= k <= i && touching(#[trigger] ot[k], ob[m]);
                            if k < i {
                                assert(0 <= k < i && touching(ot[k], ob[m]));
                            }
                        }
                    }
                }
                if exists|m: int| 0 <= m < j + 1 && touching(t0, #[trigger] ob[m]) {
                    let m = choose|m: int| 0 <= m < j + 1 && touching(t0, #[trigger] ob[m]);
                    if m < j {
                        assert(0 <= m < j && touching(t0, ob[m]));
                    }
                }
            }
            j = j + 1;
        }
        proof {
            assert forall|m: int| 0 <= m < nb implies #[trigger] bullets@[m] == if exists|k: int|
                0 <= k < i + 1 && touching(#[trigger] ot[k], ob[m]) {
                ob[m].marked()
            } else {
                ob[m]
            } by {
                if exists|k: int| 0 <= k <= i && touching(#[trigger] ot[k], ob[m]) {
                    let k = choose|k: int| 0 <= k <= i && touching(#[trigger] ot[k], ob[m]);
                    assert(0 <= k < i + 1 && touching(ot[k], ob[m]));
                }
            }
            if touches_any(t0, ob) {
                let m = choose|m: int| 0 <= m < ob.len() && touching(t0, #[trigger] ob[m]);
                assert(0 <= m < nb && touching(t0, ob[m]));
            }
        }
        i = i + 1;
    }
    proof {
        assert(targets@ =~= struck(ot, ob));
        assert forall|m: int| 0 <= m < nb implies #[trigger] bullets@[m] == struck_by(ob, ot)[m] by {
            if touched_by_any(ob[m], ot) {
                let k = choose|k: int| 0 <= k < ot.len() && touching(#[trigger] ot[k], ob[m]);
                assert(0 <= k < nt && touching(ot[k], ob[m]));
            }
        }
        assert(bullets@ =~= struck_by(ob, ot));
        assert forall|k: int| 0 <= k < nt implies #[trigger] targets@[k] == ot[k] || targets@[k]
            == ot[k].marked() by {}
        assert forall|k: int| 0 <= k < nb implies #[trigger] bullets@[k] == ob[k] || bullets@[k]
            == ob[k].marked() by {}
        lemma_flags_keep_inv(ot, targets@);
        lemma_flags_keep_inv(ob, bullets@);
        assert forall|k: int| 0 <= k < nt implies flagged_after(ot[k], #[trigger] targets@[k], ob) by {
            ot[k].lemma_inv();
        }
        assert forall|k: int| 0 <= k < nb implies hit_after(ob[k], #[trigger] bullets@[k], ot) by {
            ob[k].lemma_inv();
            if touched_by_any(ob[k], ot) {
                let q = choose|q: int| 0 <= q < ot.len() && touching(#[trigger] ot[q], ob[k]);
                assert(0 <= q < ot.len() && touching(ot[q], ob[k]));
            }
        }
    }
}

/// The ship touches a hazard.
pub open spec fn touches_ship<T: Body>(ship: Ship, h: T) -> bool {
    circles_overlap(ship.pos, SHIP_COLLISION_RADIUS as int, h.center(), h.radius())
}

/// `s` after the ship's test: every hazard it touches is marked, unless it is
/// invincible.
pub open spec fn ship_struck<T: Body>(ship: Ship, s: Seq<T>) -> Seq<T> {
    if ship.state.spec_is_invincible() {
        s
    } else {
        Seq::new(
            s.len(),
            |i: int|
                if touches_ship(ship, s[i]) {
                    s[i].marked()
                } else {
                    s[i]
                },
        )
    }
}

/// The ship, unless invincible, touches one of `s`.
pub open spec fn ship_touches_any<T: Body>(ship: Ship, s: Seq<T>) -> bool {
    !ship.state.spec_is_invincible() && exists|i: int|
        0 <= i < s.len() && touches_ship(ship, #[trigger] s[i])
}

/// Tests the ship against every hazard of `hazards`: each one it touches is
/// marked, and the result says whether any was. An invincible ship touches
/// nothing.
pub fn ship_hits<T: Body>(ship: &Ship, hazards: &mut Vec<T>) -> (hit: bool)
    requires
        ship.wf(),
        all_inv(old(hazards)@),
    ensures
        all_inv(final(hazards)@),
        only_flags_raised(old(hazards)@, final(hazards)@),
        final(hazards)@ == ship_struck(*ship, old(hazards)@),
        hit == ship_touches_any(*ship, old(hazards)@),
        ship.state.spec_is_invincible() ==> !hit && final(hazards)@ == old(hazards)@,
        !ship.state.spec_is_invincible() ==> {
            &&& hit == exists|i: int|
                0 <= i < old(hazards)@.len() && touches_ship(*ship, #[trigger] old(hazards)@[i])
            &&& forall|i: int|
                0 <= i < old(hazards)@.len() ==> #[trigger] final(hazards)@[i] == if touches_ship(
                    *ship,
                    old(hazards)@[i],
                ) {
                    old(hazards)@[i].marked()
                } else {
                    old(hazards)@[i]
                }
        },
{
    if ship.state.is_invincible() {
        return false;
    }
    let n = hazards.len();
    let mut hit = false;
    let mut i: usize = 0;
    while i < n
        invariant
            n == hazards@.len() == old(hazards)@.len(),
            i <= n,
            ship.wf(),
            all_inv(old(hazards)@),
            forall|k: int| i <= k < n ==> #[trigger] hazards@[k] == old(hazards)@[k],
            forall|k: int|
                0 <= k < i ==> #[trigger] hazards@[k] == if touches_ship(*ship, old(hazards)@[k]) {
                    old(hazards)@[k].marked()
                } else {
                    old(hazards)@[k]
                },
            hit == exists|k: int| 0 <= k < i && touches_ship(*ship, #[trigger] old(hazards)@[k]),
        decreases n - i,
    {
        let ghost h0 = old(hazards)@[i as int];
        proof {
            h0.lemma_inv();
        }
        let c = hazards[i].center_of();
        let r = hazards[i].radius_of();
        let touched = overlap(&ship.pos, SHIP_COLLISION_RADIUS, &c, r);
        if touched {
            hazards[i].mark();
            hit = true;
        }
        proof {
            assert(touched == touches_ship(*ship, h0));
            if touched {
                assert(touches_ship(*ship, old(hazards)@[i as int]));
            }
        }
        i = i + 1;
    }
    proof {
        assert forall|k: int| 0 <= k < n implies #[trigger] hazards@[k] == old(hazards)@[k]
            || hazards@[k] == old(hazards)@[k].marked() by {}
        lemma_flags_keep_inv(old(hazards)@, hazards@);
        assert(hazards@ =~= ship_struck(*ship, old(hazards)@));
    }
    hit
}

/// What of `s` stays at the end of a tick.
pub open spec fn survivors<T: Body>(s: Seq<T>) -> Seq<T> {
    s.filter(|t: T| !t.gone())
}

/// Removes every entity that is gone, keeping the order of the rest.
pub fn retain_survivors<T: Body>(v: &mut Vec<T>)
    requires
        all_inv(old(v)@),
    ensures
        final(v)@ == survivors(old(v)@),
        all_inv(final(v)@),
        final(v)@.len() <= old(v)@.len(),
        forall|i: int| 0 <= i < final(v)@.len() ==> !(#[trigger] final(v)@[i]).gone(),
{
    let ghost orig = v@;
    let mut kept: Vec<T> = Vec::new();
    let n = v.len();
    let mut k: usize = 0;
    while k < n
        invariant
            n == orig.len(),
            k <= n,
            orig == old(v)@,
            all_inv(orig),
            v@ == orig.skip(k as int),
            kept@ == survivors(orig.take(k as int)),
            all_inv(kept@),
            kept@.len() <= k,
            forall|i: int| 0 <= i < kept@.len() ==> !(#[trigger] kept@[i]).gone(),
        decreases n - k,
    {
        let t = v.remove(0);
        proof {
            assert(t == orig[k as int]);
            assert(orig.take(k as int + 1).drop_last() =~= orig.take(k as int));
            assert(orig.skip(k as int).remove(0) =~= orig.skip(k as int + 1));
        }
        let ghost before = kept@;
        if !t.is_gone() {
            kept.push(t);
        }
        proof {
            let s = orig.take(k as int + 1);
            reveal(Seq::filter);
            assert(s.last() == t);
            assert(survivors(s) == if !t.gone() {
                survivors(s.drop_last()).push(t)
            } else {
                survivors(s.drop_last())
            });
        }
        k = k + 1;
    }
    proof {
        assert(orig.take(n as int) =~= orig);
    }
    *v = kept;
}

impl Body for Asteroid {
    open spec fn inv(&self) -> bool {
        self.wf()
    }

    open spec fn center(&self) -> Vec2 {
        self.pos
    }

    open spec fn radius(&self) -> int {
        self.size.spec_size() as int
    }

    open spec fn flagged(&self) -> bool {
        self.collided
    }

    open spec fn marked(&self) -> Self {
        Asteroid {
            size: self.size,
            pos: self.pos,
            vel: self.vel,
            collided: true,
            vertices: self.vertices,
        }
    }

    open spec fn stepped(&self, dt: int, vp: Viewport) -> Self {
        Asteroid {
            size: self.size,
            pos: moved(self.pos, self.vel, dt, vp),
            vel: self.vel,
            collided: self.collided,
            vertices: self.vertices,
        }
    }

    open spec fn velocity(&self) -> Vec2 {
        self.vel
    }

    proof fn lemma_inv(&self) {
    }

    fn center_of(&self) -> (r: Vec2) {
        self.pos
    }

    fn radius_of(&self) -> (r: i64) {
        self.size.size()
    }

    fn is_flagged(&self) -> (r: bool) {
        self.collided
    }

    fn mark(&mut self) {
        self.collided = true;
    }

    open spec fn gone(&self) -> bool {
        self.collided
    }

    fn is_gone(&self) -> (r: bool) {
        self.collided
    }

    fn step(&mut self, dt: u64, vp: &Viewport) {
        move_wrapped(&mut self.pos, &self.vel, dt, vp);
    }
}

impl Body for Saucer {
    open spec fn inv(&self) -> bool {
        self.wf()
    }

    open spec fn center(&self) -> Vec2 {
        self.pos
    }

    open spec fn radius(&self) -> int {
        self.size.spec_size() as int
    }

    open spec fn flagged(&self) -> bool {
        self.collided
    }

    open spec fn marked(&self) -> Self {
        Saucer { collided: true, ..*self }
    }

    open spec fn stepped(&self, dt: int, vp: Viewport) -> Self {
        Saucer { pos: moved(self.pos, self.vel, dt, vp), ..*self }
    }

    open spec fn velocity(&self) -> Vec2 {
        self.vel
    }

    proof fn lemma_inv(&self) {
    }

    fn center_of(&self) -> (r: Vec2) {
        self.pos
    }

    fn radius_of(&self) -> (r: i64) {
        self.size.size()
    }

    fn is_flagged(&self) -> (r: bool) {
        self.collided
    }

    fn mark(&mut self) {
        self.collided = true;
    }

    open spec fn gone(&self) -> bool {
        self.collided
    }

    fn is_gone(&self) -> (r: bool) {
        self.collided
    }

    fn step(&mut self, dt: u64, vp: &Viewport) {
        move_wrapped(&mut self.pos, &self.vel, dt, vp);
    }
}

impl Body for Bullet {
    open spec fn inv(&self) -> bool {
        self.wf()
    }

    open spec fn center(&self) -> Vec2 {
        self.pos
    }

    open spec fn radius(&self) -> int {
        BULLET_SIZE as int
    }

    open spec fn flagged(&self) -> bool {
        self.collided
    }

    open spec fn marked(&self) -> Self {
        Bullet { collided: true, ..*self }
    }

    open spec fn stepped(&self, dt: int, vp: Viewport) -> Self {
        Bullet { pos: moved(self.pos, self.vel, dt, vp), ..*self }
    }

    open spec fn velocity(&self) -> Vec2 {
        self.vel
    }

    proof fn lemma_inv(&self) {
    }

    fn center_of(&self) -> (r: Vec2) {
        self.pos
    }

    fn radius_of(&self) -> (r: i64) {
        BULLET_SIZE
    }

    fn is_flagged(&self) -> (r: bool) {
        self.collided
    }

    fn mark(&mut self) {
        self.collided = true;
    }

    open spec fn gone(&self) -> bool {
        self.collided
    }

    fn is_gone(&self) -> (r: bool) {
        self.collided
    }

    fn step(&mut self, dt: u64, vp: &Viewport) {
        move_wrapped(&mut self.pos, &self.vel, dt, vp);
    }
}

impl Body for SaucerBullet {
    open spec fn inv(&self) -> bool {
        self.bullet.wf()
    }

    open spec fn center(&self) -> Vec2 {
        self.bullet.pos
    }

    open spec fn radius(&self) -> int {
        BULLET_SIZE as int
    }

    open spec fn flagged(&self) -> bool {
        self.bullet.collided
    }

    open spec fn marked(&self) -> Self {
        SaucerBullet { bullet: Bullet { collided: true, ..self.bullet }, ..*self }
    }

    /// A saucer's bullet ages as it moves; the age may pass its time to live
    /// until the end of the tick removes it.
    open spec fn stepped(&self, dt: int, vp: Viewport) -> Self {
        SaucerBullet {
            bullet: Bullet { pos: moved(self.bullet.pos, self.bullet.vel, dt, vp), ..self.bullet },
            age: timer_add(self.age, dt as u64),
        }
    }

    open spec fn velocity(&self) -> Vec2 {
        self.bullet.vel
    }

    proof fn lemma_inv(&self) {
    }

    fn center_of(&self) -> (r: Vec2) {
        self.bullet.pos
    }

    fn radius_of(&self) -> (r: i64) {
        BULLET_SIZE
    }

    fn is_flagged(&self) -> (r: bool) {
        self.bullet.collided
    }

    fn mark(&mut self) {
        self.bullet.collided = true;
    }

    /// A saucer's bullet also leaves once it has outlived its time to live.
    open spec fn gone(&self) -> bool {
        self.bullet.collided || self.age > SAUCER_BULLET_TTL
    }

    fn is_gone(&self) -> (r: bool) {
        self.bullet.collided || self.age > SAUCER_BULLET_TTL
    }

    fn step(&mut self, dt: u64, vp: &Viewport) {
        move_wrapped(&mut self.bullet.pos, &self.bullet.vel, dt, vp);
        self.age = self.age.saturating_add(dt);
    }
}

} // verus!
