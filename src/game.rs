use vstd::prelude::*;
use crate::collision::{
    all_inv, collide_with_bullets, move_all, retain_survivors, ship_hits, ship_struck,
    ship_touches_any, struck, struck_by, survivors, Body,
};
use crate::entities::{
    aimed_velocity, Asteroid, AsteroidType, Bullet, Particle, ParticleKind, Saucer, SaucerBullet,
    SaucerSize, BULLET_SPEED, MAX_PARTICLE_TTL, SAUCER_BULLET_TTL,
};
use crate::geometry::{
    bounded, direction, heading, scale, scaled, wrap_screen, Vec2, Viewport, MAX_EXTENT,
    MAX_TICK_MICROS, TURN,
};
use crate::rng::random_unit_vector;
use crate::ship::{
    shield_updated, steered, Ship, ShipState, SHIP_HYPERSPACE_COOLDOWN, SHIP_SHIELD_TIME,
    SPEED_BOUND,
};
use crate::spawn::{timer_add, Spawner, MAX_WAVE};

verus! {

pub const INITIAL_LIVES: u64 = 3;
/// Each multiple of this score grants one extra life.
pub const LIFE_SCORE: u64 = 10_000;
pub const BULLET_COOLDOWN: u64 = 200_000;
pub const MAX_BULLETS: usize = 4;
pub const SAUCER_SHOT_INTERVAL: u64 = 2_000_000;
pub const DEBRIS_PER_WRECK: usize = 3;
pub const DEBRIS_TTL: u64 = 1_500_000;
pub const DEBRIS_SPEED: i64 = 40_000;
pub const TRAIL_TTL: u64 = 200_000;
/// Thrust leaves a spark every this many frames, bullets a trail every `TRAIL_EVERY`.
pub const THRUST_EVERY: u64 = 5;
pub const TRAIL_EVERY: u64 = 10;
/// How far behind the ship's centre a thrust spark appears.
pub const THRUST_OFFSET: i64 = 7_000;

/// The controls held (or, for hyperspace, pressed) during one tick.
#[derive(Clone, Copy, Debug, PartialEq, Eq, Structural)]
pub struct Input {
    pub rotate_left: bool,
    pub rotate_right: bool,
    pub thrust: bool,
    pub fire: bool,
    pub hyperspace: bool,
}

pub open spec fn all_particles_wf(s: Seq<Particle>) -> bool {
    forall|i: int| 0 <= i < s.len() ==> (#[trigger] s[i]).wf()
}

/// Whether a shot leaves the ship this tick.
pub open spec fn fire_due(fire: bool, last_bullet: u64, alive: int) -> bool {
    fire && last_bullet > BULLET_COOLDOWN && alive < MAX_BULLETS
}

/// The bullet the ship fires: from its centre, along its heading.
pub open spec fn ship_bullet(ship: Ship) -> Bullet {
    Bullet {
        pos: ship.pos,
        vel: scaled(heading(ship.rot as int), BULLET_SPEED as int),
        collided: false,
    }
}

/// Fires a bullet when the key is held, the cooldown has passed and fewer than
/// the most bullets are in flight; firing restarts the cooldown.
pub fn fire_bullet(bullets: &mut Vec<Bullet>, last_bullet: &mut u64, ship: &Ship, fire: bool)
    requires
        ship.wf(),
        all_inv(old(bullets)@),
        old(bullets)@.len() <= MAX_BULLETS,
    ensures
        all_inv(final(bullets)@),
        final(bullets)@.len() <= MAX_BULLETS,
        fire_due(fire, *old(last_bullet), old(bullets)@.len() as int) ==> {
            &&& final(bullets)@ == old(bullets)@.push(ship_bullet(*ship))
            &&& *final(last_bullet) == 0
        },
        !fire_due(fire, *old(last_bullet), old(bullets)@.len() as int) ==> {
            &&& final(bullets)@ == old(bullets)@
            &&& *final(last_bullet) == *old(last_bullet)
        },
{
    if fire && *last_bullet > BULLET_COOLDOWN && bullets.len() < MAX_BULLETS {
        *last_bullet = 0;
        let h = ship.get_unit_direction();
        let b = Bullet { pos: ship.pos, vel: scale(&h, BULLET_SPEED), collided: false };
        bullets.push(b);
        proof {
            assert forall|i: int| 0 <= i < bullets@.len() implies (#[trigger] bullets@[i]).inv() by {
                if i < old(bullets)@.len() {
                    assert(old(bullets)@[i].inv());
                }
            }
        }
    }
}

/// A particle after living for `dt` more.
pub open spec fn aged(p: Particle, dt: u64) -> Particle {
    Particle { time: timer_add(p.time, dt), ..p }
}

pub open spec fn aged_all(s: Seq<Particle>, dt: u64) -> Seq<Particle> {
    s.map_values(|p: Particle| aged(p, dt))
}

/// Ages every particle by `dt` and drops those whose time to live has run out.
pub fn age_particles(particles: &mut Vec<Particle>, dt: u64)
    requires
        all_particles_wf(old(particles)@),
    ensures
        final(particles)@ == aged_all(old(particles)@, dt).filter(|p: Particle| p.time < p.ttl),
        all_particles_wf(final(particles)@),
{
    let ghost orig = particles@;
    let mut kept: Vec<Particle> = Vec::new();
    let n = particles.len();
    let mut i: usize = 0;
    while i < n
        invariant
            n == orig.len() == particles@.len(),
            orig == old(particles)@,
            i <= n,
            all_particles_wf(orig),
            all_particles_wf(kept@),
            kept@ == aged_all(orig.take(i as int), dt).filter(|p: Particle| p.time < p.ttl),
        decreases n - i,
    {
        let mut p = particles[i];
        p.time = p.time.saturating_add(dt);
        let ghost before = kept@;
        if p.time < p.ttl {
            kept.push(p);
        }
        proof {
            let s = aged_all(orig.take(i as int + 1), dt);
            assert(s.drop_last() =~= aged_all(orig.take(i as int), dt));
            assert(s.last() == p);
            reveal(Seq::filter);
            assert(orig[i as int].wf());
            assert forall|j: int| 0 <= j < kept@.len() implies (#[trigger] kept@[j]).wf() by {
                if j < before.len() {
                    assert(before[j].wf());
                }
            }
        }
        i = i + 1;
    }
    proof {
        assert(orig.take(n as int) =~= orig);
    }
    *particles = kept;
}

/// The number of flagged bodies in `s`.
pub open spec fn flagged_count<T: Body>(s: Seq<T>) -> int
    decreases s.len(),
{
    if s.len() == 0 {
        0
    } else {
        flagged_count(s.drop_last()) + if s.last().flagged() {
            1int
        } else {
            0int
        }
    }
}

/// A spark of debris from one of `wrecks`: it starts on a flagged body and
/// flies in some direction at the debris speed.
pub open spec fn debris_of<T: Body>(p: Particle, wrecks: Seq<T>, kind: ParticleKind) -> bool {
    &&& p.kind == kind
    &&& p.ttl == DEBRIS_TTL
    &&& p.time == 0
    &&& exists|i: int|
        0 <= i < wrecks.len() && wrecks[i].flagged() && p.origin == (#[trigger] wrecks[i]).center()
    &&& exists|a: int| 0 <= a < TURN && p.vel == #[trigger] scaled(direction(a), DEBRIS_SPEED as int)
}

/// Bursts of debris: `DEBRIS_PER_WRECK` sparks fly from each flagged body in
/// random directions.
pub fn spawn_debris<T: Body>(particles: &mut Vec<Particle>, wrecks: &Vec<T>, kind: ParticleKind)
    requires
        all_particles_wf(old(particles)@),
        all_inv(wrecks@),
    ensures
        all_particles_wf(final(particles)@),
        final(particles)@.len() == old(particles)@.len() + DEBRIS_PER_WRECK * flagged_count(
            wrecks@,
        ),
        final(particles)@.subrange(0, old(particles)@.len() as int) == old(particles)@,
        forall|j: int|
            old(particles)@.len() <= j < final(particles)@.len() ==> debris_of(
                #[trigger] final(particles)@[j],
                wrecks@,
                kind,
            ),
{
    let n = wrecks.len();
    let mut i: usize = 0;
    while i < n
        invariant
            n == wrecks@.len(),
            i <= n,
            all_inv(wrecks@),
            all_particles_wf(particles@),
            particles@.len() == old(particles)@.len() + DEBRIS_PER_WRECK * flagged_count(
                wrecks@.take(i as int),
            ),
            particles@.subrange(0, old(particles)@.len() as int) == old(particles)@,
            forall|j: int|
                old(particles)@.len() <= j < particles@.len() ==> debris_of(
                    #[trigger] particles@[j],
                    wrecks@,
                    kind,
                ),
        decreases n - i,
    {
        proof {
            assert(wrecks@.take(i as int + 1).drop_last() =~= wrecks@.take(i as int));
            wrecks@[i as int].lemma_inv();
            vstd::arithmetic::mul::lemma_mul_is_distributive_add(
                DEBRIS_PER_WRECK as int,
                flagged_count(wrecks@.take(i as int)),
                1,
            );
            assert(flagged_count(wrecks@.take(i as int)) >= 0) by {
                lemma_flagged_count_nonneg(wrecks@.take(i as int));
            }
            assert(flagged_count(wrecks@.take(i as int)) <= i) by {
                lemma_flagged_count_le(wrecks@.take(i as int));
            }
        }
        if wrecks[i].is_flagged() {
            let c = wrecks[i].center_of();
            let mut k: usize = 0;
            while k < DEBRIS_PER_WRECK
                invariant
                    k <= DEBRIS_PER_WRECK,
                    bounded(c, MAX_EXTENT as int),
                    all_particles_wf(particles@),
                    particles@.len() == old(particles)@.len() + DEBRIS_PER_WRECK * flagged_count(
                        wrecks@.take(i as int),
                    ) + k,
                    particles@.subrange(0, old(particles)@.len() as int) == old(particles)@,
                    flagged_count(wrecks@.take(i as int)) >= 0,
                    i < n,
                    n == wrecks@.len(),
                    wrecks@[i as int].flagged(),
                    c == wrecks@[i as int].center(),
                    forall|j: int|
                        old(particles)@.len() <= j < particles@.len() ==> debris_of(
                            #[trigger] particles@[j],
                            wrecks@,
                            kind,
                        ),
                decreases DEBRIS_PER_WRECK - k,
            {
                let d = random_unit_vector();
                let p = Particle {
                    kind,
                    ttl: DEBRIS_TTL,
                    time: 0,
                    origin: c,
                    vel: scale(&d, DEBRIS_SPEED),
                };
                let ghost before = particles@;
                particles.push(p);
                proof {
                    assert(particles@.subrange(0, old(particles)@.len() as int) =~= before.subrange(
                        0,
                        old(particles)@.len() as int,
                    ));
                    assert forall|j: int| 0 <= j < particles@.len() implies (
                    #[trigger] particles@[j]).wf() by {
                        if j < before.len() {
                            assert(before[j].wf());
                        }
                    }
                    let a = choose|a: int| 0 <= a < TURN && d == direction(a);
                    assert(p.vel == scaled(direction(a), DEBRIS_SPEED as int));
                    assert(wrecks@[i as int].flagged() && p.origin == wrecks@[i as int].center());
                    assert(debris_of(p, wrecks@, kind));
                    assert forall|j: int| old(particles)@.len() <= j < particles@.len() implies debris_of(
                        #[trigger] particles@[j],
                        wrecks@,
                        kind,
                    ) by {
                        if j < before.len() {
                            assert(debris_of(before[j], wrecks@, kind));
                        }
                    }
                }
                k = k + 1;
            }
        }
        i = i + 1;
    }
    proof {
        assert(wrecks@.take(n as int) =~= wrecks@);
    }
}

proof fn lemma_flagged_count_nonneg<T: Body>(s: Seq<T>)
    ensures
        flagged_count(s) >= 0,
    decreases s.len(),
{
    if s.len() > 0 {
        lemma_flagged_count_nonneg(s.drop_last());
    }
}

proof fn lemma_flagged_count_le<T: Body>(s: Seq<T>)
    ensures
        flagged_count(s) <= s.len(),
    decreases s.len(),
{
    if s.len() > 0 {
        lemma_flagged_count_le(s.drop_last());
    }
}

/// Resting sparks that mark where each of `items` is.
pub fn spawn_trails<T: Body>(particles: &mut Vec<Particle>, items: &Vec<T>, kind: ParticleKind)
    requires
        all_particles_wf(old(particles)@),
        all_inv(items@),
    ensures
        all_particles_wf(final(particles)@),
        final(particles)@.len() == old(particles)@.len() + items@.len(),
        final(particles)@.subrange(0, old(particles)@.len() as int) == old(particles)@,
        forall|j: int|
            0 <= j < items@.len() ==> #[trigger] final(particles)@[old(particles)@.len() + j] == (
            Particle {
                kind,
                ttl: TRAIL_TTL,
                time: 0,
                origin: items@[j].center(),
                vel: Vec2 { x: 0, y: 0 },
            }),
{
    let n = items.len();
    let mut i: usize = 0;
    while i < n
        invariant
            n == items@.len(),
            i <= n,
            all_inv(items@),
            all_particles_wf(particles@),
            particles@.len() == old(particles)@.len() + i,
            particles@.subrange(0, old(particles)@.len() as int) == old(particles)@,
            forall|j: int|
                0 <= j < i ==> #[trigger] particles@[old(particles)@.len() + j] == (Particle {
                    kind,
                    ttl: TRAIL_TTL,
                    time: 0,
                    origin: items@[j].center(),
                    vel: Vec2 { x: 0, y: 0 },
                }),
        decreases n - i,
    {
        proof {
            items@[i as int].lemma_inv();
        }
        let c = items[i].center_of();
        let p = Particle { kind, ttl: TRAIL_TTL, time: 0, origin: c, vel: Vec2 { x: 0, y: 0 } };
        let ghost before = particles@;
        particles.push(p);
        proof {
            assert(particles@.subrange(0, old(particles)@.len() as int) =~= before.subrange(
                0,
                old(particles)@.len() as int,
            ));
            assert forall|j: int| 0 <= j < particles@.len() implies (#[trigger] particles@[j]).wf() by {
                if j < before.len() {
                    assert(before[j].wf());
                }
            }
        }
        i = i + 1;
    }
}

/// Caps a count at the largest value a `u64` holds.
pub open spec fn saturated(n: int) -> int {
    if n > u64::MAX {
        u64::MAX as int
    } else {
        n
    }
}

/// The score of the flagged asteroids of `s`.
pub open spec fn asteroid_wreck_score(s: Seq<Asteroid>) -> int
    decreases s.len(),
{
    if s.len() == 0 {
        0
    } else {
        asteroid_wreck_score(s.drop_last()) + if s.last().collided {
            s.last().size.spec_score() as int
        } else {
            0
        }
    }
}

/// The score of the flagged saucers of `s`.
pub open spec fn saucer_wreck_score(s: Seq<Saucer>) -> int
    decreases s.len(),
{
    if s.len() == 0 {
        0
    } else {
        saucer_wreck_score(s.drop_last()) + if s.last().collided {
            s.last().size.spec_score() as int
        } else {
            0
        }
    }
}

proof fn lemma_wreck_scores_nonneg(a: Seq<Asteroid>, s: Seq<Saucer>)
    ensures
        asteroid_wreck_score(a) >= 0,
        saucer_wreck_score(s) >= 0,
    decreases a.len() + s.len(),
{
    if a.len() > 0 {
        lemma_wreck_scores_nonneg(a.drop_last(), s);
    } else if s.len() > 0 {
        lemma_wreck_scores_nonneg(a, s.drop_last());
    }
}

/// The points earned by the asteroids that were hit this tick.
pub fn asteroid_points(asteroids: &Vec<Asteroid>) -> (r: u64)
    ensures
        r == saturated(asteroid_wreck_score(asteroids@)),
{
    let n = asteroids.len();
    let mut total: u64 = 0;
    let mut i: usize = 0;
    while i < n
        invariant
            n == asteroids@.len(),
            i <= n,
            total == saturated(asteroid_wreck_score(asteroids@.take(i as int))),
        decreases n - i,
    {
        proof {
            assert(asteroids@.take(i as int + 1).drop_last() =~= asteroids@.take(i as int));
        }
        if asteroids[i].collided {
            total = total.saturating_add(asteroids[i].size.score());
        }
        i = i + 1;
    }
    proof {
        assert(asteroids@.take(n as int) =~= asteroids@);
    }
    total
}

/// The points earned by the saucers that were hit this tick.
pub fn saucer_points(saucers: &Vec<Saucer>) -> (r: u64)
    ensures
        r == saturated(saucer_wreck_score(saucers@)),
{
    let n = saucers.len();
    let mut total: u64 = 0;
    let mut i: usize = 0;
    while i < n
        invariant
            n == saucers@.len(),
            i <= n,
            total == saturated(saucer_wreck_score(saucers@.take(i as int))),
        decreases n - i,
    {
        proof {
            assert(saucers@.take(i as int + 1).drop_last() =~= saucers@.take(i as int));
        }
        if saucers[i].collided {
            total = total.saturating_add(saucers[i].size.score());
        }
        i = i + 1;
    }
    proof {
        assert(saucers@.take(n as int) =~= saucers@);
    }
    total
}

/// Whether the score has reached a multiple of `LIFE_SCORE` not yet rewarded.
pub open spec fn bonus_due(lives_awarded: int, score: int) -> bool {
    score / LIFE_SCORE as int > lives_awarded
}

/// The number of life thresholds the score has crossed beyond those rewarded.
pub open spec fn bonus_lives(lives_awarded: int, score: int) -> int {
    if bonus_due(lives_awarded, score) {
        score / LIFE_SCORE as int - lives_awarded
    } else {
        0
    }
}

/// Grants one extra life for each multiple of `LIFE_SCORE` the score has
/// crossed that has not been rewarded yet; the count of rewarded thresholds
/// keeps each from being granted twice.
pub fn award_bonus_life(lives: &mut u64, lives_awarded: &mut u64, score: u64)
    requires
        *old(lives) <= INITIAL_LIVES + *old(lives_awarded),
        *old(lives_awarded) <= score / LIFE_SCORE,
    ensures
        *final(lives) <= INITIAL_LIVES + *final(lives_awarded),
        *final(lives_awarded) == score / LIFE_SCORE,
        *final(lives) == *old(lives) + bonus_lives(*old(lives_awarded) as int, score as int),
        *final(lives_awarded) == *old(lives_awarded) + bonus_lives(
            *old(lives_awarded) as int,
            score as int,
        ),
{
    let reached = score / LIFE_SCORE;
    if reached > *lives_awarded {
        *lives = *lives + (reached - *lives_awarded);
        *lives_awarded = reached;
    }
}

/// The number of pieces the flagged asteroids of `s` break into.
pub open spec fn piece_count(s: Seq<Asteroid>) -> int
    decreases s.len(),
{
    if s.len() == 0 {
        0
    } else {
        piece_count(s.drop_last()) + if s.last().collided && s.last().size
            != AsteroidType::Small {
            2int
        } else {
            0int
        }
    }
}

/// What splitting decides of a piece: its class, position and velocity.
pub open spec fn stub(a: Asteroid) -> (AsteroidType, Vec2, Vec2) {
    (a.size, a.pos, a.vel)
}

pub open spec fn stubs(s: Seq<Asteroid>) -> Seq<(AsteroidType, Vec2, Vec2)> {
    s.map_values(|a: Asteroid| stub(a))
}

/// The pieces the flagged asteroids of `s` break into, in order, as stubs.
pub open spec fn piece_stubs(s: Seq<Asteroid>) -> Seq<(AsteroidType, Vec2, Vec2)>
    decreases s.len(),
{
    if s.len() == 0 {
        Seq::empty()
    } else {
        let rest = piece_stubs(s.drop_last());
        let a = s.last();
        if a.collided && a.size != AsteroidType::Small {
            let c = a.size.spec_smaller().unwrap();
            rest + seq![
                (c, a.pos, Asteroid::split_velocity_positive(a.vel, c)),
                (c, a.pos, Asteroid::split_velocity_negative(a.vel, c)),
            ]
        } else {
            rest
        }
    }
}

/// The pieces of every asteroid that was hit, in order.
pub fn split_wrecks(asteroids: &Vec<Asteroid>) -> (r: Vec<Asteroid>)
    requires
        all_inv(asteroids@),
    ensures
        r@.len() == piece_count(asteroids@),
        stubs(r@) == piece_stubs(asteroids@),
        all_inv(r@),
        forall|i: int| 0 <= i < r@.len() ==> !(#[trigger] r@[i]).collided,
{
    let n = asteroids.len();
    let mut out: Vec<Asteroid> = Vec::new();
    let mut i: usize = 0;
    while i < n
        invariant
            n == asteroids@.len(),
            i <= n,
            all_inv(asteroids@),
            out@.len() == piece_count(asteroids@.take(i as int)),
            stubs(out@) == piece_stubs(asteroids@.take(i as int)),
            all_inv(out@),
            forall|j: int| 0 <= j < out@.len() ==> !(#[trigger] out@[j]).collided,
        decreases n - i,
    {
        proof {
            assert(asteroids@.take(i as int + 1).drop_last() =~= asteroids@.take(i as int));
            assert(asteroids@[i as int].inv());
        }
        if asteroids[i].collided {
            let split = asteroids[i].split();
            match split {
                Some(mut pieces) => {
                    let ghost before = out@;
                    let ghost ps = pieces@;
                    out.append(&mut pieces);
                    proof {
                        assert(out@ == before + ps);
                        assert(stubs(out@) =~= stubs(before) + stubs(ps));
                        assert(stubs(ps) =~= seq![stub(ps[0]), stub(ps[1])]);
                        assert forall|j: int| 0 <= j < out@.len() implies (#[trigger] out@[j]).inv()
                            && !out@[j].collided by {
                            if j < before.len() {
                                assert(before[j].inv());
                                assert(!before[j].collided);
                            } else {
                                assert(ps[j - before.len()].wf());
                                assert(!ps[j - before.len()].collided);
                            }
                        }
                    }
                },
                None => {},
            }
        }
        i = i + 1;
    }
    proof {
        assert(asteroids@.take(n as int) =~= asteroids@);
    }
    out
}

/// A saucer's shot timer passes the shot interval this tick.
pub open spec fn shot_due(s: Saucer, dt: u64) -> bool {
    timer_add(s.last_shot, dt) > SAUCER_SHOT_INTERVAL
}

/// The number of saucers of `s` that fire this tick.
pub open spec fn due_count(s: Seq<Saucer>, dt: u64) -> int
    decreases s.len(),
{
    if s.len() == 0 {
        0
    } else {
        due_count(s.drop_last(), dt) + if shot_due(s.last(), dt) {
            1int
        } else {
            0int
        }
    }
}

proof fn lemma_due_count_grows(s: Seq<Saucer>, dt: u64, a: int, b: int)
    requires
        0 <= a <= b <= s.len(),
    ensures
        0 <= due_count(s.take(a), dt) <= due_count(s.take(b), dt),
        a < b && shot_due(s[a], dt) ==> due_count(s.take(a), dt) + 1 <= due_count(s.take(b), dt),
    decreases b - a,
{
    if a < b {
        lemma_due_count_grows(s, dt, a, b - 1);
        assert(s.take(b).drop_last() =~= s.take(b - 1));
        if a == b - 1 {
            assert(s.take(b).last() == s[a]);
        }
    } else {
        lemma_due_count_nonneg(s.take(a), dt);
    }
}

proof fn lemma_due_count_nonneg(s: Seq<Saucer>, dt: u64)
    ensures
        due_count(s, dt) >= 0,
    decreases s.len(),
{
    if s.len() > 0 {
        lemma_due_count_nonneg(s.drop_last(), dt);
    }
}

/// The shot a saucer fires: from its position, unflagged and new; a small
/// saucer aims at the ship, a large one fires in some direction.
pub open spec fn valid_shot(sb: SaucerBullet, s: Saucer, ship: Ship) -> bool {
    &&& sb.age == 0
    &&& sb.bullet.pos == s.pos
    &&& !sb.bullet.collided
    &&& s.size == SaucerSize::Small ==> sb.bullet.vel == aimed_velocity(s.pos, ship)
    &&& s.size == SaucerSize::Large ==> exists|a: int|
        0 <= a < TURN && sb.bullet.vel == #[trigger] scaled(direction(a), BULLET_SPEED as int)
}

/// Every saucer's shot timer runs; a saucer past its shot interval fires at
/// the ship and restarts its timer. The shots are appended in saucer order.
pub fn saucers_fire(saucers: &mut Vec<Saucer>, shots: &mut Vec<SaucerBullet>, ship: &Ship, dt: u64)
    requires
        ship.wf(),
        all_inv(old(saucers)@),
        all_inv(old(shots)@),
    ensures
        all_inv(final(saucers)@),
        all_inv(final(shots)@),
        final(saucers)@.len() == old(saucers)@.len(),
        forall|i: int|
            0 <= i < old(saucers)@.len() ==> {
                let t = timer_add((#[trigger] old(saucers)@[i]).last_shot, dt);
                final(saucers)@[i] == (Saucer {
                    last_shot: if t > SAUCER_SHOT_INTERVAL {
                        0
                    } else {
                        t
                    },
                    ..old(saucers)@[i]
                })
            },
        final(shots)@.subrange(0, old(shots)@.len() as int) == old(shots)@,
        final(shots)@.len() == old(shots)@.len() + due_count(old(saucers)@, dt),
        forall|k: int|
            0 <= k < old(saucers)@.len() && shot_due(#[trigger] old(saucers)@[k], dt) ==> valid_shot(
                final(shots)@[old(shots)@.len() + due_count(old(saucers)@.take(k), dt)],
                old(saucers)@[k],
                *ship,
            ),
        forall|j: int|
            old(shots)@.len() <= j < final(shots)@.len() ==> (#[trigger] final(shots)@[j]).age
                == 0,
{
    let ghost os = saucers@;
    let ghost base = shots@.len();
    let n = saucers.len();
    let mut i: usize = 0;
    while i < n
        invariant
            os == old(saucers)@,
            base == old(shots)@.len(),
            n == saucers@.len() == os.len(),
            i <= n,
            ship.wf(),
            all_inv(os),
            all_inv(shots@),
            forall|k: int| i <= k < n ==> #[trigger] saucers@[k] == os[k],
            forall|k: int|
                0 <= k < i ==> {
                    let t = timer_add((#[trigger] os[k]).last_shot, dt);
                    saucers@[k] == (Saucer {
                        last_shot: if t > SAUCER_SHOT_INTERVAL {
                            0
                        } else {
                            t
                        },
                        ..os[k]
                    })
                },
            shots@.subrange(0, base as int) == old(shots)@,
            shots@.len() == base + due_count(os.take(i as int), dt),
            forall|k: int|
                0 <= k < i && shot_due(#[trigger] os[k], dt) ==> valid_shot(
                    shots@[base + due_count(os.take(k), dt)],
                    os[k],
                    *ship,
                ),
            forall|j: int| base <= j < shots@.len() ==> (#[trigger] shots@[j]).age == 0,
        decreases n - i,
    {
        let mut s = saucers[i];
        proof {
            assert(os[i as int].inv());
            assert(os.take(i as int + 1).drop_last() =~= os.take(i as int));
            lemma_due_count_nonneg(os.take(i as int), dt);
        }
        s.last_shot = s.last_shot.saturating_add(dt);
        if s.last_shot > SAUCER_SHOT_INTERVAL {
            s.last_shot = 0;
            let b = s.shoot(ship);
            let ghost before = shots@;
            shots.push(SaucerBullet { bullet: b, age: 0 });
            proof {
                assert(shots@.subrange(0, base as int) =~= before.subrange(0, base as int));
                assert forall|j: int| 0 <= j < shots@.len() implies (#[trigger] shots@[j]).inv() by {
                    if j < before.len() {
                        assert(before[j].inv());
                    }
                }
                assert forall|k: int| 0 <= k < i && shot_due(#[trigger] os[k], dt) implies valid_shot(
                    shots@[base + due_count(os.take(k), dt)],
                    os[k],
                    *ship,
                ) by {
                    lemma_due_count_grows(os, dt, k, i as int);
                    assert(shots@[base + due_count(os.take(k), dt)] == before[base + due_count(
                        os.take(k),
                        dt,
                    )]);
                }
                assert(shots@[base + due_count(os.take(i as int), dt)] == SaucerBullet {
                    bullet: b,
                    age: 0,
                });
                if s.size == SaucerSize::Large {
                    let a = choose|a: int|
                        0 <= a < TURN && b.vel == scaled(direction(a), BULLET_SPEED as int);
                    assert(0 <= a < TURN && b.vel == scaled(direction(a), BULLET_SPEED as int));
                }
            }
        }
        saucers.set(i, s);
        i = i + 1;
    }
    proof {
        assert(os.take(n as int) =~= os);
        assert forall|k: int| 0 <= k < n implies (#[trigger] saucers@[k]).inv() by {
            assert(os[k].inv());
        }
    }
}

/// The ship is hit: it loses a life and becomes shielded, or, with no life
/// left, the game ends instead.
pub fn take_hit(ship: &mut Ship, lives: &mut u64, game_over: &mut bool)
    requires
        old(ship).wf(),
    ensures
        final(ship).wf(),
        *old(lives) == 0 ==> *final(game_over) && *final(lives) == 0 && *final(ship) == *old(ship),
        *old(lives) > 0 ==> {
            &&& *final(game_over) == *old(game_over)
            &&& *final(lives) == *old(lives) - 1
            &&& *final(ship) == (Ship { state: ShipState::Shielded, shield_time: 0, ..*old(ship) })
        },
{
    if *lives == 0 {
        *game_over = true;
    } else {
        ship.state = ShipState::Shielded;
        ship.shield_time = 0;
        *lives = *lives - 1;
    }
}

/// Whether the ship fires during this tick: it is not in transit once its
/// shield timer has run, and a shot is due.
pub open spec fn fires(g: Game, input: Input, dt: u64) -> bool {
    !shield_updated(g.ship, dt).state.spec_is_translating() && fire_due(
        input.fire,
        timer_add(g.last_bullet, dt),
        g.bullets@.len() as int,
    )
}

/// The player's bullets once the ship has had its turn: one more, fired by the
/// steered ship, when a shot is due.
pub open spec fn armed_bullets(g: Game, input: Input, dt: u64, vp: Viewport) -> Seq<Bullet> {
    if fires(g, input, dt) {
        g.bullets@.push(
            ship_bullet(
                steered(
                    shield_updated(g.ship, dt),
                    input.rotate_left,
                    input.rotate_right,
                    input.thrust,
                    dt,
                    vp,
                ),
            ),
        )
    } else {
        g.bullets@
    }
}

/// The ship after its shield timer runs and it flies under control for `dt`.
pub open spec fn steered_ship(ship: Ship, input: Input, dt: u64, vp: Viewport) -> Ship {
    steered(
        shield_updated(ship, dt),
        input.rotate_left,
        input.rotate_right,
        input.thrust,
        dt,
        vp,
    )
}

/// Every body of `s` moved for `dt`.
pub open spec fn stepped_all<T: Body>(s: Seq<T>, dt: u64, vp: Viewport) -> Seq<T> {
    Seq::new(s.len(), |i: int| s[i].stepped(dt as int, vp))
}

/// What the first half of a tick (spawning, the ship, motion, saucer fire)
/// leaves in `mid`, whatever the random draws were.
pub open spec fn prepared(g: Game, mid: Game, input: Input, dt: u64, vp: Viewport) -> bool {
    &&& mid.wf_core()
    &&& mid.score == g.score
    &&& mid.lives == g.lives
    &&& mid.lives_awarded == g.lives_awarded
    &&& mid.game_over == g.game_over
    &&& mid.bullets@ == stepped_all(armed_bullets(g, input, dt, vp), dt, vp)
    &&& mid.last_bullet == if fires(g, input, dt) {
        0
    } else {
        timer_add(g.last_bullet, dt)
    }
    &&& mid.spawner.wave == g.spawner.wave
    &&& mid.spawner.asteroids_spawned_in_wave >= g.spawner.asteroids_spawned_in_wave
    &&& mid.spawner.saucers_spawned_in_wave >= g.spawner.saucers_spawned_in_wave
    &&& mid.asteroids@.len() == g.asteroids@.len() + if g.spawner.asteroid_due(dt) {
        1int
    } else {
        0int
    }
    &&& forall|i: int|
        0 <= i < g.asteroids@.len() ==> #[trigger] mid.asteroids@[i] == g.asteroids@[i].stepped(
            dt as int,
            vp,
        )
    &&& !g.spawner.asteroid_due(dt) ==> mid.spawner.asteroids_spawned_in_wave
        == g.spawner.asteroids_spawned_in_wave
    &&& stays_invincible(g.ship, dt) ==> mid.ship.state.spec_is_invincible()
    &&& !input.hyperspace && g.ship.state != ShipState::Hyperdrive ==> mid.ship == steered_ship(
        g.ship,
        input,
        dt,
        vp,
    )
    &&& g.ship.state == ShipState::Shielded && stays_invincible(g.ship, dt) ==> mid.ship.shield_time
        == timer_add(g.ship.shield_time, dt)
}

/// What the second half of a tick (collisions, hits, score, bonus lives,
/// splitting, pruning, the wave check) makes of `mid`.
pub open spec fn resolved(mid: Game, fin: Game, hit: bool) -> bool {
    let a1 = struck(mid.asteroids@, mid.bullets@);
    let b1 = struck_by(mid.bullets@, mid.asteroids@);
    let s1 = struck(mid.saucers@, b1);
    let b2 = struck_by(b1, mid.saucers@);
    let ship = mid.ship;
    let a2 = ship_struck(ship, a1);
    let s2 = ship_struck(ship, s1);
    let sb2 = ship_struck(ship, mid.saucer_bullets@);
    let score = saturated(
        saturated(mid.score + saturated(asteroid_wreck_score(a2))) + saturated(
            saucer_wreck_score(s2),
        ),
    );
    let bonus = bonus_lives(mid.lives_awarded as int, score);
    let kept = survivors(a2);
    &&& hit == (ship_touches_any(ship, a1) || ship_touches_any(ship, s1) || ship_touches_any(
        ship,
        mid.saucer_bullets@,
    ))
    &&& fin.score == score
    &&& fin.lives_awarded == mid.lives_awarded + bonus
    &&& fin.lives == (if hit && mid.lives > 0 {
        mid.lives - 1
    } else {
        mid.lives as int
    }) + bonus
    &&& fin.game_over == (mid.game_over || (hit && mid.lives == 0))
    &&& fin.ship == if hit && mid.lives > 0 {
        Ship { state: ShipState::Shielded, shield_time: 0, ..ship }
    } else {
        ship
    }
    &&& fin.asteroids@.len() == kept.len() + piece_count(a2)
    &&& fin.asteroids@.subrange(0, kept.len() as int) == kept
    &&& stubs(fin.asteroids@.subrange(kept.len() as int, fin.asteroids@.len() as int))
        == piece_stubs(a2)
    &&& fin.bullets@ == survivors(b2)
    &&& fin.saucers@ == survivors(s2)
    &&& fin.saucer_bullets@ == survivors(sb2)
    &&& fin.spawner == mid.spawner.after_wave(fin.asteroids@.len() as int)
    &&& fin.last_bullet == mid.last_bullet
    &&& fin.last_hyperspace == mid.last_hyperspace
}

/// The whole state of a session.
pub struct Game {
    pub ship: Ship,
    pub last_hyperspace: u64,
    pub lives: u64,
    pub lives_awarded: u64,
    pub bullets: Vec<Bullet>,
    pub last_bullet: u64,
    pub asteroids: Vec<Asteroid>,
    pub spawner: Spawner,
    pub saucers: Vec<Saucer>,
    pub saucer_bullets: Vec<SaucerBullet>,
    pub game_over: bool,
    pub score: u64,
    pub particles: Vec<Particle>,
    pub frame: u64,
}

/// Whether the ship is sure to be invincible when this tick tests it against
/// hazards: its transit or its shield lasts past the tick.
pub open spec fn stays_invincible(ship: Ship, dt: u64) -> bool {
    ||| ship.state == ShipState::Hyperdrive && timer_add(ship.current_translation.current_time, dt)
        <= ship.current_translation.duration
    ||| ship.state == ShipState::Shielded && timer_add(ship.shield_time, dt) <= SHIP_SHIELD_TIME
}

impl Game {
    /// Well-formed between the two halves of a tick: saucer shots may be past
    /// their time to live until the second half removes them.
    pub open spec fn wf_core(&self) -> bool {
        &&& self.ship.wf()
        &&& self.spawner.wf()
        &&& all_inv(self.bullets@)
        &&& self.bullets@.len() <= MAX_BULLETS
        &&& all_inv(self.asteroids@)
        &&& all_inv(self.saucers@)
        &&& all_inv(self.saucer_bullets@)
        &&& all_particles_wf(self.particles@)
        &&& self.lives <= INITIAL_LIVES + self.lives_awarded
        &&& self.lives_awarded <= self.score / LIFE_SCORE
    }

    pub open spec fn wf(&self) -> bool {
        &&& self.ship.wf()
        &&& self.spawner.wf()
        &&& all_inv(self.bullets@)
        &&& self.bullets@.len() <= MAX_BULLETS
        &&& all_inv(self.asteroids@)
        &&& all_inv(self.saucers@)
        &&& all_inv(self.saucer_bullets@)
        &&& forall|i: int|
            0 <= i < self.saucer_bullets@.len() ==> (#[trigger] self.saucer_bullets@[i]).age
                <= SAUCER_BULLET_TTL
        &&& all_particles_wf(self.particles@)
        &&& self.lives <= INITIAL_LIVES + self.lives_awarded
        &&& self.lives_awarded <= self.score / LIFE_SCORE
    }

    /// A fresh session: the ship at rest in the middle, three lives, nothing
    /// else on screen, wave zero.
    pub fn new(vp: &Viewport) -> (r: Game)
        requires
            vp.wf(),
        ensures
            r.wf(),
            r.lives == INITIAL_LIVES,
            r.lives_awarded == 0,
            r.score == 0,
            !r.game_over,
            r.frame == 0,
            r.bullets@.len() == 0,
            r.asteroids@.len() == 0,
            r.saucers@.len() == 0,
            r.saucer_bullets@.len() == 0,
            r.particles@.len() == 0,
            r.spawner == Spawner::spec_new(),
            r.ship.state == ShipState::Normal,
            r.ship.pos.x == vp.width / 2,
            r.ship.pos.y == vp.height / 2,
            r.ship.vel == (Vec2 { x: 0, y: 0 }),
            r.ship.acc == (Vec2 { x: 0, y: 0 }),
            r.ship.rot == 0,
            r.last_bullet == 0,
            r.last_hyperspace == 0,
    {
        Game {
            ship: Ship::new(vp),
            last_hyperspace: 0,
            lives: INITIAL_LIVES,
            lives_awarded: 0,
            bullets: Vec::new(),
            last_bullet: 0,
            asteroids: Vec::new(),
            spawner: Spawner::new(),
            saucers: Vec::new(),
            saucer_bullets: Vec::new(),
            game_over: false,
            score: 0,
            particles: Vec::new(),
            frame: 0,
        }
    }

    /// How far the hyperspace cooldown has run, in thousandths (full when ready).
    pub fn hyperspace_charge(&self) -> (r: u64)
        ensures
            self.last_hyperspace > SHIP_HYPERSPACE_COOLDOWN ==> r == 1000,
            self.last_hyperspace <= SHIP_HYPERSPACE_COOLDOWN ==> r == self.last_hyperspace * 1000
                / SHIP_HYPERSPACE_COOLDOWN as int,
    {
        if self.last_hyperspace > SHIP_HYPERSPACE_COOLDOWN {
            1000
        } else {
            self.last_hyperspace * 1000 / SHIP_HYPERSPACE_COOLDOWN
        }
    }

    /// The number of asteroids the current wave sends.
    pub fn get_wave_asteroid_amount(&self) -> (r: u64)
        requires
            self.spawner.wf(),
        ensures
            r == crate::spawn::wave_quota(self.spawner.wave as int),
    {
        self.spawner.get_wave_asteroid_amount()
    }

    /// The ship's part of a tick: timers, shield, flight or transit, firing and
    /// hyperspace, then the wrap.
    fn update_ship(&mut self, input: &Input, dt: u64, vp: &Viewport)
        requires
            old(self).wf(),
            dt <= MAX_TICK_MICROS,
            vp.wf(),
        ensures
            final(self).wf(),
            final(self).lives == old(self).lives,
            final(self).lives_awarded == old(self).lives_awarded,
            final(self).score == old(self).score,
            final(self).game_over == old(self).game_over,
            final(self).frame == old(self).frame,
            final(self).spawner == old(self).spawner,
            final(self).asteroids@ == old(self).asteroids@,
            final(self).saucers@ == old(self).saucers@,
            final(self).saucer_bullets@ == old(self).saucer_bullets@,
            final(self).bullets@ == armed_bullets(*old(self), *input, dt, *vp),
            final(self).last_bullet == if fires(*old(self), *input, dt) {
                0
            } else {
                timer_add(old(self).last_bullet, dt)
            },
            stays_invincible(old(self).ship, dt) ==> final(self).ship.state.spec_is_invincible(),
            old(self).ship.state == ShipState::Shielded && stays_invincible(old(self).ship, dt)
                ==> final(self).ship.shield_time == timer_add(old(self).ship.shield_time, dt),
            !input.hyperspace && old(self).ship.state != ShipState::Hyperdrive ==> final(self).ship
                == steered_ship(old(self).ship, *input, dt, *vp),
    {
        self.last_bullet = self.last_bullet.saturating_add(dt);
        self.last_hyperspace = self.last_hyperspace.saturating_add(dt);
        self.ship.update_shield(dt);
        if !self.ship.state.is_translating() {
            self.ship.steer(input.rotate_left, input.rotate_right, input.thrust, dt, vp);
            if input.thrust && self.frame % THRUST_EVERY == 0 {
                let h = self.ship.get_unit_direction();
                let back = scale(&h, THRUST_OFFSET);
                let p = Particle {
                    kind: ParticleKind::Thrust,
                    ttl: TRAIL_TTL,
                    time: 0,
                    origin: Vec2 { x: self.ship.pos.x - back.x, y: self.ship.pos.y - back.y },
                    vel: Vec2 { x: 0, y: 0 },
                };
                let ghost before = self.particles@;
                self.particles.push(p);
                proof {
                    assert forall|j: int| 0 <= j < self.particles@.len() implies (
                    #[trigger] self.particles@[j]).wf() by {
                        if j < before.len() {
                            assert(before[j].wf());
                        }
                    }
                }
            }
            fire_bullet(&mut self.bullets, &mut self.last_bullet, &self.ship, input.fire);
            if input.hyperspace && self.last_hyperspace > SHIP_HYPERSPACE_COOLDOWN {
                self.last_hyperspace = 0;
                self.ship.try_hyperspace(vp);
            }
        } else {
            self.ship.hyperdrive_step(dt);
        }
        wrap_screen(&mut self.ship.pos, vp);
    }

    /// The first half of a tick: spawning, the ship, particles, motion and
    /// wrapping, and saucer fire.
    pub fn prepare(&mut self, input: &Input, dt: u64, vp: &Viewport)
        requires
            old(self).wf(),
            dt <= MAX_TICK_MICROS,
            vp.wf(),
        ensures
            prepared(*old(self), *final(self), *input, dt, *vp),
            old(self).spawner.wave_done(old(self).asteroids@.len() as int) ==> {
                &&& final(self).asteroids@.len() == 0
                &&& final(self).spawner.asteroids_spawned_in_wave
                    == old(self).spawner.asteroids_spawned_in_wave
            },
    {
        self.frame = self.frame.wrapping_add(1);

        self.spawner.spawn_asteroids(&mut self.asteroids, dt, vp);
        self.spawner.spawn_saucers(&mut self.saucers, self.score, dt, vp);
        proof {
            assert forall|j: int| 0 <= j < self.asteroids@.len() implies (
            #[trigger] self.asteroids@[j]).inv() by {
                if j < old(self).asteroids@.len() {
                    assert(old(self).asteroids@[j].inv());
                    if self.asteroids@.len() > old(self).asteroids@.len() {
                        assert(self.asteroids@.drop_last()[j] == self.asteroids@[j]);
                    }
                }
            }
            assert forall|j: int| 0 <= j < self.saucers@.len() implies (
            #[trigger] self.saucers@[j]).inv() by {
                if j < old(self).saucers@.len() {
                    assert(old(self).saucers@[j].inv());
                    if self.saucers@.len() > old(self).saucers@.len() {
                        assert(self.saucers@.drop_last()[j] == self.saucers@[j]);
                    }
                }
            }
        }
        let ghost spawned = self.asteroids@;
        proof {
            assert forall|i: int| 0 <= i < old(self).asteroids@.len() implies spawned[i]
                == old(self).asteroids@[i] by {
                if spawned.len() > old(self).asteroids@.len() {
                    assert(spawned.drop_last()[i] == spawned[i]);
                }
            }
        }

        self.update_ship(input, dt, vp);
        age_particles(&mut self.particles, dt);

        let ghost armed = self.bullets@;
        move_all(&mut self.bullets, dt, vp);
        proof {
            assert(self.bullets@ =~= stepped_all(armed, dt, *vp));
        }
        move_all(&mut self.asteroids, dt, vp);
        move_all(&mut self.saucers, dt, vp);
        saucers_fire(&mut self.saucers, &mut self.saucer_bullets, &self.ship, dt);
        move_all(&mut self.saucer_bullets, dt, vp);
    }

    /// The second half of a tick: bullets against asteroids and saucers, the
    /// ship against every hazard, then debris, score, bonus lives, splitting,
    /// pruning, trails and the wave check. Returns whether the ship was hit.
    pub fn resolve(&mut self) -> (ship_hit: bool)
        requires
            old(self).wf_core(),
        ensures
            final(self).wf(),
            resolved(*old(self), *final(self), ship_hit),
    {
        collide_with_bullets(&mut self.asteroids, &mut self.bullets);
        collide_with_bullets(&mut self.saucers, &mut self.bullets);

        let hit_asteroid = ship_hits(&self.ship, &mut self.asteroids);
        let hit_saucer = ship_hits(&self.ship, &mut self.saucers);
        let hit_shot = ship_hits(&self.ship, &mut self.saucer_bullets);
        let ship_hit = hit_asteroid || hit_saucer || hit_shot;
        if ship_hit {
            take_hit(&mut self.ship, &mut self.lives, &mut self.game_over);
        }

        spawn_debris(&mut self.particles, &self.asteroids, ParticleKind::AsteroidDebris);
        spawn_debris(&mut self.particles, &self.saucers, ParticleKind::SaucerDebris);

        let gained_a = asteroid_points(&self.asteroids);
        let gained_s = saucer_points(&self.saucers);
        let old_score = self.score;
        self.score = self.score.saturating_add(gained_a).saturating_add(gained_s);
        proof {
            assert(old_score / LIFE_SCORE <= self.score / LIFE_SCORE) by {
                vstd::arithmetic::div_mod::lemma_div_is_ordered(
                    old_score as int,
                    self.score as int,
                    LIFE_SCORE as int,
                );
            }
        }
        award_bonus_life(&mut self.lives, &mut self.lives_awarded, self.score);

        let mut pieces = split_wrecks(&self.asteroids);
        let ghost wrecked = self.asteroids@;
        retain_survivors(&mut self.asteroids);
        let ghost kept = self.asteroids@;
        let ghost ps = pieces@;
        self.asteroids.append(&mut pieces);
        proof {
            assert(self.asteroids@ == kept + ps);
            assert(self.asteroids@.subrange(0, kept.len() as int) =~= kept);
            assert(self.asteroids@.subrange(kept.len() as int, self.asteroids@.len() as int) =~= ps);
            assert forall|j: int| 0 <= j < self.asteroids@.len() implies (
            #[trigger] self.asteroids@[j]).inv() by {
                if j < kept.len() {
                    assert(kept[j].inv());
                } else {
                    assert(ps[j - kept.len()].inv());
                }
            }
        }
        retain_survivors(&mut self.bullets);
        retain_survivors(&mut self.saucers);
        retain_survivors(&mut self.saucer_bullets);

        if self.frame % TRAIL_EVERY == 0 {
            spawn_trails(&mut self.particles, &self.bullets, ParticleKind::BulletTrail);
            spawn_trails(&mut self.particles, &self.saucer_bullets, ParticleKind::SaucerBulletTrail);
        }

        self.spawner.advance_wave(self.asteroids.len());
        ship_hit
    }

    /// Advances the session by `dt` microseconds under `input`, and says whether
    /// the ship was hit: `prepare`, then `resolve`. Once the game is over a tick
    /// changes nothing.
    pub fn tick(&mut self, input: &Input, dt: u64, vp: &Viewport) -> (ship_hit: bool)
        requires
            old(self).wf(),
            dt <= MAX_TICK_MICROS,
            vp.wf(),
        ensures
            final(self).wf(),
            old(self).game_over ==> *final(self) == *old(self) && !ship_hit,
            !old(self).game_over ==> {
                &&& exists|mid: Game|
                    #[trigger] prepared(*old(self), mid, *input, dt, *vp) && resolved(
                        mid,
                        *final(self),
                        ship_hit,
                    )
                &&& stays_invincible(old(self).ship, dt) ==> !ship_hit
                &&& ship_hit && old(self).lives > 0 ==> final(self).ship.state
                    == ShipState::Shielded && final(self).ship.shield_time == 0
                &&& ship_hit && old(self).lives == 0 ==> final(self).game_over && final(self).lives
                    == bonus_lives(old(self).lives_awarded as int, final(self).score as int)
                &&& !ship_hit ==> !final(self).game_over
                &&& final(self).lives_awarded == old(self).lives_awarded + bonus_lives(
                    old(self).lives_awarded as int,
                    final(self).score as int,
                )
                &&& final(self).lives == old(self).lives - (if ship_hit && old(self).lives > 0 {
                    1int
                } else {
                    0int
                }) + (final(self).lives_awarded - old(self).lives_awarded)
                &&& final(self).score >= old(self).score
                &&& final(self).bullets@.len() <= MAX_BULLETS
                &&& old(self).spawner.wave_done(old(self).asteroids@.len() as int)
                    && old(self).spawner.wave < MAX_WAVE ==> {
                    &&& final(self).spawner.wave == old(self).spawner.wave + 1
                    &&& final(self).spawner.asteroids_spawned_in_wave == 0
                    &&& final(self).spawner.saucers_spawned_in_wave == 0
                }
                &&& final(self).asteroids@.len() > 0 ==> {
                    &&& final(self).spawner.wave == old(self).spawner.wave
                    &&& final(self).spawner.asteroids_spawned_in_wave
                        >= old(self).spawner.asteroids_spawned_in_wave
                    &&& final(self).spawner.saucers_spawned_in_wave
                        >= old(self).spawner.saucers_spawned_in_wave
                }
            },
    {
        if self.game_over {
            return false;
        }
        self.prepare(input, dt, vp);
        let ghost mid = *self;
        let ship_hit = self.resolve();
        proof {
            assert(prepared(*old(self), mid, *input, dt, *vp) && resolved(mid, *self, ship_hit));
            if stays_invincible(old(self).ship, dt) {
                assert(mid.ship.state.spec_is_invincible());
            }
            if mid.asteroids@.len() == 0 {
                reveal(Seq::filter);
                let a2 = ship_struck(mid.ship, struck(mid.asteroids@, mid.bullets@));
                assert(a2.len() == 0);
                assert(survivors(a2) =~= Seq::<Asteroid>::empty());
                assert(piece_count(a2) == 0);
            }
            let b1 = struck_by(mid.bullets@, mid.asteroids@);
            lemma_wreck_scores_nonneg(
                ship_struck(mid.ship, struck(mid.asteroids@, mid.bullets@)),
                ship_struck(mid.ship, struck(mid.saucers@, b1)),
            );
        }
        ship_hit
    }
}

} // verus!
