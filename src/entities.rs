use vstd::prelude::*;
use crate::geometry::{
    advance, advanced, bounded, direction, direction_of, heading, isqrt, normalize, normalized,
    scale, scaled, tdiv, turn_negative, turn_positive, turned_negative, turned_positive, vec2,
    Vec2, Viewport, MAX_EXTENT, MICROS_PER_SECOND, POS_LIMIT, TURN, UNIT,
};
use crate::rng::{on_edge, random_angle, random_in, random_screen_edge_position, random_unit_vector};
use crate::ship::{Ship, SPEED_BOUND};

verus! {

pub const SMALL_ASTEROID_SIZE: i64 = 12_000;
pub const SMALL_ASTEROID_SPEED: i64 = 130_000;
pub const SMALL_ASTEROID_SCORE: u64 = 100;
pub const MEDIUM_ASTEROID_SIZE: i64 = 20_000;
pub const MEDIUM_ASTEROID_SPEED: i64 = 75_000;
pub const MEDIUM_ASTEROID_SCORE: u64 = 50;
pub const LARGE_ASTEROID_SIZE: i64 = 40_000;
pub const LARGE_ASTEROID_SPEED: i64 = 40_000;
pub const LARGE_ASTEROID_SCORE: u64 = 20;
pub const ASTEROID_MIN_VERTICES: u64 = 8;
pub const ASTEROID_MAX_VERTICES: u64 = 12;
/// Vertex radii are drawn from `[ASTEROID_MIN_RADIUS, ASTEROID_MAX_RADIUS)` thousandths.
pub const ASTEROID_MIN_RADIUS: i64 = 800;
pub const ASTEROID_MAX_RADIUS: i64 = 1100;

pub const LARGE_SAUCER_SIZE: i64 = 25_000;
pub const LARGE_SAUCER_SPEED: i64 = 32_000;
pub const LARGE_SAUCER_SCORE: u64 = 200;
pub const SMALL_SAUCER_SIZE: i64 = 15_000;
pub const SMALL_SAUCER_SPEED: i64 = 50_000;
pub const SMALL_SAUCER_SCORE: u64 = 1000;
/// From this score on, a saucer is small with the highest probability.
pub const SAUCER_SMALL_SCORE_THRESHOLD: u64 = 10_000;
/// Probabilities are measured in ten-thousandths.
pub const PROBABILITY_ONE: u64 = 10_000;
pub const SAUCER_SMALL_MAX_PROBABILITY: u64 = 8_000;

pub const BULLET_SIZE: i64 = 5_000;
pub const BULLET_SPEED: i64 = 150_000;
/// A saucer's bullet vanishes once older than this.
pub const SAUCER_BULLET_TTL: u64 = 3_000_000;

pub const PARTICLE_SIZE: i64 = 5_000;
pub const MAX_PARTICLE_TTL: u64 = 2_000_000;

#[derive(Clone, Copy, Debug, PartialEq, Eq, Structural)]
pub enum AsteroidType {
    Small,
    Medium,
    Large,
}

impl AsteroidType {
    pub open spec fn spec_size(&self) -> i64 {
        match self {
            AsteroidType::Small => SMALL_ASTEROID_SIZE,
            AsteroidType::Medium => MEDIUM_ASTEROID_SIZE,
            AsteroidType::Large => LARGE_ASTEROID_SIZE,
        }
    }

    pub open spec fn spec_speed(&self) -> i64 {
        match self {
            AsteroidType::Small => SMALL_ASTEROID_SPEED,
            AsteroidType::Medium => MEDIUM_ASTEROID_SPEED,
            AsteroidType::Large => LARGE_ASTEROID_SPEED,
        }
    }

    pub open spec fn spec_score(&self) -> u64 {
        match self {
            AsteroidType::Small => SMALL_ASTEROID_SCORE,
            AsteroidType::Medium => MEDIUM_ASTEROID_SCORE,
            AsteroidType::Large => LARGE_ASTEROID_SCORE,
        }
    }

    /// The class that two pieces of a split asteroid belong to, if it splits.
    pub open spec fn spec_smaller(&self) -> Option<AsteroidType> {
        match self {
            AsteroidType::Small => None,
            AsteroidType::Medium => Some(AsteroidType::Small),
            AsteroidType::Large => Some(AsteroidType::Medium),
        }
    }

    /// The collision radius.
    pub fn size(&self) -> (r: i64)
        ensures
            r == self.spec_size(),
    {
        match self {
            AsteroidType::Small => SMALL_ASTEROID_SIZE,
            AsteroidType::Medium => MEDIUM_ASTEROID_SIZE,
            AsteroidType::Large => LARGE_ASTEROID_SIZE,
        }
    }

    pub fn speed(&self) -> (r: i64)
        ensures
            r == self.spec_speed(),
    {
        match self {
            AsteroidType::Small => SMALL_ASTEROID_SPEED,
            AsteroidType::Medium => MEDIUM_ASTEROID_SPEED,
            AsteroidType::Large => LARGE_ASTEROID_SPEED,
        }
    }

    pub fn score(&self) -> (r: u64)
        ensures
            r == self.spec_score(),
    {
        match self {
            AsteroidType::Small => SMALL_ASTEROID_SCORE,
            AsteroidType::Medium => MEDIUM_ASTEROID_SCORE,
            AsteroidType::Large => LARGE_ASTEROID_SCORE,
        }
    }
}

/// The outline point at angle `a` and radius `r` thousandths, in `UNIT`s.
pub open spec fn polygon_vertex(a: int, r: int) -> Vec2 {
    scaled(direction(a), r * UNIT / 1000)
}

/// Sector `i` of `n` equal sectors of a full turn: `[i * TURN / n, (i + 1) * TURN / n)`.
pub open spec fn in_sector(a: int, i: int, n: int) -> bool {
    i * TURN / n <= a < (i + 1) * TURN / n
}

/// Vertex `i` of an outline of `n` vertices lies in sector `i`, at a radius of
/// `[ASTEROID_MIN_RADIUS, ASTEROID_MAX_RADIUS)` thousandths.
pub open spec fn valid_vertex(v: Vec2, i: int, n: int) -> bool {
    exists|a: int, r: int|
        in_sector(a, i, n) && ASTEROID_MIN_RADIUS <= r < ASTEROID_MAX_RADIUS && v
            == polygon_vertex(a, r)
}

pub open spec fn valid_outline(vs: Seq<Vec2>) -> bool {
    &&& ASTEROID_MIN_VERTICES <= vs.len() < ASTEROID_MAX_VERTICES
    &&& forall|i: int| 0 <= i < vs.len() ==> valid_vertex(#[trigger] vs[i], i, vs.len() as int)
}

/// A jagged outline: one vertex per equal sector of a turn, at a jittered radius.
pub fn generate_asteroid_vertices() -> (r: Vec<Vec2>)
    ensures
        valid_outline(r@),
{
    let n = random_in(ASTEROID_MIN_VERTICES, ASTEROID_MAX_VERTICES);
    let mut vs: Vec<Vec2> = Vec::new();
    let mut i: u64 = 0;
    while i < n
        invariant
            ASTEROID_MIN_VERTICES <= n < ASTEROID_MAX_VERTICES,
            i <= n,
            vs.len() == i,
            forall|j: int| 0 <= j < i ==> valid_vertex(#[trigger] vs@[j], j, n as int),
        decreases n - i,
    {
        let lo = i * TURN / n;
        let hi = (i + 1) * TURN / n;
        proof {
            assert(i * TURN + TURN == (i + 1) * TURN) by (nonlinear_arith);
            assert(i * TURN / (n as int) + 1 <= (i * TURN + TURN) / (n as int)) by (nonlinear_arith)
                requires
                    0 < n < 12,
                    0 <= i,
            ;
            assert((i + 1) * TURN / (n as int) <= TURN) by (nonlinear_arith)
                requires
                    0 < n,
                    i < n,
            ;
        }
        let a = random_in(lo, hi);
        let radius = random_in(ASTEROID_MIN_RADIUS as u64, ASTEROID_MAX_RADIUS as u64) as i64;
        let d = direction_of(a);
        let v = scale(&d, radius * UNIT / 1000);
        proof {
            assert(in_sector(a as int, i as int, n as int));
            assert(v == polygon_vertex(a as int, radius as int));
            assert(valid_vertex(v, i as int, n as int));
        }
        vs.push(v);
        i = i + 1;
    }
    vs
}

pub struct Asteroid {
    pub size: AsteroidType,
    pub pos: Vec2,
    pub vel: Vec2,
    pub collided: bool,
    /// The outline, relative to the centre, in `UNIT`s of the radius.
    pub vertices: Vec<Vec2>,
}

impl Asteroid {
    pub open spec fn wf(&self) -> bool {
        &&& bounded(self.pos, MAX_EXTENT as int)
        &&& bounded(self.vel, SPEED_BOUND as int)
        &&& valid_outline(self.vertices@)
    }

    /// A fresh large asteroid on an edge of the screen, drifting in a random direction.
    pub fn new(vp: &Viewport) -> (r: Asteroid)
        requires
            vp.wf(),
        ensures
            r.wf(),
            r.size == AsteroidType::Large,
            on_edge(r.pos, *vp),
            !r.collided,
            exists|a: int| 0 <= a < TURN && r.vel == scaled(direction(a), LARGE_ASTEROID_SPEED as int),
    {
        let pos = random_screen_edge_position(vp);
        let dir = random_unit_vector();
        let vel = scale(&dir, LARGE_ASTEROID_SPEED);
        Asteroid {
            size: AsteroidType::Large,
            pos,
            vel,
            collided: false,
            vertices: generate_asteroid_vertices(),
        }
    }

    /// The velocity of the piece that turns toward positive angles.
    pub open spec fn split_velocity_positive(vel: Vec2, class: AsteroidType) -> Vec2 {
        scaled(turned_positive(normalized(vel)), class.spec_speed() as int)
    }

    pub open spec fn split_velocity_negative(vel: Vec2, class: AsteroidType) -> Vec2 {
        scaled(turned_negative(normalized(vel)), class.spec_speed() as int)
    }

    /// A hit asteroid breaks into two of the next smaller class, at its own
    /// position, flying thirty degrees to either side of its heading at that
    /// class's speed, each with a new outline. A small one leaves nothing.
    pub fn split(&self) -> (r: Option<Vec<Asteroid>>)
        requires
            bounded(self.pos, MAX_EXTENT as int),
            bounded(self.vel, SPEED_BOUND as int),
        ensures
            self.size.spec_smaller() is None <==> r is None,
            r matches Some(pieces) ==> {
                let class = self.size.spec_smaller().unwrap();
                &&& pieces.len() == 2
                &&& forall|i: int| 0 <= i < 2 ==> {
                    &&& (#[trigger] pieces[i]).wf()
                    &&& pieces[i].size == class
                    &&& pieces[i].pos == self.pos
                    &&& !pieces[i].collided
                }
                &&& pieces[0].vel == Self::split_velocity_positive(self.vel, class)
                &&& pieces[1].vel == Self::split_velocity_negative(self.vel, class)
            },
    {
        let class = match self.size {
            AsteroidType::Small => {
                return None;
            },
            AsteroidType::Medium => AsteroidType::Small,
            AsteroidType::Large => AsteroidType::Medium,
        };
        let n = normalize(&self.vel);
        let speed = class.speed();
        let first = Asteroid {
            size: class,
            pos: self.pos,
            vel: scale(&turn_positive(&n), speed),
            collided: false,
            vertices: generate_asteroid_vertices(),
        };
        let second = Asteroid {
            size: class,
            pos: self.pos,
            vel: scale(&turn_negative(&n), speed),
            collided: false,
            vertices: generate_asteroid_vertices(),
        };
        let mut pieces: Vec<Asteroid> = Vec::new();
        pieces.push(first);
        pieces.push(second);
        Some(pieces)
    }
}

#[derive(Clone, Copy, Debug, PartialEq, Eq, Structural)]
pub struct Bullet {
    pub pos: Vec2,
    pub vel: Vec2,
    pub collided: bool,
}

impl Bullet {
    pub open spec fn wf(&self) -> bool {
        bounded(self.pos, MAX_EXTENT as int) && bounded(self.vel, SPEED_BOUND as int)
    }
}

/// A saucer's bullet and the time since it was fired.
#[derive(Clone, Copy, Debug, PartialEq, Eq, Structural)]
pub struct SaucerBullet {
    pub bullet: Bullet,
    pub age: u64,
}

#[derive(Clone, Copy, Debug, PartialEq, Eq, Structural)]
pub enum SaucerSize {
    Large,
    Small,
}

/// The chance, in ten-thousandths, that a saucer spawned at `score` is small: it
/// grows linearly with the score up to a cap.
pub open spec fn small_saucer_probability(score: int) -> int {
    if score >= SAUCER_SMALL_SCORE_THRESHOLD {
        SAUCER_SMALL_MAX_PROBABILITY as int
    } else {
        SAUCER_SMALL_MAX_PROBABILITY * score / SAUCER_SMALL_SCORE_THRESHOLD as int
    }
}

/// The size a uniform draw in `[0, PROBABILITY_ONE)` picks at `score`.
pub open spec fn size_for_draw(score: int, draw: int) -> SaucerSize {
    if draw < small_saucer_probability(score) {
        SaucerSize::Small
    } else {
        SaucerSize::Large
    }
}

impl SaucerSize {
    pub open spec fn spec_size(&self) -> i64 {
        match self {
            SaucerSize::Large => LARGE_SAUCER_SIZE,
            SaucerSize::Small => SMALL_SAUCER_SIZE,
        }
    }

    pub open spec fn spec_speed(&self) -> i64 {
        match self {
            SaucerSize::Large => LARGE_SAUCER_SPEED,
            SaucerSize::Small => SMALL_SAUCER_SPEED,
        }
    }

    pub open spec fn spec_score(&self) -> u64 {
        match self {
            SaucerSize::Large => LARGE_SAUCER_SCORE,
            SaucerSize::Small => SMALL_SAUCER_SCORE,
        }
    }

    /// The size chosen at `score` by a uniform draw `draw` in `[0, PROBABILITY_ONE)`.
    pub fn from_score_and_draw(score: u64, draw: u64) -> (r: SaucerSize)
        ensures
            r == size_for_draw(score as int, draw as int),
    {
        let prob = if score >= SAUCER_SMALL_SCORE_THRESHOLD {
            SAUCER_SMALL_MAX_PROBABILITY
        } else {
            SAUCER_SMALL_MAX_PROBABILITY * score / SAUCER_SMALL_SCORE_THRESHOLD
        };
        if draw < prob {
            SaucerSize::Small
        } else {
            SaucerSize::Large
        }
    }

    /// A size drawn at random: small with `small_saucer_probability(score)`.
    pub fn from_score(score: u64) -> (r: SaucerSize)
        ensures
            exists|draw: int|
                0 <= draw < PROBABILITY_ONE && r == #[trigger] size_for_draw(score as int, draw),
            score == 0 ==> r == SaucerSize::Large,
    {
        let draw = random_in(0, PROBABILITY_ONE);
        Self::from_score_and_draw(score, draw)
    }

    pub fn size(&self) -> (r: i64)
        ensures
            r == self.spec_size(),
    {
        match self {
            SaucerSize::Large => LARGE_SAUCER_SIZE,
            SaucerSize::Small => SMALL_SAUCER_SIZE,
        }
    }

    pub fn speed(&self) -> (r: i64)
        ensures
            r == self.spec_speed(),
    {
        match self {
            SaucerSize::Large => LARGE_SAUCER_SPEED,
            SaucerSize::Small => SMALL_SAUCER_SPEED,
        }
    }

    pub fn score(&self) -> (r: u64)
        ensures
            r == self.spec_score(),
    {
        match self {
            SaucerSize::Large => LARGE_SAUCER_SCORE,
            SaucerSize::Small => SMALL_SAUCER_SCORE,
        }
    }
}

#[derive(Clone, Copy, Debug, PartialEq, Eq, Structural)]
pub struct Saucer {
    pub size: SaucerSize,
    pub pos: Vec2,
    pub vel: Vec2,
    pub last_shot: u64,
    pub collided: bool,
}

/// Where a small saucer aims: at the ship's position pushed ahead along its
/// heading by its current speed.
pub open spec fn aimed_velocity(from: Vec2, ship: Ship) -> Vec2 {
    let speed = isqrt(ship.vel.x * ship.vel.x + ship.vel.y * ship.vel.y);
    let lead = scaled(heading(ship.rot as int), speed);
    let target = vec2(ship.pos.x + lead.x - from.x, ship.pos.y + lead.y - from.y);
    scaled(normalized(target), BULLET_SPEED as int)
}

impl Saucer {
    pub open spec fn wf(&self) -> bool {
        bounded(self.pos, MAX_EXTENT as int) && bounded(self.vel, SPEED_BOUND as int)
    }

    /// A saucer of the given size on an edge of the screen, in a random direction.
    pub fn new(size: SaucerSize, vp: &Viewport) -> (r: Saucer)
        requires
            vp.wf(),
        ensures
            r.wf(),
            r.size == size,
            on_edge(r.pos, *vp),
            r.last_shot == 0,
            !r.collided,
            exists|a: int| 0 <= a < TURN && r.vel == scaled(direction(a), size.spec_speed() as int),
    {
        let speed = size.speed();
        let pos = random_screen_edge_position(vp);
        let dir = random_unit_vector();
        Saucer { size, pos, vel: scale(&dir, speed), last_shot: 0, collided: false }
    }

    /// The velocity of a shot aimed from `from` at where `ship` is heading.
    pub fn aim_at(from: &Vec2, ship: &Ship) -> (r: Vec2)
        requires
            bounded(*from, MAX_EXTENT as int),
            ship.wf(),
        ensures
            r == aimed_velocity(*from, *ship),
            bounded(r, SPEED_BOUND as int),
    {
        proof {
            crate::geometry::lemma_square_bound(ship.vel.x as int, SPEED_BOUND as int);
            crate::geometry::lemma_square_bound(ship.vel.y as int, SPEED_BOUND as int);
        }
        let n = (ship.vel.x * ship.vel.x + ship.vel.y * ship.vel.y) as u64;
        let speed = crate::geometry::int_sqrt(n);
        proof {
            assert(speed * speed <= 2 * SPEED_BOUND * SPEED_BOUND);
            if speed > 600_000 {
                assert(speed * speed > 600_000 * 600_000) by (nonlinear_arith)
                    requires
                        speed > 600_000,
                ;
            }
        }
        let h = ship.get_unit_direction();
        let lead = scale(&h, speed as i64);
        let target = Vec2 { x: ship.pos.x + lead.x - from.x, y: ship.pos.y + lead.y - from.y };
        let n = normalize(&target);
        scale(&n, BULLET_SPEED)
    }

    /// A bullet from this saucer: a large one fires in a random direction, a
    /// small one at the ship's predicted position.
    pub fn shoot(&self, ship: &Ship) -> (r: Bullet)
        requires
            self.wf(),
            ship.wf(),
        ensures
            r.wf(),
            r.pos == self.pos,
            !r.collided,
            self.size == SaucerSize::Small ==> r.vel == aimed_velocity(self.pos, *ship),
            self.size == SaucerSize::Large ==> exists|a: int|
                0 <= a < TURN && r.vel == scaled(direction(a), BULLET_SPEED as int),
    {
        match self.size {
            SaucerSize::Large => {
                let dir = random_unit_vector();
                Bullet { pos: self.pos, vel: scale(&dir, BULLET_SPEED), collided: false }
            },
            SaucerSize::Small => {
                Bullet { pos: self.pos, vel: Self::aim_at(&self.pos, ship), collided: false }
            },
        }
    }
}

/// What a particle shows: the colour it is drawn in.
#[derive(Clone, Copy, Debug, PartialEq, Eq, Structural)]
pub enum ParticleKind {
    Thrust,
    AsteroidDebris,
    SaucerDebris,
    BulletTrail,
    SaucerBulletTrail,
}

/// A cosmetic spark that drifts from `origin` along `vel` and fades over `ttl`.
#[derive(Clone, Copy, Debug, PartialEq, Eq, Structural)]
pub struct Particle {
    pub kind: ParticleKind,
    pub ttl: u64,
    pub time: u64,
    pub origin: Vec2,
    pub vel: Vec2,
}

impl Particle {
    pub open spec fn wf(&self) -> bool {
        &&& 0 < self.ttl <= MAX_PARTICLE_TTL
        &&& self.time < self.ttl
        &&& bounded(self.origin, 2 * MAX_EXTENT)
        &&& bounded(self.vel, SPEED_BOUND as int)
    }

    /// Where the particle is after drifting for `time`.
    pub fn position(&self) -> (r: Vec2)
        requires
            self.wf(),
        ensures
            r == advanced(self.origin, self.vel, self.time as int),
    {
        advance(&self.origin, &self.vel, self.time)
    }

    /// The drawn radius shrinks with the share of life that is left.
    pub fn size(&self) -> (r: i64)
        requires
            self.wf(),
        ensures
            r == PARTICLE_SIZE * (self.ttl - self.time) / (self.ttl as int),
            0 <= r <= PARTICLE_SIZE,
    {
        let left = (self.ttl - self.time) as i64;
        proof {
            assert(PARTICLE_SIZE * left <= PARTICLE_SIZE * self.ttl) by (nonlinear_arith)
                requires
                    left <= self.ttl,
            ;
            vstd::arithmetic::div_mod::lemma_div_is_ordered(
                PARTICLE_SIZE * left,
                PARTICLE_SIZE * self.ttl,
                self.ttl as int,
            );
            vstd::arithmetic::div_mod::lemma_div_by_multiple(PARTICLE_SIZE as int, self.ttl as int);
            vstd::arithmetic::div_mod::lemma_div_pos_is_pos(PARTICLE_SIZE * left, self.ttl as int);
        }
        PARTICLE_SIZE * left / (self.ttl as i64)
    }

    /// Opacity, in thousandths, falls with the share of life that is left.
    pub fn alpha(&self) -> (r: u64)
        requires
            self.wf(),
        ensures
            r == 1000 * (self.ttl - self.time) / (self.ttl as int),
            r <= 1000,
    {
        let left = self.ttl - self.time;
        proof {
            assert(1000 * left <= 1000 * self.ttl) by (nonlinear_arith)
                requires
                    left <= self.ttl,
            ;
            vstd::arithmetic::div_mod::lemma_div_is_ordered(
                1000 * left,
                1000 * self.ttl,
                self.ttl as int,
            );
            vstd::arithmetic::div_mod::lemma_div_by_multiple(1000, self.ttl as int);
        }
        1000 * left / self.ttl
    }
}

} // verus!
