use vstd::prelude::*;
use crate::entities::{
    size_for_draw, Asteroid, AsteroidType, Saucer, SaucerSize, LARGE_ASTEROID_SPEED,
    PROBABILITY_ONE,
};
use crate::geometry::{direction, scaled, Viewport, MAX_TICK_MICROS, TURN};
use crate::rng::{on_edge, random_in};

verus! {

pub const ASTEROID_MIN_SPAWN_INTERVAL: u64 = 500_000;
pub const ASTEROID_INITIAL_MAX_SPAWN_INTERVAL: u64 = 5_000_000;
/// The longest spawn interval loses `(max - min) * dt / ASTEROID_SPAWN_DECAY_DIVISOR` per tick.
pub const ASTEROID_SPAWN_DECAY_DIVISOR: u64 = 1_000_000_000;
pub const SAUCER_SPAWN_INTERVAL: u64 = 10_000_000;
pub const SAUCER_MAX: usize = 3;
pub const SAUCER_MAX_PER_WAVE: u64 = 5;
/// Waves past this one are not counted.
pub const MAX_WAVE: u64 = 1_000_000_000_000;

/// A timer advanced by `dt`, stopping at the largest value it can hold.
pub open spec fn timer_add(t: u64, dt: u64) -> u64 {
    if t + dt > u64::MAX {
        u64::MAX
    } else {
        (t + dt) as u64
    }
}

/// The number of asteroids that wave `wave` sends.
pub open spec fn wave_quota(wave: int) -> int {
    2 * wave + 2
}

/// The longest asteroid spawn interval after decaying for `dt`.
pub open spec fn decayed_max(max: int, dt: int) -> int {
    max - (max - ASTEROID_MIN_SPAWN_INTERVAL) * dt / ASTEROID_SPAWN_DECAY_DIVISOR as int
}

/// The wave and spawn bookkeeping of a session.
#[derive(Clone, Copy, Debug, PartialEq, Eq, Structural)]
pub struct Spawner {
    pub wave: u64,
    pub asteroids_spawned_in_wave: u64,
    pub last_asteroid: u64,
    pub max_asteroid_spawn_interval: u64,
    pub next_asteroid_spawn_interval: u64,
    pub last_saucer: u64,
    pub saucers_spawned_in_wave: u64,
}

impl Spawner {
    pub open spec fn wf(&self) -> bool {
        &&& self.wave <= MAX_WAVE
        &&& self.asteroids_spawned_in_wave <= wave_quota(self.wave as int)
        &&& self.saucers_spawned_in_wave <= SAUCER_MAX_PER_WAVE
        &&& ASTEROID_MIN_SPAWN_INTERVAL <= self.max_asteroid_spawn_interval
            <= ASTEROID_INITIAL_MAX_SPAWN_INTERVAL
        &&& self.next_asteroid_spawn_interval <= ASTEROID_INITIAL_MAX_SPAWN_INTERVAL
    }

    pub open spec fn spec_new() -> Spawner {
        Spawner {
            wave: 0,
            asteroids_spawned_in_wave: 0,
            last_asteroid: 0,
            max_asteroid_spawn_interval: ASTEROID_INITIAL_MAX_SPAWN_INTERVAL,
            next_asteroid_spawn_interval: 0,
            last_saucer: 0,
            saucers_spawned_in_wave: 0,
        }
    }

    pub fn new() -> (r: Spawner)
        ensures
            r.wf(),
            r == Self::spec_new(),
            r.wave == 0,
            r.asteroids_spawned_in_wave == 0,
            r.saucers_spawned_in_wave == 0,
            r.max_asteroid_spawn_interval == ASTEROID_INITIAL_MAX_SPAWN_INTERVAL,
            r.next_asteroid_spawn_interval == 0,
            r.last_asteroid == 0,
            r.last_saucer == 0,
    {
        Spawner {
            wave: 0,
            asteroids_spawned_in_wave: 0,
            last_asteroid: 0,
            max_asteroid_spawn_interval: ASTEROID_INITIAL_MAX_SPAWN_INTERVAL,
            next_asteroid_spawn_interval: 0,
            last_saucer: 0,
            saucers_spawned_in_wave: 0,
        }
    }

    /// The number of asteroids the current wave sends.
    pub fn get_wave_asteroid_amount(&self) -> (r: u64)
        requires
            self.wave <= MAX_WAVE,
        ensures
            r == wave_quota(self.wave as int),
    {
        self.wave * 2 + 2
    }

    /// Whether this tick's asteroid timer reaches the next spawn.
    pub open spec fn asteroid_due(&self, dt: u64) -> bool {
        self.asteroids_spawned_in_wave < wave_quota(self.wave as int) && timer_add(
            self.last_asteroid,
            dt,
        ) >= self.next_asteroid_spawn_interval
    }

    /// Advances the asteroid timer; when it is due and the wave's quota is not
    /// yet issued, one large asteroid spawns on an edge and the next interval is
    /// drawn from `[min, max)`. The longest interval then decays toward the
    /// shortest.
    pub fn spawn_asteroids(&mut self, asteroids: &mut Vec<Asteroid>, dt: u64, vp: &Viewport)
        requires
            old(self).wf(),
            dt <= MAX_TICK_MICROS,
            vp.wf(),
        ensures
            final(self).wf(),
            final(self).wave == old(self).wave,
            final(self).last_saucer == old(self).last_saucer,
            final(self).saucers_spawned_in_wave == old(self).saucers_spawned_in_wave,
            final(self).max_asteroid_spawn_interval == decayed_max(
                old(self).max_asteroid_spawn_interval as int,
                dt as int,
            ),
            old(self).asteroid_due(dt) ==> {
                &&& final(self).last_asteroid == 0
                &&& final(self).asteroids_spawned_in_wave == old(self).asteroids_spawned_in_wave + 1
                &&& ASTEROID_MIN_SPAWN_INTERVAL <= final(self).next_asteroid_spawn_interval
                &&& final(self).next_asteroid_spawn_interval
                    <= old(self).max_asteroid_spawn_interval
                &&& final(asteroids)@.len() == old(asteroids)@.len() + 1
                &&& final(asteroids)@.drop_last() == old(asteroids)@
                &&& final(asteroids)@.last().wf()
                &&& final(asteroids)@.last().size == AsteroidType::Large
                &&& on_edge(final(asteroids)@.last().pos, *vp)
                &&& !final(asteroids)@.last().collided
                &&& exists|a: int|
                    0 <= a < TURN && final(asteroids)@.last().vel == #[trigger] scaled(
                        direction(a),
                        LARGE_ASTEROID_SPEED as int,
                    )
            },
            !old(self).asteroid_due(dt) ==> {
                &&& final(self).last_asteroid == timer_add(old(self).last_asteroid, dt)
                &&& final(self).asteroids_spawned_in_wave == old(self).asteroids_spawned_in_wave
                &&& final(self).next_asteroid_spawn_interval
                    == old(self).next_asteroid_spawn_interval
                &&& final(asteroids)@ == old(asteroids)@
            },
    {
        self.last_asteroid = self.last_asteroid.saturating_add(dt);
        let quota = self.get_wave_asteroid_amount();
        if self.asteroids_spawned_in_wave < quota
            && self.last_asteroid >= self.next_asteroid_spawn_interval {
            self.last_asteroid = 0;
            self.asteroids_spawned_in_wave = self.asteroids_spawned_in_wave + 1;
            self.next_asteroid_spawn_interval = random_in(
                ASTEROID_MIN_SPAWN_INTERVAL,
                self.max_asteroid_spawn_interval,
            );
            asteroids.push(Asteroid::new(vp));
        }
        let span = self.max_asteroid_spawn_interval - ASTEROID_MIN_SPAWN_INTERVAL;
        proof {
            assert(span * dt <= span * ASTEROID_SPAWN_DECAY_DIVISOR) by (nonlinear_arith)
                requires
                    dt <= MAX_TICK_MICROS,
            ;
            assert(span * dt <= 5_000_000 * MAX_TICK_MICROS) by (nonlinear_arith)
                requires
                    dt <= MAX_TICK_MICROS,
                    span <= 5_000_000,
            ;
            vstd::arithmetic::div_mod::lemma_div_is_ordered(
                span * dt,
                span * ASTEROID_SPAWN_DECAY_DIVISOR,
                ASTEROID_SPAWN_DECAY_DIVISOR as int,
            );
            vstd::arithmetic::div_mod::lemma_div_by_multiple(
                span as int,
                ASTEROID_SPAWN_DECAY_DIVISOR as int,
            );
        }
        self.max_asteroid_spawn_interval = self.max_asteroid_spawn_interval - span * dt
            / ASTEROID_SPAWN_DECAY_DIVISOR;
    }

    /// Whether a saucer spawns this tick.
    pub open spec fn saucer_due(&self, alive: int, dt: u64) -> bool {
        &&& self.saucers_spawned_in_wave < SAUCER_MAX_PER_WAVE
        &&& alive < SAUCER_MAX
        &&& timer_add(self.last_saucer, dt) > SAUCER_SPAWN_INTERVAL
    }

    /// Advances the saucer timer; past the spawn interval, with fewer than the
    /// most saucers alive and the wave's saucers not all issued, one saucer
    /// spawns on an edge, its size drawn from the score.
    pub fn spawn_saucers(&mut self, saucers: &mut Vec<Saucer>, score: u64, dt: u64, vp: &Viewport)
        requires
            old(self).wf(),
            vp.wf(),
        ensures
            final(self).wf(),
            final(self).wave == old(self).wave,
            final(self).asteroids_spawned_in_wave == old(self).asteroids_spawned_in_wave,
            final(self).last_asteroid == old(self).last_asteroid,
            final(self).max_asteroid_spawn_interval == old(self).max_asteroid_spawn_interval,
            final(self).next_asteroid_spawn_interval == old(self).next_asteroid_spawn_interval,
            old(self).saucer_due(old(saucers)@.len() as int, dt) ==> {
                &&& final(self).last_saucer == 0
                &&& final(self).saucers_spawned_in_wave == old(self).saucers_spawned_in_wave + 1
                &&& final(saucers)@.len() == old(saucers)@.len() + 1
                &&& final(saucers)@.drop_last() == old(saucers)@
                &&& final(saucers)@.last().wf()
                &&& on_edge(final(saucers)@.last().pos, *vp)
                &&& !final(saucers)@.last().collided
                &&& score == 0 ==> final(saucers)@.last().size == SaucerSize::Large
                &&& exists|draw: int|
                    0 <= draw < PROBABILITY_ONE && final(saucers)@.last().size
                        == #[trigger] size_for_draw(score as int, draw)
                &&& exists|a: int|
                    0 <= a < TURN && final(saucers)@.last().vel == #[trigger] scaled(
                        direction(a),
                        final(saucers)@.last().size.spec_speed() as int,
                    )
            },
            !old(self).saucer_due(old(saucers)@.len() as int, dt) ==> {
                &&& final(self).last_saucer == timer_add(old(self).last_saucer, dt)
                &&& final(self).saucers_spawned_in_wave == old(self).saucers_spawned_in_wave
                &&& final(saucers)@ == old(saucers)@
            },
    {
        self.last_saucer = self.last_saucer.saturating_add(dt);
        if self.saucers_spawned_in_wave < SAUCER_MAX_PER_WAVE && saucers.len() < SAUCER_MAX
            && self.last_saucer > SAUCER_SPAWN_INTERVAL {
            self.last_saucer = 0;
            self.saucers_spawned_in_wave = self.saucers_spawned_in_wave + 1;
            let size = SaucerSize::from_score(score);
            saucers.push(Saucer::new(size, vp));
        }
    }

    /// Whether the current wave is over: all its asteroids were sent and none is left.
    pub open spec fn wave_done(&self, alive: int) -> bool {
        self.asteroids_spawned_in_wave == wave_quota(self.wave as int) && alive == 0
    }

    /// The bookkeeping after the end-of-tick wave check with `alive` asteroids left.
    pub open spec fn after_wave(&self, alive: int) -> Spawner {
        if self.wave_done(alive) && self.wave < MAX_WAVE {
            Spawner {
                wave: (self.wave + 1) as u64,
                asteroids_spawned_in_wave: 0,
                saucers_spawned_in_wave: 0,
                ..*self
            }
        } else {
            *self
        }
    }

    /// Starts the next wave once the current one is over: the wave index grows
    /// by one and both per-wave counters restart from zero.
    pub fn advance_wave(&mut self, alive: usize)
        requires
            old(self).wf(),
        ensures
            final(self).wf(),
            *final(self) == old(self).after_wave(alive as int),
            old(self).wave_done(alive as int) && old(self).wave < MAX_WAVE ==> *final(self) == (
            Spawner {
                wave: (old(self).wave + 1) as u64,
                asteroids_spawned_in_wave: 0,
                saucers_spawned_in_wave: 0,
                ..*old(self)
            }),
            !(old(self).wave_done(alive as int) && old(self).wave < MAX_WAVE) ==> *final(self)
                == *old(self),
    {
        let quota = self.get_wave_asteroid_amount();
        if self.asteroids_spawned_in_wave == quota && alive == 0 && self.wave < MAX_WAVE {
            self.wave = self.wave + 1;
            self.asteroids_spawned_in_wave = 0;
            self.saucers_spawned_in_wave = 0;
        }
    }
}

} // verus!
