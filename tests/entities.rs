use asteroids::collision::{collide_with_bullets, ship_hits};
use asteroids::entities::{
    generate_asteroid_vertices, Asteroid, AsteroidType, Bullet, Particle, ParticleKind, Saucer,
    SaucerSize,
};
use asteroids::geometry::{Vec2, Viewport};
use asteroids::ship::{flicker, Ship, ShipState, Translation};

fn vp() -> Viewport {
    Viewport { width: 800_000, height: 600_000 }
}

fn asteroid(size: AsteroidType, pos: Vec2, vel: Vec2) -> Asteroid {
    Asteroid { size, pos, vel, collided: false, vertices: generate_asteroid_vertices() }
}

#[test]
fn large_asteroid_splits_into_two_medium() {
    let a = asteroid(AsteroidType::Large, Vec2 { x: 1_000, y: 2_000 }, Vec2 { x: 40_000, y: 0 });
    let pieces = a.split().unwrap();
    assert_eq!(pieces.len(), 2);
    for p in &pieces {
        assert_eq!(p.size, AsteroidType::Medium);
        assert_eq!(p.pos, Vec2 { x: 1_000, y: 2_000 });
        assert!(!p.collided);
        assert!(p.vertices.len() >= 8 && p.vertices.len() < 12);
    }
    // 64.951 px/s: within a thousandth of 75 * cos(30 degrees) = 64.9519.
    assert_eq!(pieces[0].vel, Vec2 { x: 64_951, y: 37_500 });
    assert_eq!(pieces[1].vel, Vec2 { x: 64_951, y: -37_500 });
}

#[test]
fn medium_asteroid_splits_into_two_small() {
    let a = asteroid(AsteroidType::Medium, Vec2 { x: 0, y: 0 }, Vec2 { x: 0, y: -75_000 });
    let pieces = a.split().unwrap();
    assert_eq!(pieces.len(), 2);
    assert_eq!(pieces[0].size, AsteroidType::Small);
    assert_eq!(pieces[0].vel, Vec2 { x: 65_000, y: -112_583 });
    assert_eq!(pieces[1].vel, Vec2 { x: -65_000, y: -112_583 });
}

#[test]
fn slow_asteroid_splits_at_full_piece_speed() {
    let a = asteroid(AsteroidType::Large, Vec2 { x: 0, y: 0 }, Vec2 { x: 1, y: 1 });
    let pieces = a.split().unwrap();
    for p in &pieces {
        let speed_sq = p.vel.x * p.vel.x + p.vel.y * p.vel.y;
        assert!(speed_sq > 74_990 * 74_990 && speed_sq <= 75_000 * 75_000);
    }
}

#[test]
fn small_asteroid_never_splits() {
    let a = asteroid(AsteroidType::Small, Vec2 { x: 0, y: 0 }, Vec2 { x: 130_000, y: 0 });
    assert!(a.split().is_none());
}

#[test]
fn asteroid_class_tables() {
    assert_eq!(AsteroidType::Small.size(), 12_000);
    assert_eq!(AsteroidType::Medium.speed(), 75_000);
    assert_eq!(AsteroidType::Large.score(), 20);
    assert_eq!(SaucerSize::Small.score(), 1_000);
    assert_eq!(SaucerSize::Large.size(), 25_000);
    assert_eq!(SaucerSize::Small.speed(), 50_000);
}

#[test]
fn new_asteroid_is_large_on_an_edge() {
    let v = vp();
    let a = Asteroid::new(&v);
    assert_eq!(a.size, AsteroidType::Large);
    assert!(a.pos.x == 0 || a.pos.x == v.width || a.pos.y == 0 || a.pos.y == v.height);
    assert!(a.vel.x.abs() <= 40_000 && a.vel.y.abs() <= 40_000);
    assert!(a.vel != Vec2 { x: 0, y: 0 });
}

#[test]
fn outline_has_eight_to_eleven_vertices() {
    for _ in 0..50 {
        let vs = generate_asteroid_vertices();
        assert!(vs.len() >= 8 && vs.len() < 12);
        for v in &vs {
            assert!(v.x.abs() <= 1_100_000 && v.y.abs() <= 1_100_000);
        }
    }
}

#[test]
fn bullet_overlapping_asteroid_flags_both() {
    let mut asteroids = vec![asteroid(AsteroidType::Large, Vec2 { x: 100_000, y: 100_000 }, Vec2 { x: 0, y: 0 })];
    let mut bullets = vec![Bullet { pos: Vec2 { x: 144_999, y: 100_000 }, vel: Vec2 { x: 0, y: 0 }, collided: false }];
    collide_with_bullets(&mut asteroids, &mut bullets);
    assert!(asteroids[0].collided);
    assert!(bullets[0].collided);
}

#[test]
fn bullet_at_radius_sum_flags_neither() {
    let mut asteroids = vec![asteroid(AsteroidType::Large, Vec2 { x: 100_000, y: 100_000 }, Vec2 { x: 0, y: 0 })];
    let mut bullets = vec![
        Bullet { pos: Vec2 { x: 145_000, y: 100_000 }, vel: Vec2 { x: 0, y: 0 }, collided: false },
        Bullet { pos: Vec2 { x: 100_000, y: 300_000 }, vel: Vec2 { x: 0, y: 0 }, collided: false },
    ];
    collide_with_bullets(&mut asteroids, &mut bullets);
    assert!(!asteroids[0].collided);
    assert!(!bullets[0].collided);
    assert!(!bullets[1].collided);
}

#[test]
fn invincible_ship_is_never_hit() {
    let v = vp();
    for state in [ShipState::Shielded, ShipState::Hyperdrive] {
        let mut ship = Ship::new(&v);
        ship.state = state;
        ship.current_translation = Translation { from: ship.pos, to: ship.pos, duration: 10, current_time: 0 };
        let mut hazards = vec![asteroid(AsteroidType::Large, ship.pos, Vec2 { x: 0, y: 0 })];
        assert!(!ship_hits(&ship, &mut hazards));
        assert!(!hazards[0].collided);
    }
}

#[test]
fn normal_ship_is_hit_by_overlapping_asteroid() {
    let v = vp();
    let ship = Ship::new(&v);
    let mut hazards = vec![
        asteroid(AsteroidType::Small, ship.pos, Vec2 { x: 0, y: 0 }),
        asteroid(AsteroidType::Small, Vec2 { x: 0, y: 0 }, Vec2 { x: 0, y: 0 }),
    ];
    assert!(ship_hits(&ship, &mut hazards));
    assert!(hazards[0].collided);
    assert!(!hazards[1].collided);
}

#[test]
fn saucer_size_follows_score_and_draw() {
    assert_eq!(SaucerSize::from_score_and_draw(0, 0), SaucerSize::Large);
    assert_eq!(SaucerSize::from_score_and_draw(5_000, 3_999), SaucerSize::Small);
    assert_eq!(SaucerSize::from_score_and_draw(5_000, 4_000), SaucerSize::Large);
    assert_eq!(SaucerSize::from_score_and_draw(50_000, 7_999), SaucerSize::Small);
    assert_eq!(SaucerSize::from_score_and_draw(50_000, 8_000), SaucerSize::Large);
    assert_eq!(SaucerSize::from_score(0), SaucerSize::Large);
}

#[test]
fn small_saucer_aims_at_the_ship() {
    let v = vp();
    let mut ship = Ship::new(&v);
    ship.pos = Vec2 { x: 100_000, y: 0 };
    let s = Saucer { size: SaucerSize::Small, pos: Vec2 { x: 0, y: 0 }, vel: Vec2 { x: 0, y: 0 }, last_shot: 0, collided: false };
    let b = s.shoot(&ship);
    assert_eq!(b.pos, Vec2 { x: 0, y: 0 });
    assert_eq!(b.vel, Vec2 { x: 150_000, y: 0 });
}

#[test]
fn small_saucer_leads_a_moving_ship() {
    let v = vp();
    let mut ship = Ship::new(&v);
    ship.pos = Vec2 { x: 0, y: 100_000 };
    ship.rot = 9_000;
    ship.vel = Vec2 { x: 0, y: 50_000 };
    let s = Saucer { size: SaucerSize::Small, pos: Vec2 { x: 0, y: 0 }, vel: Vec2 { x: 0, y: 0 }, last_shot: 0, collided: false };
    let b = s.shoot(&ship);
    assert_eq!(b.vel, Vec2 { x: 67_081, y: 134_164 });
}

#[test]
fn particle_fades_with_age() {
    let p = Particle { kind: ParticleKind::Thrust, ttl: 1_000, time: 250, origin: Vec2 { x: 0, y: 0 }, vel: Vec2 { x: 1_000, y: 0 } };
    assert_eq!(p.size(), 3_750);
    assert_eq!(p.alpha(), 750);
    let q = Particle { time: 0, ttl: 2_000_000, ..p };
    assert_eq!(q.size(), 5_000);
    let r = Particle { time: 1_000_000, ttl: 2_000_000, ..p };
    assert_eq!(r.position(), Vec2 { x: 1_000, y: 0 });
}

#[test]
fn flicker_starts_opaque() {
    assert_eq!(flicker(0), 1_000);
    assert_eq!(flicker(314_159), 1_000);
    assert_eq!(flicker(157_079), 1);
}

#[test]
fn jump_needs_the_minimum_distance() {
    let v = vp();
    let mut ship = Ship::new(&v);
    let near = Vec2 { x: ship.pos.x + 60_000, y: ship.pos.y + 80_000 };
    assert!(!ship.jump_to(&near));
    assert_eq!(ship.state, ShipState::Normal);
    let far = Vec2 { x: ship.pos.x + 300_000, y: ship.pos.y };
    let from = ship.pos;
    assert!(ship.jump_to(&far));
    assert_eq!(ship.state, ShipState::Hyperdrive);
    assert_eq!(ship.current_translation, Translation { from, to: far, duration: 1_000_000, current_time: 0 });
}
