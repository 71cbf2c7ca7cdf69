use asteroids::entities::{generate_asteroid_vertices, Asteroid, AsteroidType, Bullet};
use asteroids::game::{award_bonus_life, fire_bullet, Game, Input, MAX_BULLETS};
use asteroids::geometry::{Vec2, Viewport};
use asteroids::ship::{Ship, ShipState, SHIP_SHIELD_TIME};

fn vp() -> Viewport {
    Viewport { width: 800_000, height: 600_000 }
}

fn idle() -> Input {
    Input { rotate_left: false, rotate_right: false, thrust: false, fire: false, hyperspace: false }
}

fn still_asteroid(pos: Vec2) -> Asteroid {
    Asteroid {
        size: AsteroidType::Large,
        pos,
        vel: Vec2 { x: 0, y: 0 },
        collided: false,
        vertices: generate_asteroid_vertices(),
    }
}

/// A session whose current wave has sent all its asteroids, so that no random
/// asteroid appears during a tick.
fn quiet_game() -> Game {
    let mut g = Game::new(&vp());
    g.spawner.asteroids_spawned_in_wave = g.get_wave_asteroid_amount();
    g
}

#[test]
fn new_game_starts_with_three_lives() {
    let g = Game::new(&vp());
    assert_eq!(g.lives, 3);
    assert_eq!(g.score, 0);
    assert!(!g.game_over);
    assert_eq!(g.ship.pos, Vec2 { x: 400_000, y: 300_000 });
    assert_eq!(g.ship.state, ShipState::Normal);
    assert_eq!(g.get_wave_asteroid_amount(), 2);
    assert!(g.asteroids.is_empty() && g.bullets.is_empty() && g.saucers.is_empty());
}

#[test]
fn first_tick_spawns_an_asteroid_on_an_edge() {
    let mut g = Game::new(&vp());
    g.tick(&idle(), 16_000, &vp());
    assert_eq!(g.asteroids.len(), 1);
    assert_eq!(g.spawner.asteroids_spawned_in_wave, 1);
    let a = &g.asteroids[0];
    assert_eq!(a.size, AsteroidType::Large);
    assert!(g.spawner.next_asteroid_spawn_interval >= 500_000);
    assert!(g.spawner.next_asteroid_spawn_interval < 5_000_000);
}

#[test]
fn spawn_interval_bound_decays() {
    let mut g = quiet_game();
    g.tick(&idle(), 1_000_000, &vp());
    assert_eq!(g.spawner.max_asteroid_spawn_interval, 5_000_000 - 4_500);
}

#[test]
fn wave_advances_when_quota_sent_and_field_clear() {
    let mut g = quiet_game();
    g.spawner.saucers_spawned_in_wave = 2;
    g.tick(&idle(), 16_000, &vp());
    assert_eq!(g.spawner.wave, 1);
    assert_eq!(g.spawner.asteroids_spawned_in_wave, 0);
    assert_eq!(g.spawner.saucers_spawned_in_wave, 0);
    assert_eq!(g.get_wave_asteroid_amount(), 4);
}

#[test]
fn wave_holds_while_an_asteroid_is_alive() {
    let mut g = quiet_game();
    g.asteroids.push(still_asteroid(Vec2 { x: 10_000, y: 10_000 }));
    g.tick(&idle(), 16_000, &vp());
    assert_eq!(g.spawner.wave, 0);
    assert_eq!(g.asteroids.len(), 1);
}

#[test]
fn wave_holds_until_quota_sent() {
    let mut g = Game::new(&vp());
    g.spawner.next_asteroid_spawn_interval = 10_000_000;
    g.tick(&idle(), 16_000, &vp());
    assert_eq!(g.spawner.wave, 0);
    assert!(g.asteroids.is_empty());
}

#[test]
fn crossing_a_life_threshold_grants_one_life_once() {
    let mut lives: u64 = 2;
    let mut awarded: u64 = 0;
    award_bonus_life(&mut lives, &mut awarded, 10_050);
    assert_eq!((lives, awarded), (3, 1));
    award_bonus_life(&mut lives, &mut awarded, 10_050);
    assert_eq!((lives, awarded), (3, 1));
    award_bonus_life(&mut lives, &mut awarded, 19_999);
    assert_eq!((lives, awarded), (3, 1));
    award_bonus_life(&mut lives, &mut awarded, 20_000);
    assert_eq!((lives, awarded), (4, 2));
}

#[test]
fn crossing_two_thresholds_at_once_grants_two_lives() {
    let mut lives: u64 = 3;
    let mut awarded: u64 = 0;
    award_bonus_life(&mut lives, &mut awarded, 25_000);
    assert_eq!((lives, awarded), (5, 2));
}

#[test]
fn resolve_without_contact_keeps_everything() {
    let mut g = quiet_game();
    g.asteroids.push(still_asteroid(Vec2 { x: 100_000, y: 100_000 }));
    g.bullets.push(Bullet { pos: Vec2 { x: 145_000, y: 100_000 }, vel: Vec2 { x: 0, y: 0 }, collided: false });
    assert!(!g.resolve());
    assert_eq!(g.score, 0);
    assert_eq!(g.asteroids.len(), 1);
    assert_eq!(g.asteroids[0].pos, Vec2 { x: 100_000, y: 100_000 });
    assert_eq!(g.bullets.len(), 1);
}

#[test]
fn shooting_an_asteroid_scores_and_splits_it() {
    let mut g = quiet_game();
    g.asteroids.push(still_asteroid(Vec2 { x: 100_000, y: 100_000 }));
    g.bullets.push(Bullet { pos: Vec2 { x: 100_000, y: 100_000 }, vel: Vec2 { x: 0, y: 0 }, collided: false });
    g.tick(&idle(), 16_000, &vp());
    assert_eq!(g.score, 20);
    assert!(g.bullets.is_empty());
    assert_eq!(g.asteroids.len(), 2);
    assert!(g.asteroids.iter().all(|a| a.size == AsteroidType::Medium && !a.collided));
    assert_eq!(g.particles.len(), 3);
}

#[test]
fn score_crossing_threshold_in_a_tick_grants_a_life() {
    let mut g = quiet_game();
    g.score = 9_990;
    g.asteroids.push(still_asteroid(Vec2 { x: 100_000, y: 100_000 }));
    g.bullets.push(Bullet { pos: Vec2 { x: 100_000, y: 100_000 }, vel: Vec2 { x: 0, y: 0 }, collided: false });
    g.tick(&idle(), 16_000, &vp());
    assert_eq!(g.score, 10_010);
    assert_eq!(g.lives, 4);
    assert_eq!(g.lives_awarded, 1);
    g.tick(&idle(), 16_000, &vp());
    assert_eq!(g.lives, 4);
    assert_eq!(g.lives_awarded, 1);
}

#[test]
fn expired_shield_with_no_lives_ends_the_game() {
    let mut g = quiet_game();
    g.lives = 0;
    g.ship.state = ShipState::Shielded;
    g.ship.shield_time = SHIP_SHIELD_TIME;
    let at = g.ship.pos;
    g.asteroids.push(still_asteroid(at));
    let hit = g.tick(&idle(), 16_000, &vp());
    assert!(hit);
    assert!(g.game_over);
    assert_eq!(g.lives, 0);
    assert_eq!(g.ship.state, ShipState::Normal);
}

#[test]
fn hit_with_lives_left_costs_a_life_and_shields() {
    let mut g = quiet_game();
    let at = g.ship.pos;
    g.asteroids.push(still_asteroid(at));
    let hit = g.tick(&idle(), 16_000, &vp());
    assert!(hit);
    assert!(!g.game_over);
    assert_eq!(g.lives, 2);
    assert_eq!(g.ship.state, ShipState::Shielded);
    assert_eq!(g.ship.shield_time, 0);
    let again = g.tick(&idle(), 16_000, &vp());
    assert!(!again);
    assert_eq!(g.lives, 2);
}

#[test]
fn active_shield_blocks_hits() {
    let mut g = quiet_game();
    g.ship.state = ShipState::Shielded;
    g.ship.shield_time = 0;
    let at = g.ship.pos;
    g.asteroids.push(still_asteroid(at));
    assert!(!g.tick(&idle(), 16_000, &vp()));
    assert_eq!(g.lives, 3);
    assert_eq!(g.asteroids.len(), 1);
    assert!(!g.asteroids[0].collided);
}

#[test]
fn game_over_tick_changes_nothing() {
    let mut g = quiet_game();
    g.game_over = true;
    g.score = 77;
    assert!(!g.tick(&idle(), 16_000, &vp()));
    assert_eq!(g.frame, 0);
    assert_eq!(g.score, 77);
    assert_eq!(g.spawner.wave, 0);
}

#[test]
fn held_fire_adds_one_bullet_per_cooldown_up_to_the_maximum() {
    let mut g = quiet_game();
    let fire = Input { fire: true, ..idle() };
    // 0.25 s apart: each tick is past the 0.2 s cooldown.
    let mut counts = Vec::new();
    for _ in 0..6 {
        g.tick(&fire, 250_000, &vp());
        counts.push(g.bullets.len());
    }
    assert_eq!(counts, vec![1, 2, 3, 4, 4, 4]);
    assert!(g.bullets.len() <= MAX_BULLETS);
}

#[test]
fn held_fire_waits_for_the_cooldown() {
    let mut g = quiet_game();
    g.last_bullet = 1_000_000;
    let fire = Input { fire: true, ..idle() };
    g.tick(&fire, 50_000, &vp());
    assert_eq!(g.bullets.len(), 1);
    // Exactly the cooldown is not yet past it.
    for _ in 0..4 {
        g.tick(&fire, 50_000, &vp());
    }
    assert_eq!(g.bullets.len(), 1);
    g.tick(&fire, 50_000, &vp());
    assert_eq!(g.bullets.len(), 2);
}

#[test]
fn fire_bullet_leaves_along_the_heading() {
    let ship = Ship::new(&vp());
    let mut bullets = Vec::new();
    let mut last: u64 = 300_000;
    fire_bullet(&mut bullets, &mut last, &ship, true);
    assert_eq!(last, 0);
    assert_eq!(bullets.len(), 1);
    assert_eq!(bullets[0].pos, ship.pos);
    assert_eq!(bullets[0].vel, Vec2 { x: 0, y: -150_000 });
}

#[test]
fn thrust_accelerates_along_the_heading() {
    let mut g = quiet_game();
    let thrust = Input { thrust: true, ..idle() };
    g.tick(&thrust, 100_000, &vp());
    assert_eq!(g.ship.acc, Vec2 { x: 0, y: -200_000 });
    assert_eq!(g.ship.vel, Vec2 { x: 0, y: -20_000 });
    assert_eq!(g.ship.pos, Vec2 { x: 400_000, y: 298_000 });
}

#[test]
fn speed_is_capped() {
    let mut ship = Ship::new(&vp());
    ship.vel = Vec2 { x: 0, y: -80_000 };
    ship.steer(false, false, true, 1_000_000, &vp());
    assert_eq!(ship.vel, Vec2 { x: 0, y: -80_000 });
}

#[test]
fn drag_slows_a_drifting_ship() {
    let mut ship = Ship::new(&vp());
    ship.vel = Vec2 { x: 50_000, y: 0 };
    ship.steer(false, false, false, 100_000, &vp());
    assert_eq!(ship.acc, Vec2 { x: -50_000, y: 0 });
    assert_eq!(ship.vel, Vec2 { x: 45_000, y: 0 });
}

#[test]
fn rotation_wraps_around_a_full_turn() {
    let mut ship = Ship::new(&vp());
    ship.steer(true, false, false, 250_000, &vp());
    assert_eq!(ship.rot, 36_000 - 3_600);
    ship.steer(false, true, false, 500_000, &vp());
    assert_eq!(ship.rot, 3_600);
}

#[test]
fn hyperspace_jumps_far_and_lands_exactly() {
    let mut g = quiet_game();
    let start = g.ship.pos;
    let jump = Input { hyperspace: true, ..idle() };
    g.last_hyperspace = 3_000_000;
    g.tick(&jump, 16_000, &vp());
    assert_eq!(g.ship.state, ShipState::Hyperdrive);
    assert_eq!(g.last_hyperspace, 0);
    let tr = g.ship.current_translation;
    assert_eq!(tr.from, start);
    let dx = tr.to.x - tr.from.x;
    let dy = tr.to.y - tr.from.y;
    assert!(dx * dx + dy * dy > 100_000 * 100_000);
    let mut ticks = 0;
    while g.ship.state == ShipState::Hyperdrive {
        g.tick(&idle(), 16_000, &vp());
        ticks += 1;
        assert!(ticks < 10_000);
    }
    assert_eq!(g.ship.pos, tr.to);
    assert_eq!(g.ship.alpha, 1_000);
}

#[test]
fn hyperspace_respects_its_cooldown() {
    let mut g = quiet_game();
    let jump = Input { hyperspace: true, ..idle() };
    g.tick(&jump, 16_000, &vp());
    assert_eq!(g.ship.state, ShipState::Normal);
}

#[test]
fn hyperspace_hands_over_after_the_duration() {
    let mut ship = Ship::new(&vp());
    ship.state = ShipState::Hyperdrive;
    ship.current_translation = asteroids::ship::Translation {
        from: Vec2 { x: 0, y: 0 },
        to: Vec2 { x: 300_000, y: 0 },
        duration: 1_000_000,
        current_time: 500_000,
    };
    ship.hyperdrive_step(100_000);
    assert_eq!(ship.pos, Vec2 { x: 150_000, y: 0 });
    assert_eq!(ship.state, ShipState::Hyperdrive);
    ship.hyperdrive_step(500_000);
    assert_eq!(ship.pos, Vec2 { x: 300_000, y: 0 });
    assert_eq!(ship.state, ShipState::Normal);
}

#[test]
fn hyperspace_charge_reports_readiness() {
    let mut g = quiet_game();
    g.last_hyperspace = 500_000;
    assert_eq!(g.hyperspace_charge(), 250);
    g.last_hyperspace = 2_000_001;
    assert_eq!(g.hyperspace_charge(), 1_000);
}

#[test]
fn moving_entities_wrap_around_the_screen() {
    let mut g = quiet_game();
    g.bullets.push(Bullet { pos: Vec2 { x: 799_000, y: 100 }, vel: Vec2 { x: 150_000, y: 0 }, collided: false });
    g.tick(&idle(), 16_000, &vp());
    assert_eq!(g.bullets[0].pos, Vec2 { x: 0, y: 100 });
}
