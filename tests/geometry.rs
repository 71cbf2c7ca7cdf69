use asteroids::geometry::{
    cosine_of, int_sqrt, normalize, overlap, scale, sine_of, turn_negative, turn_positive,
    wrap_screen, Vec2, Viewport, UNIT,
};
use asteroids::rng::{random_in, random_screen_edge_position, random_screen_position};

fn vp() -> Viewport {
    Viewport { width: 800_000, height: 600_000 }
}

#[test]
fn wrap_left_edge_moves_only_x() {
    let mut p = Vec2 { x: -5, y: 300_000 };
    wrap_screen(&mut p, &vp());
    assert_eq!(p, Vec2 { x: 800_000, y: 300_000 });
}

#[test]
fn wrap_right_edge_moves_only_x() {
    let mut p = Vec2 { x: 800_001, y: 42 };
    wrap_screen(&mut p, &vp());
    assert_eq!(p, Vec2 { x: 0, y: 42 });
}

#[test]
fn wrap_top_and_bottom_move_only_y() {
    let mut p = Vec2 { x: 10, y: -1 };
    wrap_screen(&mut p, &vp());
    assert_eq!(p, Vec2 { x: 10, y: 600_000 });
    let mut q = Vec2 { x: 10, y: 600_001 };
    wrap_screen(&mut q, &vp());
    assert_eq!(q, Vec2 { x: 10, y: 0 });
}

#[test]
fn wrap_keeps_points_on_screen_and_on_bounds() {
    for p in [Vec2 { x: 0, y: 0 }, Vec2 { x: 800_000, y: 600_000 }, Vec2 { x: 5, y: 7 }] {
        let mut q = p;
        wrap_screen(&mut q, &vp());
        assert_eq!(q, p);
    }
}

#[test]
fn sine_at_key_angles() {
    assert_eq!(sine_of(0), 0);
    assert_eq!(sine_of(9_000), UNIT);
    assert_eq!(sine_of(3_000), 500_000);
    assert_eq!(sine_of(18_000), 0);
    assert_eq!(sine_of(27_000), -UNIT);
    assert_eq!(cosine_of(0), UNIT);
    assert_eq!(cosine_of(18_000), -UNIT);
}

#[test]
fn integer_square_roots() {
    assert_eq!(int_sqrt(0), 0);
    assert_eq!(int_sqrt(1), 1);
    assert_eq!(int_sqrt(15), 3);
    assert_eq!(int_sqrt(16), 4);
    assert_eq!(int_sqrt(1_600_000_000), 40_000);
    assert_eq!(int_sqrt(i64::MAX as u64), 3_037_000_499);
}

#[test]
fn normalize_and_scale() {
    assert_eq!(normalize(&Vec2 { x: 3, y: 4 }), Vec2 { x: 600_000, y: 800_000 });
    assert_eq!(normalize(&Vec2 { x: 0, y: 0 }), Vec2 { x: 0, y: 0 });
    assert_eq!(scale(&Vec2 { x: 600_000, y: -800_000 }, 50_000), Vec2 { x: 30_000, y: -40_000 });
}

#[test]
fn normalize_keeps_short_vectors_precise() {
    assert_eq!(normalize(&Vec2 { x: 1, y: 1 }), Vec2 { x: 707_107, y: 707_107 });
    assert_eq!(normalize(&Vec2 { x: -1, y: 0 }), Vec2 { x: -UNIT, y: 0 });
}

#[test]
fn thirty_degree_turns() {
    let n = Vec2 { x: UNIT, y: 0 };
    assert_eq!(turn_positive(&n), Vec2 { x: 866_025, y: 500_000 });
    assert_eq!(turn_negative(&n), Vec2 { x: 866_025, y: -500_000 });
}

#[test]
fn overlap_is_strict() {
    let a = Vec2 { x: 0, y: 0 };
    assert!(overlap(&a, 3, &Vec2 { x: 4, y: 0 }, 2));
    assert!(!overlap(&a, 3, &Vec2 { x: 5, y: 0 }, 2));
    assert!(!overlap(&a, 3, &Vec2 { x: 3, y: 4 }, 2));
}

#[test]
fn random_draws_stay_below_the_high_bound() {
    for _ in 0..2_000 {
        let r = random_in(0, 10);
        assert!(r < 10);
        let s = random_in(5, 7);
        assert!(s == 5 || s == 6);
    }
    assert_eq!(random_in(9, 9), 9);
}

#[test]
fn random_positions_lie_on_screen_and_on_edges() {
    let v = vp();
    for _ in 0..500 {
        let p = random_screen_position(&v);
        assert!(0 <= p.x && p.x < v.width && 0 <= p.y && p.y < v.height);
        let e = random_screen_edge_position(&v);
        assert!(e.x == 0 || e.x == v.width || e.y == 0 || e.y == v.height);
        assert!(0 <= e.x && e.x <= v.width && 0 <= e.y && e.y <= v.height);
    }
}
