use slimegame::geometry::{distance_sq, in_burst, isqrt, nearest, velocity_toward, Position, Velocity};

#[test]
fn integer_square_roots() {
    assert_eq!(isqrt(0), 0);
    assert_eq!(isqrt(24), 4);
    assert_eq!(isqrt(25), 5);
    assert_eq!(isqrt(u128::MAX), u64::MAX);
}

#[test]
fn squared_distances() {
    assert_eq!(distance_sq(Position { x: 0, y: 0 }, Position { x: 3, y: 4 }), 25);
    let far = distance_sq(Position { x: i32::MIN, y: i32::MIN }, Position { x: i32::MAX, y: i32::MAX });
    let d = (u32::MAX as u128) * (u32::MAX as u128);
    assert_eq!(far, 2 * d);
}

#[test]
fn nearest_prefers_first_of_equals() {
    let o = Position { x: 0, y: 0 };
    let pts = vec![Position { x: 3, y: 4 }, Position { x: 4, y: 3 }, Position { x: -5, y: 0 }];
    assert_eq!(nearest(o, &pts), Some(0));
    let pts2 = vec![Position { x: 30, y: 0 }, Position { x: 0, y: -2 }];
    assert_eq!(nearest(o, &pts2), Some(1));
    assert_eq!(nearest(o, &vec![]), None);
}

#[test]
fn velocities_toward_targets() {
    let o = Position { x: 0, y: 0 };
    assert_eq!(velocity_toward(o, Position { x: 300, y: 400 }, 500), Velocity { x: 300, y: 400 });
    assert_eq!(velocity_toward(o, Position { x: -3, y: -4 }, 1_000), Velocity { x: -600, y: -800 });
    assert_eq!(velocity_toward(o, o, 1_000), Velocity { x: 0, y: 0 });
    assert_eq!(velocity_toward(o, Position { x: 1_000, y: 1_000 }, 6_000), Velocity { x: 4_243, y: 4_243 });
}

#[test]
fn burst_reach_is_strict() {
    let o = Position { x: 0, y: 0 };
    assert!(in_burst(o, Position { x: 9_374, y: 0 }, 250));
    assert!(!in_burst(o, Position { x: 9_375, y: 0 }, 250));
    assert!(!in_burst(o, o, 0));
}
