use slimegame::enemy::{
    closest_player, enemy_movement, handle_charge, random_heading, spawn_enemy, spawn_requested,
    turn_heading, EnemyMovement, Mover, Steering, BOSS_HEALTH, TAU_MICRORAD, WANDER_SPEED,
};
use slimegame::geometry::{Position, Velocity};
use slimegame::spawner::{EnemySpawnerType, SpawnRequest};

fn request(kind: EnemySpawnerType) -> SpawnRequest {
    SpawnRequest { enemy_type: kind, position: Position { x: 100, y: 200 }, depth: 10 }
}

#[test]
fn stat_profiles_by_kind() {
    let n = spawn_enemy(request(EnemySpawnerType::Normal), 1_234);
    assert_eq!(n.health.current_health, 100_000);
    assert_eq!(n.enemy.reward, 1);
    assert_eq!(n.movement, EnemyMovement::Random(1_234));
    assert!(n.charge.is_none() && !n.explode);
    assert_eq!(n.velocity, Velocity { x: 2_000, y: 2_000 });
    let e = spawn_enemy(request(EnemySpawnerType::Elite), 0);
    assert_eq!(e.health.max_health, 500_000);
    assert_eq!(e.enemy.reward, 5);
    assert_eq!(e.movement, EnemyMovement::Homing);
    let b = spawn_enemy(request(EnemySpawnerType::Boss), 0);
    assert_eq!(b.health.current_health, BOSS_HEALTH);
    assert_eq!(b.enemy.reward, 200);
    assert!(b.explode);
    assert_eq!(b.velocity, Velocity { x: 2_000, y: 2_000 });
    let c = b.charge.unwrap();
    assert_eq!(c.cooldown.duration, 8_000_000);
    assert_eq!(c.duration.duration, 2_000_000);
    assert!(c.duration.is_paused());
    assert_eq!(b.position, Position { x: 100, y: 200 });
    assert_eq!(b.depth, 10);
}

#[test]
fn random_headings_vary_within_a_turn() {
    let mut seen_other = false;
    for _ in 0..64 {
        let h = random_heading();
        assert!((0..TAU_MICRORAD).contains(&h));
        if h != 0 {
            seen_other = true;
        }
    }
    assert!(seen_other);
    match spawn_requested(request(EnemySpawnerType::Normal)).movement {
        EnemyMovement::Random(h) => assert!((0..TAU_MICRORAD).contains(&h)),
        EnemyMovement::Homing => panic!("normal enemies wander"),
    }
}

#[test]
fn heading_turns_wrap_around() {
    assert_eq!(turn_heading(TAU_MICRORAD - 1, 300_000), 299_999);
    assert_eq!(turn_heading(0, -300_000), 5_983_185);
    assert_eq!(turn_heading(1_000, 500), 1_500);
}

#[test]
fn wandering_heading_stays_valid() {
    let mut movers = vec![Mover { position: Position { x: 0, y: 0 }, movement: EnemyMovement::Random(TAU_MICRORAD - 1) }];
    let mut moved = false;
    for _ in 0..10_000 {
        let s = enemy_movement(&mut movers, &vec![]);
        match (movers[0].movement, s[0]) {
            (EnemyMovement::Random(h), Steering::Polar { heading, speed_x, speed_y }) => {
                assert!((0..TAU_MICRORAD).contains(&h));
                assert_eq!(h, heading);
                assert!((0..WANDER_SPEED).contains(&speed_x));
                assert!((0..WANDER_SPEED).contains(&speed_y));
                if h != TAU_MICRORAD - 1 {
                    moved = true;
                }
            }
            _ => panic!("a wandering enemy keeps wandering"),
        }
    }
    assert!(moved);
}

#[test]
fn homing_without_players_keeps_velocity() {
    let mut movers = vec![Mover { position: Position { x: 5, y: 5 }, movement: EnemyMovement::Homing }];
    assert_eq!(enemy_movement(&mut movers, &vec![]), vec![Steering::Keep]);
    let players = vec![Position { x: 5, y: -995 }, Position { x: 1_005, y: 5 }];
    assert_eq!(closest_player(Position { x: 5, y: 5 }, &players), Some(Position { x: 5, y: -995 }));
}

#[test]
fn boss_charges_on_its_cooldown() {
    let mut c = spawn_enemy(request(EnemySpawnerType::Boss), 0).charge.unwrap();
    let at = Position { x: 0, y: 0 };
    let players = vec![Position { x: 0, y: 1_000 }];
    assert_eq!(handle_charge(&mut c, at, &players, 7_900_000), None);
    let dash = Velocity { x: 0, y: 30_000 };
    assert_eq!(handle_charge(&mut c, at, &players, 100_000), Some(dash));
    assert_eq!(handle_charge(&mut c, at, &vec![], 1_800_000), Some(dash));
    assert_eq!(handle_charge(&mut c, at, &players, 100_000), None);
    assert_eq!(handle_charge(&mut c, at, &players, 1_000_000), None);
}
