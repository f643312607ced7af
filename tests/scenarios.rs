use slimegame::cleanup::{handle_despawn_entity, Bounty};
use slimegame::enemy::{
    enemy_movement, handle_explosion, Detonator, EnemyMovement, Mover, Steering, FRAGMENT_COUNT,
    TAU_MICRORAD,
};
use slimegame::geometry::{Position, Velocity};
use slimegame::health::{handle_damage_event, DamageEvent, DespawnEvent, Health, Vital};
use slimegame::level::{end_condition, LevelEndTimer, LevelStatus};
use slimegame::spawner::{generic_spawner, EnemySpawner, EnemySpawnerType};

const TICK: u64 = 100_000;

#[test]
fn spawner_first_fire_after_delay_and_one_period() {
    let mut spawners = vec![EnemySpawner::new(
        Position { x: -15_000, y: -6_000 },
        0,
        700_000,
        2_000_000,
        30,
        EnemySpawnerType::Normal,
    )];
    let mut spawned = 0usize;
    for _ in 0..26 {
        spawned += generic_spawner(&mut spawners, TICK).len();
    }
    assert_eq!(spawners[0].spawn_count, 0);
    assert_eq!(spawned, 0);
    spawned += generic_spawner(&mut spawners, TICK).len();
    assert_eq!(spawners[0].spawn_count, 1);
    assert_eq!(spawned, 1);
    for _ in 27..33 {
        spawned += generic_spawner(&mut spawners, TICK).len();
    }
    assert_eq!(spawned, 1);
    spawned += generic_spawner(&mut spawners, TICK).len();
    assert_eq!(spawned, 2);
}

#[test]
fn overkill_despawns_once_and_keeps_negative_health() {
    let mut vitals = vec![Vital { entity: 7, health: Health::new(100_000) }];
    let events = vec![DamageEvent { entity: 7, damage: 150_000 }];
    let out = handle_damage_event(&mut vitals, &events, TICK);
    assert_eq!(out.despawns, vec![DespawnEvent { entity: 7 }]);
    assert_eq!(vitals[0].health.current_health, -50_000);
    let bounties = vec![Bounty { entity: 7, reward: 1, explodes: false }];
    let gone = handle_despawn_entity(&out.despawns, &bounties);
    assert_eq!(gone.removed, vec![7]);
    assert_eq!(gone.reward, 1);
    let out = handle_damage_event(&mut vitals, &vec![DamageEvent { entity: 7, damage: 50_000 }], TICK);
    assert!(out.despawns.is_empty());
    assert_eq!(vitals[0].health.current_health, -100_000);
}

#[test]
fn homing_enemy_heads_for_nearest_player() {
    let players = vec![Position { x: 1_000, y: 0 }, Position { x: -500, y: 0 }];
    let mut movers = vec![Mover { position: Position { x: 0, y: 0 }, movement: EnemyMovement::Homing }];
    let steering = enemy_movement(&mut movers, &players);
    assert_eq!(steering, vec![Steering::Move(Velocity { x: -6_000, y: 0 })]);
}

#[test]
fn grace_timer_rearms_when_enemies_return() {
    let mut end = LevelEndTimer::new();
    let mut spawner =
        EnemySpawner::new(Position { x: 0, y: 0 }, 0, 10_000, 0, 0, EnemySpawnerType::Elite);
    assert!(spawner.is_exhausted());
    spawner.spawn_count = 0;
    let spawners = vec![spawner];
    for _ in 0..29 {
        assert_eq!(end_condition(&mut end, 2, 0, &spawners, TICK), LevelStatus::WonPendingDelay);
    }
    assert_eq!(end_condition(&mut end, 2, 3, &spawners, TICK), LevelStatus::InProgress);
    assert_eq!(end.timer.elapsed, 0);
    for _ in 0..29 {
        assert_eq!(end_condition(&mut end, 2, 0, &spawners, TICK), LevelStatus::WonPendingDelay);
    }
    assert_eq!(end_condition(&mut end, 2, 0, &spawners, TICK), LevelStatus::Won);
}

#[test]
fn boss_breaks_into_thirty_fragments() {
    let mut vitals = vec![Vital { entity: 1, health: Health::new(2_000_000) }];
    let events = vec![
        DamageEvent { entity: 1, damage: 1_500_000 },
        DamageEvent { entity: 1, damage: 600_000 },
    ];
    let out = handle_damage_event(&mut vitals, &events, TICK);
    assert_eq!(out.despawns, vec![DespawnEvent { entity: 1 }]);
    let bounties = vec![Bounty { entity: 1, reward: 200, explodes: true }];
    let gone = handle_despawn_entity(&out.despawns, &bounties);
    assert!(gone.removed.is_empty());
    assert_eq!(gone.reward, 0);
    let bosses = vec![Detonator {
        entity: 1,
        position: Position { x: 300, y: -400 },
        depth: 10,
        reward: 200,
        current_health: vitals[0].health.current_health,
    }];
    let blasts = handle_explosion(&bosses);
    assert_eq!(blasts.len(), 1);
    assert_eq!(blasts[0].entity, 1);
    assert_eq!(blasts[0].reward, 200);
    assert_eq!(blasts[0].fragments.len(), FRAGMENT_COUNT);
    assert_eq!(FRAGMENT_COUNT, 30);
    for f in &blasts[0].fragments {
        assert_eq!(f.health.current_health, 100_000);
        assert_eq!(f.health.max_health, 100_000);
        assert_eq!(f.enemy.reward, 1);
        assert_eq!(f.position, Position { x: 300, y: -400 });
        assert_eq!(f.velocity, slimegame::geometry::Velocity { x: 0, y: 0 });
        assert!(!f.explode);
        match f.movement {
            EnemyMovement::Random(h) => assert!((0..TAU_MICRORAD).contains(&h)),
            EnemyMovement::Homing => panic!("fragments wander"),
        }
        let c = f.charge.expect("fragments charge");
        assert!((4_000_000..10_000_000).contains(&c.cooldown.duration));
    }
}
