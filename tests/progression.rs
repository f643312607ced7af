use slimegame::camera::follow_camera;
use slimegame::geometry::{Position, Velocity};
use slimegame::level::{award_win, create_map_boundary, init, GameLevel, HazardZone};
use slimegame::player::{create_player, player_movement, Movement, Player, Special};
use slimegame::progress::{GameData, Upgrade};
use slimegame::spawner::{EnemySpawner, EnemySpawnerType};
use slimegame::timer::TimerMode;

#[test]
fn new_game_defaults() {
    let d = GameData::default();
    assert!(d.new_game);
    assert_eq!(d.level, 1);
    assert_eq!(d.money, 200);
    assert_eq!(d.gun_cooldown, 1_500_000);
    assert_eq!(d.gun_damage, 20_000);
    assert_eq!(d.lightning_gun.size, 250);
    assert_eq!(d.laser_gun.damage, 500_000);
}

#[test]
fn upgrades_cost_money() {
    let mut d = GameData::default();
    assert!(d.purchase(Upgrade::GunIncreaseFireRate));
    assert_eq!(d.gun_cooldown, 1_350_000);
    assert_eq!(d.money, 150);
    assert!(d.purchase(Upgrade::LaserIncreaseDamage));
    assert_eq!(d.laser_gun.damage, 600_000);
    assert!(d.purchase(Upgrade::GunIncreaseDamage));
    assert_eq!(d.gun_damage, 40_000);
    assert_eq!(d.money, 0);
    let before = d;
    assert!(!d.purchase(Upgrade::LightningGunIncreaseSize));
    assert_eq!(d, before);
    d.money = 100;
    assert!(d.purchase(Upgrade::LightningGunIncreaseSize));
    assert_eq!(d.lightning_gun.size, 300);
    d.gun_cooldown = 7;
    d.money = 50;
    assert!(d.purchase(Upgrade::GunIncreaseFireRate));
    assert_eq!(d.gun_cooldown, 6);
}

#[test]
fn winning_unlocks_and_pays() {
    let mut d = GameData::default();
    award_win(&mut d, GameLevel::Level1);
    assert_eq!((d.level, d.money), (2, 250));
    award_win(&mut d, GameLevel::Level2);
    assert_eq!((d.level, d.money), (3, 350));
    award_win(&mut d, GameLevel::Level1);
    assert_eq!((d.level, d.money), (3, 400));
    award_win(&mut d, GameLevel::Level3);
    assert_eq!((d.level, d.money), (3, 400));
    d.money = i64::MAX - 1;
    d.credit(10);
    assert_eq!(d.money, i64::MAX);
    d.credit(-(i64::MAX as i128) * 4);
    assert_eq!(d.money, i64::MIN);
}

#[test]
fn level_layouts() {
    let d = GameData::default();
    let (one, end, players) = init(GameLevel::Level1, &d);
    assert_eq!(players.len(), 2);
    assert_eq!(players[0], create_player(Player::One, &d));
    assert_eq!(players[1], create_player(Player::Two, &d));
    assert_eq!(one.len(), 2);
    assert_eq!(one[0].position, Position { x: -15_000, y: -6_000 });
    assert_eq!(one[0].spawn_limit, 30);
    assert_eq!(one[0].timer.duration, 700_000);
    assert_eq!(one[0].initial_delay.duration, 2_000_000);
    assert_eq!(one[1].enemy_type, EnemySpawnerType::Elite);
    assert_eq!(end.timer.duration, 3_000_000);
    assert_eq!(init(GameLevel::Level2, &d).0.len(), 5);
    let (three, _, _) = init(GameLevel::Level3, &d);
    assert_eq!(three.len(), 1);
    assert_eq!(three[0].enemy_type, EnemySpawnerType::Boss);
}

#[test]
fn players_start_armed() {
    let d = GameData::default();
    let one = create_player(Player::One, &d);
    let two = create_player(Player::Two, &d);
    assert_eq!(one.position, Position { x: 0, y: -2_000 });
    assert_eq!(two.position, Position { x: 0, y: 2_000 });
    assert_eq!(one.health.current_health, 50_000);
    assert_eq!(one.gun.cooldown.duration, 1_500_000);
    assert_eq!(one.gun.cooldown.mode, TimerMode::Repeating);
    match one.special {
        Special::Lightning(g) => assert_eq!((g.damage, g.size), (100_000, 250)),
        Special::Laser(_) => panic!("the first player carries lightning"),
    }
    match two.special {
        Special::Laser(g) => assert_eq!(g.damage, 500_000),
        Special::Lightning(_) => panic!("the second player carries the laser"),
    }
}

#[test]
fn player_input_to_velocity() {
    let m = Movement { speed: 15_000 };
    assert_eq!(player_movement(Some((1_000, -500)), m), Velocity { x: 15_000, y: -7_500 });
    assert_eq!(player_movement(Some((2_000, -3)), m), Velocity { x: 15_000, y: -45 });
    assert_eq!(player_movement(None, m), Velocity { x: 0, y: 0 });
}

#[test]
fn camera_follows_players() {
    let mut d = GameData::default();
    let cam = follow_camera(&vec![Position { x: 0, y: 0 }, Position { x: 30_000, y: 0 }], &mut d, Position { x: 0, y: 0 }, 100_000);
    assert_eq!(d.camera_pos, Position { x: 0, y: 0 });
    assert_eq!(cam, Position { x: 0, y: 0 });
    let cam = follow_camera(&vec![Position { x: 50_000, y: -1 }, Position { x: 50_000, y: 0 }], &mut d, Position { x: 0, y: 0 }, 100_000);
    assert_eq!(d.camera_pos, Position { x: 50_000, y: -1 });
    assert_eq!(cam, Position { x: 5_000, y: 0 });
    let cam = follow_camera(&vec![], &mut d, Position { x: 0, y: 10 }, 100_000);
    assert_eq!(d.camera_pos, Position { x: 50_000, y: -1 });
    assert_eq!(cam, Position { x: 5_000, y: 9 });
}

#[test]
fn spawn_count_never_passes_limit() {
    let mut spawners = vec![
        EnemySpawner::new(Position { x: 0, y: 0 }, 0, 1, 0, 3, EnemySpawnerType::Normal),
        EnemySpawner::new(Position { x: 0, y: 0 }, 0, 10, 5, 0, EnemySpawnerType::Boss),
    ];
    assert!(spawners[1].is_exhausted());
    let mut last = 0;
    let mut total = 0;
    for _ in 0..100 {
        total += slimegame::spawner::generic_spawner(&mut spawners, 1_000_000).len();
        assert!(spawners[0].spawn_count >= last);
        assert!(spawners[0].spawn_count <= last + 1);
        assert!(spawners[0].spawn_count <= 3);
        last = spawners[0].spawn_count;
    }
    assert_eq!(spawners[0].spawn_count, 3);
    assert_eq!(total, 3);
    assert_eq!(spawners[1].spawn_count, 0);
    assert!(spawners[0].is_exhausted());
}

#[test]
fn hazard_zones_surround_the_arena() {
    let zones = create_map_boundary();
    assert_eq!(zones.len(), 4);
    assert_eq!(zones[0], HazardZone { centre: Position { x: 0, y: -1_560_000 }, half_side: 1_500_000 });
    assert_eq!(zones[3], HazardZone { centre: Position { x: 1_560_000, y: 0 }, half_side: 1_500_000 });
    for z in &zones {
        let inner = (z.centre.x.abs() + z.centre.y.abs()) - z.half_side;
        assert_eq!(inner, 60_000);
    }
}
