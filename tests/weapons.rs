use slimegame::geometry::{Position, Velocity};
use slimegame::health::DamageEvent;
use slimegame::weapons::{
    closest_enemy, dose_for, handle_laser_collision, spawn_laser, spawn_lightning, spawn_projectiles,
    update_laser, BeamContact, Gun, LaserGun, LaserGunConfig, LightningGun, LightningGunConfig,
    Target, Trigger, LASER_LIFETIME,
};

#[test]
fn ready_weapon_waits_for_attack() {
    let mut t = Trigger::new(1_000_000);
    assert!(!t.step(500_000, true));
    assert!(!t.visible);
    assert!(!t.step(500_000, false));
    assert!(t.visible);
    for _ in 0..1_000 {
        assert!(!t.step(16_000, false));
        assert!(t.visible);
        assert!(t.cooldown.is_finished());
    }
    assert!(t.step(16_000, true));
    assert!(!t.visible);
    assert_eq!(t.cooldown.elapsed, 0);
    assert_eq!(t.cooldown.duration, 1_000_000);
    assert!(!t.cooldown.is_finished());
    assert!(!t.step(16_000, true));
}

#[test]
fn lightning_strikes_enemies_in_reach() {
    let config = LightningGunConfig { cooldown: 100_000, damage: 100_000, size: 250 };
    let mut gun = LightningGun::from_config(&config);
    let enemies = vec![
        Target { entity: 1, position: Position { x: 9_000, y: 0 } },
        Target { entity: 2, position: Position { x: 9_400, y: 0 } },
        Target { entity: 3, position: Position { x: 0, y: -9_374 } },
    ];
    assert!(spawn_lightning(&mut gun, None, true, &enemies, 100_000).is_none());
    assert!(gun.trigger.visible);
    let origin = Position { x: 0, y: 0 };
    let strike = spawn_lightning(&mut gun, Some(origin), true, &enemies, 0).unwrap();
    assert_eq!(strike.position, origin);
    assert_eq!(strike.size, 250);
    assert_eq!(
        strike.damage,
        vec![DamageEvent { entity: 1, damage: 100_000 }, DamageEvent { entity: 3, damage: 100_000 }]
    );
    assert!(!gun.trigger.visible);
    assert!(spawn_lightning(&mut gun, Some(origin), true, &enemies, 50_000).is_none());
}

#[test]
fn laser_opens_a_beam_between_players() {
    let mut gun = LaserGun::from_config(&LaserGunConfig { cooldown: 1_000, damage: 500_000 });
    let before = gun;
    assert!(spawn_laser(&mut gun, false, true, 5_000).is_none());
    assert_eq!(gun, before);
    let beam = spawn_laser(&mut gun, true, true, 1_000).unwrap();
    assert_eq!(beam.damage, 500_000);
    assert_eq!(beam.lifetime, LASER_LIFETIME);
    let a = Position { x: 1, y: 2 };
    let b = Position { x: 3, y: 4 };
    assert_eq!(update_laser(&vec![a, b, a]), Some((a, b)));
    assert_eq!(update_laser(&vec![a]), None);
}

#[test]
fn beam_damage_per_tick() {
    let hits = handle_laser_collision(&vec![BeamContact { rate: 500_000, entity: 9 }], 16_000);
    assert_eq!(hits, vec![DamageEvent { entity: 9, damage: 8_000 }]);
    assert_eq!(dose_for(u32::MAX, u64::MAX), u32::MAX);
    assert_eq!(dose_for(20_000, 100_000), 2_000);
    assert_eq!(dose_for(20_000, 49), 0);
}

#[test]
fn gun_fires_at_nearest_enemy_or_fallback() {
    let mut gun = Gun::new(1_500_000, 20_000);
    let me = Position { x: 0, y: 0 };
    let enemies = vec![Position { x: 5_000, y: 0 }, Position { x: 1_000, y: 0 }];
    assert_eq!(closest_enemy(me, &enemies), Some(Position { x: 1_000, y: 0 }));
    let fallback = Position { x: 0, y: 100 };
    assert!(spawn_projectiles(&mut gun, me, &enemies, fallback, 1_000_000).is_none());
    let shot = spawn_projectiles(&mut gun, me, &enemies, fallback, 700_000).unwrap();
    assert_eq!(shot.velocity, Velocity { x: 40_000, y: 0 });
    assert_eq!(shot.position, Position { x: 2_000, y: 0 });
    assert_eq!(shot.projectile.damage, 20_000);
    assert_eq!(shot.lifetime, 5_000_000);
    assert_eq!(gun.cooldown.elapsed, 200_000);
    assert!(spawn_projectiles(&mut gun, me, &enemies, fallback, 1_200_000).is_none());
    let shot = spawn_projectiles(&mut gun, me, &vec![], fallback, 100_000).unwrap();
    assert_eq!(shot.velocity, Velocity { x: 0, y: 40_000 });
    assert_eq!(shot.position, Position { x: 0, y: 2_000 });
    assert_eq!(gun.cooldown.elapsed, 0);
    let edge = Position { x: i32::MAX, y: 0 };
    let shot = spawn_projectiles(&mut gun, edge, &vec![], Position { x: i32::MAX, y: 0 }, 1_500_000);
    assert_eq!(shot.unwrap().position, edge);
}
