use slimegame::cleanup::{clean_up_expired, handle_despawn_entity, Bounty, Expiring};
use slimegame::contacts::{
    deal_red_zone_dmg, handle_collision, Contact, Role, Tagged, PLAYER_CONTACT_DAMAGE,
};
use slimegame::health::{handle_damage_event, DamageEvent, DespawnEvent, Health, Vital};
use slimegame::timer::{Timer, TimerMode};

#[test]
fn repeated_lethal_hits_despawn_once() {
    let mut vitals = vec![
        Vital { entity: 3, health: Health::new(10_000) },
        Vital { entity: 7, health: Health::new(100_000) },
    ];
    let events = vec![
        DamageEvent { entity: 7, damage: 60_000 },
        DamageEvent { entity: 7, damage: 60_000 },
        DamageEvent { entity: 7, damage: 60_000 },
        DamageEvent { entity: 99, damage: 60_000 },
    ];
    let out = handle_damage_event(&mut vitals, &events, 0);
    assert_eq!(out.despawns, vec![DespawnEvent { entity: 7 }]);
    assert_eq!(out.wounded, vec![7]);
    assert_eq!(vitals[1].health.current_health, -80_000);
    assert_eq!(vitals[0].health.current_health, 10_000);
    let bounties = vec![Bounty { entity: 7, reward: 5, explodes: false }];
    let twice = vec![DespawnEvent { entity: 7 }, DespawnEvent { entity: 7 }];
    let gone = handle_despawn_entity(&twice, &bounties);
    assert_eq!(gone.removed, vec![7]);
    assert_eq!(gone.reward, 5);
}

#[test]
fn empty_queue_changes_no_health() {
    let mut vitals = vec![Vital { entity: 1, health: Health::new(42_000) }];
    let before = vitals[0].health;
    let out = handle_damage_event(&mut vitals, &vec![], 16_000);
    assert!(out.despawns.is_empty());
    assert!(out.wounded.is_empty());
    assert!(out.flash_ended.is_empty());
    assert_eq!(vitals[0].health.current_health, before.current_health);
    assert_eq!(vitals[0].health.max_health, before.max_health);
    assert_eq!(vitals[0].health, before);
}

#[test]
fn flash_runs_after_a_survivable_hit() {
    let mut vitals = vec![Vital { entity: 4, health: Health::new(100_000) }];
    let out = handle_damage_event(&mut vitals, &vec![DamageEvent { entity: 4, damage: 1 }], 100_000);
    assert_eq!(out.wounded, vec![4]);
    assert!(out.flash_ended.is_empty());
    assert_eq!(vitals[0].health.dmg_timer.elapsed, 100_000);
    assert!(!vitals[0].health.dmg_timer.is_paused());
    let out = handle_damage_event(&mut vitals, &vec![], 100_000);
    assert_eq!(out.flash_ended, vec![4]);
    let out = handle_damage_event(&mut vitals, &vec![], 100_000);
    assert!(out.flash_ended.is_empty());
    assert_eq!(vitals[0].health.current_health, 99_999);
}

#[test]
fn despawn_pass_skips_repeats_and_exploders() {
    let events = vec![
        DespawnEvent { entity: 5 },
        DespawnEvent { entity: 5 },
        DespawnEvent { entity: 6 },
        DespawnEvent { entity: 9 },
        DespawnEvent { entity: 9 },
    ];
    let bounties = vec![
        Bounty { entity: 5, reward: 3, explodes: false },
        Bounty { entity: 6, reward: 200, explodes: true },
    ];
    let out = handle_despawn_entity(&events, &bounties);
    assert_eq!(out.removed, vec![5, 9]);
    assert_eq!(out.reward, 3);
}

#[test]
fn expired_entities_are_removed() {
    let mut items = vec![
        Expiring { entity: 1, timer: Timer::new(5_000_000, TimerMode::Once) },
        Expiring { entity: 2, timer: Timer::new(100_000, TimerMode::Once) },
    ];
    assert_eq!(clean_up_expired(&mut items, 100_000), vec![DespawnEvent { entity: 2 }]);
    assert!(clean_up_expired(&mut items, 100_000).is_empty());
    assert_eq!(clean_up_expired(&mut items, 4_800_000), vec![DespawnEvent { entity: 1 }]);
}

#[test]
fn contacts_become_intents() {
    let tags = vec![
        Tagged { entity: 1, role: Role::Player },
        Tagged { entity: 2, role: Role::Enemy },
        Tagged { entity: 3, role: Role::Projectile(20_000) },
        Tagged { entity: 4, role: Role::Other },
    ];
    let contacts = vec![
        Contact { first: 2, second: 1 },
        Contact { first: 3, second: 2 },
        Contact { first: 4, second: 2 },
        Contact { first: 1, second: 3 },
        Contact { first: 8, second: 2 },
    ];
    let out = handle_collision(&tags, &contacts);
    assert_eq!(
        out.damage,
        vec![
            DamageEvent { entity: 1, damage: PLAYER_CONTACT_DAMAGE },
            DamageEvent { entity: 2, damage: 20_000 },
        ]
    );
    assert_eq!(out.despawns, vec![DespawnEvent { entity: 3 }]);
}

#[test]
fn hazard_damage_scales_with_time() {
    let out = deal_red_zone_dmg(&vec![10, 11], 100_000);
    assert_eq!(
        out,
        vec![DamageEvent { entity: 10, damage: 2_000 }, DamageEvent { entity: 11, damage: 2_000 }]
    );
    assert!(deal_red_zone_dmg(&vec![], 100_000).is_empty());
}

#[test]
fn mixed_queue_despawns_each_downed_entity_once() {
    let mut vitals = vec![
        Vital { entity: 1, health: Health::new(30_000) },
        Vital { entity: 2, health: Health::new(50_000) },
        Vital { entity: 3, health: Health::new(90_000) },
    ];
    let events = vec![
        DamageEvent { entity: 2, damage: 20_000 },
        DamageEvent { entity: 1, damage: 40_000 },
        DamageEvent { entity: 3, damage: 10_000 },
        DamageEvent { entity: 2, damage: 30_000 },
        DamageEvent { entity: 1, damage: 5_000 },
        DamageEvent { entity: 2, damage: 1 },
    ];
    let out = handle_damage_event(&mut vitals, &events, 0);
    assert_eq!(out.despawns, vec![DespawnEvent { entity: 1 }, DespawnEvent { entity: 2 }]);
    assert_eq!(out.wounded, vec![2, 3]);
    assert_eq!(vitals[0].health.current_health, -15_000);
    assert_eq!(vitals[1].health.current_health, -1);
    assert_eq!(vitals[2].health.current_health, 80_000);
}
