use crate::geometry::{Position, Velocity};
use crate::health::Health;
use crate::progress::GameData;
use crate::timer::{Timer, TimerMode};
use crate::weapons::{Gun, LaserGun, LightningGun, Trigger};
use vstd::prelude::*;

verus! {

pub const PLAYER_HEALTH: i64 = 50_000;

/// Distance of each player's starting point from the centre, in hundredths of a pixel.
pub const PLAYER_START_OFFSET: i32 = 2_000;

/// Full deflection of a movement axis.
pub const AXIS_FULL: i32 = 1_000;

#[derive(Clone, Copy, Debug, PartialEq, Eq, Structural)]
pub enum Player {
    One,
    Two,
}

/// A player's top speed, in hundredths of a pixel per second.
#[derive(Clone, Copy, Debug, PartialEq, Eq, Structural)]
pub struct Movement {
    pub speed: u32,
}

/// The weapon beside the gun: lightning for the first player, the laser for the second.
#[derive(Clone, Copy, Debug, PartialEq, Eq, Structural)]
pub enum Special {
    Lightning(LightningGun),
    Laser(LaserGun),
}

/// Everything a new player is made of.
#[derive(Clone, Copy, Debug, PartialEq, Eq, Structural)]
pub struct PlayerLoadout {
    pub player: Player,
    pub position: Position,
    pub health: Health,
    pub gun: Gun,
    pub special: Special,
}

pub open spec fn start_of(player: Player) -> Position {
    match player {
        Player::One => Position { x: 0, y: (-PLAYER_START_OFFSET) as i32 },
        Player::Two => Position { x: 0, y: PLAYER_START_OFFSET },
    }
}

pub open spec fn special_of(player: Player, data: GameData) -> Special {
    match player {
        Player::One => Special::Lightning(
            LightningGun {
                trigger: Trigger {
                    cooldown: Timer::new_spec(data.lightning_gun.cooldown, TimerMode::Once),
                    visible: false,
                },
                damage: data.lightning_gun.damage,
                size: data.lightning_gun.size,
            },
        ),
        Player::Two => Special::Laser(
            LaserGun {
                trigger: Trigger {
                    cooldown: Timer::new_spec(data.laser_gun.cooldown, TimerMode::Once),
                    visible: false,
                },
                damage: data.laser_gun.damage,
            },
        ),
    }
}

/// A player at its starting point, armed with the weapons the progress has bought;
/// the special weapon starts hidden.
pub open spec fn loadout_of(player: Player, data: GameData) -> PlayerLoadout {
    PlayerLoadout {
        player,
        position: start_of(player),
        health: Health::new_spec(PLAYER_HEALTH),
        gun: Gun {
            cooldown: Timer::new_spec(data.gun_cooldown, TimerMode::Repeating),
            damage: data.gun_damage,
        },
        special: special_of(player, data),
    }
}

pub fn create_player(player: Player, data: &GameData) -> (r: PlayerLoadout)
    ensures
        r == loadout_of(player, *data),
        r.gun.cooldown.wf(),
        r.health.wf(),
{
    let position = match player {
        Player::One => Position { x: 0, y: -PLAYER_START_OFFSET },
        Player::Two => Position { x: 0, y: PLAYER_START_OFFSET },
    };
    let special = match player {
        Player::One => Special::Lightning(LightningGun::from_config(&data.lightning_gun)),
        Player::Two => Special::Laser(LaserGun::from_config(&data.laser_gun)),
    };
    PlayerLoadout {
        player,
        position,
        health: Health::new(PLAYER_HEALTH),
        gun: Gun::new(data.gun_cooldown, data.gun_damage),
        special,
    }
}

/// A player's velocity: the movement axis (each component in thousandths of full
/// deflection, clamped to `[-AXIS_FULL, AXIS_FULL]`) times the speed, rounded toward
/// zero; standing still when no movement is pressed.
pub open spec fn moved(axis: Option<(i32, i32)>, speed: u32) -> Velocity {
    match axis {
        Some((x, y)) => Velocity {
            x: scale_axis(x as int, speed as int) as i64,
            y: scale_axis(y as int, speed as int) as i64,
        },
        None => Velocity { x: 0, y: 0 },
    }
}

pub open spec fn clamp_axis(a: int) -> int {
    if a < -AXIS_FULL {
        -AXIS_FULL as int
    } else if a > AXIS_FULL {
        AXIS_FULL as int
    } else {
        a
    }
}

pub open spec fn scale_axis(a: int, speed: int) -> int {
    let c = clamp_axis(a);
    if c >= 0 {
        c * speed / (AXIS_FULL as int)
    } else {
        -((-c) * speed / (AXIS_FULL as int))
    }
}

fn axis_component(a: i32, speed: u32) -> (r: i64)
    ensures
        r == scale_axis(a as int, speed as int),
{
    let c: i64 = if a < -AXIS_FULL {
        -AXIS_FULL as i64
    } else if a > AXIS_FULL {
        AXIS_FULL as i64
    } else {
        a as i64
    };
    let m: i64 = if c >= 0 {
        c
    } else {
        -c
    };
    proof {
        vstd::arithmetic::mul::lemma_mul_upper_bound(m as int, 1000, speed as int, u32::MAX as int);
        vstd::arithmetic::mul::lemma_mul_nonnegative(m as int, speed as int);
    }
    let q: i64 = m * (speed as i64) / (AXIS_FULL as i64);
    if c >= 0 {
        q
    } else {
        -q
    }
}

/// The velocity a player's input asks for.
pub fn player_movement(axis: Option<(i32, i32)>, movement: Movement) -> (v: Velocity)
    ensures
        v == moved(axis, movement.speed),
{
    match axis {
        Some((x, y)) => Velocity {
            x: axis_component(x, movement.speed),
            y: axis_component(y, movement.speed),
        },
        None => Velocity { x: 0, y: 0 },
    }
}

} // verus!
