use crate::geometry::Position;
use crate::weapons::{LaserGunConfig, LightningGunConfig};
use vstd::prelude::*;

verus! {

pub const GUN_DAMAGE_STEP: u32 = 20_000;

pub const LASER_DAMAGE_STEP: u32 = 100_000;

pub const LIGHTNING_SIZE_STEP: u32 = 50;

pub const GUN_UPGRADE_COST: i64 = 50;

pub const SPECIAL_UPGRADE_COST: i64 = 100;

/// Progress kept between levels: the highest unlocked level, money, the camera
/// anchor and the weapon settings the upgrades change.
#[derive(Clone, Copy, Debug, PartialEq, Eq, Structural)]
pub struct GameData {
    pub new_game: bool,
    pub level: usize,
    pub money: i64,
    pub camera_pos: Position,
    pub gun_cooldown: u64,
    pub gun_damage: u32,
    pub lightning_gun: LightningGunConfig,
    pub laser_gun: LaserGunConfig,
}

/// An upgrade that can be bought between levels.
#[derive(Clone, Copy, Debug, PartialEq, Eq, Structural)]
pub enum Upgrade {
    GunIncreaseDamage,
    GunIncreaseFireRate,
    LaserIncreaseDamage,
    LightningGunIncreaseSize,
}

pub open spec fn clamp_i64(v: int) -> i64 {
    if v < i64::MIN {
        i64::MIN
    } else if v > i64::MAX {
        i64::MAX
    } else {
        v as i64
    }
}

pub open spec fn add_capped(a: u32, b: u32) -> u32 {
    if a + b > u32::MAX {
        u32::MAX
    } else {
        (a + b) as u32
    }
}

pub open spec fn cost_of(u: Upgrade) -> i64 {
    match u {
        Upgrade::GunIncreaseDamage => GUN_UPGRADE_COST,
        Upgrade::GunIncreaseFireRate => GUN_UPGRADE_COST,
        Upgrade::LaserIncreaseDamage => SPECIAL_UPGRADE_COST,
        Upgrade::LightningGunIncreaseSize => SPECIAL_UPGRADE_COST,
    }
}

impl GameData {
    /// The progress of a new game.
    pub open spec fn fresh() -> GameData {
        GameData {
            new_game: true,
            level: 1,
            money: 200,
            camera_pos: Position { x: 0, y: 0 },
            gun_cooldown: 1_500_000,
            gun_damage: 20_000,
            lightning_gun: LightningGunConfig { cooldown: 10_000_000, damage: 100_000, size: 250 },
            laser_gun: LaserGunConfig { cooldown: 10_000_000, damage: 500_000 },
        }
    }

    /// The settings after buying `u` (money not counted).
    pub open spec fn upgraded(self, u: Upgrade) -> GameData {
        match u {
            Upgrade::GunIncreaseDamage => GameData {
                gun_damage: add_capped(self.gun_damage, GUN_DAMAGE_STEP),
                ..self
            },
            Upgrade::GunIncreaseFireRate => GameData {
                gun_cooldown: (self.gun_cooldown * 9 / 10) as u64,
                ..self
            },
            Upgrade::LaserIncreaseDamage => GameData {
                laser_gun: LaserGunConfig {
                    damage: add_capped(self.laser_gun.damage, LASER_DAMAGE_STEP),
                    ..self.laser_gun
                },
                ..self
            },
            Upgrade::LightningGunIncreaseSize => GameData {
                lightning_gun: LightningGunConfig {
                    size: add_capped(self.lightning_gun.size, LIGHTNING_SIZE_STEP),
                    ..self.lightning_gun
                },
                ..self
            },
        }
    }

    /// Adds `amount` to the money, held within the range of the counter.
    pub fn credit(&mut self, amount: i128)
        ensures
            *final(self) == (GameData { money: clamp_i64(old(self).money + amount), ..*old(self) }),
    {
        let total: i128 = if amount > 0 {
            if amount > i64::MAX as i128 - self.money as i128 {
                i64::MAX as i128
            } else {
                self.money as i128 + amount
            }
        } else {
            if amount < i64::MIN as i128 - self.money as i128 {
                i64::MIN as i128
            } else {
                self.money as i128 + amount
            }
        };
        self.money = total as i64;
    }

    /// Winning a level: `unlock` becomes the unlocked level unless a later one
    /// already is, and `bonus` is credited.
    pub fn complete_level(&mut self, unlock: usize, bonus: i64)
        ensures
            *final(self) == (GameData {
                level: if old(self).level < unlock {
                    unlock
                } else {
                    old(self).level
                },
                money: clamp_i64(old(self).money + bonus),
                ..*old(self)
            }),
    {
        if self.level < unlock {
            self.level = unlock;
        }
        self.credit(bonus as i128);
    }

    /// Buys an upgrade when the money covers its cost; false (and nothing changes)
    /// when it does not.
    pub fn purchase(&mut self, u: Upgrade) -> (bought: bool)
        ensures
            bought == (old(self).money >= cost_of(u)),
            bought ==> *final(self) == (GameData {
                money: (old(self).money - cost_of(u)) as i64,
                ..old(self).upgraded(u)
            }),
            !bought ==> *final(self) == *old(self),
    {
        let cost: i64 = match u {
            Upgrade::GunIncreaseDamage => GUN_UPGRADE_COST,
            Upgrade::GunIncreaseFireRate => GUN_UPGRADE_COST,
            Upgrade::LaserIncreaseDamage => SPECIAL_UPGRADE_COST,
            Upgrade::LightningGunIncreaseSize => SPECIAL_UPGRADE_COST,
        };
        if self.money < cost {
            return false;
        }
        match u {
            Upgrade::GunIncreaseDamage => {
                self.gun_damage = self.gun_damage.saturating_add(GUN_DAMAGE_STEP);
            },
            Upgrade::GunIncreaseFireRate => {
                self.gun_cooldown = self.gun_cooldown / 10 * 9 + self.gun_cooldown % 10 * 9 / 10;
                proof {
                    let c = old(self).gun_cooldown as int;
                    vstd::arithmetic::div_mod::lemma_fundamental_div_mod(c, 10);
                    assert(c * 9 / 10 == c / 10 * 9 + c % 10 * 9 / 10) by (nonlinear_arith)
                        requires
                            c == 10 * (c / 10) + c % 10,
                            0 <= c % 10 < 10,
                    {
                        vstd::arithmetic::div_mod::lemma_fundamental_div_mod_converse(
                            c * 9,
                            10,
                            c / 10 * 9 + c % 10 * 9 / 10,
                            c % 10 * 9 % 10,
                        );
                    }
                }
            },
            Upgrade::LaserIncreaseDamage => {
                self.laser_gun.damage = self.laser_gun.damage.saturating_add(LASER_DAMAGE_STEP);
            },
            Upgrade::LightningGunIncreaseSize => {
                self.lightning_gun.size = self.lightning_gun.size.saturating_add(LIGHTNING_SIZE_STEP);
            },
        }
        self.money = self.money - cost;
        true
    }
}

impl Default for GameData {
    fn default() -> (d: GameData)
        ensures
            d == GameData::fresh(),
    {
        GameData {
            new_game: true,
            level: 1,
            money: 200,
            camera_pos: Position { x: 0, y: 0 },
            gun_cooldown: 1_500_000,
            gun_damage: 20_000,
            lightning_gun: LightningGunConfig { cooldown: 10_000_000, damage: 100_000, size: 250 },
            laser_gun: LaserGunConfig { cooldown: 10_000_000, damage: 500_000 },
        }
    }
}

} // verus!
