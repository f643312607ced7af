use crate::geometry::{
    first_nearest, in_burst, nearest, toward, velocity_of, velocity_toward, within_burst, Position, Velocity,
};
use crate::health::DamageEvent;
use crate::timer::{Timer, TimerMode};
use vstd::prelude::*;

verus! {

pub const PROJECTILE_SPEED: u32 = 40_000;

/// How far in front of the shooter a projectile appears, in hundredths of a pixel.
pub const MUZZLE_OFFSET: u32 = 2_000;

pub const PROJECTILE_LIFETIME: u64 = 5_000_000;

pub const LIGHTNING_MARK_LIFETIME: u64 = 100_000;

pub const LASER_LIFETIME: u64 = 1_750_000;

/// Microseconds in a second.
pub const SECOND: u64 = 1_000_000;

/// The cooldown-and-arm cycle of a fired weapon.
///
/// The cooldown runs each tick; when it completes the weapon shows as ready
/// (`visible`). An attack while the cooldown is complete fires: the cooldown starts
/// over and the weapon hides.
#[derive(Clone, Copy, Debug, PartialEq, Eq, Structural)]
pub struct Trigger {
    pub cooldown: Timer,
    pub visible: bool,
}

impl Trigger {
    pub open spec fn wf(self) -> bool {
        self.cooldown.wf() && self.cooldown.mode == TimerMode::Once
    }

    /// The trigger after `dt` microseconds with `attack` pressed or not, and whether
    /// it fired.
    pub open spec fn stepped(self, dt: u64, attack: bool) -> (Trigger, bool) {
        let cooldown = self.cooldown.ticked(dt);
        let visible = if cooldown.just_finished {
            true
        } else {
            self.visible
        };
        if attack && cooldown.finished {
            (Trigger { cooldown: cooldown.restarted(), visible: false }, true)
        } else {
            (Trigger { cooldown, visible }, false)
        }
    }

    /// A hidden trigger whose cooldown of `cooldown` microseconds has just started.
    pub fn new(cooldown: u64) -> (t: Trigger)
        ensures
            t.wf(),
            t == (Trigger { cooldown: Timer::new_spec(cooldown, TimerMode::Once), visible: false }),
    {
        Trigger { cooldown: Timer::new(cooldown, TimerMode::Once), visible: false }
    }

    /// Runs the trigger for one tick; true when it fired.
    pub fn step(&mut self, dt: u64, attack: bool) -> (fired: bool)
        requires
            old(self).wf(),
        ensures
            final(self).wf(),
            (*final(self), fired) == old(self).stepped(dt, attack),
    {
        self.cooldown.tick(dt);
        if self.cooldown.is_just_finished() {
            self.visible = true;
        }
        if attack && self.cooldown.is_finished() {
            self.cooldown.reset();
            self.visible = false;
            true
        } else {
            false
        }
    }
}

/// A trigger after a run of ticks of the given lengths with no attack.
pub open spec fn run_idle(t: Trigger, dts: Seq<u64>) -> Trigger
    decreases dts.len(),
{
    if dts.len() == 0 {
        t
    } else {
        run_idle(t, dts.drop_last()).stepped(dts.last(), false).0
    }
}

/// A ready weapon stays ready, and keeps its completed cooldown, for as long as
/// no attack comes.
pub proof fn lemma_armed_until_attack(t: Trigger, dts: Seq<u64>)
    requires
        t.wf(),
        t.visible,
        t.cooldown.finished,
        !t.cooldown.paused,
    ensures
        run_idle(t, dts).visible,
        run_idle(t, dts).cooldown.finished,
        !run_idle(t, dts).cooldown.paused,
        run_idle(t, dts).wf(),
    decreases dts.len(),
{
    if dts.len() > 0 {
        lemma_armed_until_attack(t, dts.drop_last());
    }
}

/// Firing always starts the cooldown over from zero, with its configured duration.
pub proof fn lemma_fire_restarts_cooldown(t: Trigger, dt: u64, attack: bool)
    requires
        t.wf(),
    ensures
        t.stepped(dt, attack).1 ==> {
            let c = t.stepped(dt, attack).0.cooldown;
            &&& c.elapsed == 0
            &&& !c.finished
            &&& c.duration == t.cooldown.duration
            &&& !t.stepped(dt, attack).0.visible
        },
{
}

/// The settings of the lightning weapon: cooldown in microseconds, damage in
/// thousandths of a hit point, size in hundredths.
#[derive(Clone, Copy, Debug, PartialEq, Eq, Structural)]
pub struct LightningGunConfig {
    pub cooldown: u64,
    pub damage: u32,
    pub size: u32,
}

/// A weapon that strikes every enemy within `75 * size / 2` of its owner.
#[derive(Clone, Copy, Debug, PartialEq, Eq, Structural)]
pub struct LightningGun {
    pub trigger: Trigger,
    pub damage: u32,
    pub size: u32,
}

/// An enemy's entity and position, as a weapon reads them.
#[derive(Clone, Copy, Debug, PartialEq, Eq, Structural)]
pub struct Target {
    pub entity: u64,
    pub position: Position,
}

/// A lightning strike: a short-lived mark at `position`, scaled by `size`, and the
/// damage it deals.
#[derive(Debug)]
pub struct Strike {
    pub position: Position,
    pub size: u32,
    pub mark_lifetime: u64,
    pub damage: Vec<DamageEvent>,
}

impl LightningGun {
    pub fn from_config(config: &LightningGunConfig) -> (g: LightningGun)
        ensures
            g.trigger.wf(),
            g.trigger == (Trigger {
                cooldown: Timer::new_spec(config.cooldown, TimerMode::Once),
                visible: false,
            }),
            g.damage == config.damage,
            g.size == config.size,
    {
        LightningGun { trigger: Trigger::new(config.cooldown), damage: config.damage, size: config.size }
    }
}

/// Damage of `damage` to each enemy within the burst of `size` around `origin`, in
/// list order.
pub open spec fn burst_hits(origin: Position, size: u32, damage: u32, enemies: Seq<Target>) -> Seq<DamageEvent>
    decreases enemies.len(),
{
    if enemies.len() == 0 {
        Seq::empty()
    } else {
        let rest = burst_hits(origin, size, damage, enemies.drop_last());
        if within_burst(origin, enemies.last().position, size as int) {
            rest.push(DamageEvent { entity: enemies.last().entity, damage })
        } else {
            rest
        }
    }
}

pub fn burst(origin: Position, size: u32, damage: u32, enemies: &Vec<Target>) -> (r: Vec<DamageEvent>)
    ensures
        r@ == burst_hits(origin, size, damage, enemies@),
{
    let mut out: Vec<DamageEvent> = Vec::new();
    let mut i: usize = 0;
    while i < enemies.len()
        invariant
            i <= enemies@.len(),
            out@ == burst_hits(origin, size, damage, enemies@.subrange(0, i as int)),
        decreases enemies@.len() - i,
    {
        let e = enemies[i];
        if in_burst(origin, e.position, size) {
            out.push(DamageEvent { entity: e.entity, damage });
        }
        proof {
            assert(enemies@.subrange(0, i + 1).drop_last() =~= enemies@.subrange(0, i as int));
        }
        i = i + 1;
    }
    proof {
        assert(enemies@.subrange(0, enemies@.len() as int) =~= enemies@);
    }
    out
}

/// Runs a lightning weapon for one tick. `owner` is its player's position, `None`
/// once that player is gone (the cooldown still runs, but nothing fires). On
/// firing, every enemy within reach takes the weapon's damage.
pub fn spawn_lightning(
    gun: &mut LightningGun,
    owner: Option<Position>,
    attack: bool,
    enemies: &Vec<Target>,
    dt: u64,
) -> (r: Option<Strike>)
    requires
        old(gun).trigger.wf(),
    ensures
        final(gun).trigger.wf(),
        final(gun).damage == old(gun).damage,
        final(gun).size == old(gun).size,
        final(gun).trigger == old(gun).trigger.stepped(dt, attack && owner.is_some()).0,
        r.is_some() == old(gun).trigger.stepped(dt, attack && owner.is_some()).1,
        r matches Some(s) ==> {
            &&& s.position == owner.unwrap()
            &&& s.size == old(gun).size
            &&& s.mark_lifetime == LIGHTNING_MARK_LIFETIME
            &&& s.damage@ == burst_hits(owner.unwrap(), old(gun).size, old(gun).damage, enemies@)
        },
{
    let fired = gun.trigger.step(dt, attack && owner.is_some());
    if !fired {
        return None;
    }
    match owner {
        Some(p) => {
            let damage = burst(p, gun.size, gun.damage, enemies);
            Some(Strike { position: p, size: gun.size, mark_lifetime: LIGHTNING_MARK_LIFETIME, damage })
        },
        None => None,
    }
}

/// The settings of the laser weapon: cooldown in microseconds, damage in
/// thousandths of a hit point per second.
#[derive(Clone, Copy, Debug, PartialEq, Eq, Structural)]
pub struct LaserGunConfig {
    pub cooldown: u64,
    pub damage: u32,
}

/// A weapon that opens a beam between the two players.
#[derive(Clone, Copy, Debug, PartialEq, Eq, Structural)]
pub struct LaserGun {
    pub trigger: Trigger,
    pub damage: u32,
}

/// A beam: `damage` per second to what it touches, for `lifetime` microseconds.
#[derive(Clone, Copy, Debug, PartialEq, Eq, Structural)]
pub struct Laser {
    pub damage: u32,
    pub lifetime: u64,
}

impl LaserGun {
    pub fn from_config(config: &LaserGunConfig) -> (g: LaserGun)
        ensures
            g.trigger.wf(),
            g.trigger == (Trigger {
                cooldown: Timer::new_spec(config.cooldown, TimerMode::Once),
                visible: false,
            }),
            g.damage == config.damage,
    {
        LaserGun { trigger: Trigger::new(config.cooldown), damage: config.damage }
    }
}

/// Runs a laser weapon for one tick; it runs only while its player is present. On
/// firing it opens a beam.
pub fn spawn_laser(gun: &mut LaserGun, owner_present: bool, attack: bool, dt: u64) -> (r: Option<Laser>)
    requires
        old(gun).trigger.wf(),
    ensures
        final(gun).trigger.wf(),
        final(gun).damage == old(gun).damage,
        !owner_present ==> *final(gun) == *old(gun) && r.is_none(),
        owner_present ==> final(gun).trigger == old(gun).trigger.stepped(dt, attack).0,
        owner_present ==> r.is_some() == old(gun).trigger.stepped(dt, attack).1,
        r matches Some(l) ==> l == (Laser { damage: old(gun).damage, lifetime: LASER_LIFETIME }),
{
    if !owner_present {
        return None;
    }
    if gun.trigger.step(dt, attack) {
        Some(Laser { damage: gun.damage, lifetime: LASER_LIFETIME })
    } else {
        None
    }
}

/// The two ends of every beam: the first two players. `None` when fewer than two
/// remain, and the beams are then removed.
pub fn update_laser(players: &Vec<Position>) -> (r: Option<(Position, Position)>)
    ensures
        players@.len() >= 2 ==> r == Some((players@[0], players@[1])),
        players@.len() < 2 ==> r.is_none(),
{
    if players.len() >= 2 {
        Some((players[0], players[1]))
    } else {
        None
    }
}

/// Damage of `rate` per second over `dt` microseconds, rounded down and capped at
/// the largest damage an event carries.
pub open spec fn dose(rate: u32, dt: u64) -> u32 {
    let d = (rate as int * dt as int) / (SECOND as int);
    if d > u32::MAX {
        u32::MAX
    } else {
        d as u32
    }
}

pub fn dose_for(rate: u32, dt: u64) -> (r: u32)
    ensures
        r == dose(rate, dt),
{
    proof {
        vstd::arithmetic::mul::lemma_mul_upper_bound(
            rate as int,
            u32::MAX as int,
            dt as int,
            u64::MAX as int,
        );
        vstd::arithmetic::mul::lemma_mul_nonnegative(rate as int, dt as int);
    }
    let d: u128 = (rate as u128) * (dt as u128) / (SECOND as u128);
    if d > u32::MAX as u128 {
        u32::MAX
    } else {
        d as u32
    }
}

/// An enemy that a beam of `rate` damage per second touches.
#[derive(Clone, Copy, Debug, PartialEq, Eq, Structural)]
pub struct BeamContact {
    pub rate: u32,
    pub entity: u64,
}

pub open spec fn beam_hits(contacts: Seq<BeamContact>, dt: u64) -> Seq<DamageEvent> {
    contacts.map_values(|c: BeamContact| DamageEvent { entity: c.entity, damage: dose(c.rate, dt) })
}

/// Continuous beam damage: each touched enemy takes the beam's rate times `dt`.
pub fn handle_laser_collision(contacts: &Vec<BeamContact>, dt: u64) -> (r: Vec<DamageEvent>)
    ensures
        r@ == beam_hits(contacts@, dt),
{
    let mut out: Vec<DamageEvent> = Vec::new();
    let mut i: usize = 0;
    while i < contacts.len()
        invariant
            i <= contacts@.len(),
            out@ == beam_hits(contacts@.subrange(0, i as int), dt),
        decreases contacts@.len() - i,
    {
        let c = contacts[i];
        let damage = dose_for(c.rate, dt);
        out.push(DamageEvent { entity: c.entity, damage });
        proof {
            assert(beam_hits(contacts@.subrange(0, i + 1), dt) =~= beam_hits(
                contacts@.subrange(0, i as int),
                dt,
            ).push(DamageEvent { entity: c.entity, damage }));
        }
        i = i + 1;
    }
    proof {
        assert(contacts@.subrange(0, contacts@.len() as int) =~= contacts@);
    }
    out
}

/// The gun every player carries: it fires by itself each time its repeating
/// cooldown completes; `damage` is what each projectile carries.
#[derive(Clone, Copy, Debug, PartialEq, Eq, Structural)]
pub struct Gun {
    pub cooldown: Timer,
    pub damage: u32,
}

impl Gun {
    /// A gun that fires every `cooldown` microseconds.
    pub fn new(cooldown: u64, damage: u32) -> (g: Gun)
        ensures
            g.cooldown.wf(),
            g == (Gun { cooldown: Timer::new_spec(cooldown, TimerMode::Repeating), damage }),
    {
        Gun { cooldown: Timer::new(cooldown, TimerMode::Repeating), damage }
    }
}

/// The damage a projectile carries.
#[derive(Clone, Copy, Debug, PartialEq, Eq, Structural)]
pub struct Projectile {
    pub damage: u32,
}

/// A projectile to create: where, how fast, what it carries and how long it lives.
#[derive(Clone, Copy, Debug, PartialEq, Eq, Structural)]
pub struct ProjectileLaunch {
    pub position: Position,
    pub velocity: Velocity,
    pub projectile: Projectile,
    pub lifetime: u64,
}

pub open spec fn clamp_i32(v: int) -> i32 {
    if v < i32::MIN {
        i32::MIN
    } else if v > i32::MAX {
        i32::MAX
    } else {
        v as i32
    }
}

/// The gun's aim point: the nearest enemy, else the fallback point.
pub open spec fn aim(from: Position, enemies: Seq<Position>, fallback: Position) -> Position {
    if enemies.len() == 0 {
        fallback
    } else {
        enemies[first_nearest(from, enemies)]
    }
}

/// The projectile a gun at `from` fires toward `target`: it appears a little in
/// front of the shooter (clamped to the field's coordinates) and flies at
/// `PROJECTILE_SPEED`.
pub open spec fn launch(from: Position, target: Position, damage: u32) -> ProjectileLaunch {
    let offset = toward(from, target, MUZZLE_OFFSET as int);
    ProjectileLaunch {
        position: Position { x: clamp_i32(from.x + offset.0), y: clamp_i32(from.y + offset.1) },
        velocity: velocity_of(toward(from, target, PROJECTILE_SPEED as int)),
        projectile: Projectile { damage },
        lifetime: PROJECTILE_LIFETIME,
    }
}

/// The position of the enemy nearest to `from` (the first of equally near ones), if any.
pub fn closest_enemy(from: Position, enemies: &Vec<Position>) -> (r: Option<Position>)
    ensures
        r.is_none() <==> enemies@.len() == 0,
        r matches Some(p) ==> p == enemies@[first_nearest(from, enemies@)],
{
    match nearest(from, enemies) {
        Some(i) => Some(enemies[i]),
        None => None,
    }
}

fn clamp_coord(v: i64) -> (r: i32)
    ensures
        r == clamp_i32(v as int),
{
    if v < i32::MIN as i64 {
        i32::MIN
    } else if v > i32::MAX as i64 {
        i32::MAX
    } else {
        v as i32
    }
}

/// Runs a player's gun for one tick: on a tick on which its cooldown completes it
/// fires at the nearest enemy, or toward `fallback` when there is none.
pub fn spawn_projectiles(
    gun: &mut Gun,
    from: Position,
    enemies: &Vec<Position>,
    fallback: Position,
    dt: u64,
) -> (r: Option<ProjectileLaunch>)
    requires
        old(gun).cooldown.wf(),
    ensures
        final(gun).cooldown.wf(),
        final(gun).cooldown == old(gun).cooldown.ticked(dt),
        final(gun).damage == old(gun).damage,
        r.is_some() == old(gun).cooldown.ticked(dt).just_finished,
        r matches Some(l) ==> l == launch(from, aim(from, enemies@, fallback), old(gun).damage),
{
    gun.cooldown.tick(dt);
    if !gun.cooldown.is_just_finished() {
        return None;
    }
    let target = match closest_enemy(from, enemies) {
        Some(p) => p,
        None => fallback,
    };
    let offset = velocity_toward(from, target, MUZZLE_OFFSET);
    let velocity = velocity_toward(from, target, PROJECTILE_SPEED);
    let position = Position {
        x: clamp_coord(from.x as i64 + offset.x),
        y: clamp_coord(from.y as i64 + offset.y),
    };
    Some(
        ProjectileLaunch {
            position,
            velocity,
            projectile: Projectile { damage: gun.damage },
            lifetime: PROJECTILE_LIFETIME,
        },
    )
}

} // verus!
