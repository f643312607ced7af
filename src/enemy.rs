use crate::chance::draw_between;
use crate::geometry::{first_nearest, nearest, toward, velocity_of, velocity_toward, Position, Velocity};
use crate::health::Health;
use crate::spawner::{EnemySpawnerType, SpawnRequest};
use crate::timer::{Timer, TimerMode};
use vstd::prelude::*;

verus! {

/// A full turn, in microradians.
pub const TAU_MICRORAD: i64 = 6_283_185;

/// The largest change of a wandering enemy's heading in one tick, in microradians.
pub const WANDER_TURN: i64 = 300_000;

/// Bound (exclusive) of each velocity component of a wandering enemy.
pub const WANDER_SPEED: i64 = 7_500;

pub const HOMING_SPEED: u32 = 6_000;

pub const CHARGE_SPEED: u32 = 30_000;

pub const CHARGE_PERIOD: u64 = 8_000_000;

pub const CHARGE_WINDOW: u64 = 2_000_000;

/// Each velocity component of a newly spawned enemy, in hundredths of a pixel per second.
pub const SPAWN_DRIFT: i64 = 2_000;

pub const NORMAL_HEALTH: i64 = 100_000;

pub const ELITE_HEALTH: i64 = 500_000;

pub const BOSS_HEALTH: i64 = 2_000_000;

pub const FRAGMENT_HEALTH: i64 = 100_000;

pub const NORMAL_REWARD: i32 = 1;

pub const ELITE_REWARD: i32 = 5;

pub const BOSS_REWARD: i32 = 200;

pub const FRAGMENT_REWARD: i32 = 1;

/// How many smaller enemies a boss breaks into.
pub const FRAGMENT_COUNT: usize = 30;

/// Range (half-open) of a fragment's charge period, in microseconds.
pub const FRAGMENT_PERIOD_MIN: i64 = 4_000_000;

pub const FRAGMENT_PERIOD_MAX: i64 = 10_000_000;

/// How an enemy picks its velocity each tick.
#[derive(Clone, Copy, Debug, PartialEq, Eq, Structural)]
pub enum EnemyMovement {
    /// Toward the nearest player.
    Homing,
    /// A jittery walk around the given heading, in microradians.
    Random(i64),
}

/// The money an enemy is worth when it goes down.
#[derive(Clone, Copy, Debug, PartialEq, Eq, Structural)]
pub struct Enemy {
    pub reward: i32,
}

/// A periodic dash: every `cooldown` the enemy locks onto the nearest player and
/// moves at `direction` while `duration` runs.
#[derive(Clone, Copy, Debug, PartialEq, Eq, Structural)]
pub struct Charge {
    pub cooldown: Timer,
    pub duration: Timer,
    pub direction: Velocity,
}

/// Everything a new enemy is made of.
#[derive(Clone, Copy, Debug, PartialEq, Eq, Structural)]
pub struct EnemyBundle {
    pub position: Position,
    pub depth: i64,
    pub velocity: Velocity,
    pub enemy: Enemy,
    pub health: Health,
    pub movement: EnemyMovement,
    pub charge: Option<Charge>,
    pub explode: bool,
}

/// What an enemy asks of the physics engine for its velocity this tick.
#[derive(Clone, Copy, Debug, PartialEq, Eq, Structural)]
pub enum Steering {
    /// Leave the velocity as it is.
    Keep,
    /// Set the velocity.
    Move(Velocity),
    /// Set the velocity to `(speed_x * cos(heading), speed_y * sin(heading))`.
    Polar { heading: i64, speed_x: i64, speed_y: i64 },
}

/// An enemy's position and movement state, as the movement pass reads them.
#[derive(Clone, Copy, Debug, PartialEq, Eq, Structural)]
pub struct Mover {
    pub position: Position,
    pub movement: EnemyMovement,
}

pub open spec fn valid_heading(h: int) -> bool {
    0 <= h < TAU_MICRORAD
}

pub open spec fn movement_wf(m: EnemyMovement) -> bool {
    match m {
        EnemyMovement::Homing => true,
        EnemyMovement::Random(h) => valid_heading(h as int),
    }
}

/// A heading turned by `delta`, brought back into one turn.
pub open spec fn turned(heading: int, delta: int) -> int {
    (heading + delta) % (TAU_MICRORAD as int)
}

pub open spec fn charge_window() -> Timer {
    Timer { paused: true, ..Timer::new_spec(CHARGE_WINDOW, TimerMode::Once) }
}

pub open spec fn charge_every(period: u64) -> Charge {
    Charge {
        cooldown: Timer::new_spec(period, TimerMode::Repeating),
        duration: charge_window(),
        direction: Velocity { x: 0, y: 0 },
    }
}

/// The enemy a spawn request creates; `heading` is used by the wandering kind only.
pub open spec fn spawned(req: SpawnRequest, heading: i64) -> EnemyBundle {
    match req.enemy_type {
        EnemySpawnerType::Normal => EnemyBundle {
            position: req.position,
            depth: req.depth,
            velocity: Velocity { x: SPAWN_DRIFT, y: SPAWN_DRIFT },
            enemy: Enemy { reward: NORMAL_REWARD },
            health: Health::new_spec(NORMAL_HEALTH),
            movement: EnemyMovement::Random(heading),
            charge: None,
            explode: false,
        },
        EnemySpawnerType::Elite => EnemyBundle {
            position: req.position,
            depth: req.depth,
            velocity: Velocity { x: SPAWN_DRIFT, y: SPAWN_DRIFT },
            enemy: Enemy { reward: ELITE_REWARD },
            health: Health::new_spec(ELITE_HEALTH),
            movement: EnemyMovement::Homing,
            charge: None,
            explode: false,
        },
        EnemySpawnerType::Boss => EnemyBundle {
            position: req.position,
            depth: req.depth,
            velocity: Velocity { x: SPAWN_DRIFT, y: SPAWN_DRIFT },
            enemy: Enemy { reward: BOSS_REWARD },
            health: Health::new_spec(BOSS_HEALTH),
            movement: EnemyMovement::Homing,
            charge: Some(charge_every(CHARGE_PERIOD)),
            explode: true,
        },
    }
}

fn new_charge(period: u64) -> (c: Charge)
    ensures
        c == charge_every(period),
        c.cooldown.wf(),
        c.duration.wf(),
{
    Charge {
        cooldown: Timer::new(period, TimerMode::Repeating),
        duration: Timer::new_paused(CHARGE_WINDOW, TimerMode::Once),
        direction: Velocity { x: 0, y: 0 },
    }
}

/// The enemy for a spawn request, with `heading` as the starting heading of a
/// wandering one.
pub fn spawn_enemy(req: SpawnRequest, heading: i64) -> (b: EnemyBundle)
    ensures
        b == spawned(req, heading),
{
    match req.enemy_type {
        EnemySpawnerType::Normal => EnemyBundle {
            position: req.position,
            depth: req.depth,
            velocity: Velocity { x: SPAWN_DRIFT, y: SPAWN_DRIFT },
            enemy: Enemy { reward: NORMAL_REWARD },
            health: Health::new(NORMAL_HEALTH),
            movement: EnemyMovement::Random(heading),
            charge: None,
            explode: false,
        },
        EnemySpawnerType::Elite => EnemyBundle {
            position: req.position,
            depth: req.depth,
            velocity: Velocity { x: SPAWN_DRIFT, y: SPAWN_DRIFT },
            enemy: Enemy { reward: ELITE_REWARD },
            health: Health::new(ELITE_HEALTH),
            movement: EnemyMovement::Homing,
            charge: None,
            explode: false,
        },
        EnemySpawnerType::Boss => EnemyBundle {
            position: req.position,
            depth: req.depth,
            velocity: Velocity { x: SPAWN_DRIFT, y: SPAWN_DRIFT },
            enemy: Enemy { reward: BOSS_REWARD },
            health: Health::new(BOSS_HEALTH),
            movement: EnemyMovement::Homing,
            charge: Some(new_charge(CHARGE_PERIOD)),
            explode: true,
        },
    }
}

/// A heading drawn uniformly from one full turn.
pub fn random_heading() -> (h: i64)
    ensures
        valid_heading(h as int),
{
    draw_between(0, TAU_MICRORAD)
}

/// The enemy for a spawn request; a wandering one starts on a random heading.
pub fn spawn_requested(req: SpawnRequest) -> (b: EnemyBundle)
    ensures
        exists|h: i64| valid_heading(h as int) && b == spawned(req, h),
        movement_wf(b.movement),
{
    let h = if req.enemy_type == EnemySpawnerType::Normal {
        random_heading()
    } else {
        0
    };
    let b = spawn_enemy(req, h);
    assert(valid_heading(h as int) && b == spawned(req, h));
    b
}

/// The position of the nearest player (the first of equally near ones), if any.
pub fn closest_player(position: Position, players: &Vec<Position>) -> (r: Option<Position>)
    ensures
        r.is_none() <==> players@.len() == 0,
        r matches Some(p) ==> p == players@[first_nearest(position, players@)],
{
    match nearest(position, players) {
        Some(i) => Some(players[i]),
        None => None,
    }
}

/// What a homing enemy at `position` asks for.
pub open spec fn homing_steering(position: Position, players: Seq<Position>) -> Steering {
    if players.len() == 0 {
        Steering::Keep
    } else {
        Steering::Move(
            velocity_of(
                toward(position, players[first_nearest(position, players)], HOMING_SPEED as int),
            ),
        )
    }
}

/// A wandering step: the new heading, and components drawn below `WANDER_SPEED`.
pub open spec fn wander_step(heading: i64, delta: int, sx: int, sy: int) -> (EnemyMovement, Steering) {
    (
        EnemyMovement::Random(turned(heading as int, delta) as i64),
        Steering::Polar {
            heading: turned(heading as int, delta) as i64,
            speed_x: sx as i64,
            speed_y: sy as i64,
        },
    )
}

/// `next` and `steering` are what a movement pass may make of `m`: homing is
/// exact; a wandering step turns by some amount in `[-WANDER_TURN, WANDER_TURN)`
/// and takes components in `[0, WANDER_SPEED)`.
pub open spec fn steered(
    m: EnemyMovement,
    position: Position,
    players: Seq<Position>,
    next: EnemyMovement,
    steering: Steering,
) -> bool {
    match m {
        EnemyMovement::Homing => next == EnemyMovement::Homing && steering == homing_steering(
            position,
            players,
        ),
        EnemyMovement::Random(h) => exists|d: int, sx: int, sy: int|
            -WANDER_TURN <= d < WANDER_TURN && 0 <= sx < WANDER_SPEED && 0 <= sy < WANDER_SPEED
                && (next, steering) == #[trigger] wander_step(h, d, sx, sy),
    }
}

/// Turns a heading by `delta` and brings it back into one turn.
pub fn turn_heading(heading: i64, delta: i64) -> (r: i64)
    requires
        valid_heading(heading as int),
        -WANDER_TURN <= delta <= WANDER_TURN,
    ensures
        r == turned(heading as int, delta as int),
        valid_heading(r as int),
{
    let a = heading + delta;
    let r = if a < 0 {
        a + TAU_MICRORAD
    } else if a >= TAU_MICRORAD {
        a - TAU_MICRORAD
    } else {
        a
    };
    proof {
        let q: int = if a < 0 {
            -1
        } else if a >= TAU_MICRORAD {
            1
        } else {
            0
        };
        vstd::arithmetic::div_mod::lemma_fundamental_div_mod_converse(
            a as int,
            TAU_MICRORAD as int,
            q,
            r as int,
        );
    }
    r
}

/// One movement step of one enemy.
pub fn steer(m: EnemyMovement, position: Position, players: &Vec<Position>) -> (r: (EnemyMovement, Steering))
    requires
        movement_wf(m),
    ensures
        steered(m, position, players@, r.0, r.1),
        movement_wf(r.0),
{
    match m {
        EnemyMovement::Homing => {
            match closest_player(position, players) {
                Some(p) => (EnemyMovement::Homing, Steering::Move(velocity_toward(position, p, HOMING_SPEED))),
                None => (EnemyMovement::Homing, Steering::Keep),
            }
        },
        EnemyMovement::Random(h) => {
            let d = draw_between(-WANDER_TURN, WANDER_TURN);
            let heading = turn_heading(h, d);
            let sx = draw_between(0, WANDER_SPEED);
            let sy = draw_between(0, WANDER_SPEED);
            let r = (
                EnemyMovement::Random(heading),
                Steering::Polar { heading, speed_x: sx, speed_y: sy },
            );
            assert(r == wander_step(h, d as int, sx as int, sy as int));
            r
        },
    }
}

/// The movement pass: every enemy takes one step; the steering for each comes
/// back in list order.
pub fn enemy_movement(movers: &mut Vec<Mover>, players: &Vec<Position>) -> (r: Vec<Steering>)
    requires
        forall|i: int| 0 <= i < old(movers)@.len() ==> movement_wf(#[trigger] old(movers)@[i].movement),
    ensures
        final(movers)@.len() == old(movers)@.len(),
        r@.len() == old(movers)@.len(),
        forall|i: int|
            0 <= i < old(movers)@.len() ==> {
                &&& final(movers)@[i].position == old(movers)@[i].position
                &&& movement_wf(final(movers)@[i].movement)
                &&& steered(
                    #[trigger] old(movers)@[i].movement,
                    old(movers)@[i].position,
                    players@,
                    final(movers)@[i].movement,
                    r@[i],
                )
            },
{
    let ghost m0 = movers@;
    let mut out: Vec<Steering> = Vec::new();
    let mut i: usize = 0;
    while i < movers.len()
        invariant
            i <= movers@.len(),
            movers@.len() == m0.len(),
            out@.len() == i,
            forall|j: int| 0 <= j < m0.len() ==> movement_wf(#[trigger] m0[j].movement),
            forall|j: int| i <= j < m0.len() ==> movers@[j] == m0[j],
            forall|j: int|
                0 <= j < i ==> {
                    &&& movers@[j].position == m0[j].position
                    &&& movement_wf(movers@[j].movement)
                    &&& steered(
                        #[trigger] m0[j].movement,
                        m0[j].position,
                        players@,
                        movers@[j].movement,
                        out@[j],
                    )
                },
        decreases m0.len() - i,
    {
        let mut mv = movers[i];
        assert(mv == m0[i as int]);
        let (next, steering) = steer(mv.movement, mv.position, players);
        mv.movement = next;
        movers.set(i, mv);
        out.push(steering);
        i = i + 1;
    }
    out
}

/// A heading after a run of wandering turns.
pub open spec fn wandered(heading: int, deltas: Seq<int>) -> int
    decreases deltas.len(),
{
    if deltas.len() == 0 {
        heading
    } else {
        turned(wandered(heading, deltas.drop_last()), deltas.last())
    }
}

/// However many wandering turns an enemy takes, its heading stays within one turn.
pub proof fn lemma_heading_stays_valid(heading: int, deltas: Seq<int>)
    requires
        valid_heading(heading),
    ensures
        valid_heading(wandered(heading, deltas)),
    decreases deltas.len(),
{
    if deltas.len() > 0 {
        lemma_heading_stays_valid(heading, deltas.drop_last());
        vstd::arithmetic::div_mod::lemma_mod_bound(
            wandered(heading, deltas.drop_last()) + deltas.last(),
            TAU_MICRORAD as int,
        );
    }
}

/// Sum of a run of turns.
pub open spec fn turn_sum(deltas: Seq<int>) -> int
    decreases deltas.len(),
{
    if deltas.len() == 0 {
        0
    } else {
        turn_sum(deltas.drop_last()) + deltas.last()
    }
}

/// After any run of wandering turns, each at most `WANDER_TURN`, the heading is the
/// starting heading plus the sum of the turns, brought into one turn, and that sum
/// is at most `WANDER_TURN` times the number of turns in size.
pub proof fn lemma_heading_tracks_turns(heading: int, deltas: Seq<int>)
    requires
        valid_heading(heading),
        forall|k: int| 0 <= k < deltas.len() ==> -WANDER_TURN <= #[trigger] deltas[k] <= WANDER_TURN,
    ensures
        wandered(heading, deltas) == (heading + turn_sum(deltas)) % (TAU_MICRORAD as int),
        -WANDER_TURN * deltas.len() <= turn_sum(deltas) <= WANDER_TURN * deltas.len(),
    decreases deltas.len(),
{
    if deltas.len() == 0 {
        vstd::arithmetic::div_mod::lemma_small_mod(heading as nat, TAU_MICRORAD as nat);
    } else {
        let pre = deltas.drop_last();
        assert forall|k: int| 0 <= k < pre.len() implies -WANDER_TURN <= #[trigger] pre[k]
            <= WANDER_TURN by {
            assert(pre[k] == deltas[k]);
        }
        lemma_heading_tracks_turns(heading, pre);
        let d = deltas.last();
        assert(d == deltas[deltas.len() - 1]);
        vstd::arithmetic::div_mod::lemma_add_mod_noop_right(
            d,
            heading + turn_sum(pre),
            TAU_MICRORAD as int,
        );
        assert(heading + turn_sum(deltas) == d + (heading + turn_sum(pre)));
    }
}

impl Charge {
    pub open spec fn wf(self) -> bool {
        self.cooldown.wf() && self.duration.wf()
    }

    /// The charge after `dt` microseconds, and the velocity it imposes in that tick.
    ///
    /// When the cooldown completes, the dash window starts over and the direction
    /// locks onto the nearest player (kept as it was when there is none). While the
    /// window runs and has not completed, the dash velocity holds.
    pub open spec fn charged(self, position: Position, players: Seq<Position>, dt: u64) -> (Charge, Option<Velocity>) {
        let cooldown = self.cooldown.ticked(dt);
        let duration = if cooldown.just_finished {
            Timer { paused: false, ..self.duration.restarted() }
        } else {
            self.duration
        };
        let direction = if cooldown.just_finished && players.len() > 0 {
            velocity_of(
                toward(position, players[first_nearest(position, players)], CHARGE_SPEED as int),
            )
        } else {
            self.direction
        };
        if duration.paused {
            (Charge { cooldown, duration, direction }, None)
        } else {
            let window = duration.ticked(dt);
            (
                Charge { cooldown, duration: window, direction },
                if window.finished {
                    None
                } else {
                    Some(direction)
                },
            )
        }
    }
}

/// Runs one enemy's charge for a tick; `Some` holds the velocity to impose.
pub fn handle_charge(charge: &mut Charge, position: Position, players: &Vec<Position>, dt: u64) -> (r: Option<Velocity>)
    requires
        old(charge).wf(),
    ensures
        final(charge).wf(),
        (*final(charge), r) == old(charge).charged(position, players@, dt),
{
    charge.cooldown.tick(dt);
    if charge.cooldown.is_just_finished() {
        charge.duration.reset();
        charge.duration.unpause();
        match closest_player(position, players) {
            Some(p) => {
                charge.direction = velocity_toward(position, p, CHARGE_SPEED);
            },
            None => {},
        }
    }
    if !charge.duration.is_paused() {
        charge.duration.tick(dt);
        if !charge.duration.is_finished() {
            return Some(charge.direction);
        }
    }
    None
}

/// One of the small enemies a boss breaks into.
pub open spec fn fragment(position: Position, depth: i64, heading: i64, period: u64) -> EnemyBundle {
    EnemyBundle {
        position,
        depth,
        velocity: Velocity { x: 0, y: 0 },
        enemy: Enemy { reward: FRAGMENT_REWARD },
        health: Health::new_spec(FRAGMENT_HEALTH),
        movement: EnemyMovement::Random(heading),
        charge: Some(charge_every(period)),
        explode: false,
    }
}

/// `b` is a fragment at the given place, with a heading within one turn and a
/// charge period in `[FRAGMENT_PERIOD_MIN, FRAGMENT_PERIOD_MAX)`.
pub open spec fn is_fragment(b: EnemyBundle, position: Position, depth: i64) -> bool {
    exists|h: i64, p: u64|
        valid_heading(h as int) && FRAGMENT_PERIOD_MIN <= p < FRAGMENT_PERIOD_MAX && b
            == #[trigger] fragment(position, depth, h, p)
}

/// The fragments of a boss that went down at `position`.
pub fn explode(position: Position, depth: i64) -> (r: Vec<EnemyBundle>)
    ensures
        r@.len() == FRAGMENT_COUNT,
        forall|k: int| 0 <= k < r@.len() ==> is_fragment(#[trigger] r@[k], position, depth),
{
    let mut out: Vec<EnemyBundle> = Vec::new();
    let mut k: usize = 0;
    while k < FRAGMENT_COUNT
        invariant
            k <= FRAGMENT_COUNT,
            out@.len() == k,
            forall|j: int| 0 <= j < k ==> is_fragment(#[trigger] out@[j], position, depth),
        decreases FRAGMENT_COUNT - k,
    {
        let heading = random_heading();
        let period = draw_between(FRAGMENT_PERIOD_MIN, FRAGMENT_PERIOD_MAX) as u64;
        let b = EnemyBundle {
            position,
            depth,
            velocity: Velocity { x: 0, y: 0 },
            enemy: Enemy { reward: FRAGMENT_REWARD },
            health: Health::new(FRAGMENT_HEALTH),
            movement: EnemyMovement::Random(heading),
            charge: Some(new_charge(period)),
            explode: false,
        };
        assert(b == fragment(position, depth, heading, period));
        out.push(b);
        k = k + 1;
    }
    out
}

/// A boss as the explosion pass reads it.
#[derive(Clone, Copy, Debug, PartialEq, Eq, Structural)]
pub struct Detonator {
    pub entity: u64,
    pub position: Position,
    pub depth: i64,
    pub reward: i32,
    pub current_health: i64,
}

/// A boss that went down: its reward is credited, its fragments spawned, and the
/// boss itself despawned.
#[derive(Debug)]
pub struct Blast {
    pub entity: u64,
    pub reward: i32,
    pub fragments: Vec<EnemyBundle>,
}

/// The bosses that are down (health zero or below), in list order.
pub open spec fn downed(bosses: Seq<Detonator>) -> Seq<Detonator>
    decreases bosses.len(),
{
    if bosses.len() == 0 {
        Seq::empty()
    } else if bosses.last().current_health <= 0 {
        downed(bosses.drop_last()).push(bosses.last())
    } else {
        downed(bosses.drop_last())
    }
}

/// The explosion pass: every boss that is down breaks into `FRAGMENT_COUNT`
/// fragments at its position; the others are left alone.
pub fn handle_explosion(bosses: &Vec<Detonator>) -> (r: Vec<Blast>)
    ensures
        r@.len() == downed(bosses@).len(),
        forall|k: int|
            0 <= k < r@.len() ==> {
                let d = downed(bosses@)[k];
                &&& (#[trigger] r@[k]).entity == d.entity
                &&& r@[k].reward == d.reward
                &&& r@[k].fragments@.len() == FRAGMENT_COUNT
                &&& forall|m: int|
                    0 <= m < FRAGMENT_COUNT ==> is_fragment(
                        #[trigger] r@[k].fragments@[m],
                        d.position,
                        d.depth,
                    )
            },
{
    let mut out: Vec<Blast> = Vec::new();
    let mut i: usize = 0;
    while i < bosses.len()
        invariant
            i <= bosses@.len(),
            out@.len() == downed(bosses@.subrange(0, i as int)).len(),
            forall|k: int|
                0 <= k < out@.len() ==> {
                    let d = downed(bosses@.subrange(0, i as int))[k];
                    &&& (#[trigger] out@[k]).entity == d.entity
                    &&& out@[k].reward == d.reward
                    &&& out@[k].fragments@.len() == FRAGMENT_COUNT
                    &&& forall|m: int|
                        0 <= m < FRAGMENT_COUNT ==> is_fragment(
                            #[trigger] out@[k].fragments@[m],
                            d.position,
                            d.depth,
                        )
                },
        decreases bosses@.len() - i,
    {
        let b = bosses[i];
        proof {
            assert(bosses@.subrange(0, i + 1).drop_last() =~= bosses@.subrange(0, i as int));
            assert(bosses@.subrange(0, i + 1).last() == b);
        }
        if b.current_health <= 0 {
            let fragments = explode(b.position, b.depth);
            out.push(Blast { entity: b.entity, reward: b.reward, fragments });
        }
        i = i + 1;
    }
    proof {
        assert(bosses@.subrange(0, bosses@.len() as int) =~= bosses@);
    }
    out
}

} // verus!
