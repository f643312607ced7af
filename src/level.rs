use crate::geometry::Position;
use crate::player::{create_player, loadout_of, Player, PlayerLoadout};
use crate::progress::GameData;
use crate::spawner::{EnemySpawner, EnemySpawnerType};
use crate::timer::{Timer, TimerMode};
use vstd::prelude::*;

verus! {

/// How long a won level must stay won before it ends, in microseconds.
pub const LEVEL_END_GRACE: u64 = 3_000_000;

#[derive(Clone, Copy, Debug, PartialEq, Eq, Structural)]
pub enum GameLevel {
    Level1,
    Level2,
    Level3,
}

/// Where a level stands after a tick.
#[derive(Clone, Copy, Debug, PartialEq, Eq, Structural)]
pub enum LevelStatus {
    InProgress,
    /// Every enemy is gone and no spawner has anything left; the grace timer runs.
    WonPendingDelay,
    Won,
    Lost,
}

/// The grace timer of the win condition.
#[derive(Clone, Copy, Debug, PartialEq, Eq, Structural)]
pub struct LevelEndTimer {
    pub timer: Timer,
}

impl LevelEndTimer {
    pub open spec fn wf(self) -> bool {
        self.timer.wf() && self.timer.mode == TimerMode::Once
    }

    pub fn new() -> (t: LevelEndTimer)
        ensures
            t.wf(),
            t.timer == Timer::new_spec(LEVEL_END_GRACE, TimerMode::Once),
    {
        LevelEndTimer { timer: Timer::new(LEVEL_END_GRACE, TimerMode::Once) }
    }
}

/// Every spawner has emitted all it may.
pub open spec fn all_exhausted(spawners: Seq<EnemySpawner>) -> bool {
    forall|i: int| 0 <= i < spawners.len() ==> (#[trigger] spawners[i]).exhausted_spec()
}

/// The level after a tick of `dt` microseconds with the given populations.
///
/// No player left: lost, whatever the win path says. Otherwise, no enemy left and
/// every spawner exhausted: the grace timer runs, and the level is won once it has
/// completed. Otherwise the grace timer goes back to zero.
pub open spec fn ended(t: LevelEndTimer, players: nat, enemies: nat, exhausted: bool, dt: u64) -> (LevelEndTimer, LevelStatus) {
    if players == 0 {
        (t, LevelStatus::Lost)
    } else if enemies == 0 && exhausted {
        let timer = t.timer.ticked(dt);
        (
            LevelEndTimer { timer },
            if timer.finished {
                LevelStatus::Won
            } else {
                LevelStatus::WonPendingDelay
            },
        )
    } else {
        (LevelEndTimer { timer: t.timer.restarted() }, LevelStatus::InProgress)
    }
}

fn every_exhausted(spawners: &Vec<EnemySpawner>) -> (r: bool)
    ensures
        r == all_exhausted(spawners@),
{
    let mut i: usize = 0;
    while i < spawners.len()
        invariant
            i <= spawners@.len(),
            forall|j: int| 0 <= j < i ==> (#[trigger] spawners@[j]).exhausted_spec(),
        decreases spawners@.len() - i,
    {
        if !spawners[i].is_exhausted() {
            return false;
        }
        i = i + 1;
    }
    true
}

/// Evaluates the end of the level after everything else in the tick.
pub fn end_condition(
    end: &mut LevelEndTimer,
    players: usize,
    enemies: usize,
    spawners: &Vec<EnemySpawner>,
    dt: u64,
) -> (r: LevelStatus)
    requires
        old(end).wf(),
    ensures
        final(end).wf(),
        (*final(end), r) == ended(
            *old(end),
            players as nat,
            enemies as nat,
            all_exhausted(spawners@),
            dt,
        ),
{
    if players == 0 {
        return LevelStatus::Lost;
    }
    if enemies == 0 && every_exhausted(spawners) {
        end.timer.tick(dt);
        if end.timer.is_finished() {
            LevelStatus::Won
        } else {
            LevelStatus::WonPendingDelay
        }
    } else {
        end.timer.reset();
        LevelStatus::InProgress
    }
}

/// What the end check sees in one tick: live players, live enemies, whether every
/// spawner is exhausted, and the tick's length.
#[derive(Clone, Copy, Debug, PartialEq, Eq, Structural)]
pub struct Census {
    pub players: usize,
    pub enemies: usize,
    pub exhausted: bool,
    pub dt: u64,
}

pub open spec fn win_holds(c: Census) -> bool {
    c.players > 0 && c.enemies == 0 && c.exhausted
}

/// The grace timer and status after a run of ticks.
pub open spec fn run_end(t: LevelEndTimer, ticks: Seq<Census>) -> (LevelEndTimer, LevelStatus)
    decreases ticks.len(),
{
    if ticks.len() == 0 {
        (t, LevelStatus::InProgress)
    } else {
        let c = ticks.last();
        ended(run_end(t, ticks.drop_last()).0, c.players as nat, c.enemies as nat, c.exhausted, c.dt)
    }
}

/// Time the win condition has held without a break at the end of a run; ticks with
/// no player left neither add to it nor break it.
pub open spec fn quiet_time(ticks: Seq<Census>) -> int
    decreases ticks.len(),
{
    if ticks.len() == 0 {
        0
    } else {
        let c = ticks.last();
        if c.players == 0 {
            quiet_time(ticks.drop_last())
        } else if win_holds(c) {
            quiet_time(ticks.drop_last()) + c.dt
        } else {
            0
        }
    }
}

/// From a fresh grace timer, the level is won on exactly the ticks on which the
/// win condition has held, without a break, for at least the grace period; any tick
/// that breaks it starts the count again from zero.
pub proof fn lemma_win_needs_unbroken_grace(ticks: Seq<Census>)
    ensures
        ({
            let (t, status) = run_end(
                LevelEndTimer { timer: Timer::new_spec(LEVEL_END_GRACE, TimerMode::Once) },
                ticks,
            );
            &&& t.wf()
            &&& !t.timer.paused
            &&& t.timer.elapsed == if quiet_time(ticks) < LEVEL_END_GRACE {
                quiet_time(ticks)
            } else {
                LEVEL_END_GRACE as int
            }
            &&& t.timer.finished == (quiet_time(ticks) >= LEVEL_END_GRACE)
            &&& t.timer.duration == LEVEL_END_GRACE
            &&& ticks.len() > 0 && win_holds(ticks.last()) ==> (status == LevelStatus::Won
                <==> quiet_time(ticks) >= LEVEL_END_GRACE)
            &&& ticks.len() > 0 && !win_holds(ticks.last()) ==> status != LevelStatus::Won
        }),
    decreases ticks.len(),
{
    if ticks.len() > 0 {
        lemma_win_needs_unbroken_grace(ticks.drop_last());
    }
}

/// The level unlocked and the money awarded for winning a level, if any.
pub open spec fn reward_of(level: GameLevel) -> Option<(usize, i64)> {
    match level {
        GameLevel::Level1 => Some((2, 50)),
        GameLevel::Level2 => Some((3, 100)),
        GameLevel::Level3 => None,
    }
}

/// Credits the win of `level` to the progress.
pub fn award_win(data: &mut GameData, level: GameLevel)
    ensures
        match reward_of(level) {
            Some((unlock, bonus)) => *final(data) == (GameData {
                level: if old(data).level < unlock {
                    unlock
                } else {
                    old(data).level
                },
                money: crate::progress::clamp_i64(old(data).money + bonus),
                ..*old(data)
            }),
            None => *final(data) == *old(data),
        },
{
    match level {
        GameLevel::Level1 => data.complete_level(2, 50),
        GameLevel::Level2 => data.complete_level(3, 100),
        GameLevel::Level3 => {},
    }
}

/// A spawner of a level's layout, placed in whole pixels.
pub open spec fn placed(x: int, y: int, period: u64, delay: u64, limit: usize, kind: EnemySpawnerType) -> EnemySpawner {
    EnemySpawner {
        position: Position { x: (x * 100) as i32, y: (y * 100) as i32 },
        depth: 0,
        timer: Timer::new_spec(period, TimerMode::Repeating),
        initial_delay: Timer::new_spec(delay, TimerMode::Once),
        spawn_count: 0,
        spawn_limit: limit,
        enemy_type: kind,
    }
}

/// The spawners each level starts with.
pub open spec fn layout(level: GameLevel) -> Seq<EnemySpawner> {
    match level {
        GameLevel::Level1 => seq![
            placed(-150, -60, 700_000, 2_000_000, 30, EnemySpawnerType::Normal),
            placed(400, 400, 10_000, 25_000_000, 16, EnemySpawnerType::Elite),
        ],
        GameLevel::Level2 => seq![
            placed(0, 0, 300_000, 2_000_000, 60, EnemySpawnerType::Normal),
            placed(400, -400, 10_000, 25_000_000, 12, EnemySpawnerType::Elite),
            placed(-400, -400, 10_000, 25_000_000, 12, EnemySpawnerType::Elite),
            placed(-400, 400, 10_000, 25_000_000, 12, EnemySpawnerType::Elite),
            placed(400, 400, 10_000, 25_000_000, 12, EnemySpawnerType::Elite),
        ],
        GameLevel::Level3 => seq![placed(0, 0, 1_000_000, 5_000_000, 1, EnemySpawnerType::Boss)],
    }
}

fn place(x: i32, y: i32, period: u64, delay: u64, limit: usize, kind: EnemySpawnerType) -> (s: EnemySpawner)
    requires
        -20_000 <= x <= 20_000,
        -20_000 <= y <= 20_000,
    ensures
        s == placed(x as int, y as int, period, delay, limit, kind),
        s.wf(),
{
    EnemySpawner::new(Position { x: x * 100, y: y * 100 }, 0, period, delay, limit, kind)
}

/// What a level starts with: its spawners, a fresh grace timer, and the two players
/// armed from the progress.
pub fn init(level: GameLevel, data: &GameData) -> (r: (Vec<EnemySpawner>, LevelEndTimer, Vec<PlayerLoadout>))
    ensures
        r.0@ == layout(level),
        forall|i: int| 0 <= i < r.0@.len() ==> (#[trigger] r.0@[i]).wf(),
        r.1.wf(),
        r.1.timer == Timer::new_spec(LEVEL_END_GRACE, TimerMode::Once),
        r.2@ == seq![loadout_of(Player::One, *data), loadout_of(Player::Two, *data)],
{
    let mut v: Vec<EnemySpawner> = Vec::new();
    match level {
        GameLevel::Level1 => {
            v.push(place(-150, -60, 700_000, 2_000_000, 30, EnemySpawnerType::Normal));
            v.push(place(400, 400, 10_000, 25_000_000, 16, EnemySpawnerType::Elite));
        },
        GameLevel::Level2 => {
            v.push(place(0, 0, 300_000, 2_000_000, 60, EnemySpawnerType::Normal));
            v.push(place(400, -400, 10_000, 25_000_000, 12, EnemySpawnerType::Elite));
            v.push(place(-400, -400, 10_000, 25_000_000, 12, EnemySpawnerType::Elite));
            v.push(place(-400, 400, 10_000, 25_000_000, 12, EnemySpawnerType::Elite));
            v.push(place(400, 400, 10_000, 25_000_000, 12, EnemySpawnerType::Elite));
        },
        GameLevel::Level3 => {
            v.push(place(0, 0, 1_000_000, 5_000_000, 1, EnemySpawnerType::Boss));
        },
    }
    assert(v@ =~= layout(level));
    let mut players: Vec<PlayerLoadout> = Vec::new();
    players.push(create_player(Player::One, data));
    players.push(create_player(Player::Two, data));
    assert(players@ =~= seq![loadout_of(Player::One, *data), loadout_of(Player::Two, *data)]);
    (v, LevelEndTimer::new(), players)
}

/// Half the side of the square arena, in hundredths of a pixel.
pub const ARENA_HALF: i32 = 60_000;

/// Half the side of each hazard zone around the arena, in hundredths of a pixel.
pub const HAZARD_HALF: i32 = 1_500_000;

/// A square zone outside the arena that hurts what stands in it.
#[derive(Clone, Copy, Debug, PartialEq, Eq, Structural)]
pub struct HazardZone {
    pub centre: Position,
    pub half_side: i32,
}

/// The four hazard zones, one against each side of the arena: below, above, left,
/// right.
pub open spec fn boundary() -> Seq<HazardZone> {
    let d = (ARENA_HALF + HAZARD_HALF) as i32;
    seq![
        HazardZone { centre: Position { x: 0, y: (-d) as i32 }, half_side: HAZARD_HALF },
        HazardZone { centre: Position { x: 0, y: d }, half_side: HAZARD_HALF },
        HazardZone { centre: Position { x: (-d) as i32, y: 0 }, half_side: HAZARD_HALF },
        HazardZone { centre: Position { x: d, y: 0 }, half_side: HAZARD_HALF },
    ]
}

/// The hazard zones that bound every level.
pub fn create_map_boundary() -> (r: Vec<HazardZone>)
    ensures
        r@ == boundary(),
{
    let d: i32 = ARENA_HALF + HAZARD_HALF;
    let mut v: Vec<HazardZone> = Vec::new();
    v.push(HazardZone { centre: Position { x: 0, y: -d }, half_side: HAZARD_HALF });
    v.push(HazardZone { centre: Position { x: 0, y: d }, half_side: HAZARD_HALF });
    v.push(HazardZone { centre: Position { x: -d, y: 0 }, half_side: HAZARD_HALF });
    v.push(HazardZone { centre: Position { x: d, y: 0 }, half_side: HAZARD_HALF });
    assert(v@ =~= boundary());
    v
}

} // verus!
