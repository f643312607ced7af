use crate::geometry::Position;
use crate::timer::{Timer, TimerMode};
use vstd::prelude::*;

verus! {

/// How far in front of its spawner a new enemy is drawn, in hundredths of a depth unit.
pub const SPAWN_DEPTH_NUDGE: i64 = 10;

/// The stat profile a spawner produces.
#[derive(Clone, Copy, Debug, PartialEq, Eq, Structural)]
pub enum EnemySpawnerType {
    Normal,
    Elite,
    Boss,
}

/// A spawn point: after `initial_delay` it emits one enemy each time `timer`
/// completes, `spawn_limit` enemies in all.
#[derive(Clone, Copy, Debug, PartialEq, Eq, Structural)]
pub struct EnemySpawner {
    pub position: Position,
    pub depth: i32,
    pub timer: Timer,
    pub initial_delay: Timer,
    pub spawn_count: usize,
    pub spawn_limit: usize,
    pub enemy_type: EnemySpawnerType,
}

/// A request to create one enemy of `enemy_type` at `position`, drawn at `depth`.
#[derive(Clone, Copy, Debug, PartialEq, Eq, Structural)]
pub struct SpawnRequest {
    pub enemy_type: EnemySpawnerType,
    pub position: Position,
    pub depth: i64,
}

impl EnemySpawner {
    pub open spec fn wf(self) -> bool {
        &&& self.timer.wf()
        &&& self.initial_delay.wf()
        &&& self.initial_delay.mode == TimerMode::Once
        &&& self.spawn_count <= self.spawn_limit
    }

    pub open spec fn exhausted_spec(self) -> bool {
        self.spawn_count >= self.spawn_limit
    }

    pub open spec fn request(self) -> SpawnRequest {
        SpawnRequest {
            enemy_type: self.enemy_type,
            position: self.position,
            depth: (self.depth + SPAWN_DEPTH_NUDGE) as i64,
        }
    }

    /// The part of a tick of `dt` microseconds that the repeat timer gets once the
    /// delay has completed: all of it when the delay had already completed, else what
    /// is left of the tick past the delay's end.
    pub open spec fn repeat_time(self, dt: u64) -> u64 {
        if self.initial_delay.finished {
            dt
        } else {
            (dt - (self.initial_delay.duration - self.initial_delay.elapsed)) as u64
        }
    }

    /// The spawner after `dt` microseconds, and the spawn it asks for in that tick.
    ///
    /// The delay runs first; the repeat timer runs only for the time past the
    /// delay's end, so the first spawn comes one full period after the delay. A
    /// spawn comes only on a tick on which the repeat timer completes while the count
    /// is below the limit. One tick brings at most one spawn.
    pub open spec fn ticked(self, dt: u64) -> (EnemySpawner, Option<SpawnRequest>) {
        let delay = self.initial_delay.ticked(dt);
        if !delay.finished {
            (EnemySpawner { initial_delay: delay, ..self }, None)
        } else {
            let timer = self.timer.ticked(self.repeat_time(dt));
            if timer.just_finished && self.spawn_count < self.spawn_limit {
                (
                    EnemySpawner {
                        initial_delay: delay,
                        timer,
                        spawn_count: (self.spawn_count + 1) as usize,
                        ..self
                    },
                    Some(self.request()),
                )
            } else {
                (EnemySpawner { initial_delay: delay, timer, ..self }, None)
            }
        }
    }

    /// A fresh spawner: `period` microseconds between spawns once `delay`
    /// microseconds have passed.
    pub fn new(
        position: Position,
        depth: i32,
        period: u64,
        delay: u64,
        spawn_limit: usize,
        enemy_type: EnemySpawnerType,
    ) -> (s: EnemySpawner)
        ensures
            s.wf(),
            s.position == position,
            s.depth == depth,
            s.timer == Timer::new_spec(period, TimerMode::Repeating),
            s.initial_delay == Timer::new_spec(delay, TimerMode::Once),
            s.spawn_count == 0,
            s.spawn_limit == spawn_limit,
            s.enemy_type == enemy_type,
    {
        EnemySpawner {
            position,
            depth,
            timer: Timer::new(period, TimerMode::Repeating),
            initial_delay: Timer::new(delay, TimerMode::Once),
            spawn_count: 0,
            spawn_limit,
            enemy_type,
        }
    }

    /// True once the spawner has emitted all it may; it never spawns again.
    pub fn is_exhausted(&self) -> (r: bool)
        ensures
            r == self.exhausted_spec(),
    {
        self.spawn_count >= self.spawn_limit
    }

    /// Runs the spawner for one tick of `dt` microseconds.
    pub fn tick(&mut self, dt: u64) -> (r: Option<SpawnRequest>)
        requires
            old(self).wf(),
        ensures
            final(self).wf(),
            (*final(self), r) == old(self).ticked(dt),
    {
        let was_done = self.initial_delay.is_finished();
        let before = self.initial_delay.elapsed;
        self.initial_delay.tick(dt);
        if !self.initial_delay.is_finished() {
            return None;
        }
        let run = if was_done {
            dt
        } else {
            dt - (self.initial_delay.duration - before)
        };
        self.timer.tick(run);
        if self.timer.is_just_finished() && self.spawn_count < self.spawn_limit {
            self.spawn_count = self.spawn_count + 1;
            let depth: i64 = self.depth as i64 + SPAWN_DEPTH_NUDGE;
            Some(SpawnRequest { enemy_type: self.enemy_type, position: self.position, depth })
        } else {
            None
        }
    }
}

/// The spawn requests of a list of spawners in one tick, in list order.
pub open spec fn requests_of(spawners: Seq<EnemySpawner>, dt: u64) -> Seq<SpawnRequest>
    decreases spawners.len(),
{
    if spawners.len() == 0 {
        Seq::empty()
    } else {
        let rest = requests_of(spawners.drop_last(), dt);
        match spawners.last().ticked(dt).1 {
            Some(req) => rest.push(req),
            None => rest,
        }
    }
}

/// Runs every spawner for one tick of `dt` microseconds and returns the spawns
/// they ask for, in list order.
pub fn generic_spawner(spawners: &mut Vec<EnemySpawner>, dt: u64) -> (r: Vec<SpawnRequest>)
    requires
        forall|i: int| 0 <= i < old(spawners)@.len() ==> (#[trigger] old(spawners)@[i]).wf(),
    ensures
        final(spawners)@.len() == old(spawners)@.len(),
        forall|i: int|
            0 <= i < old(spawners)@.len() ==> #[trigger] final(spawners)@[i] == old(
                spawners,
            )@[i].ticked(dt).0,
        forall|i: int| 0 <= i < final(spawners)@.len() ==> (#[trigger] final(spawners)@[i]).wf(),
        r@ == requests_of(old(spawners)@, dt),
{
    let ghost s0 = spawners@;
    let mut out: Vec<SpawnRequest> = Vec::new();
    let mut i: usize = 0;
    while i < spawners.len()
        invariant
            i <= spawners@.len(),
            spawners@.len() == s0.len(),
            forall|j: int| 0 <= j < s0.len() ==> (#[trigger] s0[j]).wf(),
            forall|j: int| i <= j < s0.len() ==> spawners@[j] == s0[j],
            forall|j: int| 0 <= j < i ==> #[trigger] spawners@[j] == s0[j].ticked(dt).0,
            forall|j: int| 0 <= j < i ==> (#[trigger] spawners@[j]).wf(),
            out@ == requests_of(s0.subrange(0, i as int), dt),
        decreases s0.len() - i,
    {
        let mut s = spawners[i];
        assert(s == s0[i as int] && s0[i as int].wf());
        let req = s.tick(dt);
        match req {
            Some(q) => out.push(q),
            None => {},
        }
        spawners.set(i, s);
        proof {
            assert(s0.subrange(0, i + 1).drop_last() =~= s0.subrange(0, i as int));
            assert(s0.subrange(0, i + 1).last() == s0[i as int]);
        }
        i = i + 1;
    }
    proof {
        assert(s0.subrange(0, s0.len() as int) =~= s0);
    }
    out
}

/// A spawner after a run of ticks of the given lengths.
pub open spec fn run(s: EnemySpawner, dts: Seq<u64>) -> EnemySpawner
    decreases dts.len(),
{
    if dts.len() == 0 {
        s
    } else {
        run(s, dts.drop_last()).ticked(dts.last()).0
    }
}

/// Over any run of ticks a spawner's count never goes down and never passes its limit.
pub proof fn lemma_spawn_count_bounded(s: EnemySpawner, dts: Seq<u64>)
    requires
        s.wf(),
    ensures
        run(s, dts).wf(),
        s.spawn_count <= run(s, dts).spawn_count <= s.spawn_limit,
        run(s, dts).spawn_limit == s.spawn_limit,
    decreases dts.len(),
{
    if dts.len() > 0 {
        lemma_spawn_count_bounded(s, dts.drop_last());
        let p = run(s, dts.drop_last());
        p.initial_delay.lemma_ticked_wf(dts.last());
        p.timer.lemma_ticked_wf(p.repeat_time(dts.last()));
    }
}

/// Each tick raises the count by one or leaves it.
pub proof fn lemma_tick_steps_count(s: EnemySpawner, dt: u64)
    requires
        s.wf(),
    ensures
        s.ticked(dt).1.is_some() ==> s.ticked(dt).0.spawn_count == s.spawn_count + 1,
        s.ticked(dt).1.is_none() ==> s.ticked(dt).0.spawn_count == s.spawn_count,
{
}

} // verus!
