use crate::timer::{Timer, TimerMode};
use vstd::prelude::*;

verus! {

/// How long an entity shows the damage flash, in microseconds.
pub const DAMAGE_FLASH: u64 = 150_000;

/// A request to take `damage` thousandths of a hit point from `entity`.
#[derive(Clone, Copy, Debug, PartialEq, Eq, Structural)]
pub struct DamageEvent {
    pub entity: u64,
    pub damage: u32,
}

/// A request to remove `entity` (and what it carries) from the world.
#[derive(Clone, Copy, Debug, PartialEq, Eq, Structural)]
pub struct DespawnEvent {
    pub entity: u64,
}

/// Hit points of an entity, in thousandths, and its damage-flash timer.
///
/// The current value is not clamped: it may go below zero, and an entity is down
/// once it is zero or less.
#[derive(Clone, Copy, Debug, PartialEq, Eq, Structural)]
pub struct Health {
    pub current_health: i64,
    pub max_health: i64,
    pub dmg_timer: Timer,
}

/// An entity that has health.
#[derive(Clone, Copy, Debug, PartialEq, Eq, Structural)]
pub struct Vital {
    pub entity: u64,
    pub health: Health,
}

/// What the damage pass reports: the despawn intents for entities brought down, the
/// entities that took a survivable hit (their flash starts), and the entities whose
/// flash ended this tick.
#[derive(Debug)]
pub struct DamageOutcome {
    pub despawns: Vec<DespawnEvent>,
    pub wounded: Vec<u64>,
    pub flash_ended: Vec<u64>,
}

impl Health {
    pub open spec fn wf(self) -> bool {
        &&& self.current_health <= self.max_health
        &&& self.dmg_timer.wf()
        &&& self.dmg_timer.mode == TimerMode::Once
    }

    pub open spec fn new_spec(health: i64) -> Health {
        Health {
            current_health: health,
            max_health: health,
            dmg_timer: Timer { paused: true, ..Timer::new_spec(DAMAGE_FLASH, TimerMode::Once) },
        }
    }

    /// Full health of `health` thousandths, with the flash timer waiting.
    pub fn new(health: i64) -> (h: Health)
        ensures
            h.wf(),
            h == Health::new_spec(health),
    {
        Health {
            current_health: health,
            max_health: health,
            dmg_timer: Timer::new_paused(DAMAGE_FLASH, TimerMode::Once),
        }
    }
}

/// `current` less `damage`; it does not stop at zero, only at the bottom of the
/// counter's range.
pub open spec fn lowered(current: i64, damage: u32) -> i64 {
    if current - damage < i64::MIN {
        i64::MIN
    } else {
        (current - damage) as i64
    }
}

/// Health after losing `damage`.
pub open spec fn struck(h: Health, damage: u32) -> Health {
    Health { current_health: lowered(h.current_health, damage), ..h }
}

/// Health with the flash timer started over and running.
pub open spec fn flashed(h: Health) -> Health {
    Health { dmg_timer: Timer { paused: false, ..h.dmg_timer.restarted() }, ..h }
}

/// Health after the flash timer has run `dt` microseconds.
pub open spec fn flash_ticked(h: Health, dt: u64) -> Health {
    Health { dmg_timer: h.dmg_timer.ticked(dt), ..h }
}

/// Every health is well formed and no entity is listed twice.
pub open spec fn vitals_wf(v: Seq<Vital>) -> bool {
    &&& forall|i: int| 0 <= i < v.len() ==> (#[trigger] v[i]).health.wf()
    &&& forall|i: int, j: int|
        #![trigger v[i], v[j]]
        0 <= i < v.len() && 0 <= j < v.len() && i != j ==> v[i].entity != v[j].entity
}

pub open spec fn holds(v: Seq<Vital>, entity: u64) -> bool {
    exists|i: int| 0 <= i < v.len() && v[i].entity == entity
}

pub open spec fn slot_of(v: Seq<Vital>, entity: u64) -> int {
    choose|i: int| 0 <= i < v.len() && v[i].entity == entity
}

/// The event finds its entity (an event for an entity that is gone is dropped).
pub open spec fn lands(v: Seq<Vital>, ev: DamageEvent) -> bool {
    holds(v, ev.entity)
}

/// The event lands and takes its entity from above zero to zero or below.
pub open spec fn is_lethal(v: Seq<Vital>, ev: DamageEvent) -> bool {
    &&& lands(v, ev)
    &&& v[slot_of(v, ev.entity)].health.current_health > 0
    &&& lowered(v[slot_of(v, ev.entity)].health.current_health, ev.damage) <= 0
}

/// The event lands and its entity stays above zero.
pub open spec fn is_wounding(v: Seq<Vital>, ev: DamageEvent) -> bool {
    lands(v, ev) && lowered(v[slot_of(v, ev.entity)].health.current_health, ev.damage) > 0
}

/// The entities after one damage event: the damage is taken away, and an entity
/// still above zero starts its flash.
pub open spec fn after_event(v: Seq<Vital>, ev: DamageEvent) -> Seq<Vital> {
    if lands(v, ev) {
        let i = slot_of(v, ev.entity);
        let h = struck(v[i].health, ev.damage);
        v.update(i, Vital { health: if h.current_health <= 0 { h } else { flashed(h) }, ..v[i] })
    } else {
        v
    }
}

/// The entities, despawn intents and wounded entities after a queue of damage
/// events, taken in order.
pub open spec fn resolve(v: Seq<Vital>, events: Seq<DamageEvent>) -> (Seq<Vital>, Seq<DespawnEvent>, Seq<u64>)
    decreases events.len(),
{
    if events.len() == 0 {
        (v, Seq::empty(), Seq::empty())
    } else {
        let (w, despawns, wounded) = resolve(v, events.drop_last());
        let ev = events.last();
        (
            after_event(w, ev),
            if is_lethal(w, ev) {
                despawns.push(DespawnEvent { entity: ev.entity })
            } else {
                despawns
            },
            if is_wounding(w, ev) {
                wounded.push(ev.entity)
            } else {
                wounded
            },
        )
    }
}

/// Entities whose flash ends when their timers run `dt` more microseconds.
pub open spec fn flash_ends(v: Seq<Vital>, dt: u64) -> Seq<u64>
    decreases v.len(),
{
    if v.len() == 0 {
        Seq::empty()
    } else {
        let rest = flash_ends(v.drop_last(), dt);
        if v.last().health.dmg_timer.ticked(dt).just_finished {
            rest.push(v.last().entity)
        } else {
            rest
        }
    }
}

/// Damage events keep the list of entities, and keep it well formed.
pub proof fn lemma_resolve_keeps_entities(v: Seq<Vital>, events: Seq<DamageEvent>)
    requires
        vitals_wf(v),
    ensures
        resolve(v, events).0.len() == v.len(),
        forall|i: int| 0 <= i < v.len() ==> (#[trigger] resolve(v, events).0[i]).entity == v[i].entity,
        vitals_wf(resolve(v, events).0),
    decreases events.len(),
{
    if events.len() > 0 {
        lemma_resolve_keeps_entities(v, events.drop_last());
        let w = resolve(v, events.drop_last()).0;
        let ev = events.last();
        if lands(w, ev) {
            let i = slot_of(w, ev.entity);
            let h = struck(w[i].health, ev.damage);
            assert(h.wf());
            assert(flashed(h).wf());
        }
        let r = after_event(w, ev);
        assert forall|i: int| 0 <= i < r.len() implies (#[trigger] r[i]).health.wf() by {
            if lands(w, ev) && i == slot_of(w, ev.entity) {
            } else {
                assert(r[i] == w[i]);
            }
        }
    }
}

proof fn lemma_slot_is(v: Seq<Vital>, entity: u64, i: int)
    requires
        vitals_wf(v),
        0 <= i < v.len(),
        v[i].entity == entity,
    ensures
        holds(v, entity),
        slot_of(v, entity) == i,
{
    assert(holds(v, entity));
    let s = slot_of(v, entity);
    assert(v[s].entity == entity);
}

/// Total damage that a queue of events carries to `entity`.
pub open spec fn damage_to(events: Seq<DamageEvent>, entity: u64) -> int
    decreases events.len(),
{
    if events.len() == 0 {
        0
    } else {
        damage_to(events.drop_last(), entity) + if events.last().entity == entity {
            events.last().damage as int
        } else {
            0
        }
    }
}

proof fn lemma_damage_to_nonneg(events: Seq<DamageEvent>, entity: u64)
    ensures
        damage_to(events, entity) >= 0,
    decreases events.len(),
{
    if events.len() > 0 {
        lemma_damage_to_nonneg(events.drop_last(), entity);
    }
}

/// How many despawn intents name `entity`.
pub open spec fn intents_for(d: Seq<DespawnEvent>, entity: u64) -> nat
    decreases d.len(),
{
    if d.len() == 0 {
        0
    } else {
        intents_for(d.drop_last(), entity) + if d.last().entity == entity {
            1nat
        } else {
            0nat
        }
    }
}

/// Draining an empty damage queue changes no health and brings no despawn intent.
pub proof fn lemma_empty_queue_is_inert(v: Seq<Vital>)
    ensures
        resolve(v, Seq::empty()) == (v, Seq::<DespawnEvent>::empty(), Seq::<u64>::empty()),
{
}

/// However many events hit the same entities in one tick, no entity gets more than
/// one despawn intent; every entity with an intent is down.
pub proof fn lemma_despawn_at_most_once(v: Seq<Vital>, events: Seq<DamageEvent>)
    requires
        vitals_wf(v),
    ensures
        ({
            let (w, d, _) = resolve(v, events);
            &&& forall|a: int, b: int|
                #![trigger d[a], d[b]]
                0 <= a < d.len() && 0 <= b < d.len() && a != b ==> d[a].entity != d[b].entity
            &&& forall|a: int|
                0 <= a < d.len() ==> holds(w, #[trigger] d[a].entity) && w[slot_of(
                    w,
                    d[a].entity,
                )].health.current_health <= 0
        }),
    decreases events.len(),
{
    if events.len() > 0 {
        let pre = events.drop_last();
        lemma_despawn_at_most_once(v, pre);
        lemma_resolve_keeps_entities(v, pre);
        lemma_resolve_keeps_entities(v, events);
        let (w, d, _) = resolve(v, pre);
        let ev = events.last();
        let w2 = after_event(w, ev);
        let d2 = resolve(v, events).1;
        assert forall|a: int| 0 <= a < d.len() implies holds(w2, #[trigger] d[a].entity)
            && w2[slot_of(w2, d[a].entity)].health.current_health <= 0 by {
            let i = slot_of(w, d[a].entity);
            assert(w2[i].entity == w[i].entity);
            lemma_slot_is(w2, d[a].entity, i);
            if lands(w, ev) && i != slot_of(w, ev.entity) {
                assert(w2[i] == w[i]);
            }
        }
        if is_lethal(w, ev) {
            let j = slot_of(w, ev.entity);
            assert(w2[j].entity == ev.entity);
            lemma_slot_is(w2, ev.entity, j);
            assert forall|a: int| 0 <= a < d.len() implies d[a].entity != ev.entity by {
                if d[a].entity == ev.entity {
                    assert(w[slot_of(w, d[a].entity)].health.current_health <= 0);
                }
            }
            assert(d2 == d.push(DespawnEvent { entity: ev.entity }));
            assert forall|a: int| 0 <= a < d2.len() implies holds(w2, #[trigger] d2[a].entity)
                && w2[slot_of(w2, d2[a].entity)].health.current_health <= 0 by {
                if a < d.len() {
                    assert(d2[a] == d[a]);
                }
            }
        }
    }
}

/// For any queue of events and any present entity: its health ends lowered by the
/// total damage aimed at it (only the bottom of the counter's range stops it), its
/// maximum stays, and it gets exactly one despawn intent when it started above zero
/// and that total reaches its health, and none otherwise.
pub proof fn lemma_damage_adds_up(v: Seq<Vital>, events: Seq<DamageEvent>, entity: u64)
    requires
        vitals_wf(v),
        holds(v, entity),
    ensures
        resolve(v, events).0[slot_of(v, entity)].entity == entity,
        resolve(v, events).0[slot_of(v, entity)].health.current_health == if v[slot_of(
            v,
            entity,
        )].health.current_health - damage_to(events, entity) < i64::MIN {
            i64::MIN as int
        } else {
            v[slot_of(v, entity)].health.current_health - damage_to(events, entity)
        },
        resolve(v, events).0[slot_of(v, entity)].health.max_health == v[slot_of(
            v,
            entity,
        )].health.max_health,
        intents_for(resolve(v, events).1, entity) == if v[slot_of(v, entity)].health.current_health
            > 0 && damage_to(events, entity) >= v[slot_of(v, entity)].health.current_health {
            1nat
        } else {
            0nat
        },
    decreases events.len(),
{
    let i = slot_of(v, entity);
    assert(v[i].entity == entity);
    if events.len() > 0 {
        let pre = events.drop_last();
        lemma_damage_adds_up(v, pre, entity);
        lemma_resolve_keeps_entities(v, pre);
        lemma_resolve_keeps_entities(v, events);
        let (w, d, _) = resolve(v, pre);
        let ev = events.last();
        let w2 = after_event(w, ev);
        let d2 = resolve(v, events).1;
        assert(resolve(v, events).0 == w2);
        lemma_slot_is(w, entity, i);
        if is_lethal(w, ev) {
            assert(d2 == d.push(DespawnEvent { entity: ev.entity }));
            assert(d2.drop_last() == d);
            assert(intents_for(d2, entity) == intents_for(d, entity) + if ev.entity == entity {
                1nat
            } else {
                0nat
            });
        } else {
            assert(d2 == d);
        }
        if ev.entity != entity {
            assert(damage_to(events, entity) == damage_to(pre, entity));
            if lands(w, ev) {
                let j = slot_of(w, ev.entity);
                assert(w[j].entity == ev.entity);
                assert(j != i);
                assert(w2[i] == w[i]);
            } else {
                assert(w2 == w);
            }
        } else {
            assert(damage_to(events, entity) == damage_to(pre, entity) + ev.damage);
            assert(lands(w, ev));
            let h = struck(w[i].health, ev.damage);
            assert(w2[i].health.current_health == h.current_health);
            assert(w2[i].health.max_health == w[i].health.max_health);
            let c = v[i].health.current_health;
            let p = w[i].health.current_health;
            let t0 = damage_to(pre, entity);
            lemma_damage_to_nonneg(pre, entity);
            assert(slot_of(w, ev.entity) == i);
            if c > 0 && t0 >= c {
                assert(p <= 0);
                assert(!is_lethal(w, ev));
                assert(intents_for(d2, entity) == 1);
            } else if c <= 0 {
                assert(p <= 0);
                assert(!is_lethal(w, ev));
                assert(intents_for(d2, entity) == 0);
            } else {
                assert(p == c - t0);
                assert(is_lethal(w, ev) == (c - t0 - ev.damage <= 0));
            }
        }
    }
}

/// Index of `entity` among `v`, if it is there.
fn find_vital(v: &Vec<Vital>, entity: u64) -> (r: Option<usize>)
    requires
        vitals_wf(v@),
    ensures
        r.is_none() <==> !holds(v@, entity),
        r matches Some(i) ==> i == slot_of(v@, entity) && i < v@.len(),
{
    let mut i: usize = 0;
    while i < v.len()
        invariant
            i <= v@.len(),
            vitals_wf(v@),
            forall|j: int| 0 <= j < i ==> v@[j].entity != entity,
        decreases v@.len() - i,
    {
        if v[i].entity == entity {
            proof {
                assert(holds(v@, entity));
                let s = slot_of(v@, entity);
                assert(v@[s].entity == entity);
            }
            return Some(i);
        }
        i = i + 1;
    }
    None
}

/// Drains one tick's damage queue, then runs every entity's flash timer.
///
/// Each event, in order, takes its damage from its entity if that entity is
/// present (health is not clamped at zero). The event that takes an entity from
/// above zero to zero or below brings its one despawn intent; an entity still above
/// zero starts its flash. Events for absent entities change nothing.
pub fn handle_damage_event(vitals: &mut Vec<Vital>, events: &Vec<DamageEvent>, dt: u64) -> (r: DamageOutcome)
    requires
        vitals_wf(old(vitals)@),
    ensures
        ({
            let (w, despawns, wounded) = resolve(old(vitals)@, events@);
            &&& final(vitals)@.len() == w.len()
            &&& forall|i: int|
                0 <= i < w.len() ==> #[trigger] final(vitals)@[i] == (Vital {
                    health: flash_ticked(w[i].health, dt),
                    ..w[i]
                })
            &&& r.despawns@ == despawns
            &&& r.wounded@ == wounded
            &&& r.flash_ended@ == flash_ends(w, dt)
        }),
        vitals_wf(final(vitals)@),
{
    let ghost v0 = vitals@;
    let mut despawns: Vec<DespawnEvent> = Vec::new();
    let mut wounded: Vec<u64> = Vec::new();
    let mut k: usize = 0;
    while k < events.len()
        invariant
            k <= events@.len(),
            vitals_wf(v0),
            resolve(v0, events@.subrange(0, k as int)) == (vitals@, despawns@, wounded@),
        decreases events@.len() - k,
    {
        proof {
            lemma_resolve_keeps_entities(v0, events@.subrange(0, k as int));
        }
        let ev = events[k];
        let ghost w = vitals@;
        match find_vital(vitals, ev.entity) {
            Some(i) => {
                let mut target = vitals[i];
                let before = target.health.current_health;
                let damage = ev.damage as i64;
                target.health.current_health = if before < i64::MIN + damage {
                    i64::MIN
                } else {
                    before - damage
                };
                if target.health.current_health <= 0 {
                    if before > 0 {
                        despawns.push(DespawnEvent { entity: ev.entity });
                    }
                } else {
                    target.health.dmg_timer.reset();
                    target.health.dmg_timer.unpause();
                    wounded.push(ev.entity);
                }
                vitals.set(i, target);
            },
            None => {},
        }
        proof {
            assert(events@.subrange(0, k + 1).drop_last() =~= events@.subrange(0, k as int));
            assert(events@.subrange(0, k + 1).last() == ev);
            assert(vitals@ =~= after_event(w, ev));
        }
        k = k + 1;
    }
    proof {
        assert(events@.subrange(0, events@.len() as int) =~= events@);
        lemma_resolve_keeps_entities(v0, events@);
    }
    let ghost w = vitals@;
    let mut flash_ended: Vec<u64> = Vec::new();
    let mut i: usize = 0;
    while i < vitals.len()
        invariant
            i <= vitals@.len(),
            vitals@.len() == w.len(),
            vitals_wf(w),
            forall|j: int| i <= j < w.len() ==> vitals@[j] == w[j],
            forall|j: int|
                0 <= j < i ==> #[trigger] vitals@[j] == (Vital {
                    health: flash_ticked(w[j].health, dt),
                    ..w[j]
                }),
            flash_ended@ == flash_ends(w.subrange(0, i as int), dt),
        decreases w.len() - i,
    {
        let mut target = vitals[i];
        target.health.dmg_timer.tick(dt);
        if target.health.dmg_timer.is_just_finished() {
            flash_ended.push(target.entity);
        }
        vitals.set(i, target);
        proof {
            assert(w.subrange(0, i + 1).drop_last() =~= w.subrange(0, i as int));
        }
        i = i + 1;
    }
    proof {
        assert(w.subrange(0, w.len() as int) =~= w);
        assert forall|a: int, b: int|
            0 <= a < vitals@.len() && 0 <= b < vitals@.len() && a != b implies vitals@[a].entity
            != vitals@[b].entity by {
            assert(vitals@[a].entity == w[a].entity);
            assert(vitals@[b].entity == w[b].entity);
        }
        assert forall|a: int| 0 <= a < vitals@.len() implies (#[trigger] vitals@[a]).health.wf() by {
            assert(w[a].health.wf());
        }
    }
    DamageOutcome { despawns, wounded, flash_ended }
}

} // verus!
