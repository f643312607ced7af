use crate::health::DespawnEvent;
use crate::timer::Timer;
use vstd::prelude::*;

verus! {

/// An entity that removes itself when its timer runs out.
#[derive(Clone, Copy, Debug, PartialEq, Eq, Structural)]
pub struct Expiring {
    pub entity: u64,
    pub timer: Timer,
}

/// What an enemy is worth when removed, and whether it breaks apart instead (its
/// removal and reward then belong to the explosion pass).
#[derive(Clone, Copy, Debug, PartialEq, Eq, Structural)]
pub struct Bounty {
    pub entity: u64,
    pub reward: i32,
    pub explodes: bool,
}

/// The entities to remove this tick, each once, and the money their removal earns.
#[derive(Debug)]
pub struct DespawnOutcome {
    pub removed: Vec<u64>,
    pub reward: i128,
}

/// The entities whose timers run out in `dt` more microseconds, in list order.
pub open spec fn expiries(items: Seq<Expiring>, dt: u64) -> Seq<DespawnEvent>
    decreases items.len(),
{
    if items.len() == 0 {
        Seq::empty()
    } else {
        let rest = expiries(items.drop_last(), dt);
        if items.last().timer.ticked(dt).just_finished {
            rest.push(DespawnEvent { entity: items.last().entity })
        } else {
            rest
        }
    }
}

/// Runs every expiry timer and asks to remove the entities whose time ran out.
pub fn clean_up_expired(items: &mut Vec<Expiring>, dt: u64) -> (r: Vec<DespawnEvent>)
    requires
        forall|i: int| 0 <= i < old(items)@.len() ==> (#[trigger] old(items)@[i]).timer.wf(),
    ensures
        final(items)@.len() == old(items)@.len(),
        forall|i: int|
            0 <= i < old(items)@.len() ==> #[trigger] final(items)@[i] == (Expiring {
                timer: old(items)@[i].timer.ticked(dt),
                ..old(items)@[i]
            }),
        forall|i: int| 0 <= i < final(items)@.len() ==> (#[trigger] final(items)@[i]).timer.wf(),
        r@ == expiries(old(items)@, dt),
{
    let ghost s0 = items@;
    let mut out: Vec<DespawnEvent> = Vec::new();
    let mut i: usize = 0;
    while i < items.len()
        invariant
            i <= items@.len(),
            items@.len() == s0.len(),
            forall|j: int| 0 <= j < s0.len() ==> (#[trigger] s0[j]).timer.wf(),
            forall|j: int| i <= j < s0.len() ==> items@[j] == s0[j],
            forall|j: int|
                0 <= j < i ==> #[trigger] items@[j] == (Expiring {
                    timer: s0[j].timer.ticked(dt),
                    ..s0[j]
                }),
            forall|j: int| 0 <= j < i ==> (#[trigger] items@[j]).timer.wf(),
            out@ == expiries(s0.subrange(0, i as int), dt),
        decreases s0.len() - i,
    {
        let mut it = items[i];
        assert(it == s0[i as int] && s0[i as int].timer.wf());
        it.timer.tick(dt);
        if it.timer.is_just_finished() {
            out.push(DespawnEvent { entity: it.entity });
        }
        items.set(i, it);
        proof {
            assert(s0.subrange(0, i + 1).drop_last() =~= s0.subrange(0, i as int));
            assert(s0.subrange(0, i + 1).last() == s0[i as int]);
        }
        i = i + 1;
    }
    proof {
        assert(s0.subrange(0, s0.len() as int) =~= s0);
    }
    out
}

/// No entity has two bounties.
pub open spec fn bounties_wf(b: Seq<Bounty>) -> bool {
    forall|i: int, j: int|
        #![trigger b[i], b[j]]
        0 <= i < b.len() && 0 <= j < b.len() && i != j ==> b[i].entity != b[j].entity
}

pub open spec fn has_bounty(b: Seq<Bounty>, entity: u64) -> bool {
    exists|i: int| 0 <= i < b.len() && b[i].entity == entity
}

pub open spec fn bounty_of(b: Seq<Bounty>, entity: u64) -> Bounty {
    b[choose|i: int| 0 <= i < b.len() && b[i].entity == entity]
}

/// The despawn pass over a queue of intents: each entity is removed once, later
/// intents for it are ignored; an enemy's removal credits its reward; an enemy that
/// breaks apart is left to the explosion pass.
pub open spec fn despawned(b: Seq<Bounty>, events: Seq<DespawnEvent>) -> (Seq<u64>, int)
    decreases events.len(),
{
    if events.len() == 0 {
        (Seq::empty(), 0)
    } else {
        let (removed, reward) = despawned(b, events.drop_last());
        let e = events.last().entity;
        if removed.contains(e) {
            (removed, reward)
        } else if has_bounty(b, e) {
            if bounty_of(b, e).explodes {
                (removed, reward)
            } else {
                (removed.push(e), reward + bounty_of(b, e).reward)
            }
        } else {
            (removed.push(e), reward)
        }
    }
}

fn bounty_in(b: &Vec<Bounty>, entity: u64) -> (r: Option<Bounty>)
    requires
        bounties_wf(b@),
    ensures
        r.is_none() <==> !has_bounty(b@, entity),
        r matches Some(x) ==> x == bounty_of(b@, entity),
{
    let mut i: usize = 0;
    while i < b.len()
        invariant
            i <= b@.len(),
            bounties_wf(b@),
            forall|j: int| 0 <= j < i ==> b@[j].entity != entity,
        decreases b@.len() - i,
    {
        if b[i].entity == entity {
            proof {
                assert(has_bounty(b@, entity));
                let s = choose|k: int| 0 <= k < b@.len() && b@[k].entity == entity;
                assert(b@[s].entity == entity);
            }
            return Some(b[i]);
        }
        i = i + 1;
    }
    None
}

fn listed(v: &Vec<u64>, e: u64) -> (r: bool)
    ensures
        r == v@.contains(e),
{
    let mut i: usize = 0;
    while i < v.len()
        invariant
            i <= v@.len(),
            forall|j: int| 0 <= j < i ==> v@[j] != e,
        decreases v@.len() - i,
    {
        if v[i] == e {
            return true;
        }
        i = i + 1;
    }
    false
}

/// Consumes the despawn intents of one tick.
pub fn handle_despawn_entity(events: &Vec<DespawnEvent>, bounties: &Vec<Bounty>) -> (r: DespawnOutcome)
    requires
        bounties_wf(bounties@),
    ensures
        (r.removed@, r.reward as int) == despawned(bounties@, events@),
{
    let mut removed: Vec<u64> = Vec::new();
    let mut reward: i128 = 0;
    let mut i: usize = 0;
    while i < events.len()
        invariant
            i <= events@.len(),
            bounties_wf(bounties@),
            (removed@, reward as int) == despawned(bounties@, events@.subrange(0, i as int)),
            -(i as int) * 0x8000_0000 <= reward <= (i as int) * 0x8000_0000,
        decreases events@.len() - i,
    {
        let e = events[i].entity;
        proof {
            assert(events@.subrange(0, i + 1).drop_last() =~= events@.subrange(0, i as int));
            assert(events@.subrange(0, i + 1).last().entity == e);
        }
        if !listed(&removed, e) {
            match bounty_in(bounties, e) {
                Some(b) => {
                    if !b.explodes {
                        removed.push(e);
                        reward = reward + b.reward as i128;
                    }
                },
                None => {
                    removed.push(e);
                },
            }
        }
        i = i + 1;
    }
    proof {
        assert(events@.subrange(0, events@.len() as int) =~= events@);
    }
    DespawnOutcome { removed, reward }
}

/// The reward of every listed entity that has one.
pub open spec fn credited(b: Seq<Bounty>, ids: Seq<u64>) -> int
    decreases ids.len(),
{
    if ids.len() == 0 {
        0
    } else {
        credited(b, ids.drop_last()) + if has_bounty(b, ids.last()) {
            bounty_of(b, ids.last()).reward as int
        } else {
            0
        }
    }
}

/// The despawn pass removes each entity at most once, never one that breaks apart,
/// and the money it earns is exactly the reward of each removed enemy, once.
pub proof fn lemma_reward_credited_once(b: Seq<Bounty>, events: Seq<DespawnEvent>)
    ensures
        ({
            let (removed, reward) = despawned(b, events);
            &&& forall|i: int, j: int|
                #![trigger removed[i], removed[j]]
                0 <= i < removed.len() && 0 <= j < removed.len() && i != j ==> removed[i]
                    != removed[j]
            &&& forall|i: int|
                0 <= i < removed.len() ==> !(has_bounty(b, #[trigger] removed[i]) && bounty_of(
                    b,
                    removed[i],
                ).explodes)
            &&& reward == credited(b, removed)
        }),
    decreases events.len(),
{
    if events.len() > 0 {
        lemma_reward_credited_once(b, events.drop_last());
        let (removed, reward) = despawned(b, events.drop_last());
        let e = events.last().entity;
        if !removed.contains(e) && !(has_bounty(b, e) && bounty_of(b, e).explodes) {
            let r2 = removed.push(e);
            assert(r2.drop_last() =~= removed);
            assert forall|i: int| 0 <= i < removed.len() implies removed[i] != e by {
                if removed[i] == e {
                    assert(removed.contains(e));
                }
            }
            assert forall|i: int| 0 <= i < r2.len() implies !(has_bounty(b, #[trigger] r2[i])
                && bounty_of(b, r2[i]).explodes) by {
                if i < removed.len() {
                    assert(r2[i] == removed[i]);
                }
            }
        }
    }
}

} // verus!
