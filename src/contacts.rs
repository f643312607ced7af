use crate::health::{DamageEvent, DespawnEvent};
use crate::weapons::{dose, dose_for};
use vstd::prelude::*;

verus! {

/// Damage a player takes from touching an enemy: enough to remove any player.
pub const PLAYER_CONTACT_DAMAGE: u32 = 10_000_000;

/// Damage per second inside a hazard zone, in thousandths of a hit point.
pub const HAZARD_RATE: u32 = 20_000;

/// What an entity in a contact is, as far as damage goes.
#[derive(Clone, Copy, Debug, PartialEq, Eq, Structural)]
pub enum Role {
    Player,
    Enemy,
    /// A projectile carrying this much damage.
    Projectile(u32),
    Other,
}

#[derive(Clone, Copy, Debug, PartialEq, Eq, Structural)]
pub struct Tagged {
    pub entity: u64,
    pub role: Role,
}

/// Two entities that started touching; the order carries no meaning.
#[derive(Clone, Copy, Debug, PartialEq, Eq, Structural)]
pub struct Contact {
    pub first: u64,
    pub second: u64,
}

/// The damage and despawn intents that contacts bring.
#[derive(Debug)]
pub struct ContactOutcome {
    pub damage: Vec<DamageEvent>,
    pub despawns: Vec<DespawnEvent>,
}

/// No entity is tagged twice.
pub open spec fn tags_wf(tags: Seq<Tagged>) -> bool {
    forall|i: int, j: int|
        #![trigger tags[i], tags[j]]
        0 <= i < tags.len() && 0 <= j < tags.len() && i != j ==> tags[i].entity != tags[j].entity
}

/// The role of `entity`; an untagged entity plays no part.
pub open spec fn role_of(tags: Seq<Tagged>, entity: u64) -> Role {
    if exists|i: int| 0 <= i < tags.len() && tags[i].entity == entity {
        tags[choose|i: int| 0 <= i < tags.len() && tags[i].entity == entity].role
    } else {
        Role::Other
    }
}

/// The effects of `x` touching `y`, read in that order: a player touching an enemy
/// is struck down; a projectile touching an enemy is removed and hands on its damage.
pub open spec fn one_way(x: u64, rx: Role, y: u64, ry: Role) -> (Seq<DamageEvent>, Seq<DespawnEvent>) {
    if ry == Role::Enemy {
        match rx {
            Role::Player => (seq![DamageEvent { entity: x, damage: PLAYER_CONTACT_DAMAGE }], Seq::empty()),
            Role::Projectile(d) => (seq![DamageEvent { entity: y, damage: d }], seq![DespawnEvent { entity: x }]),
            _ => (Seq::empty(), Seq::empty()),
        }
    } else {
        (Seq::empty(), Seq::empty())
    }
}

/// The effects of one contact, taken in both orders.
pub open spec fn contact_effects(tags: Seq<Tagged>, c: Contact) -> (Seq<DamageEvent>, Seq<DespawnEvent>) {
    let a = one_way(c.first, role_of(tags, c.first), c.second, role_of(tags, c.second));
    let b = one_way(c.second, role_of(tags, c.second), c.first, role_of(tags, c.first));
    (a.0 + b.0, a.1 + b.1)
}

/// The effects of a list of contacts, in order.
pub open spec fn collisions(tags: Seq<Tagged>, contacts: Seq<Contact>) -> (Seq<DamageEvent>, Seq<DespawnEvent>)
    decreases contacts.len(),
{
    if contacts.len() == 0 {
        (Seq::empty(), Seq::empty())
    } else {
        let r = collisions(tags, contacts.drop_last());
        let e = contact_effects(tags, contacts.last());
        (r.0 + e.0, r.1 + e.1)
    }
}

fn role_in(tags: &Vec<Tagged>, entity: u64) -> (r: Role)
    requires
        tags_wf(tags@),
    ensures
        r == role_of(tags@, entity),
{
    let mut i: usize = 0;
    while i < tags.len()
        invariant
            i <= tags@.len(),
            tags_wf(tags@),
            forall|j: int| 0 <= j < i ==> tags@[j].entity != entity,
        decreases tags@.len() - i,
    {
        if tags[i].entity == entity {
            proof {
                let s = choose|k: int| 0 <= k < tags@.len() && tags@[k].entity == entity;
                assert(tags@[s].entity == entity);
            }
            return tags[i].role;
        }
        i = i + 1;
    }
    Role::Other
}

fn one_way_into(
    x: u64,
    rx: Role,
    y: u64,
    ry: Role,
    damage: &mut Vec<DamageEvent>,
    despawns: &mut Vec<DespawnEvent>,
)
    ensures
        final(damage)@ == old(damage)@ + one_way(x, rx, y, ry).0,
        final(despawns)@ == old(despawns)@ + one_way(x, rx, y, ry).1,
{
    if ry == Role::Enemy {
        match rx {
            Role::Player => {
                damage.push(DamageEvent { entity: x, damage: PLAYER_CONTACT_DAMAGE });
                assert(final(damage)@ =~= old(damage)@ + one_way(x, rx, y, ry).0);
            },
            Role::Projectile(d) => {
                despawns.push(DespawnEvent { entity: x });
                damage.push(DamageEvent { entity: y, damage: d });
                assert(final(damage)@ =~= old(damage)@ + one_way(x, rx, y, ry).0);
                assert(final(despawns)@ =~= old(despawns)@ + one_way(x, rx, y, ry).1);
            },
            _ => {
                assert(final(damage)@ =~= old(damage)@ + one_way(x, rx, y, ry).0);
            },
        }
    }
    assert(final(damage)@ =~= old(damage)@ + one_way(x, rx, y, ry).0);
    assert(final(despawns)@ =~= old(despawns)@ + one_way(x, rx, y, ry).1);
}

/// Turns the contacts that started this tick into damage and despawn intents; no
/// health is touched here.
pub fn handle_collision(tags: &Vec<Tagged>, contacts: &Vec<Contact>) -> (r: ContactOutcome)
    requires
        tags_wf(tags@),
    ensures
        (r.damage@, r.despawns@) == collisions(tags@, contacts@),
{
    let mut damage: Vec<DamageEvent> = Vec::new();
    let mut despawns: Vec<DespawnEvent> = Vec::new();
    let mut i: usize = 0;
    while i < contacts.len()
        invariant
            i <= contacts@.len(),
            tags_wf(tags@),
            (damage@, despawns@) == collisions(tags@, contacts@.subrange(0, i as int)),
        decreases contacts@.len() - i,
    {
        let c = contacts[i];
        let ghost d0 = damage@;
        let ghost s0 = despawns@;
        let ra = role_in(tags, c.first);
        let rb = role_in(tags, c.second);
        one_way_into(c.first, ra, c.second, rb, &mut damage, &mut despawns);
        one_way_into(c.second, rb, c.first, ra, &mut damage, &mut despawns);
        proof {
            assert(contacts@.subrange(0, i + 1).drop_last() =~= contacts@.subrange(0, i as int));
            assert(contacts@.subrange(0, i + 1).last() == c);
            let e = contact_effects(tags@, c);
            assert(damage@ =~= d0 + e.0);
            assert(despawns@ =~= s0 + e.1);
        }
        i = i + 1;
    }
    proof {
        assert(contacts@.subrange(0, contacts@.len() as int) =~= contacts@);
    }
    ContactOutcome { damage, despawns }
}

pub open spec fn hazard_hits(entities: Seq<u64>, dt: u64) -> Seq<DamageEvent> {
    entities.map_values(|e: u64| DamageEvent { entity: e, damage: dose(HAZARD_RATE, dt) })
}

/// Damage for every entity with health inside a hazard zone this tick.
pub fn deal_red_zone_dmg(inside: &Vec<u64>, dt: u64) -> (r: Vec<DamageEvent>)
    ensures
        r@ == hazard_hits(inside@, dt),
{
    let damage = dose_for(HAZARD_RATE, dt);
    let mut out: Vec<DamageEvent> = Vec::new();
    let mut i: usize = 0;
    while i < inside.len()
        invariant
            i <= inside@.len(),
            damage == dose(HAZARD_RATE, dt),
            out@ == hazard_hits(inside@.subrange(0, i as int), dt),
        decreases inside@.len() - i,
    {
        out.push(DamageEvent { entity: inside[i], damage });
        proof {
            assert(hazard_hits(inside@.subrange(0, i + 1), dt) =~= hazard_hits(
                inside@.subrange(0, i as int),
                dt,
            ).push(DamageEvent { entity: inside@[i as int], damage }));
        }
        i = i + 1;
    }
    proof {
        assert(inside@.subrange(0, inside@.len() as int) =~= inside@);
    }
    out
}

} // verus!
