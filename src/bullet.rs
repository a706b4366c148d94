//! Damage: entities that deal it, and the rules that apply it on contact.
use crate::health::{set_spec, Health};
use crate::world::{AutoDespawn, CollisionEvent, Components, World};
use vstd::prelude::*;

verus! {

/// How a damager behaves once it has hit something.
#[derive(Clone, Copy, Debug, PartialEq, Eq, Structural)]
pub enum DamagerType {
    /// It removes itself shortly after the hit.
    SelfDestruct,
}

/// An entity that takes `strength` off the health of what it hits.
#[derive(Clone, Copy, Debug, PartialEq, Eq, Structural)]
pub struct Damager {
    pub damager_type: DamagerType,
    pub strength: u32,
}

impl Damager {
    pub fn new_self_destruct(strength: u32) -> (r: Damager)
        ensures
            r == (Damager { damager_type: DamagerType::SelfDestruct, strength }),
    {
        Damager { damager_type: DamagerType::SelfDestruct, strength }
    }
}

/// Delay in nanoseconds after which a damager that hit something disappears.
pub const DESPAWN_DELAY: u64 = 100_000_000;

/// `p` with its removal set to happen after `DESPAWN_DELAY`.
pub open spec fn with_delayed_despawn<T>(p: Components<T>) -> Components<T> {
    Components { auto_despawn: Some(AutoDespawn::Timer(DESPAWN_DELAY)), ..p }
}

/// The entities of `m` after the damager `e.object` hit the entity
/// `e.subject`: if the first holds a damager and the second a health but no
/// damager, the health loses the damager's strength, and a self-destructing
/// damager is set to disappear after `DESPAWN_DELAY`. Otherwise nothing
/// changes.
pub open spec fn damage_event<T>(m: Map<u64, Components<T>>, e: CollisionEvent) -> Map<u64, Components<T>> {
    let h = e.subject;
    let d = e.object;
    if m.contains_key(h) && m.contains_key(d) && m[h].health is Some && m[h].damager is None
        && m[d].damager is Some {
        let damager = m[d].damager->0;
        let health = m[h].health->0;
        let hit = m.insert(
            h,
            Components { health: Some(set_spec(health, health.current - damager.strength).0), ..m[h] },
        );
        match damager.damager_type {
            DamagerType::SelfDestruct => hit.insert(d, with_delayed_despawn(hit[d])),
        }
    } else {
        m
    }
}

/// The entities of `m` after the hits of `events`, in order.
pub open spec fn damage_events<T>(m: Map<u64, Components<T>>, events: Seq<CollisionEvent>) -> Map<
    u64,
    Components<T>,
>
    decreases events.len(),
{
    if events.len() == 0 {
        m
    } else {
        damage_event(damage_events(m, events.drop_last()), events.last())
    }
}

/// The entities of `m` after the damager `e.object` hit a wall: it is set to
/// disappear after `DESPAWN_DELAY`, if it still exists.
pub open spec fn wall_hit_event<T>(m: Map<u64, Components<T>>, e: CollisionEvent) -> Map<u64, Components<T>> {
    if m.contains_key(e.object) && m[e.object].damager is Some {
        m.insert(e.object, with_delayed_despawn(m[e.object]))
    } else {
        m
    }
}

pub open spec fn wall_hit_events<T>(m: Map<u64, Components<T>>, events: Seq<CollisionEvent>) -> Map<
    u64,
    Components<T>,
>
    decreases events.len(),
{
    if events.len() == 0 {
        m
    } else {
        wall_hit_event(wall_hit_events(m, events.drop_last()), events.last())
    }
}

/// Applies the hits of damagers (`object`) on entities with health
/// (`subject`), in order. Events that name a missing entity, or entities
/// without these components, change nothing.
pub fn damage_system<T: Copy>(world: &mut World<T>, events: &Vec<CollisionEvent>)
    requires
        old(world).wf(),
    ensures
        final(world).wf(),
        final(world).capacity() == old(world).capacity(),
        final(world).view() == damage_events(old(world).view(), events@),
{
    let ghost start = world.view();
    let mut i: usize = 0;
    while i < events.len()
        invariant
            world.wf(),
            world.capacity() == old(world).capacity(),
            start == old(world).view(),
            i <= events@.len(),
            world.view() == damage_events(start, events@.take(i as int)),
        decreases events@.len() - i,
    {
        let event = events[i];
        proof {
            assert(events@.take(i + 1).drop_last() == events@.take(i as int));
        }
        let health_entity = world.get(event.subject);
        let damager_entity = world.get(event.object);
        if let (Some(mut target), Some(source)) = (health_entity, damager_entity) {
            if let (Some(mut health), Some(damager), None) = (target.health, source.damager, target.damager) {
                health.modify(-(damager.strength as i64));
                target.health = Some(health);
                world.set(event.subject, target);
                match damager.damager_type {
                    DamagerType::SelfDestruct => {
                        let mut source_after = source;
                        source_after.auto_despawn = Some(AutoDespawn::Timer(DESPAWN_DELAY));
                        world.set(event.object, source_after);
                    },
                }
            }
        }
        i = i + 1;
    }
    proof {
        assert(events@.take(i as int) == events@);
    }
}

/// Sets each damager (`object`) that hit a wall to disappear after
/// `DESPAWN_DELAY`.
pub fn despawn_bullet_on_collision<T: Copy>(world: &mut World<T>, events: &Vec<CollisionEvent>)
    requires
        old(world).wf(),
    ensures
        final(world).wf(),
        final(world).capacity() == old(world).capacity(),
        final(world).view() == wall_hit_events(old(world).view(), events@),
{
    let ghost start = world.view();
    let mut i: usize = 0;
    while i < events.len()
        invariant
            world.wf(),
            world.capacity() == old(world).capacity(),
            start == old(world).view(),
            i <= events@.len(),
            world.view() == wall_hit_events(start, events@.take(i as int)),
        decreases events@.len() - i,
    {
        let event = events[i];
        proof {
            assert(events@.take(i + 1).drop_last() == events@.take(i as int));
        }
        if let Some(parts) = world.get(event.object) {
            if parts.damager.is_some() {
                let mut after = parts;
                after.auto_despawn = Some(AutoDespawn::Timer(DESPAWN_DELAY));
                world.set(event.object, after);
            }
        }
        i = i + 1;
    }
    proof {
        assert(events@.take(i as int) == events@);
    }
}

/// Removes every entity named in `deaths` at once.
pub fn despawn_the_dead<T: Copy>(world: &mut World<T>, deaths: &Vec<u64>)
    requires
        old(world).wf(),
    ensures
        final(world).wf(),
        final(world).capacity() == old(world).capacity(),
        final(world).view() == old(world).view().remove_keys(deaths@.to_set()),
{
    let mut i: usize = 0;
    while i < deaths.len()
        invariant
            world.wf(),
            world.capacity() == old(world).capacity(),
            i <= deaths@.len(),
            world.view() == old(world).view().remove_keys(deaths@.take(i as int).to_set()),
        decreases deaths@.len() - i,
    {
        let id = deaths[i];
        world.despawn(id);
        proof {
            assert(deaths@.take(i + 1).to_set() =~= deaths@.take(i as int).to_set().insert(id)) by {
                assert(deaths@.take(i + 1) == deaths@.take(i as int).push(id));
                deaths@.take(i as int).lemma_push_to_set_commute(id);
            }
            assert(world.view() =~= old(world).view().remove_keys(deaths@.take(i + 1).to_set()));
        }
        i = i + 1;
    }
    proof {
        assert(deaths@.take(i as int) == deaths@);
    }
}

} // verus!
