//! Consumption of one-shot triggers.
use crate::world::{CollisionEvent, Components, World};
use vstd::prelude::*;

verus! {

/// Where the ship is being pushed.
#[derive(Clone, Copy, Debug, PartialEq, Eq, Structural)]
pub enum AccelerationDirection {
    Still,
    Up,
    Down,
    Left,
    Right,
}

/// The entities of `m` after something touched `e.object`: a one-shot
/// trigger is gone at once; anything else stays.
pub open spec fn consume_event<T>(m: Map<u64, Components<T>>, e: CollisionEvent) -> Map<u64, Components<T>> {
    if m.contains_key(e.object) && m[e.object].single_trigger {
        m.remove(e.object)
    } else {
        m
    }
}

pub open spec fn consume_events<T>(m: Map<u64, Components<T>>, events: Seq<CollisionEvent>) -> Map<
    u64,
    Components<T>,
>
    decreases events.len(),
{
    if events.len() == 0 {
        m
    } else {
        consume_event(consume_events(m, events.drop_last()), events.last())
    }
}

/// Removes, without delay, each one-shot trigger (`object`) that was touched.
pub fn remove_after_collision<T: Copy>(world: &mut World<T>, events: &Vec<CollisionEvent>)
    requires
        old(world).wf(),
    ensures
        final(world).wf(),
        final(world).capacity() == old(world).capacity(),
        final(world).view() == consume_events(old(world).view(), events@),
{
    let ghost start = world.view();
    let mut i: usize = 0;
    while i < events.len()
        invariant
            world.wf(),
            world.capacity() == old(world).capacity(),
            start == old(world).view(),
            i <= events@.len(),
            world.view() == consume_events(start, events@.take(i as int)),
        decreases events@.len() - i,
    {
        let event = events[i];
        proof {
            assert(events@.take(i + 1).drop_last() == events@.take(i as int));
        }
        if let Some(parts) = world.get(event.object) {
            if parts.single_trigger {
                world.despawn(event.object);
            }
        }
        i = i + 1;
    }
    proof {
        assert(events@.take(i as int) == events@);
    }
}

} // verus!
