//! A store of entities and their components: what the collision rules read
//! and change. Entities are named by ids that are never reused.
use crate::bullet::Damager;
use crate::health::Health;
use vstd::prelude::*;

verus! {

/// A pending removal: after the given time in nanoseconds has passed, or
/// once the given number of further ticks has gone by.
#[derive(Clone, Copy, Debug, PartialEq, Eq, Structural)]
pub enum AutoDespawn {
    Timer(u64),
    Frames(u32),
}

/// A contact between two entities of the categories that a rule watches:
/// `subject` of the first, `object` of the second.
#[derive(Clone, Copy, Debug, PartialEq, Eq, Structural)]
pub struct CollisionEvent {
    pub subject: u64,
    pub object: u64,
}

/// The components of one entity that the game's rules look at.
#[derive(Clone, Copy, Debug)]
pub struct Components<T> {
    pub health: Option<Health>,
    pub damager: Option<Damager>,
    pub static_wall: bool,
    pub trigger: Option<T>,
    pub single_trigger: bool,
    pub auto_despawn: Option<AutoDespawn>,
}

#[derive(Clone, Copy, Debug)]
pub struct EntityRecord<T> {
    pub id: u64,
    pub parts: Components<T>,
}

pub open spec fn ids_unique<T>(s: Seq<EntityRecord<T>>) -> bool {
    forall|i: int, j: int|
        0 <= i < s.len() && 0 <= j < s.len() && i != j ==> (#[trigger] s[i]).id != (#[trigger] s[j]).id
}

pub open spec fn has_id<T>(s: Seq<EntityRecord<T>>, id: u64) -> bool {
    exists|i: int| 0 <= i < s.len() && (#[trigger] s[i]).id == id
}

/// The entities of `s` by id.
pub open spec fn view_of<T>(s: Seq<EntityRecord<T>>) -> Map<u64, Components<T>> {
    Map::new(
        |id: u64| has_id(s, id),
        |id: u64| s[choose|i: int| 0 <= i < s.len() && (#[trigger] s[i]).id == id].parts,
    )
}

proof fn lemma_view_at<T>(s: Seq<EntityRecord<T>>, i: int)
    requires
        ids_unique(s),
        0 <= i < s.len(),
    ensures
        view_of(s).contains_key(s[i].id),
        view_of(s)[s[i].id] == s[i].parts,
{
    assert(has_id(s, s[i].id));
    let j = choose|j: int| 0 <= j < s.len() && (#[trigger] s[j]).id == s[i].id;
    assert(j == i);
}

proof fn lemma_view_update<T>(s: Seq<EntityRecord<T>>, i: int, parts: Components<T>)
    requires
        ids_unique(s),
        0 <= i < s.len(),
    ensures
        ids_unique(s.update(i, EntityRecord { id: s[i].id, parts })),
        view_of(s.update(i, EntityRecord { id: s[i].id, parts })) == view_of(s).insert(s[i].id, parts),
{
    let s2 = s.update(i, EntityRecord { id: s[i].id, parts });
    assert forall|k: u64| has_id(s2, k) <==> has_id(s, k) by {
        if has_id(s, k) {
            let j = choose|j: int| 0 <= j < s.len() && (#[trigger] s[j]).id == k;
            assert(s2[j].id == k);
        }
        if has_id(s2, k) {
            let j = choose|j: int| 0 <= j < s2.len() && (#[trigger] s2[j]).id == k;
            assert(s[j].id == k);
        }
    }
    assert(ids_unique(s2)) by {
        assert forall|a: int, b: int| 0 <= a < s2.len() && 0 <= b < s2.len() && a != b implies (#[trigger] s2[a]).id != (#[trigger] s2[b]).id by {
            assert(s2[a].id == s[a].id);
            assert(s2[b].id == s[b].id);
        }
    }
    assert forall|k: u64| #[trigger] view_of(s2).contains_key(k) implies view_of(s2)[k] == view_of(s).insert(s[i].id, parts)[k] by {
        let j = choose|j: int| 0 <= j < s2.len() && (#[trigger] s2[j]).id == k;
        lemma_view_at(s2, j);
        if j != i {
            lemma_view_at(s, j);
        }
    }
    assert(view_of(s2) =~= view_of(s).insert(s[i].id, parts));
}

proof fn lemma_view_remove<T>(s: Seq<EntityRecord<T>>, i: int)
    requires
        ids_unique(s),
        0 <= i < s.len(),
    ensures
        ids_unique(s.remove(i)),
        view_of(s.remove(i)) == view_of(s).remove(s[i].id),
{
    let s2 = s.remove(i);
    assert(ids_unique(s2)) by {
        assert forall|a: int, b: int| 0 <= a < s2.len() && 0 <= b < s2.len() && a != b implies (#[trigger] s2[a]).id != (#[trigger] s2[b]).id by {
            let a1 = if a < i { a } else { a + 1 };
            let b1 = if b < i { b } else { b + 1 };
            assert(s2[a] == s[a1]);
            assert(s2[b] == s[b1]);
        }
    }
    assert forall|k: u64| has_id(s2, k) <==> (has_id(s, k) && k != s[i].id) by {
        if has_id(s, k) && k != s[i].id {
            let j = choose|j: int| 0 <= j < s.len() && (#[trigger] s[j]).id == k;
            let j2 = if j < i { j } else { j - 1 };
            assert(s2[j2].id == k);
        }
        if has_id(s2, k) {
            let j = choose|j: int| 0 <= j < s2.len() && (#[trigger] s2[j]).id == k;
            let j1 = if j < i { j } else { j + 1 };
            assert(s[j1].id == k);
        }
    }
    assert forall|k: u64| #[trigger] view_of(s2).contains_key(k) implies view_of(s2)[k] == view_of(s)[k] by {
        let j = choose|j: int| 0 <= j < s2.len() && (#[trigger] s2[j]).id == k;
        let j1 = if j < i { j } else { j + 1 };
        lemma_view_at(s2, j);
        lemma_view_at(s, j1);
    }
    assert(view_of(s2) =~= view_of(s).remove(s[i].id));
}

proof fn lemma_view_push<T>(s: Seq<EntityRecord<T>>, r: EntityRecord<T>)
    requires
        ids_unique(s),
        !has_id(s, r.id),
    ensures
        ids_unique(s.push(r)),
        view_of(s.push(r)) == view_of(s).insert(r.id, r.parts),
{
    let s2 = s.push(r);
    assert(ids_unique(s2)) by {
        assert forall|a: int, b: int| 0 <= a < s2.len() && 0 <= b < s2.len() && a != b implies (#[trigger] s2[a]).id != (#[trigger] s2[b]).id by {
            if a < s.len() {
                assert(s2[a] == s[a]);
            }
            if b < s.len() {
                assert(s2[b] == s[b]);
            }
        }
    }
    assert forall|k: u64| has_id(s2, k) <==> (has_id(s, k) || k == r.id) by {
        if has_id(s, k) {
            let j = choose|j: int| 0 <= j < s.len() && (#[trigger] s[j]).id == k;
            assert(s2[j].id == k);
        }
        if k == r.id {
            assert(s2[s.len() as int].id == k);
        }
        if has_id(s2, k) && k != r.id {
            let j = choose|j: int| 0 <= j < s2.len() && (#[trigger] s2[j]).id == k;
            assert(s[j].id == k);
        }
    }
    assert forall|k: u64| #[trigger] view_of(s2).contains_key(k) implies view_of(s2)[k] == view_of(s).insert(r.id, r.parts)[k] by {
        let j = choose|j: int| 0 <= j < s2.len() && (#[trigger] s2[j]).id == k;
        lemma_view_at(s2, j);
        if j < s.len() {
            lemma_view_at(s, j);
        }
    }
    assert(view_of(s2) =~= view_of(s).insert(r.id, r.parts));
}

/// A pending removal falls due within a tick of `delta` nanoseconds.
pub open spec fn despawn_due(a: Option<AutoDespawn>, delta: u64) -> bool {
    match a {
        Some(AutoDespawn::Timer(remaining)) => remaining <= delta,
        Some(AutoDespawn::Frames(frames)) => frames == 0,
        None => false,
    }
}

/// The components after a tick of `delta` nanoseconds that did not remove the
/// entity: a pending removal comes nearer.
pub open spec fn after_tick<T>(p: Components<T>, delta: u64) -> Components<T> {
    match p.auto_despawn {
        Some(AutoDespawn::Timer(remaining)) => Components {
            auto_despawn: Some(AutoDespawn::Timer((remaining - delta) as u64)),
            ..p
        },
        Some(AutoDespawn::Frames(frames)) => Components {
            auto_despawn: Some(AutoDespawn::Frames((frames - 1) as u32)),
            ..p
        },
        None => p,
    }
}

/// The entities of `m` after a tick of `delta` nanoseconds: those whose
/// removal fell due are gone, the others have ticked.
pub open spec fn survivors<T>(m: Map<u64, Components<T>>, delta: u64) -> Map<u64, Components<T>> {
    Map::new(
        |id: u64| m.contains_key(id) && !despawn_due(m[id].auto_despawn, delta),
        |id: u64| after_tick(m[id], delta),
    )
}

proof fn lemma_survivors_insert<T>(m: Map<u64, Components<T>>, k: u64, v: Components<T>, delta: u64)
    requires
        !m.contains_key(k),
    ensures
        survivors(m.insert(k, v), delta) == if despawn_due(v.auto_despawn, delta) {
            survivors(m, delta)
        } else {
            survivors(m, delta).insert(k, after_tick(v, delta))
        },
{
    if despawn_due(v.auto_despawn, delta) {
        assert(survivors(m.insert(k, v), delta) =~= survivors(m, delta));
    } else {
        assert(survivors(m.insert(k, v), delta) =~= survivors(m, delta).insert(k, after_tick(v, delta)));
    }
}

/// These components hold a health at its lower limit.
pub open spec fn parts_dead<T>(p: Components<T>) -> bool {
    p.health is Some && p.health->0.is_depleted()
}

/// Entity `id` exists and its health has reached its lower limit.
pub open spec fn is_dead<T>(m: Map<u64, Components<T>>, id: u64) -> bool {
    m.contains_key(id) && parts_dead(m[id])
}

/// The entity store.
pub struct World<T> {
    entities: Vec<EntityRecord<T>>,
    next_id: u64,
}

impl<T> World<T> {
    /// The entities by id.
    pub closed spec fn view(&self) -> Map<u64, Components<T>> {
        view_of(self.entities@)
    }

    pub closed spec fn wf(&self) -> bool {
        &&& ids_unique(self.entities@)
        &&& forall|i: int| 0 <= i < self.entities@.len() ==> (#[trigger] self.entities@[i]).id < self.next_id
    }

    /// How many more entities can be spawned.
    pub closed spec fn capacity(&self) -> int {
        u64::MAX - self.next_id
    }
}

impl<T: Copy> World<T> {
    pub fn new() -> (r: Self)
        ensures
            r.wf(),
            r.view() == Map::<u64, Components<T>>::empty(),
            r.capacity() == u64::MAX,
    {
        let r = World { entities: Vec::new(), next_id: 0 };
        assert(r.view() =~= Map::<u64, Components<T>>::empty());
        r
    }

    /// Whether another entity can be spawned.
    pub fn can_spawn(&self) -> (r: bool)
        ensures
            r == (self.capacity() > 0),
    {
        self.next_id < u64::MAX
    }

    /// Adds an entity with the given components under a new id.
    pub fn spawn(&mut self, parts: Components<T>) -> (id: u64)
        requires
            old(self).wf(),
            old(self).capacity() > 0,
        ensures
            final(self).wf(),
            !old(self).view().contains_key(id),
            final(self).view() == old(self).view().insert(id, parts),
            final(self).capacity() == old(self).capacity() - 1,
    {
        let id = self.next_id;
        proof {
            if has_id(self.entities@, id) {
                let j = choose|j: int| 0 <= j < self.entities@.len() && (#[trigger] self.entities@[j]).id == id;
                assert(self.entities@[j].id < self.next_id);
            }
            lemma_view_push(self.entities@, EntityRecord { id, parts });
        }
        self.entities.push(EntityRecord { id, parts });
        self.next_id = self.next_id + 1;
        id
    }

    /// Position of entity `id` in the store, if it exists.
    fn find(&self, id: u64) -> (r: Option<usize>)
        requires
            self.wf(),
        ensures
            r is None ==> !self.view().contains_key(id),
            r is Some ==> r->0 < self.entities@.len() && self.entities@[r->0 as int].id == id,
    {
        let mut i: usize = 0;
        while i < self.entities.len()
            invariant
                i <= self.entities@.len(),
                forall|j: int| 0 <= j < i ==> (#[trigger] self.entities@[j]).id != id,
            decreases self.entities@.len() - i,
        {
            if self.entities[i].id == id {
                return Some(i);
            }
            i = i + 1;
        }
        None
    }

    /// The components of entity `id`, if it exists.
    pub fn get(&self, id: u64) -> (r: Option<Components<T>>)
        requires
            self.wf(),
        ensures
            r == if self.view().contains_key(id) {
                Some(self.view()[id])
            } else {
                None
            },
    {
        match self.find(id) {
            Some(i) => {
                proof {
                    lemma_view_at(self.entities@, i as int);
                }
                Some(self.entities[i].parts)
            },
            None => None,
        }
    }

    /// Replaces the components of entity `id`, if it exists.
    pub fn set(&mut self, id: u64, parts: Components<T>)
        requires
            old(self).wf(),
        ensures
            final(self).wf(),
            final(self).capacity() == old(self).capacity(),
            final(self).view() == if old(self).view().contains_key(id) {
                old(self).view().insert(id, parts)
            } else {
                old(self).view()
            },
    {
        match self.find(id) {
            Some(i) => {
                proof {
                    lemma_view_update(self.entities@, i as int, parts);
                }
                self.entities.set(i, EntityRecord { id, parts });
                assert(forall|j: int| 0 <= j < self.entities@.len() ==> (#[trigger] self.entities@[j]).id < self.next_id);
            },
            None => {},
        }
    }

    /// Advances the pending removals by one tick of `delta` nanoseconds, and
    /// removes the entities whose removal falls due.
    pub fn advance(&mut self, delta: u64)
        requires
            old(self).wf(),
        ensures
            final(self).wf(),
            final(self).capacity() == old(self).capacity(),
            final(self).view() == survivors(old(self).view(), delta),
    {
        let ghost s = self.entities@;
        let mut kept: Vec<EntityRecord<T>> = Vec::new();
        let mut i: usize = 0;
        proof {
            assert(view_of(s.take(0)) =~= Map::<u64, Components<T>>::empty());
            assert(view_of(kept@) =~= Map::<u64, Components<T>>::empty());
            assert(survivors(Map::<u64, Components<T>>::empty(), delta) =~= Map::<u64, Components<T>>::empty());
        }
        while i < self.entities.len()
            invariant
                self.entities@ == s,
                ids_unique(s),
                forall|j: int| 0 <= j < s.len() ==> (#[trigger] s[j]).id < self.next_id,
                i <= s.len(),
                ids_unique(kept@),
                forall|j: int| 0 <= j < kept@.len() ==> (#[trigger] kept@[j]).id < self.next_id,
                view_of(kept@) == survivors(view_of(s.take(i as int)), delta),
            decreases s.len() - i,
        {
            let rec = self.entities[i];
            proof {
                let t = s.take(i as int);
                assert(ids_unique(t)) by {
                    assert forall|a: int, b: int| 0 <= a < t.len() && 0 <= b < t.len() && a != b implies (#[trigger] t[a]).id != (#[trigger] t[b]).id by {
                        assert(t[a] == s[a]);
                        assert(t[b] == s[b]);
                    }
                }
                if has_id(t, rec.id) {
                    let j = choose|j: int| 0 <= j < t.len() && (#[trigger] t[j]).id == rec.id;
                    assert(t[j] == s[j]);
                }
                assert(s.take(i + 1) == t.push(rec));
                lemma_view_push(t, rec);
                lemma_survivors_insert(view_of(t), rec.id, rec.parts, delta);
                if has_id(kept@, rec.id) {
                    let j = choose|j: int| 0 <= j < kept@.len() && (#[trigger] kept@[j]).id == rec.id;
                    lemma_view_at(kept@, j);
                }
            }
            let due = match rec.parts.auto_despawn {
                Some(AutoDespawn::Timer(remaining)) => remaining <= delta,
                Some(AutoDespawn::Frames(frames)) => frames == 0,
                None => false,
            };
            if !due {
                let mut parts = rec.parts;
                match rec.parts.auto_despawn {
                    Some(AutoDespawn::Timer(remaining)) => {
                        parts.auto_despawn = Some(AutoDespawn::Timer(remaining - delta));
                    },
                    Some(AutoDespawn::Frames(frames)) => {
                        parts.auto_despawn = Some(AutoDespawn::Frames(frames - 1));
                    },
                    None => {},
                }
                proof {
                    lemma_view_push(kept@, EntityRecord { id: rec.id, parts });
                }
                kept.push(EntityRecord { id: rec.id, parts });
            }
            i = i + 1;
        }
        proof {
            assert(s.take(i as int) == s);
        }
        self.entities = kept;
    }

    /// The ids of the entities whose health has reached its lower limit.
    pub fn death_events(&self) -> (r: Vec<u64>)
        requires
            self.wf(),
        ensures
            forall|id: u64| r@.contains(id) <==> is_dead(self.view(), id),
    {
        let mut r: Vec<u64> = Vec::new();
        let mut i: usize = 0;
        while i < self.entities.len()
            invariant
                self.wf(),
                i <= self.entities@.len(),
                forall|id: u64|
                    r@.contains(id) <==> exists|j: int|
                        0 <= j < i && (#[trigger] self.entities@[j]).id == id && parts_dead(
                            self.entities@[j].parts,
                        ),
            decreases self.entities@.len() - i,
        {
            let rec = self.entities[i];
            let dead = match rec.parts.health {
                Some(h) => h.current <= h.start,
                None => false,
            };
            let ghost before = r@;
            if dead {
                r.push(rec.id);
            }
            proof {
                assert forall|id: u64| r@.contains(id) <==> exists|j: int|
                    0 <= j < i + 1 && (#[trigger] self.entities@[j]).id == id && parts_dead(
                        self.entities@[j].parts,
                    ) by {
                    if dead {
                        assert(r@ == before.push(rec.id));
                        if r@.contains(id) && id != rec.id {
                            let k = choose|k: int| 0 <= k < r@.len() && r@[k] == id;
                            assert(before[k] == id);
                        }
                        if before.contains(id) {
                            let k = choose|k: int| 0 <= k < before.len() && before[k] == id;
                            assert(r@[k] == id);
                        }
                        if id == rec.id {
                            assert(r@[before.len() as int] == id);
                        }
                    }
                    if exists|j: int|
                        0 <= j < i + 1 && (#[trigger] self.entities@[j]).id == id && parts_dead(
                            self.entities@[j].parts,
                        ) {
                        let j = choose|j: int|
                            0 <= j < i + 1 && (#[trigger] self.entities@[j]).id == id && parts_dead(
                                self.entities@[j].parts,
                            );
                        if j < i {
                            assert(before.contains(id));
                        }
                    }
                }
            }
            i = i + 1;
        }
        proof {
            assert forall|id: u64| r@.contains(id) <==> is_dead(self.view(), id) by {
                if r@.contains(id) {
                    let j = choose|j: int| 0 <= j < i && (#[trigger] self.entities@[j]).id == id && parts_dead(self.entities@[j].parts);
                    lemma_view_at(self.entities@, j);
                }
                if is_dead(self.view(), id) {
                    let j = choose|j: int| 0 <= j < self.entities@.len() && (#[trigger] self.entities@[j]).id == id;
                    lemma_view_at(self.entities@, j);
                }
            }
        }
        r
    }

    /// Removes entity `id`, if it exists.
    pub fn despawn(&mut self, id: u64)
        requires
            old(self).wf(),
        ensures
            final(self).wf(),
            final(self).capacity() == old(self).capacity(),
            final(self).view() == old(self).view().remove(id),
    {
        match self.find(id) {
            Some(i) => {
                proof {
                    lemma_view_remove(self.entities@, i as int);
                }
                self.entities.remove(i);
                assert(forall|j: int| 0 <= j < self.entities@.len() ==> (#[trigger] self.entities@[j]).id < self.next_id) by {
                    assert forall|j: int| 0 <= j < self.entities@.len() implies (#[trigger] self.entities@[j]).id < self.next_id by {
                        let j1 = if j < i { j } else { j + 1 };
                        assert(old(self).entities@[j1] == self.entities@[j]);
                    }
                }
            },
            None => {
                assert(old(self).view().remove(id) =~= old(self).view());
            },
        }
    }
}

} // verus!
