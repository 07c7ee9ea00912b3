use vstd::prelude::*;

use crate::ecs::entity::Entity;

verus! {

/// A call on an entity pool with what it answered: an addition that gave out an
/// entity, or a removal of an entity.
pub enum PoolCall {
    Add(Entity),
    Remove(Entity, bool),
}

/// How many entities a history of calls makes active in all: one for each addition,
/// less one for each removal that answered `true`.
pub open spec fn net_active(calls: Seq<PoolCall>) -> int
    decreases calls.len(),
{
    if calls.len() == 0 {
        0
    } else {
        net_active(calls.drop_last()) + match calls.last() {
            PoolCall::Add(_) => 1int,
            PoolCall::Remove(_, r) => if r {
                -1int
            } else {
                0int
            },
        }
    }
}

/// Hands out entities and recycles their slots: a removed entity's slot gets a new
/// generation and goes to the free list, from which it is given out again.
pub struct EntityPool {
    generations: Vec<u32>,
    free_sparse_indices: Vec<u32>,
    active_sparse_indices: Vec<u32>,
    active_sparse_index_locations: Vec<Option<usize>>,
}

impl EntityPool {
    /// The current generation of every slot.
    pub closed spec fn gens(&self) -> Seq<u32> {
        self.generations@
    }

    /// The free slots; the last one is given out next.
    pub closed spec fn free_list(&self) -> Seq<u32> {
        self.free_sparse_indices@
    }

    /// The slots of the active entities, in iteration order.
    pub closed spec fn active_list(&self) -> Seq<u32> {
        self.active_sparse_indices@
    }

    /// For every slot, its position in the active list, if it is active.
    pub closed spec fn locations(&self) -> Seq<Option<usize>> {
        self.active_sparse_index_locations@
    }

    /// Whether `entity` is alive in this pool: its slot is active and has its generation.
    pub open spec fn is_active(&self, entity: Entity) -> bool {
        &&& entity.sparse_index() < self.gens().len()
        &&& self.locations()[entity.sparse_index() as int] is Some
        &&& self.gens()[entity.sparse_index() as int] == entity.generation()
    }

    /// What `is_entity_active` answers: the slot exists and has the entity's generation.
    pub open spec fn generation_matches(&self, entity: Entity) -> bool {
        entity.sparse_index() < self.gens().len() && self.gens()[entity.sparse_index() as int]
            == entity.generation()
    }

    /// Internal consistency of the free list, the active list and their back-links.
    pub closed spec fn wf(&self) -> bool {
        &&& self.generations@.len() == self.active_sparse_index_locations@.len()
        &&& self.generations@.len() <= u32::MAX
        &&& self.active_sparse_indices@.len() + self.free_sparse_indices@.len() == self.generations@.len()
        &&& forall|i: int|
            #![trigger self.active_sparse_indices@[i]]
            0 <= i < self.active_sparse_indices@.len() ==> {
                &&& self.active_sparse_indices@[i] < self.generations@.len()
                &&& self.active_sparse_index_locations@[self.active_sparse_indices@[i] as int]
                    == Some(i as usize)
            }
        &&& forall|s: int|
            #![trigger self.active_sparse_index_locations@[s]]
            0 <= s < self.active_sparse_index_locations@.len()
                && self.active_sparse_index_locations@[s] is Some ==> {
                let l = self.active_sparse_index_locations@[s]->0 as int;
                &&& l < self.active_sparse_indices@.len()
                &&& self.active_sparse_indices@[l] == s
            }
        &&& forall|j: int|
            #![trigger self.free_sparse_indices@[j]]
            0 <= j < self.free_sparse_indices@.len() ==> {
                &&& self.free_sparse_indices@[j] < self.generations@.len()
                &&& self.active_sparse_index_locations@[self.free_sparse_indices@[j] as int] is None
            }
        &&& forall|j: int, k: int|
            0 <= j < self.free_sparse_indices@.len() && 0 <= k < self.free_sparse_indices@.len()
                && j != k ==> #[trigger] self.free_sparse_indices@[j]
                != #[trigger] self.free_sparse_indices@[k]
        &&& forall|t: int|
            #![trigger self.active_sparse_index_locations@[t]]
            0 <= t < self.active_sparse_index_locations@.len() && self.active_sparse_index_locations@[t] is None
                ==> self.free_sparse_indices@.contains(t as u32)
    }

    /// What the pool's invariant says of its views: every slot is either active, with its
    /// position in the active list, or free, and never both; the active list and the free
    /// list each hold a slot at most once. So an entity is active exactly when the active
    /// list holds its slot and the slot has its generation.
    pub proof fn lemma_slots(&self)
        requires
            self.wf(),
        ensures
            self.gens().len() == self.locations().len(),
            self.gens().len() <= u32::MAX,
            self.active_list().len() + self.free_list().len() == self.gens().len(),
            forall|i: int|
                #![trigger self.active_list()[i]]
                0 <= i < self.active_list().len() ==> {
                    &&& self.active_list()[i] < self.gens().len()
                    &&& self.locations()[self.active_list()[i] as int] == Some(i as usize)
                },
            forall|t: int|
                #![trigger self.locations()[t]]
                0 <= t < self.locations().len() && self.locations()[t] is Some ==> {
                    &&& self.locations()[t]->0 < self.active_list().len()
                    &&& self.active_list()[self.locations()[t]->0 as int] == t
                },
            forall|t: int|
                0 <= t < self.gens().len() ==> (#[trigger] self.locations()[t] is None
                    <==> self.free_list().contains(t as u32)),
            forall|j: int|
                #![trigger self.free_list()[j]]
                0 <= j < self.free_list().len() ==> self.free_list()[j] < self.gens().len(),
            self.active_list().no_duplicates(),
            self.free_list().no_duplicates(),
            forall|e: Entity|
                #[trigger] self.is_active(e) <==> (self.active_list().contains(e.sparse_index())
                    && self.gens()[e.sparse_index() as int] == e.generation()),
    {
        assert forall|t: int| 0 <= t < self.gens().len() implies (#[trigger] self.locations()[t] is None
            <==> self.free_list().contains(t as u32)) by {
            if self.free_list().contains(t as u32) {
                let j = choose|j: int| 0 <= j < self.free_list().len() && self.free_list()[j] == t as u32;
                assert(self.free_sparse_indices@[j] == t as u32);
            }
        }
        assert forall|a: int, b: int| 0 <= a < self.active_list().len() && 0 <= b < self.active_list().len()
            && a != b implies self.active_list()[a] != self.active_list()[b] by {
            assert(self.active_sparse_indices@[a] == self.active_list()[a]);
            assert(self.active_sparse_indices@[b] == self.active_list()[b]);
            assert(self.active_sparse_index_locations@[self.active_sparse_indices@[a] as int] == Some(a as usize));
            assert(self.active_sparse_index_locations@[self.active_sparse_indices@[b] as int] == Some(b as usize));
        }
        assert forall|a: int, b: int| 0 <= a < self.free_list().len() && 0 <= b < self.free_list().len()
            && a != b implies self.free_list()[a] != self.free_list()[b] by {
            assert(self.free_sparse_indices@[a] == self.free_list()[a]);
            assert(self.free_sparse_indices@[b] == self.free_list()[b]);
        }
        assert forall|j: int| 0 <= j < self.free_list().len() implies #[trigger] self.free_list()[j] < self.gens().len() by {
            assert(self.free_sparse_indices@[j] == self.free_list()[j]);
        }
        assert forall|e: Entity| #[trigger] self.is_active(e) <==> (self.active_list().contains(e.sparse_index())
            && self.gens()[e.sparse_index() as int] == e.generation()) by {
            if self.active_list().contains(e.sparse_index()) {
                let i = choose|i: int| 0 <= i < self.active_list().len() && self.active_list()[i] == e.sparse_index();
                assert(self.active_sparse_indices@[i] == e.sparse_index());
            }
            if self.is_active(e) {
                let t = e.sparse_index() as int;
                assert(self.active_sparse_index_locations@[t] is Some);
                let k = self.active_sparse_index_locations@[t]->0 as int;
                assert(self.active_sparse_indices@[k] == t);
                assert(self.active_list()[k] == e.sparse_index());
            }
        }
    }

    /// The slot that `add_entity` gives out next.
    pub open spec fn next_sparse_index(&self) -> u32 {
        if self.free_list().len() > 0 {
            self.free_list().last()
        } else {
            self.gens().len() as u32
        }
    }

    /// The state that `add_entity` leaves behind, and the entity it returns.
    pub open spec fn added(old: Self, new: Self, entity: Entity) -> bool {
        let s = old.next_sparse_index();
        let reused = old.free_list().len() > 0;
        &&& entity.sparse_index() == s
        &&& new.free_list() == if reused {
            old.free_list().drop_last()
        } else {
            old.free_list()
        }
        &&& new.gens() == if reused {
            old.gens()
        } else {
            old.gens().push(0)
        }
        &&& entity.generation() == new.gens()[s as int]
        &&& new.active_list() == old.active_list().push(s)
        &&& new.locations() == (if reused {
            old.locations()
        } else {
            old.locations().push(None)
        }).update(s as int, Some(old.active_list().len() as usize))
    }

    /// The state that `remove_entity` leaves behind when it removes an active entity.
    pub open spec fn removed(old: Self, new: Self, entity: Entity) -> bool {
        let s = entity.sparse_index() as int;
        let l = old.locations()[s]->0 as int;
        let active = old.active_list().update(l, old.active_list().last()).drop_last();
        let locations = old.locations().update(s, None);
        &&& new.gens() == old.gens().update(s, (old.gens()[s] + 1) as u32)
        &&& new.free_list() == old.free_list().push(entity.sparse_index())
        &&& new.active_list() == active
        &&& new.locations() == if l < active.len() {
            locations.update(active[l] as int, Some(l as usize))
        } else {
            locations
        }
    }

    /// Everything `remove_entity` promises about its answer and the state it leaves.
    pub open spec fn remove_outcome(old: Self, new: Self, entity: Entity, r: bool) -> bool {
        &&& r == old.is_active(entity)
        &&& !r ==> new == old
        &&& r ==> Self::removed(old, new, entity)
    }

    /// A handle is stale when its slot has since moved on to a later generation.
    pub open spec fn is_stale(&self, entity: Entity) -> bool {
        entity.sparse_index() < self.gens().len() && self.gens()[entity.sparse_index() as int]
            > entity.generation()
    }

    /// What a call answered and left behind, as `add_entity` and `remove_entity` promise it.
    pub open spec fn call_outcome(old: Self, new: Self, call: PoolCall) -> bool {
        match call {
            PoolCall::Add(entity) => Self::added(old, new, entity),
            PoolCall::Remove(entity, r) => Self::remove_outcome(old, new, entity, r),
        }
    }

    /// Over any history of additions and removals, the number of active entities (what
    /// `active_entities` yields) grows by one with each addition and shrinks by one with
    /// each removal that answered `true`.
    pub proof fn law_active_count(states: Seq<Self>, calls: Seq<PoolCall>)
        requires
            states.len() == calls.len() + 1,
            forall|k: int| 0 <= k < states.len() ==> (#[trigger] states[k]).wf(),
            forall|k: int| 0 <= k < calls.len() ==> Self::call_outcome(#[trigger] states[k], states[k + 1], calls[k]),
        ensures
            states.last().active_list().len() == states[0].active_list().len() + net_active(calls),
        decreases calls.len(),
    {
        let n = calls.len() as int;
        if n > 0 {
            let prefix = states.take(n);
            assert forall|k: int| 0 <= k < n implies (#[trigger] prefix[k]).wf() by {
                assert(prefix[k] == states[k]);
            }
            assert forall|k: int| 0 <= k < n - 1 implies Self::call_outcome(
                #[trigger] prefix[k],
                prefix[k + 1],
                calls.drop_last()[k],
            ) by {
                assert(prefix[k] == states[k]);
                assert(prefix[k + 1] == states[k + 1]);
                assert(Self::call_outcome(states[k], states[k + 1], calls[k]));
            }
            Self::law_active_count(prefix, calls.drop_last());
            assert(Self::call_outcome(states[n - 1], states[n], calls[n - 1]));
            assert(states[n - 1].wf());
            match calls[n - 1] {
                PoolCall::Add(_) => {},
                PoolCall::Remove(entity, r) => {
                    if r {
                        let old = states[n - 1];
                        old.lemma_slots();
                        let t = entity.sparse_index() as int;
                        assert(old.locations()[t] is Some);
                    }
                },
            }
        }
    }

    /// A freshly added entity is active, and was not active before.
    pub proof fn law_added_entity_is_active(old: Self, new: Self, entity: Entity)
        requires
            old.wf(),
            old.free_list().len() > 0 || old.gens().len() < u32::MAX,
            Self::added(old, new, entity),
        ensures
            new.is_active(entity),
            !old.is_active(entity),
    {
        if old.free_list().len() > 0 {
            let last = old.free_sparse_indices@.len() - 1;
            assert(old.free_sparse_indices@[last] == entity.sparse_index());
        }
    }

    /// After a removal the entity is no longer active; when it was active, its slot
    /// has moved to a new generation, so the handle is stale.
    pub proof fn law_removed_entity_is_inactive(old: Self, new: Self, entity: Entity, r: bool)
        requires
            old.wf(),
            old.is_active(entity) ==> old.gens()[entity.sparse_index() as int] < u32::MAX,
            Self::remove_outcome(old, new, entity, r),
        ensures
            !new.is_active(entity),
            r ==> new.is_stale(entity),
    {
    }

    /// Removing the same entity twice: the second removal answers false and changes nothing.
    pub proof fn law_remove_twice(
        p0: Self,
        p1: Self,
        p2: Self,
        entity: Entity,
        r1: bool,
        r2: bool,
    )
        requires
            p0.wf(),
            p0.is_active(entity) ==> p0.gens()[entity.sparse_index() as int] < u32::MAX,
            Self::remove_outcome(p0, p1, entity, r1),
            Self::remove_outcome(p1, p2, entity, r2),
        ensures
            !r2,
            p2 == p1,
    {
        Self::law_removed_entity_is_inactive(p0, p1, entity, r1);
    }

    /// A stale handle is never active.
    pub proof fn law_stale_is_inactive(pool: Self, entity: Entity)
        requires
            pool.is_stale(entity),
        ensures
            !pool.is_active(entity),
            !pool.generation_matches(entity),
    {
    }

    /// Adding an entity keeps every stale handle stale.
    pub proof fn law_add_keeps_stale(old: Self, new: Self, added: Entity, entity: Entity)
        requires
            old.wf(),
            Self::added(old, new, added),
            old.is_stale(entity),
        ensures
            new.is_stale(entity),
    {
    }

    /// Removing an entity keeps every stale handle stale.
    pub proof fn law_remove_keeps_stale(
        old: Self,
        new: Self,
        removed: Entity,
        r: bool,
        entity: Entity,
    )
        requires
            old.wf(),
            old.is_active(removed) ==> old.gens()[removed.sparse_index() as int] < u32::MAX,
            Self::remove_outcome(old, new, removed, r),
            old.is_stale(entity),
        ensures
            new.is_stale(entity),
    {
    }

    /// An empty pool.
    pub fn new() -> (r: Self)
        ensures
            r.wf(),
            r.gens() == Seq::<u32>::empty(),
            r.free_list() == Seq::<u32>::empty(),
            r.active_list() == Seq::<u32>::empty(),
            r.locations() == Seq::<Option<usize>>::empty(),
    {
        EntityPool {
            generations: Vec::new(),
            free_sparse_indices: Vec::new(),
            active_sparse_indices: Vec::new(),
            active_sparse_index_locations: Vec::new(),
        }
    }

    /// Gives out a new entity: the most recently freed slot with its current generation,
    /// or else a new slot with generation 0.
    pub fn add_entity(&mut self) -> (r: Entity)
        requires
            old(self).wf(),
            old(self).free_list().len() > 0 || old(self).gens().len() < u32::MAX,
        ensures
            final(self).wf(),
            Self::added(*old(self), *final(self), r),
            !old(self).is_active(r),
            final(self).is_active(r),
            forall|e: Entity| #[trigger] old(self).is_active(e) ==> final(self).is_active(e),
    {
        let ghost old_self = *self;
        let sparse_index = match self.free_sparse_indices.pop() {
            Some(sparse_index) => sparse_index,
            None => {
                let sparse_index = self.generations.len() as u32;
                self.generations.push(0);
                self.active_sparse_index_locations.push(None);
                sparse_index
            },
        };
        let ghost mid = *self;
        proof {
            if old_self.free_sparse_indices@.len() > 0 {
                let last = old_self.free_sparse_indices@.len() - 1;
                assert(old_self.free_sparse_indices@[last] == sparse_index);
                assert forall|j: int| 0 <= j < self.free_sparse_indices@.len() implies
                    #[trigger] self.free_sparse_indices@[j] != sparse_index by {
                    assert(old_self.free_sparse_indices@[j] == self.free_sparse_indices@[j]);
                }
            }
        }
        let active_sparse_index_location = self.active_sparse_indices.len();
        self.active_sparse_indices.push(sparse_index);
        self.active_sparse_index_locations.set(sparse_index as usize, Some(active_sparse_index_location));
        let r = Entity::new(sparse_index, self.generations[sparse_index as usize]);
        proof {
            assert forall|i: int| 0 <= i < self.active_sparse_indices@.len() implies {
                &&& #[trigger] self.active_sparse_indices@[i] < self.generations@.len()
                &&& self.active_sparse_index_locations@[self.active_sparse_indices@[i] as int]
                    == Some(i as usize)
            } by {
                if i < active_sparse_index_location {
                    assert(old_self.active_sparse_indices@[i] == self.active_sparse_indices@[i]);
                }
            }
            assert forall|e: Entity| #[trigger] old_self.is_active(e) implies self.is_active(e) by {
                assert(old_self.active_sparse_index_locations@[e.sparse_index() as int] is Some);
            }
            assert forall|t: int|
                0 <= t < self.active_sparse_index_locations@.len() && #[trigger] self.active_sparse_index_locations@[t] is None
                    implies self.free_sparse_indices@.contains(t as u32) by {
                assert(t != sparse_index);
                assert(t < old_self.active_sparse_index_locations@.len());
                assert(old_self.active_sparse_index_locations@[t] is None);
                assert(old_self.free_sparse_indices@.contains(t as u32));
                let j = choose|j: int| 0 <= j < old_self.free_sparse_indices@.len() && old_self.free_sparse_indices@[j] == t as u32;
                if old_self.free_sparse_indices@.len() > 0 {
                    assert(j != old_self.free_sparse_indices@.len() - 1);
                }
                assert(self.free_sparse_indices@[j] == t as u32);
            }
        }
        r
    }

    /// Removes an active entity: its slot gets the next generation and becomes free,
    /// and the last active slot takes its place in the active list. Returns whether
    /// the entity was active; an inactive entity changes nothing.
    pub fn remove_entity(&mut self, entity: Entity) -> (r: bool)
        requires
            old(self).wf(),
            old(self).is_active(entity) ==> old(self).gens()[entity.sparse_index() as int] < u32::MAX,
        ensures
            final(self).wf(),
            Self::remove_outcome(*old(self), *final(self), entity, r),
            r ==> !final(self).generation_matches(entity),
            !final(self).is_active(entity),
            forall|e: Entity| #[trigger] final(self).is_active(e) ==> old(self).is_active(e),
            forall|e: Entity| #[trigger] old(self).is_active(e) && e.sparse_index() != entity.sparse_index()
                ==> final(self).is_active(e),
    {
        let sparse_index = entity.sparse_index() as usize;
        if sparse_index >= self.generations.len() {
            return false;
        }
        let generation = self.generations[sparse_index];
        if generation != entity.generation() {
            return false;
        }
        let active_sparse_index_location = match self.active_sparse_index_locations[sparse_index] {
            Some(active_sparse_index_location) => active_sparse_index_location,
            None => return false,
        };
        let ghost old_self = *self;
        let ghost l = active_sparse_index_location as int;
        let ghost last = old_self.active_sparse_indices@.len() - 1;
        assert(old_self.active_sparse_indices@[l] == sparse_index);
        self.generations.set(sparse_index, generation + 1);
        self.active_sparse_index_locations.set(sparse_index, None);
        self.free_sparse_indices.push(entity.sparse_index());
        self.active_sparse_indices.swap_remove(active_sparse_index_location);
        let ghost cleared = *self;
        if active_sparse_index_location < self.active_sparse_indices.len() {
            let swapped_sparse_index = self.active_sparse_indices[active_sparse_index_location];
            assert(swapped_sparse_index == old_self.active_sparse_indices@[last]);
            assert(old_self.active_sparse_index_locations@[swapped_sparse_index as int] == Some(last as usize));
            self.active_sparse_index_locations.set(swapped_sparse_index as usize, Some(active_sparse_index_location));
        }
        proof {
            assert forall|i: int| 0 <= i < self.active_sparse_indices@.len() implies {
                &&& #[trigger] self.active_sparse_indices@[i] < self.generations@.len()
                &&& self.active_sparse_index_locations@[self.active_sparse_indices@[i] as int]
                    == Some(i as usize)
            } by {
                if i != l {
                    assert(old_self.active_sparse_indices@[i] == self.active_sparse_indices@[i]);
                    assert(old_self.active_sparse_index_locations@[old_self.active_sparse_indices@[i] as int] == Some(i as usize));
                } else {
                    assert(old_self.active_sparse_index_locations@[old_self.active_sparse_indices@[last] as int] == Some(last as usize));
                }
            }
            assert forall|t: int|
                0 <= t < self.active_sparse_index_locations@.len()
                    && #[trigger] self.active_sparse_index_locations@[t] is Some implies {
                    let k = self.active_sparse_index_locations@[t]->0 as int;
                    &&& k < self.active_sparse_indices@.len()
                    &&& self.active_sparse_indices@[k] == t
                } by {
                if t != sparse_index && (l >= self.active_sparse_indices@.len() || t != self.active_sparse_indices@[l]) {
                    assert(old_self.active_sparse_index_locations@[t] == self.active_sparse_index_locations@[t]);
                    let k = old_self.active_sparse_index_locations@[t]->0 as int;
                    assert(old_self.active_sparse_indices@[k] == t);
                    if k == last {
                        assert(old_self.active_sparse_index_locations@[old_self.active_sparse_indices@[last] as int] == Some(last as usize));
                    }
                }
            }
            assert forall|j: int| 0 <= j < self.free_sparse_indices@.len() implies {
                &&& #[trigger] self.free_sparse_indices@[j] < self.generations@.len()
                &&& self.active_sparse_index_locations@[self.free_sparse_indices@[j] as int] is None
            } by {
                if j < old_self.free_sparse_indices@.len() {
                    let f = old_self.free_sparse_indices@[j];
                    assert(self.free_sparse_indices@[j] == f);
                    if l < self.active_sparse_indices@.len() {
                        let sw = self.active_sparse_indices@[l];
                        assert(old_self.active_sparse_indices@[last] == sw);
                        assert(old_self.active_sparse_index_locations@[sw as int] is Some);
                    }
                }
            }
            assert forall|j: int, k: int|
                0 <= j < self.free_sparse_indices@.len() && 0 <= k < self.free_sparse_indices@.len()
                    && j != k implies #[trigger] self.free_sparse_indices@[j]
                    != #[trigger] self.free_sparse_indices@[k] by {
                let n = old_self.free_sparse_indices@.len();
                if j == n {
                    assert(old_self.free_sparse_indices@[k] == self.free_sparse_indices@[k]);
                } else if k == n {
                    assert(old_self.free_sparse_indices@[j] == self.free_sparse_indices@[j]);
                } else {
                    assert(old_self.free_sparse_indices@[j] == self.free_sparse_indices@[j]);
                    assert(old_self.free_sparse_indices@[k] == self.free_sparse_indices@[k]);
                }
            }
            assert forall|e: Entity| #[trigger] self.is_active(e) implies old_self.is_active(e) by {
                let t = e.sparse_index() as int;
                if t != sparse_index {
                    assert(old_self.generations@[t] == self.generations@[t]);
                    let k = self.active_sparse_index_locations@[t]->0 as int;
                    assert(self.active_sparse_indices@[k] == t);
                    if k == l {
                        assert(old_self.active_sparse_indices@[last] == t);
                        assert(old_self.active_sparse_index_locations@[t] is Some);
                    } else {
                        assert(old_self.active_sparse_indices@[k] == t);
                        assert(old_self.active_sparse_index_locations@[t] is Some);
                    }
                }
            }
            assert forall|t: int|
                0 <= t < self.active_sparse_index_locations@.len() && #[trigger] self.active_sparse_index_locations@[t] is None
                    implies self.free_sparse_indices@.contains(t as u32) by {
                let n = old_self.free_sparse_indices@.len() as int;
                if t == sparse_index {
                    assert(self.free_sparse_indices@[n] == t as u32);
                } else {
                    assert(old_self.active_sparse_index_locations@[t] is None);
                    assert(old_self.free_sparse_indices@.contains(t as u32));
                    let j = choose|j: int| 0 <= j < n && old_self.free_sparse_indices@[j] == t as u32;
                    assert(self.free_sparse_indices@[j] == t as u32);
                }
            }
            assert forall|e: Entity| #[trigger] old_self.is_active(e) && e.sparse_index() != entity.sparse_index()
                implies self.is_active(e) by {
                let t = e.sparse_index() as int;
                let k = old_self.active_sparse_index_locations@[t]->0 as int;
                assert(old_self.active_sparse_indices@[k] == t);
                if k == last {
                    if l < self.active_sparse_indices@.len() {
                        assert(self.active_sparse_indices@[l] == t);
                    }
                } else {
                    assert(self.active_sparse_indices@[k] == t);
                }
            }
        }
        true
    }

    /// Whether the entity's slot exists and still has the entity's generation.
    pub fn is_entity_active(&self, entity: Entity) -> (r: bool)
        requires
            self.wf(),
        ensures
            r == self.generation_matches(entity),
    {
        let sparse_index = entity.sparse_index() as usize;
        if sparse_index < self.generations.len() {
            self.generations[sparse_index] == entity.generation()
        } else {
            false
        }
    }

    /// Forgets every slot, active or free.
    pub fn clear(&mut self)
        ensures
            final(self).wf(),
            final(self).gens() == Seq::<u32>::empty(),
            final(self).free_list() == Seq::<u32>::empty(),
            final(self).active_list() == Seq::<u32>::empty(),
            final(self).locations() == Seq::<Option<usize>>::empty(),
    {
        self.generations.clear();
        self.free_sparse_indices.clear();
        self.active_sparse_indices.clear();
        self.active_sparse_index_locations.clear();
    }

    /// The active entities, in the order of the active list.
    pub fn active_entities(&self) -> (r: Vec<Entity>)
        requires
            self.wf(),
        ensures
            r@.len() == self.active_list().len(),
            forall|i: int| 0 <= i < r@.len() ==> {
                &&& (#[trigger] r@[i]).sparse_index() == self.active_list()[i]
                &&& r@[i].generation() == self.gens()[self.active_list()[i] as int]
            },
            forall|e: Entity| #[trigger] r@.contains(e) <==> self.is_active(e),
            r@.no_duplicates(),
    {
        let mut entities: Vec<Entity> = Vec::new();
        let mut i: usize = 0;
        while i < self.active_sparse_indices.len()
            invariant
                self.wf(),
                i <= self.active_sparse_indices@.len(),
                entities@.len() == i,
                forall|j: int| 0 <= j < i ==> {
                    &&& (#[trigger] entities@[j]).sparse_index() == self.active_list()[j]
                    &&& entities@[j].generation() == self.gens()[self.active_list()[j] as int]
                },
            decreases self.active_sparse_indices@.len() - i,
        {
            let sparse_index = self.active_sparse_indices[i];
            entities.push(Entity::new(sparse_index, self.generations[sparse_index as usize]));
            i = i + 1;
        }
        proof {
            self.lemma_slots();
            assert forall|e: Entity| #[trigger] entities@.contains(e) <==> self.is_active(e) by {
                if entities@.contains(e) {
                    let i = choose|i: int| 0 <= i < entities@.len() && entities@[i] == e;
                    assert(self.active_list()[i] == e.sparse_index());
                    assert(self.active_list().contains(e.sparse_index()));
                }
                if self.is_active(e) {
                    let i = choose|i: int| 0 <= i < self.active_list().len() && self.active_list()[i] == e.sparse_index();
                    assert(entities@[i].sparse_index() == e.sparse_index());
                    Entity::lemma_eq(entities@[i], e);
                }
            }
            assert forall|a: int, b: int| 0 <= a < entities@.len() && 0 <= b < entities@.len() && a != b
                implies entities@[a] != entities@[b] by {
                assert(entities@[a].sparse_index() == self.active_list()[a]);
                assert(entities@[b].sparse_index() == self.active_list()[b]);
            }
        }
        entities
    }

    /// The current generation of every slot.
    pub fn generations(&self) -> (r: &[u32])
        ensures
            r@ == self.gens(),
    {
        self.generations.as_slice()
    }

    /// The free slots; the last one is given out next.
    pub fn free_sparse_indices(&self) -> (r: &[u32])
        ensures
            r@ == self.free_list(),
    {
        self.free_sparse_indices.as_slice()
    }

    /// The slots of the active entities, in iteration order.
    pub fn active_sparse_indices(&self) -> (r: &[u32])
        ensures
            r@ == self.active_list(),
    {
        self.active_sparse_indices.as_slice()
    }

    /// For every slot, its position in the active list, if it is active.
    pub fn active_sparse_index_locations(&self) -> (r: &[Option<usize>])
        ensures
            r@ == self.locations(),
    {
        self.active_sparse_index_locations.as_slice()
    }
}

} // verus!
