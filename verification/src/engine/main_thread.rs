use vstd::prelude::*;

use std::collections::{HashMap, HashSet};

verus! {

broadcast use vstd::std_specs::hash::group_hash_axioms;

/// The entities the engine's main thread knows, each with the windows it is shown in.
pub struct EntityRegistry {
    entities: HashMap<u64, HashSet<u64>>,
}

impl View for EntityRegistry {
    type V = Map<u64, Set<u64>>;

    closed spec fn view(&self) -> Map<u64, Set<u64>> {
        Map::new(|e: u64| self.entities@.contains_key(e), |e: u64| self.entities@[e]@)
    }
}

impl EntityRegistry {
    /// No entity is known.
    pub fn new() -> (r: Self)
        ensures
            r@ == Map::<u64, Set<u64>>::empty(),
    {
        let r = EntityRegistry { entities: HashMap::new() };
        assert(r@ =~= Map::<u64, Set<u64>>::empty());
        r
    }

    /// Whether the entity is known.
    pub fn contains_entity(&self, entity_id: u64) -> (r: bool)
        ensures
            r == self@.contains_key(entity_id),
    {
        self.entities.contains_key(&entity_id)
    }

    /// The windows the entity is shown in, when it is known.
    pub fn window_ids(&self, entity_id: u64) -> (r: Option<&HashSet<u64>>)
        ensures
            r is Some <==> self@.contains_key(entity_id),
            r is Some ==> r->0@ == self@[entity_id],
    {
        self.entities.get(&entity_id)
    }

    /// A request to show an entity in a window: refused (false, nothing changes) when it
    /// is already shown there; otherwise the entity becomes known, if it was not, and is
    /// shown in the window (true: the addition is announced).
    pub fn add_entity(&mut self, window_id: u64, entity_id: u64) -> (added: bool)
        ensures
            (final(self)@, added) == after_add_entity(old(self)@, window_id, entity_id),
    {
        let mut window_ids = match self.entities.remove(&entity_id) {
            Some(window_ids) => window_ids,
            None => HashSet::new(),
        };
        let added = !window_ids.contains(&window_id);
        window_ids.insert(window_id);
        self.entities.insert(entity_id, window_ids);
        proof {
            if !old(self)@.contains_key(entity_id) {
                assert(Set::<u64>::empty().insert(window_id) =~= set![window_id]);
            }
            if old(self)@.contains_key(entity_id) && old(self)@[entity_id].contains(window_id) {
                assert(old(self)@[entity_id].insert(window_id) =~= old(self)@[entity_id]);
            }
        }
        assert(self@ =~= old(self)@.insert(
            entity_id,
            if old(self)@.contains_key(entity_id) {
                old(self)@[entity_id].insert(window_id)
            } else {
                set![window_id]
            },
        ));
        added
    }

    /// A request to remove an entity: a known entity is forgotten and the windows it was
    /// shown in are handed back (its removal is announced to them); an unknown one
    /// changes nothing.
    pub fn remove_entity(&mut self, entity_id: u64) -> (r: Option<HashSet<u64>>)
        ensures
            r is Some <==> old(self)@.contains_key(entity_id),
            r is Some ==> r->0@ == old(self)@[entity_id],
            final(self)@ == old(self)@.remove(entity_id),
    {
        let r = self.entities.remove(&entity_id);
        assert(self@ =~= old(self)@.remove(entity_id));
        r
    }
}

/// The registry after a request to show an entity in a window, and whether the request
/// was accepted (it is refused when the entity is already shown there).
pub open spec fn after_add_entity(registry: Map<u64, Set<u64>>, window_id: u64, entity_id: u64) -> (Map<u64, Set<u64>>, bool) {
    (
        registry.insert(
            entity_id,
            if registry.contains_key(entity_id) {
                registry[entity_id].insert(window_id)
            } else {
                set![window_id]
            },
        ),
        !(registry.contains_key(entity_id) && registry[entity_id].contains(window_id)),
    )
}

/// Asking twice to show an entity in the same window: the second request is refused
/// and changes nothing.
pub proof fn law_add_entity_twice(registry: Map<u64, Set<u64>>, window_id: u64, entity_id: u64)
    ensures
        ({
            let (middle, _) = after_add_entity(registry, window_id, entity_id);
            let (end, added_again) = after_add_entity(middle, window_id, entity_id);
            &&& !added_again
            &&& end == middle
        }),
{
    let (middle, _) = after_add_entity(registry, window_id, entity_id);
    assert(middle[entity_id].contains(window_id));
    assert(middle[entity_id].insert(window_id) =~= middle[entity_id]);
    assert(middle.insert(entity_id, middle[entity_id].insert(window_id)) =~= middle);
}

/// Showing an unknown entity in a window and then removing it hands that window back
/// and leaves the registry as it was.
pub proof fn law_add_then_remove_entity(registry: Map<u64, Set<u64>>, window_id: u64, entity_id: u64)
    requires
        !registry.contains_key(entity_id),
    ensures
        ({
            let (middle, added) = after_add_entity(registry, window_id, entity_id);
            &&& added
            &&& middle[entity_id] == set![window_id]
            &&& middle.remove(entity_id) == registry
        }),
{
    let (middle, added) = after_add_entity(registry, window_id, entity_id);
    assert(middle.remove(entity_id) =~= registry);
}

/// Showing an entity in a window keeps every window of every entity and adds exactly
/// that window to that entity; it is accepted exactly when the entity was not yet shown
/// there.
pub proof fn law_add_entity_keeps_windows(registry: Map<u64, Set<u64>>, window_id: u64, entity_id: u64)
    ensures
        ({
            let (after, added) = after_add_entity(registry, window_id, entity_id);
            &&& added <==> !(registry.contains_key(entity_id) && registry[entity_id].contains(window_id))
            &&& forall|e: u64| #[trigger] after.contains_key(e) <==> registry.contains_key(e) || e == entity_id
            &&& forall|e: u64, w: u64|
                after.contains_key(e) ==> (#[trigger] after[e].contains(w) <==> (registry.contains_key(e)
                    && registry[e].contains(w)) || (e == entity_id && w == window_id))
        }),
{
}

} // verus!
