use vstd::prelude::*;

use std::collections::{HashMap, HashSet};

verus! {

broadcast use vstd::std_specs::hash::group_hash_axioms;

/// The entities of each window, as plain maps and sets.
pub open spec fn windows_view(windows: HashMap<u64, HashSet<u64>>) -> Map<u64, Set<u64>> {
    Map::new(|w: u64| windows@.contains_key(w), |w: u64| windows@[w]@)
}

/// `windows` with the entity added to each of the given windows.
pub open spec fn added_to_windows(windows: Map<u64, Set<u64>>, window_ids: Seq<u64>, entity_id: u64) -> Map<u64, Set<u64>> {
    Map::new(
        |w: u64| windows.contains_key(w) || window_ids.contains(w),
        |w: u64|
            if window_ids.contains(w) {
                (if windows.contains_key(w) {
                    windows[w]
                } else {
                    Set::empty()
                }).insert(entity_id)
            } else {
                windows[w]
            },
    )
}

/// `windows` with the entity taken out of each of the given windows; a window left
/// without entities is dropped.
pub open spec fn removed_from_windows(windows: Map<u64, Set<u64>>, window_ids: Seq<u64>, entity_id: u64) -> Map<u64, Set<u64>> {
    Map::new(
        |w: u64| windows.contains_key(w) && !(window_ids.contains(w) && windows[w].remove(entity_id).is_empty()),
        |w: u64|
            if window_ids.contains(w) {
                windows[w].remove(entity_id)
            } else {
                windows[w]
            },
    )
}

/// Taking one more element of a sequence adds that element to what the prefix contains.
proof fn lemma_take_one_more(s: Seq<u64>, k: int)
    requires
        0 <= k < s.len(),
    ensures
        forall|x: u64| #[trigger] s.take(k + 1).contains(x) <==> s.take(k).contains(x) || x == s[k],
{
    let prefix = s.take(k);
    let next = s.take(k + 1);
    assert forall|x: u64| #[trigger] next.contains(x) <==> prefix.contains(x) || x == s[k] by {
        if prefix.contains(x) {
            let i = choose|i: int| 0 <= i < prefix.len() && prefix[i] == x;
            assert(next[i] == x);
        }
        if x == s[k] {
            assert(next[k] == x);
        }
        if next.contains(x) && x != s[k] {
            let i = choose|i: int| 0 <= i < next.len() && next[i] == x;
            assert(prefix[i] == x);
        }
    }
}

/// Adds the entity to each of the given windows.
fn add_to_windows(windows: &mut HashMap<u64, HashSet<u64>>, window_ids: &[u64], entity_id: u64)
    ensures
        windows_view(*final(windows)) == added_to_windows(windows_view(*old(windows)), window_ids@, entity_id),
{
    let ghost initial = windows_view(*windows);
    let mut k: usize = 0;
    while k < window_ids.len()
        invariant
            k <= window_ids@.len(),
            windows_view(*windows) == added_to_windows(initial, window_ids@.take(k as int), entity_id),
        decreases window_ids@.len() - k,
    {
        let window_id = window_ids[k];
        let ghost before = windows_view(*windows);
        let ghost raw_before = windows@;
        let mut entities = match windows.remove(&window_id) {
            Some(entities) => entities,
            None => HashSet::new(),
        };
        let ghost previous: Set<u64> = if before.contains_key(window_id) { before[window_id] } else { Set::empty() };
        assert(entities@ == previous);
        assert(windows@ == raw_before.remove(window_id));
        entities.insert(entity_id);
        let ghost inserted = entities@;
        windows.insert(window_id, entities);
        proof {
            assert(inserted == previous.insert(entity_id));
            assert(windows@ == raw_before.remove(window_id).insert(window_id, entities));
            let prefix = window_ids@.take(k as int);
            let next = window_ids@.take(k + 1);
            assert(next =~= prefix.push(window_id));
            lemma_take_one_more(window_ids@, k as int);
            let target = added_to_windows(initial, next, entity_id);
            assert forall|w: u64| #[trigger] target.contains_key(w) implies windows_view(*windows).contains_key(w) && windows_view(*windows)[w] == target[w] by {
                if w == window_id {
                    assert(windows_view(*windows)[w] == inserted);
                    assert(windows_view(*windows)[w] =~= target[w]);
                } else {
                    assert(next.contains(w) == prefix.contains(w));
                    assert(before.contains_key(w));
                    assert(raw_before.contains_key(w));
                    assert(windows@[w] == raw_before[w]);
                    assert(before[w] == target[w]);
                }
            }
            assert forall|w: u64| #[trigger] windows_view(*windows).contains_key(w) implies target.contains_key(w) by {
                if w != window_id {
                    assert(next.contains(w) == prefix.contains(w));
                    assert(raw_before.contains_key(w));
                    assert(before.contains_key(w));
                }
            }
            assert(windows_view(*windows) =~= target);
        }
        k = k + 1;
    }
    assert(window_ids@.take(window_ids@.len() as int) =~= window_ids@);
}


/// Takes the entity out of each of the given windows, dropping windows left empty.
fn remove_from_windows(windows: &mut HashMap<u64, HashSet<u64>>, window_ids: &[u64], entity_id: u64)
    ensures
        windows_view(*final(windows)) == removed_from_windows(windows_view(*old(windows)), window_ids@, entity_id),
{
    let ghost initial = windows_view(*windows);
    let mut k: usize = 0;
    while k < window_ids.len()
        invariant
            k <= window_ids@.len(),
            windows_view(*windows) == removed_from_windows(initial, window_ids@.take(k as int), entity_id),
        decreases window_ids@.len() - k,
    {
        let window_id = window_ids[k];
        let ghost before = windows_view(*windows);
        let ghost raw_before = windows@;
        match windows.remove(&window_id) {
            Some(mut entities) => {
                assert(entities@ == before[window_id]);
                entities.remove(&entity_id);
                assert(entities@ == before[window_id].remove(entity_id));
                if !entities.is_empty() {
                    windows.insert(window_id, entities);
                }
            },
            None => {},
        }
        assert(windows@.contains_key(window_id) <==> before.contains_key(window_id) && !before[window_id].remove(entity_id).is_empty());
        assert(windows@.contains_key(window_id) ==> windows@[window_id]@ == before[window_id].remove(entity_id));
        assert(forall|w: u64| w != window_id ==> (#[trigger] windows@.contains_key(w) <==> raw_before.contains_key(w)));
        assert(forall|w: u64| w != window_id && raw_before.contains_key(w) ==> #[trigger] windows@[w] == raw_before[w]);
        proof {
            let prefix = window_ids@.take(k as int);
            let next = window_ids@.take(k + 1);
            assert(next =~= prefix.push(window_id));
            lemma_take_one_more(window_ids@, k as int);
            let target = removed_from_windows(initial, next, entity_id);
            assert forall|w: u64| #[trigger] target.contains_key(w) implies windows_view(*windows).contains_key(w) && windows_view(*windows)[w] == target[w] by {
                if w == window_id {
                    if prefix.contains(w) {
                        assert(initial[w].remove(entity_id).remove(entity_id) =~= initial[w].remove(entity_id));
                    }
                    assert(before.contains_key(w));
                    assert(before[w].remove(entity_id) =~= target[w]);
                    assert(windows_view(*windows)[w] =~= target[w]);
                } else {
                    assert(next.contains(w) == prefix.contains(w));
                    assert(before.contains_key(w));
                    assert(raw_before.contains_key(w));
                    assert(windows@[w] == raw_before[w]);
                    assert(before[w] == target[w]);
                }
            }
            assert forall|w: u64| #[trigger] windows_view(*windows).contains_key(w) implies target.contains_key(w) by {
                if w != window_id {
                    assert(next.contains(w) == prefix.contains(w));
                    assert(raw_before.contains_key(w));
                    assert(before.contains_key(w));
                } else {
                    if prefix.contains(w) {
                        assert(initial[w].remove(entity_id).remove(entity_id) =~= initial[w].remove(entity_id));
                    }
                }
            }
            assert(windows_view(*windows) =~= target);
        }
        k = k + 1;
    }
    assert(window_ids@.take(window_ids@.len() as int) =~= window_ids@);
}


/// The windows of a renderable in a registry: none when it is unknown.
pub open spec fn windows_of(registry: Map<u64, Map<u64, Set<u64>>>, renderable_id: u64) -> Map<u64, Set<u64>> {
    if registry.contains_key(renderable_id) {
        registry[renderable_id]
    } else {
        Map::empty()
    }
}

/// The renderables of `renderable_ids` that are not in `known`, each once, in the order
/// of their first appearance.
pub open spec fn fresh_renderables(renderable_ids: Seq<u64>, known: Set<u64>) -> Seq<u64>
    decreases renderable_ids.len(),
{
    if renderable_ids.len() == 0 {
        Seq::empty()
    } else {
        let previous = fresh_renderables(renderable_ids.drop_last(), known);
        let r = renderable_ids.last();
        if known.contains(r) || renderable_ids.drop_last().contains(r) {
            previous
        } else {
            previous.push(r)
        }
    }
}

/// Showing an entity in a window keeps every entity that already showed a renderable,
/// anywhere, and adds the entity, in that window only, to exactly the listed renderables.
pub proof fn law_submit_keeps_entities(
    registry: Map<u64, Map<u64, Set<u64>>>,
    window_id: u64,
    entity_id: u64,
    renderable_ids: Seq<u64>,
)
    ensures
        ({
            let after = submitted(registry, window_id, entity_id, renderable_ids);
            let shows = |m: Map<u64, Map<u64, Set<u64>>>, r: u64, w: u64, e: u64|
                m.contains_key(r) && m[r].contains_key(w) && m[r][w].contains(e);
            &&& forall|r: u64| #[trigger] after.contains_key(r) <==> registry.contains_key(r) || renderable_ids.contains(r)
            &&& forall|r: u64, w: u64, e: u64|
                #[trigger] shows(after, r, w, e) <==> shows(registry, r, w, e) || (renderable_ids.contains(r) && w
                    == window_id && e == entity_id)
        }),
{
    let after = submitted(registry, window_id, entity_id, renderable_ids);
    let one = seq![window_id];
    assert forall|w: u64| #[trigger] one.contains(w) <==> w == window_id by {
        if w == window_id {
            assert(one[0] == w);
        }
    }
}

/// Taking an entity out of some windows keeps every other entity, and the entity in
/// every other window, for the listed renderables, and leaves every other renderable as
/// it was; the entity no longer shows the listed renderables in those windows.
pub proof fn law_withdraw_keeps_other_entities(
    registry: Map<u64, Map<u64, Set<u64>>>,
    window_ids: Seq<u64>,
    entity_id: u64,
    renderable_ids: Seq<u64>,
)
    ensures
        ({
            let after = withdrawn(registry, window_ids, entity_id, renderable_ids);
            let shows = |m: Map<u64, Map<u64, Set<u64>>>, r: u64, w: u64, e: u64|
                m.contains_key(r) && m[r].contains_key(w) && m[r][w].contains(e);
            &&& forall|r: u64, w: u64, e: u64|
                #[trigger] shows(after, r, w, e) <==> shows(registry, r, w, e) && !(renderable_ids.contains(r)
                    && window_ids.contains(w) && e == entity_id)
            &&& forall|r: u64|
                !renderable_ids.contains(r) ==> (#[trigger] after.contains_key(r) <==> registry.contains_key(r)) && (
                after.contains_key(r) ==> after[r] == registry[r])
        }),
{
    let after = withdrawn(registry, window_ids, entity_id, renderable_ids);
    let shows = |m: Map<u64, Map<u64, Set<u64>>>, r: u64, w: u64, e: u64|
        m.contains_key(r) && m[r].contains_key(w) && m[r][w].contains(e);
    assert forall|r: u64, w: u64, e: u64| #[trigger] shows(after, r, w, e) <==> shows(registry, r, w, e) && !(
        renderable_ids.contains(r) && window_ids.contains(w) && e == entity_id) by {
        if shows(registry, r, w, e) && !(renderable_ids.contains(r) && window_ids.contains(w) && e == entity_id)
            && renderable_ids.contains(r) {
            let remaining = removed_from_windows(registry[r], window_ids, entity_id);
            if window_ids.contains(w) {
                assert(registry[r][w].remove(entity_id).contains(e));
            }
            assert(remaining.contains_key(w));
            assert(!remaining.is_empty()) by {
                assert(remaining.dom().contains(w));
            }
        }
    }
}

/// The renderables that showing an entity allocates are exactly the listed renderables
/// the registry did not know, each once.
pub proof fn law_fresh_renderables_are_the_unknown_ones(renderable_ids: Seq<u64>, known: Set<u64>)
    ensures
        forall|r: u64|
            #[trigger] fresh_renderables(renderable_ids, known).contains(r) <==> renderable_ids.contains(r)
                && !known.contains(r),
        fresh_renderables(renderable_ids, known).no_duplicates(),
    decreases renderable_ids.len(),
{
    if renderable_ids.len() > 0 {
        let rest = renderable_ids.drop_last();
        let last = renderable_ids.last();
        law_fresh_renderables_are_the_unknown_ones(rest, known);
        let previous = fresh_renderables(rest, known);
        let fresh = fresh_renderables(renderable_ids, known);
        assert forall|r: u64| #[trigger] renderable_ids.contains(r) <==> rest.contains(r) || r == last by {
            if renderable_ids.contains(r) && r != last {
                let i = choose|i: int| 0 <= i < renderable_ids.len() && renderable_ids[i] == r;
                assert(rest[i] == r);
            }
            if rest.contains(r) {
                let i = choose|i: int| 0 <= i < rest.len() && rest[i] == r;
                assert(renderable_ids[i] == r);
            }
            if r == last {
                assert(renderable_ids[renderable_ids.len() - 1] == r);
            }
        }
        if !(known.contains(last) || rest.contains(last)) {
            assert(fresh == previous.push(last));
            assert forall|r: u64| #[trigger] fresh.contains(r) <==> previous.contains(r) || r == last by {
                if fresh.contains(r) && r != last {
                    let i = choose|i: int| 0 <= i < fresh.len() && fresh[i] == r;
                    assert(previous[i] == r);
                }
                if previous.contains(r) {
                    let i = choose|i: int| 0 <= i < previous.len() && previous[i] == r;
                    assert(fresh[i] == r);
                }
                if r == last {
                    assert(fresh[fresh.len() - 1] == r);
                }
            }
            assert forall|i: int, j: int| 0 <= i < j < fresh.len() implies fresh[i] != fresh[j] by {
                if j == fresh.len() - 1 {
                    assert(previous.contains(fresh[i]));
                }
            }
        }
    }
}

/// The registry after an entity with the given renderables is shown in a window.
pub open spec fn submitted(
    registry: Map<u64, Map<u64, Set<u64>>>,
    window_id: u64,
    entity_id: u64,
    renderable_ids: Seq<u64>,
) -> Map<u64, Map<u64, Set<u64>>> {
    Map::new(
        |r: u64| registry.contains_key(r) || renderable_ids.contains(r),
        |r: u64|
            if renderable_ids.contains(r) {
                added_to_windows(windows_of(registry, r), seq![window_id], entity_id)
            } else {
                registry[r]
            },
    )
}

/// The registry after an entity with the given renderables leaves the given windows: a
/// renderable left in no window is dropped.
pub open spec fn withdrawn(
    registry: Map<u64, Map<u64, Set<u64>>>,
    window_ids: Seq<u64>,
    entity_id: u64,
    renderable_ids: Seq<u64>,
) -> Map<u64, Map<u64, Set<u64>>> {
    Map::new(
        |r: u64|
            registry.contains_key(r) && !(renderable_ids.contains(r) && removed_from_windows(
                registry[r],
                window_ids,
                entity_id,
            ).is_empty()),
        |r: u64|
            if renderable_ids.contains(r) {
                removed_from_windows(registry[r], window_ids, entity_id)
            } else {
                registry[r]
            },
    )
}

/// The renderables of `renderable_ids` that `withdrawn` drops, each once, in the order of
/// their first appearance.
pub open spec fn dropped_renderables(
    registry: Map<u64, Map<u64, Set<u64>>>,
    window_ids: Seq<u64>,
    entity_id: u64,
    renderable_ids: Seq<u64>,
) -> Seq<u64>
    decreases renderable_ids.len(),
{
    if renderable_ids.len() == 0 {
        Seq::empty()
    } else {
        let previous = dropped_renderables(registry, window_ids, entity_id, renderable_ids.drop_last());
        let r = renderable_ids.last();
        if registry.contains_key(r) && removed_from_windows(registry[r], window_ids, entity_id).is_empty()
            && !renderable_ids.drop_last().contains(r) {
            previous.push(r)
        } else {
            previous
        }
    }
}

/// Taking an entity out of the same windows twice changes nothing the second time.
proof fn lemma_remove_from_windows_idempotent(windows: Map<u64, Set<u64>>, window_ids: Seq<u64>, entity_id: u64)
    ensures
        removed_from_windows(removed_from_windows(windows, window_ids, entity_id), window_ids, entity_id)
            == removed_from_windows(windows, window_ids, entity_id),
{
    let once = removed_from_windows(windows, window_ids, entity_id);
    let twice = removed_from_windows(once, window_ids, entity_id);
    assert forall|w: u64| #[trigger] once.contains_key(w) && window_ids.contains(w) implies once[w].remove(entity_id) =~= once[w] by {}
    assert(twice =~= once);
}

/// The registry after a renderable is added to an entity shown in the given windows,
/// and whether the renderable is new.
pub open spec fn after_renderable_added(
    registry: Map<u64, Map<u64, Set<u64>>>,
    entity_id: u64,
    window_ids: Seq<u64>,
    renderable_id: u64,
) -> (Map<u64, Map<u64, Set<u64>>>, bool) {
    (
        registry.insert(renderable_id, added_to_windows(windows_of(registry, renderable_id), window_ids, entity_id)),
        !registry.contains_key(renderable_id),
    )
}

/// The registry after a renderable is taken from an entity shown in the given windows,
/// and whether the renderable was forgotten.
pub open spec fn after_renderable_removed(
    registry: Map<u64, Map<u64, Set<u64>>>,
    entity_id: u64,
    window_ids: Seq<u64>,
    renderable_id: u64,
) -> (Map<u64, Map<u64, Set<u64>>>, bool) {
    if registry.contains_key(renderable_id) {
        let remaining = removed_from_windows(registry[renderable_id], window_ids, entity_id);
        if remaining.is_empty() {
            (registry.remove(renderable_id), true)
        } else {
            (registry.insert(renderable_id, remaining), false)
        }
    } else {
        (registry, false)
    }
}

/// Every window listed for a renderable has at least one entity showing it there, as
/// the registry keeps it.
pub open spec fn windows_hold_entities(registry: Map<u64, Map<u64, Set<u64>>>) -> bool {
    forall|r: u64, w: u64|
        registry.contains_key(r) && #[trigger] registry[r].contains_key(w) ==> !registry[r][w].is_empty()
}

/// Adding a renderable to an entity shown in some windows keeps every entity that
/// already showed it, adds the entity in exactly those windows, touches no other
/// renderable, and asks for memory exactly when the renderable was unknown.
pub proof fn law_renderable_added_keeps_entities(
    registry: Map<u64, Map<u64, Set<u64>>>,
    entity_id: u64,
    window_ids: Seq<u64>,
    renderable_id: u64,
)
    ensures
        ({
            let (after, allocate) = after_renderable_added(registry, entity_id, window_ids, renderable_id);
            let known = registry.contains_key(renderable_id);
            &&& allocate <==> !known
            &&& after.contains_key(renderable_id)
            &&& forall|w: u64|
                #[trigger] after[renderable_id].contains_key(w) <==> (known && registry[renderable_id].contains_key(w))
                    || window_ids.contains(w)
            &&& forall|w: u64, e: u64|
                after[renderable_id].contains_key(w) ==> (#[trigger] after[renderable_id][w].contains(e) <==> (known
                    && registry[renderable_id].contains_key(w) && registry[renderable_id][w].contains(e)) || (
                window_ids.contains(w) && e == entity_id))
            &&& forall|r: u64|
                r != renderable_id ==> (#[trigger] after.contains_key(r) <==> registry.contains_key(r)) && (
                after.contains_key(r) ==> after[r] == registry[r])
            &&& windows_hold_entities(registry) ==> windows_hold_entities(after)
        }),
{
    let (after, allocate) = after_renderable_added(registry, entity_id, window_ids, renderable_id);
    if windows_hold_entities(registry) {
        assert forall|r: u64, w: u64| after.contains_key(r) && #[trigger] after[r].contains_key(w) implies !after[r][w].is_empty() by {
            if r == renderable_id && window_ids.contains(w) {
                assert(after[r][w].contains(entity_id));
            } else if r != renderable_id {
                assert(registry[r].contains_key(w));
            }
        }
    }
}

/// Taking a renderable from an entity shown in some windows keeps every other entity
/// that shows it, and the entity in every other window; the entity no longer shows it in
/// those windows, and the renderable is forgotten, and its memory released, exactly when
/// no entity is left showing it anywhere. An unknown renderable changes nothing.
pub proof fn law_renderable_removed_keeps_other_entities(
    registry: Map<u64, Map<u64, Set<u64>>>,
    entity_id: u64,
    window_ids: Seq<u64>,
    renderable_id: u64,
)
    requires
        windows_hold_entities(registry),
    ensures
        ({
            let (after, deallocate) = after_renderable_removed(registry, entity_id, window_ids, renderable_id);
            let known = registry.contains_key(renderable_id);
            let left = |w: u64, e: u64|
                known && registry[renderable_id].contains_key(w) && registry[renderable_id][w].contains(e) && !(
                window_ids.contains(w) && e == entity_id);
            &&& !known ==> after == registry && !deallocate
            &&& deallocate <==> known && forall|w: u64, e: u64| !#[trigger] left(w, e)
            &&& forall|w: u64, e: u64|
                #[trigger] left(w, e) ==> after.contains_key(renderable_id) && after[renderable_id].contains_key(w)
                    && after[renderable_id][w].contains(e)
            &&& forall|w: u64, e: u64|
                after.contains_key(renderable_id) && after[renderable_id].contains_key(w)
                    && #[trigger] after[renderable_id][w].contains(e) ==> left(w, e)
            &&& forall|r: u64|
                r != renderable_id ==> (#[trigger] after.contains_key(r) <==> registry.contains_key(r)) && (
                after.contains_key(r) ==> after[r] == registry[r])
            &&& windows_hold_entities(after)
        }),
{
    let (after, deallocate) = after_renderable_removed(registry, entity_id, window_ids, renderable_id);
    let known = registry.contains_key(renderable_id);
    let left = |w: u64, e: u64|
        known && registry[renderable_id].contains_key(w) && registry[renderable_id][w].contains(e) && !(
        window_ids.contains(w) && e == entity_id);
    if known {
        let remaining = removed_from_windows(registry[renderable_id], window_ids, entity_id);
        assert forall|w: u64, e: u64| #[trigger] left(w, e) implies remaining.contains_key(w)
            && remaining[w].contains(e) by {
            if window_ids.contains(w) {
                assert(registry[renderable_id][w].remove(entity_id).contains(e));
            }
        }
        if remaining.is_empty() {
            assert forall|w: u64, e: u64| !#[trigger] left(w, e) by {
                if left(w, e) {
                    assert(remaining.dom().contains(w));
                }
            }
        } else {
            let w = remaining.dom().choose();
            assert(remaining.dom().contains(w));
            if window_ids.contains(w) {
                let e = registry[renderable_id][w].remove(entity_id).choose();
                assert(!registry[renderable_id][w].remove(entity_id).is_empty());
                assert(registry[renderable_id][w].remove(entity_id).contains(e));
                assert(left(w, e));
            } else {
                let e = registry[renderable_id][w].choose();
                assert(registry[renderable_id].contains_key(w));
                assert(!registry[renderable_id][w].is_empty());
                assert(left(w, e));
            }
        }
        assert forall|r: u64, w: u64| after.contains_key(r) && #[trigger] after[r].contains_key(w) implies !after[r][w].is_empty() by {
            if r != renderable_id {
                assert(registry[r].contains_key(w));
            } else {
                assert(remaining.contains_key(w));
                if !window_ids.contains(w) {
                    assert(registry[renderable_id].contains_key(w));
                }
            }
        }
    }
}

/// Adding a renderable the registry did not know to an entity and then taking it away
/// again asks for its memory, releases it, and leaves the registry as it was.
pub proof fn law_add_then_remove_renderable(
    registry: Map<u64, Map<u64, Set<u64>>>,
    entity_id: u64,
    window_ids: Seq<u64>,
    renderable_id: u64,
)
    requires
        !registry.contains_key(renderable_id),
    ensures
        ({
            let (middle, allocate) = after_renderable_added(registry, entity_id, window_ids, renderable_id);
            let (end, deallocate) = after_renderable_removed(middle, entity_id, window_ids, renderable_id);
            &&& allocate
            &&& deallocate
            &&& end == registry
        }),
{
    let (middle, allocate) = after_renderable_added(registry, entity_id, window_ids, renderable_id);
    let windows = added_to_windows(windows_of(registry, renderable_id), window_ids, entity_id);
    let remaining = removed_from_windows(windows, window_ids, entity_id);
    assert forall|w: u64| windows.contains_key(w) implies windows[w] =~= Set::<u64>::empty().insert(entity_id) by {}
    assert forall|w: u64| !remaining.contains_key(w) by {
        if windows.contains_key(w) {
            assert(windows[w].remove(entity_id) =~= Set::<u64>::empty());
        }
    }
    assert(remaining.dom() =~= Set::<u64>::empty());
    assert(middle.remove(renderable_id) =~= registry);
}

/// Showing an entity in a window with renderables the registry did not know, and then
/// taking it out of that window again, leaves the registry as it was; the renderables
/// released are exactly those that were allocated, in the same order.
pub proof fn law_submit_then_remove_entity(
    registry: Map<u64, Map<u64, Set<u64>>>,
    window_id: u64,
    entity_id: u64,
    renderable_ids: Seq<u64>,
)
    requires
        forall|i: int| 0 <= i < renderable_ids.len() ==> !registry.contains_key(#[trigger] renderable_ids[i]),
    ensures
        withdrawn(submitted(registry, window_id, entity_id, renderable_ids), seq![window_id], entity_id, renderable_ids)
            == registry,
        dropped_renderables(submitted(registry, window_id, entity_id, renderable_ids), seq![window_id], entity_id, renderable_ids)
            == fresh_renderables(renderable_ids, registry.dom()),
{
    let shown = submitted(registry, window_id, entity_id, renderable_ids);
    let ws = seq![window_id];
    assert(ws.contains(window_id)) by {
        assert(ws[0] == window_id);
    }
    assert forall|r: u64| renderable_ids.contains(r) implies shown.contains_key(r) && removed_from_windows(shown[r], ws, entity_id).is_empty() by {
        let i = choose|i: int| 0 <= i < renderable_ids.len() && renderable_ids[i] == r;
        assert(!registry.contains_key(renderable_ids[i]));
        let windows = shown[r];
        assert forall|w: u64| !removed_from_windows(windows, ws, entity_id).contains_key(w) by {
            if windows.contains_key(w) {
                assert(ws.contains(w));
                assert(windows[w] =~= Set::<u64>::empty().insert(entity_id));
                assert(windows[w].remove(entity_id) =~= Set::<u64>::empty());
            }
        }
        assert(removed_from_windows(windows, ws, entity_id).dom() =~= Set::<u64>::empty());
    }
    assert(withdrawn(shown, ws, entity_id, renderable_ids) =~= registry);
    lemma_dropped_are_fresh(registry, shown, window_id, entity_id, renderable_ids, renderable_ids);
}

/// On a prefix of the submitted renderables, the dropped ones are the fresh ones.
proof fn lemma_dropped_are_fresh(
    registry: Map<u64, Map<u64, Set<u64>>>,
    shown: Map<u64, Map<u64, Set<u64>>>,
    window_id: u64,
    entity_id: u64,
    renderable_ids: Seq<u64>,
    prefix: Seq<u64>,
)
    requires
        forall|i: int| 0 <= i < renderable_ids.len() ==> !registry.contains_key(#[trigger] renderable_ids[i]),
        forall|r: u64| renderable_ids.contains(r) ==> shown.contains_key(r) && removed_from_windows(shown[r], seq![window_id], entity_id).is_empty(),
        forall|i: int| 0 <= i < prefix.len() ==> renderable_ids.contains(#[trigger] prefix[i]),
    ensures
        dropped_renderables(shown, seq![window_id], entity_id, prefix) == fresh_renderables(prefix, registry.dom()),
    decreases prefix.len(),
{
    if prefix.len() > 0 {
        let rest = prefix.drop_last();
        assert forall|i: int| 0 <= i < rest.len() implies renderable_ids.contains(#[trigger] rest[i]) by {
            assert(rest[i] == prefix[i]);
        }
        lemma_dropped_are_fresh(registry, shown, window_id, entity_id, renderable_ids, rest);
        let r = prefix.last();
        assert(renderable_ids.contains(prefix[prefix.len() - 1]));
        let j = choose|j: int| 0 <= j < renderable_ids.len() && renderable_ids[j] == r;
        assert(!registry.contains_key(renderable_ids[j]));
    }
}

/// For each renderable, the entities that show it, grouped by window.
pub struct RenderableEntities {
    renderables: HashMap<u64, HashMap<u64, HashSet<u64>>>,
}

impl View for RenderableEntities {
    type V = Map<u64, Map<u64, Set<u64>>>;

    closed spec fn view(&self) -> Map<u64, Map<u64, Set<u64>>> {
        Map::new(|r: u64| self.renderables@.contains_key(r), |r: u64| windows_view(self.renderables@[r]))
    }
}

impl RenderableEntities {
    /// No renderable is shown anywhere.
    pub fn new() -> (r: Self)
        ensures
            r@ == Map::<u64, Map<u64, Set<u64>>>::empty(),
    {
        let r = RenderableEntities { renderables: HashMap::new() };
        assert(r@ =~= Map::<u64, Map<u64, Set<u64>>>::empty());
        r
    }

    /// How many entities show a renderable in a window, or `None` when the renderable
    /// has no entry for that window.
    pub fn window_entity_count(&self, renderable_id: u64, window_id: u64) -> (r: Option<usize>)
        ensures
            r == if windows_of(self@, renderable_id).contains_key(window_id) {
                Some(windows_of(self@, renderable_id)[window_id].len() as usize)
            } else {
                None::<usize>
            },
    {
        match self.renderables.get(&renderable_id) {
            Some(windows) => match windows.get(&window_id) {
                Some(entities) => Some(entities.len()),
                None => None,
            },
            None => None,
        }
    }

    /// A renderable was added to an entity shown in the given windows: the entity now
    /// shows it in each of them. Returns whether the renderable is new, and so needs
    /// memory in a render buffer.
    pub fn handle_renderable_added(&mut self, entity_id: u64, window_ids: &[u64], renderable_id: u64) -> (allocate: bool)
        ensures
            (final(self)@, allocate) == after_renderable_added(old(self)@, entity_id, window_ids@, renderable_id),
    {
        let ghost raw_before = self.renderables@;
        let (mut windows, allocate) = match self.renderables.remove(&renderable_id) {
            Some(windows) => (windows, false),
            None => (HashMap::new(), true),
        };
        assert(windows_view(windows) =~= windows_of(old(self)@, renderable_id));
        add_to_windows(&mut windows, window_ids, entity_id);
        self.renderables.insert(renderable_id, windows);
        assert(self@ =~= old(self)@.insert(
            renderable_id,
            added_to_windows(windows_of(old(self)@, renderable_id), window_ids@, entity_id),
        ));
        allocate
    }

    /// A renderable was taken from an entity shown in the given windows: the entity no
    /// longer shows it there, and a renderable left in no window is forgotten. Returns
    /// whether it was forgotten, and so its memory may be released.
    pub fn handle_renderable_removed(&mut self, entity_id: u64, window_ids: &[u64], renderable_id: u64) -> (deallocate: bool)
        ensures
            (final(self)@, deallocate) == after_renderable_removed(old(self)@, entity_id, window_ids@, renderable_id),
    {
        match self.renderables.remove(&renderable_id) {
            Some(mut windows) => {
                remove_from_windows(&mut windows, window_ids, entity_id);
                if windows.is_empty() {
                    assert(windows_view(windows) =~= Map::<u64, Set<u64>>::empty());
                    assert(self@ =~= old(self)@.remove(renderable_id));
                    true
                } else {
                    assert(!windows_view(windows).dom().is_empty()) by {
                        let w = choose|w: u64| windows@.contains_key(w);
                        assert(!windows@.dom().is_empty());
                        assert(windows@.dom().contains(w));
                        assert(windows_view(windows).dom().contains(w));
                    }
                    self.renderables.insert(renderable_id, windows);
                    assert(self@ =~= old(self)@.insert(renderable_id, windows_view(windows)));
                    false
                }
            },
            None => {
                assert(self@ =~= old(self)@);
                false
            },
        }
    }

    /// An entity with the given renderables is shown in a window: each renderable now has
    /// the entity in that window. Returns the renderables that were unknown, which need
    /// memory in a render buffer, each once and in order.
    pub fn submit_entity(&mut self, window_id: u64, entity_id: u64, renderable_ids: &[u64]) -> (new_renderables: Vec<u64>)
        ensures
            final(self)@ == submitted(old(self)@, window_id, entity_id, renderable_ids@),
            new_renderables@ == fresh_renderables(renderable_ids@, old(self)@.dom()),
    {
        let ghost initial = self@;
        let window: Vec<u64> = vec![window_id];
        let mut new_renderables: Vec<u64> = Vec::new();
        let mut k: usize = 0;
        while k < renderable_ids.len()
            invariant
                k <= renderable_ids@.len(),
                window@ == seq![window_id],
                self@ == submitted(initial, window_id, entity_id, renderable_ids@.take(k as int)),
                new_renderables@ == fresh_renderables(renderable_ids@.take(k as int), initial.dom()),
            decreases renderable_ids@.len() - k,
        {
            let renderable_id = renderable_ids[k];
            let ghost before = self@;
            let ghost prefix = renderable_ids@.take(k as int);
            let ghost next = renderable_ids@.take(k + 1);
            proof {
                assert(next.drop_last() =~= prefix);
                assert(next.last() == renderable_id);
                lemma_take_one_more(renderable_ids@, k as int);
            }
            let ghost raw_before = self.renderables@;
            let (mut windows, is_new) = match self.renderables.remove(&renderable_id) {
                Some(windows) => (windows, false),
                None => (HashMap::new(), true),
            };
            assert(windows_view(windows) =~= windows_of(before, renderable_id));
            add_to_windows(&mut windows, window.as_slice(), entity_id);
            let ghost added = windows_view(windows);
            self.renderables.insert(renderable_id, windows);
            if is_new {
                new_renderables.push(renderable_id);
            }
            proof {
                assert(self.renderables@ == raw_before.remove(renderable_id).insert(renderable_id, windows));
                assert(is_new == !before.contains_key(renderable_id));
                assert(before.contains_key(renderable_id) <==> initial.contains_key(renderable_id) || prefix.contains(renderable_id));
                let target = submitted(initial, window_id, entity_id, next);
                if prefix.contains(renderable_id) {
                    let once = added_to_windows(windows_of(initial, renderable_id), seq![window_id], entity_id);
                    let twice = added_to_windows(once, seq![window_id], entity_id);
                    assert(seq![window_id].contains(window_id)) by {
                        assert(seq![window_id][0] == window_id);
                    }
                    assert(twice[window_id] =~= once[window_id]);
                    assert(twice =~= once);
                }
                assert forall|r: u64| #[trigger] target.contains_key(r) implies self@.contains_key(r) && self@[r] == target[r] by {
                    if r != renderable_id {
                        assert(next.contains(r) == prefix.contains(r));
                        assert(before.contains_key(r));
                        assert(raw_before.contains_key(r));
                        assert(self.renderables@[r] == raw_before[r]);
                        assert(self@[r] == before[r]);
                    } else {
                        assert(self@[r] == added);
                    }
                }
                assert forall|r: u64| #[trigger] self@.contains_key(r) implies target.contains_key(r) by {
                    if r != renderable_id {
                        assert(next.contains(r) == prefix.contains(r));
                        assert(raw_before.contains_key(r));
                        assert(before.contains_key(r));
                    }
                }
                assert(self@ =~= target);
                assert(new_renderables@ =~= fresh_renderables(next, initial.dom()));
            }
            k = k + 1;
        }
        assert(renderable_ids@.take(renderable_ids@.len() as int) =~= renderable_ids@);
        new_renderables
    }

    /// An entity with the given renderables leaves the given windows: each renderable
    /// loses the entity there, and a renderable left in no window is forgotten. Returns
    /// the forgotten renderables, whose memory may be released, each once and in order.
    pub fn remove_entity(&mut self, window_ids: &[u64], entity_id: u64, renderable_ids: &[u64]) -> (removed_renderables: Vec<u64>)
        ensures
            final(self)@ == withdrawn(old(self)@, window_ids@, entity_id, renderable_ids@),
            removed_renderables@ == dropped_renderables(old(self)@, window_ids@, entity_id, renderable_ids@),
    {
        let ghost initial = self@;
        let mut removed_renderables: Vec<u64> = Vec::new();
        let mut k: usize = 0;
        while k < renderable_ids.len()
            invariant
                k <= renderable_ids@.len(),
                self@ == withdrawn(initial, window_ids@, entity_id, renderable_ids@.take(k as int)),
                removed_renderables@ == dropped_renderables(initial, window_ids@, entity_id, renderable_ids@.take(k as int)),
            decreases renderable_ids@.len() - k,
        {
            let renderable_id = renderable_ids[k];
            let ghost before = self@;
            let ghost prefix = renderable_ids@.take(k as int);
            let ghost next = renderable_ids@.take(k + 1);
            proof {
                assert(next.drop_last() =~= prefix);
                assert(next.last() == renderable_id);
                lemma_take_one_more(renderable_ids@, k as int);
                if initial.contains_key(renderable_id) {
                    lemma_remove_from_windows_idempotent(initial[renderable_id], window_ids@, entity_id);
                }
            }
            let ghost raw_before = self.renderables@;
            let ghost mut dropped = false;
            match self.renderables.remove(&renderable_id) {
                Some(mut windows) => {
                    remove_from_windows(&mut windows, window_ids, entity_id);
                    if windows.is_empty() {
                        assert(windows_view(windows) =~= Map::<u64, Set<u64>>::empty());
                        removed_renderables.push(renderable_id);
                        proof {
                            dropped = true;
                        }
                    } else {
                        assert(!windows_view(windows).dom().is_empty()) by {
                            assert(!windows@.dom().is_empty());
                            let w = choose|w: u64| windows@.dom().contains(w);
                            assert(windows_view(windows).dom().contains(w));
                        }
                        self.renderables.insert(renderable_id, windows);
                    }
                },
                None => {},
            }
            proof {
                let target = withdrawn(initial, window_ids@, entity_id, next);
                let remaining = removed_from_windows(before[renderable_id], window_ids@, entity_id);
                assert(dropped == (before.contains_key(renderable_id) && remaining.is_empty()));
                assert(self.renderables@.contains_key(renderable_id) == (before.contains_key(renderable_id) && !remaining.is_empty()));
                assert(self.renderables@.contains_key(renderable_id) ==> self@[renderable_id] == remaining);
                assert(forall|r: u64| r != renderable_id ==> (#[trigger] self.renderables@.contains_key(r) <==> raw_before.contains_key(r)));
                assert(forall|r: u64| r != renderable_id && raw_before.contains_key(r) ==> #[trigger] self.renderables@[r] == raw_before[r]);
                assert forall|r: u64| #[trigger] target.contains_key(r) implies self@.contains_key(r) && self@[r] == target[r] by {
                    if r != renderable_id {
                        assert(next.contains(r) == prefix.contains(r));
                        assert(before.contains_key(r));
                        assert(raw_before.contains_key(r));
                        assert(self@[r] == before[r]);
                    } else {
                        if prefix.contains(r) {
                            assert(before.contains_key(r));
                        }
                    }
                }
                assert forall|r: u64| #[trigger] self@.contains_key(r) implies target.contains_key(r) by {
                    if r != renderable_id {
                        assert(next.contains(r) == prefix.contains(r));
                        assert(raw_before.contains_key(r));
                        assert(before.contains_key(r));
                    }
                }
                assert(self@ =~= target);
                assert(removed_renderables@ =~= dropped_renderables(initial, window_ids@, entity_id, next));
            }
            k = k + 1;
        }
        assert(renderable_ids@.take(renderable_ids@.len() as int) =~= renderable_ids@);
        removed_renderables
    }
}

} // verus!
