use vstd::prelude::*;

use crate::ecs::error::{EcsError, PagedSparseSetError};
use crate::error::NeuclidioError;
use vstd::arithmetic::div_mod::{lemma_fundamental_div_mod, lemma_mod_bound};

verus! {

/// A page size is usable when it is a power of two.
pub open spec fn is_power_of_two(n: usize) -> bool {
    n > 0 && (n & ((n - 1) as usize)) == 0
}

/// The page that holds the slot of a sparse index.
pub open spec fn page_of(sparse_index: u32, page_size: usize) -> int {
    sparse_index as int / page_size as int
}

/// The position of the slot of a sparse index inside its page.
pub open spec fn slot_of(sparse_index: u32, page_size: usize) -> int {
    sparse_index as int % page_size as int
}

/// One page of sparse slots: each slot holds the dense position of its item, if any.
pub struct SparseSetPage<const PAGE_SIZE: usize> {
    indices: Vec<Option<usize>>,
}

impl<const PAGE_SIZE: usize> View for SparseSetPage<PAGE_SIZE> {
    type V = Seq<Option<usize>>;

    closed spec fn view(&self) -> Seq<Option<usize>> {
        self.indices@
    }
}

impl<const PAGE_SIZE: usize> SparseSetPage<PAGE_SIZE> {
    /// A page whose `PAGE_SIZE` slots are all empty.
    pub fn new() -> (page: Self)
        requires
            is_power_of_two(PAGE_SIZE),
        ensures
            page@.len() == PAGE_SIZE,
            forall|k: int| 0 <= k < PAGE_SIZE ==> #[trigger] page@[k] == None::<usize>,
    {
        let mut indices: Vec<Option<usize>> = Vec::new();
        while indices.len() < PAGE_SIZE
            invariant
                indices@.len() <= PAGE_SIZE,
                forall|k: int| 0 <= k < indices@.len() ==> #[trigger] indices@[k] == None::<usize>,
            decreases PAGE_SIZE - indices@.len(),
        {
            indices.push(None);
        }
        SparseSetPage { indices }
    }

    /// The slots of this page, in order.
    pub fn indices(&self) -> (r: &[Option<usize>])
        ensures
            r@ == self@,
    {
        self.indices.as_slice()
    }
}

/// A call on a sparse set with what it answered: an insertion of an item under a sparse
/// index, or a removal of a sparse index.
pub enum SparseSetCall<T> {
    Insert(u32, T, Result<(), NeuclidioError>),
    Remove(u32, Option<T>),
}

/// How many entries a history of calls adds in all: one for each insertion that
/// succeeded, less one for each removal that gave an item back.
pub open spec fn net_entries<T>(calls: Seq<SparseSetCall<T>>) -> int
    decreases calls.len(),
{
    if calls.len() == 0 {
        0
    } else {
        net_entries(calls.drop_last()) + match calls.last() {
            SparseSetCall::Insert(_, _, r) => if r is Ok {
                1int
            } else {
                0int
            },
            SparseSetCall::Remove(_, r) => if r is Some {
                -1int
            } else {
                0int
            },
        }
    }
}

/// A sparse set split into lazily allocated pages: each sparse index maps to a slot
/// of a page, and the slot points into a dense array of (sparse index, item) pairs.
pub struct PagedSparseSet<const PAGE_SIZE: usize, T> {
    sparse_pages: Vec<Option<Box<SparseSetPage<PAGE_SIZE>>>>,
    dense_sparse_indices: Vec<u32>,
    dense_items: Vec<T>,
}

impl<const PAGE_SIZE: usize, T> View for PagedSparseSet<PAGE_SIZE, T> {
    type V = Seq<(u32, T)>;

    /// The dense entries, in iteration order.
    closed spec fn view(&self) -> Seq<(u32, T)> {
        Seq::new(
            self.dense_sparse_indices@.len(),
            |i: int| (self.dense_sparse_indices@[i], self.dense_items@[i]),
        )
    }
}

impl<const PAGE_SIZE: usize, T> PagedSparseSet<PAGE_SIZE, T> {
    /// Whether some entry has the given sparse index.
    pub open spec fn has(&self, sparse_index: u32) -> bool {
        exists|i: int| 0 <= i < self@.len() && #[trigger] self@[i].0 == sparse_index
    }

    /// The dense position of the entry with the given sparse index.
    pub open spec fn position_of(&self, sparse_index: u32) -> int {
        choose|i: int| 0 <= i < self@.len() && #[trigger] self@[i].0 == sparse_index
    }

    /// The number of page slots (allocated or not) in the sparse array.
    pub closed spec fn page_count(&self) -> nat {
        self.sparse_pages@.len()
    }

    /// Whether page `p` of the sparse array is allocated.
    pub closed spec fn page_allocated(&self, p: int) -> bool {
        0 <= p < self.sparse_pages@.len() && self.sparse_pages@[p] is Some
    }

    /// The slots of page `p`, when it is allocated.
    pub closed spec fn page_slots(&self, p: int) -> Seq<Option<usize>> {
        self.sparse_pages@[p]->0@
    }

    /// The slot that belongs to a sparse index: `None` when its page is not allocated.
    pub open spec fn slot(&self, sparse_index: u32) -> Option<usize> {
        let p = page_of(sparse_index, PAGE_SIZE);
        if self.page_allocated(p) {
            self.page_slots(p)[slot_of(sparse_index, PAGE_SIZE)]
        } else {
            None
        }
    }

    /// Internal consistency of pages and dense arrays.
    pub closed spec fn wf(&self) -> bool {
        &&& is_power_of_two(PAGE_SIZE)
        &&& self.dense_sparse_indices@.len() == self.dense_items@.len()
        &&& self.dense_sparse_indices@.len() <= usize::MAX
        &&& forall|p: int|
            #![trigger self.sparse_pages@[p]]
            0 <= p < self.sparse_pages@.len() && self.sparse_pages@[p] is Some
                ==> self.sparse_pages@[p]->0@.len() == PAGE_SIZE
        &&& forall|i: int|
            #![trigger self.dense_sparse_indices@[i]]
            0 <= i < self.dense_sparse_indices@.len() ==> {
                let s = self.dense_sparse_indices@[i];
                let p = page_of(s, PAGE_SIZE);
                &&& p < self.sparse_pages@.len()
                &&& self.sparse_pages@[p] is Some
                &&& self.sparse_pages@[p]->0@[slot_of(s, PAGE_SIZE)] == Some(i as usize)
            }
        &&& forall|p: int, k: int|
            #![trigger self.sparse_pages@[p]->0@[k]]
            0 <= p < self.sparse_pages@.len() && self.sparse_pages@[p] is Some && 0 <= k
                < PAGE_SIZE && self.sparse_pages@[p]->0@[k] is Some ==> {
                let d = self.sparse_pages@[p]->0@[k]->0 as int;
                &&& 0 <= d < self.dense_sparse_indices@.len()
                &&& page_of(self.dense_sparse_indices@[d], PAGE_SIZE) == p
                &&& slot_of(self.dense_sparse_indices@[d], PAGE_SIZE) == k
            }
    }

    /// An empty set with no pages.
    pub fn new() -> (r: Self)
        requires
            is_power_of_two(PAGE_SIZE),
        ensures
            r.wf(),
            r@ == Seq::<(u32, T)>::empty(),
            r.page_count() == 0,
            forall|p: int| !#[trigger] r.page_allocated(p),
    {
        PagedSparseSet { sparse_pages: Vec::new(), dense_sparse_indices: Vec::new(), dense_items: Vec::new() }
    }

    /// Two sparse indices with the same page and slot are equal.
    proof fn lemma_same_slot_same_index(a: u32, b: u32)
        requires
            PAGE_SIZE > 0,
            page_of(a, PAGE_SIZE) == page_of(b, PAGE_SIZE),
            slot_of(a, PAGE_SIZE) == slot_of(b, PAGE_SIZE),
        ensures
            a == b,
    {
        lemma_fundamental_div_mod(a as int, PAGE_SIZE as int);
        lemma_fundamental_div_mod(b as int, PAGE_SIZE as int);
    }

    /// The slot of a sparse index points at its entry, and only present indices have one.
    pub proof fn lemma_slot_matches(&self, s: u32)
        requires
            self.wf(),
        ensures
            self.slot(s) is Some <==> self.has(s),
            self.has(s) ==> {
                &&& 0 <= self.position_of(s) < self@.len()
                &&& self@[self.position_of(s)].0 == s
                &&& self.slot(s) == Some(self.position_of(s) as usize)
            },
    {
        let p = page_of(s, PAGE_SIZE);
        let k = slot_of(s, PAGE_SIZE);
        lemma_mod_bound(s as int, PAGE_SIZE as int);
        if self.slot(s) is Some {
            let d = self.slot(s)->0 as int;
            assert(self.sparse_pages@[p]->0@[k] is Some);
            let key = self.dense_sparse_indices@[d];
            Self::lemma_same_slot_same_index(key, s);
            assert(self@[d].0 == s);
        }
        if self.has(s) {
            let i = self.position_of(s);
            assert(self.dense_sparse_indices@[i] == s);
        }
    }

    /// What every page slot holds: an allocated page has `PAGE_SIZE` slots; a filled slot
    /// points at the entry whose sparse index falls on that page and slot, and the slot of
    /// every entry holds that entry's dense position. So a slot is empty exactly when no
    /// entry's sparse index falls on it.
    pub proof fn lemma_page_slots(&self)
        requires
            self.wf(),
        ensures
            forall|p: int| #[trigger] self.page_allocated(p) ==> 0 <= p < self.page_count() && self.page_slots(p).len() == PAGE_SIZE,
            forall|p: int, k: int|
                #![trigger self.page_slots(p)[k]]
                self.page_allocated(p) && 0 <= k < PAGE_SIZE && self.page_slots(p)[k] is Some ==> {
                    let d = self.page_slots(p)[k]->0 as int;
                    &&& 0 <= d < self@.len()
                    &&& page_of(self@[d].0, PAGE_SIZE) == p
                    &&& slot_of(self@[d].0, PAGE_SIZE) == k
                },
            forall|i: int|
                #![trigger self@[i]]
                0 <= i < self@.len() ==> {
                    let p = page_of(self@[i].0, PAGE_SIZE);
                    let k = slot_of(self@[i].0, PAGE_SIZE);
                    &&& self.page_allocated(p)
                    &&& 0 <= k < PAGE_SIZE
                    &&& self.page_slots(p)[k] == Some(i as usize)
                },
    {
        assert forall|i: int| #![trigger self@[i]] 0 <= i < self@.len() implies {
            let p = page_of(self@[i].0, PAGE_SIZE);
            let k = slot_of(self@[i].0, PAGE_SIZE);
            &&& self.page_allocated(p)
            &&& 0 <= k < PAGE_SIZE
            &&& self.page_slots(p)[k] == Some(i as usize)
        } by {
            assert(self@[i].0 == self.dense_sparse_indices@[i]);
            lemma_mod_bound(self@[i].0 as int, PAGE_SIZE as int);
            vstd::arithmetic::div_mod::lemma_div_pos_is_pos(self@[i].0 as int, PAGE_SIZE as int);
        }
        assert forall|p: int, k: int|
            #![trigger self.page_slots(p)[k]]
            self.page_allocated(p) && 0 <= k < PAGE_SIZE && self.page_slots(p)[k] is Some implies {
                let d = self.page_slots(p)[k]->0 as int;
                &&& 0 <= d < self@.len()
                &&& page_of(self@[d].0, PAGE_SIZE) == p
                &&& slot_of(self@[d].0, PAGE_SIZE) == k
            } by {
            assert(self.sparse_pages@[p]->0@[k] is Some);
            let d = self.page_slots(p)[k]->0 as int;
            assert(self@[d].0 == self.dense_sparse_indices@[d]);
        }
    }

    /// No two dense entries share a sparse index.
    pub proof fn lemma_keys_distinct(&self)
        requires
            self.wf(),
        ensures
            forall|i: int, j: int|
                0 <= i < self@.len() && 0 <= j < self@.len() && i != j ==> #[trigger] self@[i].0
                    != #[trigger] self@[j].0,
    {
        assert forall|i: int, j: int|
            0 <= i < self@.len() && 0 <= j < self@.len() && i != j implies #[trigger] self@[i].0
                != #[trigger] self@[j].0 by {
            assert(self@[i].0 == self.dense_sparse_indices@[i]);
            assert(self@[j].0 == self.dense_sparse_indices@[j]);
        }
    }

    /// A present sparse index sits at exactly one dense position.
    pub proof fn lemma_position_unique(&self, sparse_index: u32, i: int)
        requires
            self.wf(),
            0 <= i < self@.len(),
            self@[i].0 == sparse_index,
        ensures
            self.has(sparse_index),
            self.position_of(sparse_index) == i,
    {
        self.lemma_keys_distinct();
        assert(self.has(sparse_index));
    }

    /// What `insert` answers and the entries it leaves behind.
    pub open spec fn insert_outcome(
        old: Self,
        new: Self,
        sparse_index: u32,
        item: T,
        r: Result<(), NeuclidioError>,
    ) -> bool {
        &&& r is Err <==> old.has(sparse_index)
        &&& r is Err ==> {
            &&& r == Err::<(), NeuclidioError>(
                NeuclidioError::EcsError(EcsError::PagedSparseSetError(PagedSparseSetError::SlotFull)),
            )
            &&& new == old
        }
        &&& r is Ok ==> new@ == old@.push((sparse_index, item))
    }

    /// What `remove` answers and the entries it leaves behind.
    pub open spec fn remove_outcome(old: Self, new: Self, sparse_index: u32, r: Option<T>) -> bool {
        &&& r is None <==> !old.has(sparse_index)
        &&& r is None ==> new == old
        &&& r is Some ==> {
            let i = old.position_of(sparse_index);
            &&& r->0 == old@[i].1
            &&& new@ == old@.update(i, old@.last()).drop_last()
        }
    }

    /// Removing what was just inserted gives back the inserted item and leaves the
    /// same sparse indices present as before the insertion.
    pub proof fn law_insert_then_remove(
        s0: Self,
        s1: Self,
        s2: Self,
        sparse_index: u32,
        item: T,
        r2: Option<T>,
    )
        requires
            s0.wf(),
            s1.wf(),
            s2.wf(),
            Self::insert_outcome(s0, s1, sparse_index, item, Ok(())),
            Self::remove_outcome(s1, s2, sparse_index, r2),
        ensures
            r2 == Some(item),
            forall|t: u32| #[trigger] s2.has(t) == s0.has(t),
            s2@ == s0@,
    {
        let n = s0@.len() as int;
        assert(s1@[n].0 == sparse_index);
        s1.lemma_position_unique(sparse_index, n);
        assert(s2@ =~= s0@);
    }

    /// The item stored under a sparse index, if any.
    pub open spec fn lookup(&self, sparse_index: u32) -> Option<T> {
        if self.has(sparse_index) {
            Some(self@[self.position_of(sparse_index)].1)
        } else {
            None
        }
    }

    /// Reading after an insertion gives back the inserted item under its sparse index
    /// and what was there before under every other one.
    pub proof fn law_insert_then_get(s0: Self, s1: Self, sparse_index: u32, item: T)
        requires
            s0.wf(),
            s1.wf(),
            Self::insert_outcome(s0, s1, sparse_index, item, Ok(())),
        ensures
            s1.lookup(sparse_index) == Some(item),
            forall|t: u32| t != sparse_index ==> #[trigger] s1.lookup(t) == s0.lookup(t),
    {
        let n = s0@.len() as int;
        assert(s1@[n].0 == sparse_index);
        s1.lemma_position_unique(sparse_index, n);
        assert forall|t: u32| t != sparse_index implies #[trigger] s1.lookup(t) == s0.lookup(t) by {
            if s0.has(t) {
                let i = s0.position_of(t);
                assert(s1@[i] == s0@[i]);
                s1.lemma_position_unique(t, i);
            }
            if s1.has(t) {
                let i = s1.position_of(t);
                assert(i != n);
                assert(s0@[i] == s1@[i]);
                s0.lemma_position_unique(t, i);
            }
        }
    }

    /// Reading after a removal finds nothing under the removed sparse index and what
    /// was there before under every other one; the removal gave back what was stored.
    pub proof fn law_remove_then_get(s0: Self, s1: Self, sparse_index: u32, r: Option<T>)
        requires
            s0.wf(),
            s1.wf(),
            Self::remove_outcome(s0, s1, sparse_index, r),
        ensures
            r == s0.lookup(sparse_index),
            s1.lookup(sparse_index) is None,
            forall|t: u32| t != sparse_index ==> #[trigger] s1.lookup(t) == s0.lookup(t),
    {
        if s0.has(sparse_index) {
            let i = s0.position_of(sparse_index);
            let n = s0@.len() as int;
            s0.lemma_keys_distinct();
            assert(s1@.len() == n - 1);
            assert(forall|j: int| 0 <= j < n - 1 && j != i ==> #[trigger] s1@[j] == s0@[j]);
            assert(i < n - 1 ==> s1@[i] == s0@[n - 1]);
            if s1.has(sparse_index) {
                let j = s1.position_of(sparse_index);
                if j == i {
                    assert(s0@[n - 1].0 == sparse_index);
                } else {
                    assert(s0@[j].0 == sparse_index);
                }
            }
            assert forall|t: u32| t != sparse_index implies #[trigger] s1.lookup(t) == s0.lookup(t) by {
                if s0.has(t) {
                    let k = s0.position_of(t);
                    if k == n - 1 {
                        assert(s1@[i] == s0@[k]);
                        s1.lemma_position_unique(t, i);
                    } else {
                        assert(s1@[k] == s0@[k]);
                        s1.lemma_position_unique(t, k);
                    }
                }
                if s1.has(t) {
                    let k = s1.position_of(t);
                    if k == i {
                        assert(s0@[n - 1] == s1@[k]);
                        s0.lemma_position_unique(t, n - 1);
                    } else {
                        assert(s0@[k] == s1@[k]);
                        s0.lemma_position_unique(t, k);
                    }
                }
            }
        }
    }

    /// A history of successful insertions into an empty set holds one entry per
    /// insertion, in the order of the insertions.
    pub proof fn law_inserts_keep_order(states: Seq<Self>, sparse_indices: Seq<u32>, items: Seq<T>)
        requires
            states.len() == sparse_indices.len() + 1,
            items.len() == sparse_indices.len(),
            states[0]@ == Seq::<(u32, T)>::empty(),
            forall|k: int|
                0 <= k < sparse_indices.len() ==> Self::insert_outcome(
                    #[trigger] states[k],
                    states[k + 1],
                    sparse_indices[k],
                    items[k],
                    Ok(()),
                ),
        ensures
            states.last()@.len() == sparse_indices.len(),
            states.last()@ == Seq::new(sparse_indices.len(), |k: int| (sparse_indices[k], items[k])),
        decreases sparse_indices.len(),
    {
        let n = sparse_indices.len() as int;
        if n > 0 {
            let prefix_states = states.take(n);
            assert forall|k: int| 0 <= k < n - 1 implies Self::insert_outcome(
                #[trigger] prefix_states[k],
                prefix_states[k + 1],
                sparse_indices.drop_last()[k],
                items.drop_last()[k],
                Ok(()),
            ) by {
                assert(prefix_states[k] == states[k]);
                assert(prefix_states[k + 1] == states[k + 1]);
                assert(Self::insert_outcome(states[k], states[k + 1], sparse_indices[k], items[k], Ok(())));
            }
            Self::law_inserts_keep_order(prefix_states, sparse_indices.drop_last(), items.drop_last());
            assert(Self::insert_outcome(states[n - 1], states[n], sparse_indices[n - 1], items[n - 1], Ok(())));
            assert(states.last()@ =~= Seq::new(sparse_indices.len(), |k: int| (sparse_indices[k], items[k])));
        }
    }

    /// What a call answered and left behind, as `insert` and `remove` promise it.
    pub open spec fn call_outcome(old: Self, new: Self, call: SparseSetCall<T>) -> bool {
        match call {
            SparseSetCall::Insert(sparse_index, item, r) => Self::insert_outcome(old, new, sparse_index, item, r),
            SparseSetCall::Remove(sparse_index, r) => Self::remove_outcome(old, new, sparse_index, r),
        }
    }

    /// Over any history of insertions and removals, the number of entries grows by one
    /// for each insertion that succeeded and shrinks by one for each removal that gave
    /// an item back.
    pub proof fn law_entry_count(states: Seq<Self>, calls: Seq<SparseSetCall<T>>)
        requires
            states.len() == calls.len() + 1,
            forall|k: int| 0 <= k < calls.len() ==> Self::call_outcome(#[trigger] states[k], states[k + 1], calls[k]),
        ensures
            states.last()@.len() == states[0]@.len() + net_entries(calls),
        decreases calls.len(),
    {
        let n = calls.len() as int;
        if n > 0 {
            let prefix = states.take(n);
            assert forall|k: int| 0 <= k < n - 1 implies Self::call_outcome(
                #[trigger] prefix[k],
                prefix[k + 1],
                calls.drop_last()[k],
            ) by {
                assert(prefix[k] == states[k]);
                assert(prefix[k + 1] == states[k + 1]);
                assert(Self::call_outcome(states[k], states[k + 1], calls[k]));
            }
            Self::law_entry_count(prefix, calls.drop_last());
            assert(Self::call_outcome(states[n - 1], states[n], calls[n - 1]));
            match calls[n - 1] {
                SparseSetCall::Insert(_, _, _) => {},
                SparseSetCall::Remove(sparse_index, r) => {
                    if r is Some {
                        assert(states[n - 1].has(sparse_index));
                    }
                },
            }
        }
    }

    /// The page and the slot inside it that hold a sparse index.
    fn get_page_and_item_indices(sparse_index: u32) -> (r: (usize, usize))
        requires
            PAGE_SIZE > 0,
        ensures
            r.0 == page_of(sparse_index, PAGE_SIZE),
            r.1 == slot_of(sparse_index, PAGE_SIZE),
            r.1 < PAGE_SIZE,
    {
        let sparse_index = sparse_index as usize;
        (sparse_index / PAGE_SIZE, sparse_index % PAGE_SIZE)
    }

    /// The dense position stored in the slot of a sparse index, if any.
    fn find_dense_index(&self, sparse_index: u32) -> (r: Option<usize>)
        requires
            self.wf(),
        ensures
            r == self.slot(sparse_index),
    {
        let (sparse_page_index, sparse_item_index) = Self::get_page_and_item_indices(sparse_index);
        if sparse_page_index < self.sparse_pages.len() {
            match &self.sparse_pages[sparse_page_index] {
                Some(sparse_page) => sparse_page.indices[sparse_item_index],
                None => None,
            }
        } else {
            None
        }
    }

    /// Whether an item is stored under the sparse index.
    pub fn contains(&self, sparse_index: u32) -> (r: bool)
        requires
            self.wf(),
        ensures
            r == self.has(sparse_index),
    {
        proof {
            self.lemma_slot_matches(sparse_index);
        }
        self.find_dense_index(sparse_index).is_some()
    }

    /// The item stored under the sparse index, if any.
    pub fn get(&self, sparse_index: u32) -> (r: Option<&T>)
        requires
            self.wf(),
        ensures
            r is Some <==> self.has(sparse_index),
            r is Some ==> *r->0 == self@[self.position_of(sparse_index)].1,
    {
        proof {
            self.lemma_slot_matches(sparse_index);
        }
        match self.find_dense_index(sparse_index) {
            Some(dense_index) => {
                assert(self.slot(sparse_index) is Some);
                assert(self.has(sparse_index));
                assert(dense_index as int == self.position_of(sparse_index));
                assert(self@[dense_index as int].1 == self.dense_items@[dense_index as int]);
                Some(&self.dense_items[dense_index])
            },
            None => None,
        }
    }

    /// A mutable reference to the item stored under the sparse index, if any.
    pub fn get_mut(&mut self, sparse_index: u32) -> (r: Option<&mut T>)
        requires
            old(self).wf(),
        ensures
            r is Some <==> old(self).has(sparse_index),
            r is None ==> *final(self) == *old(self),
            r is Some ==> {
                let i = old(self).position_of(sparse_index);
                &&& *r->0 == old(self)@[i].1
                &&& final(self).wf()
                &&& final(self)@ == old(self)@.update(i, (sparse_index, *final(r->0)))
                &&& final(self).page_count() == old(self).page_count()
            },
    {
        proof {
            self.lemma_slot_matches(sparse_index);
        }
        match self.find_dense_index(sparse_index) {
            Some(dense_index) => {
                assert(self@[dense_index as int].0 == self.dense_sparse_indices@[dense_index as int]);
                assert(self@[dense_index as int].1 == self.dense_items@[dense_index as int]);
                assert(self.dense_sparse_indices@[dense_index as int] == sparse_index);
                Some(&mut self.dense_items[dense_index])
            },
            None => None,
        }
    }

    /// Writes `value` into slot `k` of the allocated page `p`.
    fn set_slot(&mut self, p: usize, k: usize, value: Option<usize>)
        requires
            p < old(self).sparse_pages@.len(),
            old(self).sparse_pages@[p as int] is Some,
            k < old(self).sparse_pages@[p as int]->0@.len(),
        ensures
            final(self).sparse_pages@.len() == old(self).sparse_pages@.len(),
            forall|q: int|
                0 <= q < old(self).sparse_pages@.len() && q != p ==> #[trigger] final(self).sparse_pages@[q]
                    == old(self).sparse_pages@[q],
            final(self).sparse_pages@[p as int] is Some,
            final(self).sparse_pages@[p as int]->0@ == old(self).sparse_pages@[p as int]->0@.update(
                k as int,
                value,
            ),
            final(self).dense_sparse_indices == old(self).dense_sparse_indices,
            final(self).dense_items == old(self).dense_items,
    {
        match &mut self.sparse_pages[p] {
            Some(sparse_page) => {
                sparse_page.indices.set(k, value);
            },
            None => {},
        }
    }

    /// Stores `item` under `sparse_index`, allocating its page (and the pages before it)
    /// when needed; fails with `SlotFull`, changing nothing, when the index is taken.
    pub fn insert(&mut self, sparse_index: u32, item: T) -> (r: Result<(), NeuclidioError>)
        requires
            old(self).wf(),
            page_of(sparse_index, PAGE_SIZE) < usize::MAX,
            old(self)@.len() < usize::MAX,
        ensures
            final(self).wf(),
            Self::insert_outcome(*old(self), *final(self), sparse_index, item, r),
            r is Ok ==> {
                &&& final(self).has(sparse_index)
                &&& final(self)@[final(self).position_of(sparse_index)].1 == item
                &&& forall|t: u32| t != sparse_index ==> #[trigger] final(self).has(t) == old(self).has(t)
                &&& final(self).page_count() == if page_of(sparse_index, PAGE_SIZE) < old(self).page_count() {
                    old(self).page_count() as int
                } else {
                    page_of(sparse_index, PAGE_SIZE) + 1
                }
                &&& forall|p: int| #[trigger] final(self).page_allocated(p) <==> (old(self).page_allocated(p)
                    || p == page_of(sparse_index, PAGE_SIZE))
            },
    {
        proof {
            self.lemma_slot_matches(sparse_index);
        }
        if self.find_dense_index(sparse_index).is_some() {
            return Err(NeuclidioError::EcsError(EcsError::PagedSparseSetError(PagedSparseSetError::SlotFull)));
        }
        let (sparse_page_index, sparse_item_index) = Self::get_page_and_item_indices(sparse_index);
        let ghost old_self = *self;

        if sparse_page_index >= self.sparse_pages.len() {
            while self.sparse_pages.len() <= sparse_page_index
                invariant
                    sparse_page_index < usize::MAX,
                    self.sparse_pages@.len() <= sparse_page_index + 1,
                    self.sparse_pages@.len() >= old_self.sparse_pages@.len(),
                    forall|q: int| 0 <= q < old_self.sparse_pages@.len() ==> #[trigger] self.sparse_pages@[q] == old_self.sparse_pages@[q],
                    forall|q: int| old_self.sparse_pages@.len() <= q < self.sparse_pages@.len() ==> #[trigger] self.sparse_pages@[q] is None,
                    self.dense_sparse_indices == old_self.dense_sparse_indices,
                    self.dense_items == old_self.dense_items,
                decreases sparse_page_index + 1 - self.sparse_pages@.len(),
            {
                self.sparse_pages.push(None);
            }
        }
        if self.sparse_pages[sparse_page_index].is_none() {
            self.sparse_pages.set(sparse_page_index, Some(Box::new(SparseSetPage::new())));
        }
        let ghost before_push = *self;
        let dense_index = self.dense_sparse_indices.len();
        self.dense_sparse_indices.push(sparse_index);
        self.dense_items.push(item);
        self.set_slot(sparse_page_index, sparse_item_index, Some(dense_index));
        proof {
            assert(self@ =~= old_self@.push((sparse_index, item)));
            assert forall|i: int| 0 <= i < self.dense_sparse_indices@.len() implies {
                let s = #[trigger] self.dense_sparse_indices@[i];
                let p = page_of(s, PAGE_SIZE);
                &&& p < self.sparse_pages@.len()
                &&& self.sparse_pages@[p] is Some
                &&& self.sparse_pages@[p]->0@[slot_of(s, PAGE_SIZE)] == Some(i as usize)
            } by {
                let s = self.dense_sparse_indices@[i];
                if i < dense_index {
                    assert(old_self.dense_sparse_indices@[i] == s);
                    if page_of(s, PAGE_SIZE) == page_of(sparse_index, PAGE_SIZE) && slot_of(s, PAGE_SIZE) == slot_of(sparse_index, PAGE_SIZE) {
                        Self::lemma_same_slot_same_index(s, sparse_index);
                        assert(old_self@[i].0 == sparse_index);
                    }
                }
            }
            assert forall|p: int, k: int|
                0 <= p < self.sparse_pages@.len() && self.sparse_pages@[p] is Some && 0 <= k
                    < PAGE_SIZE && #[trigger] self.sparse_pages@[p]->0@[k] is Some implies {
                    let d = self.sparse_pages@[p]->0@[k]->0 as int;
                    &&& 0 <= d < self.dense_sparse_indices@.len()
                    &&& page_of(self.dense_sparse_indices@[d], PAGE_SIZE) == p
                    &&& slot_of(self.dense_sparse_indices@[d], PAGE_SIZE) == k
                } by {
                if !(p == sparse_page_index && k == sparse_item_index) {
                    assert(before_push.sparse_pages@[p]->0@[k] == self.sparse_pages@[p]->0@[k]);
                    if p < old_self.sparse_pages@.len() && old_self.sparse_pages@[p] is Some {
                        assert(old_self.sparse_pages@[p] == before_push.sparse_pages@[p]);
                    } else {
                        assert(p == sparse_page_index);
                    }
                }
            }
            assert forall|p: int| #[trigger] self.page_allocated(p) <==> (old_self.page_allocated(p)
                    || p == page_of(sparse_index, PAGE_SIZE)) by {}
            self.lemma_position_unique(sparse_index, dense_index as int);
            assert forall|t: u32| t != sparse_index implies #[trigger] self.has(t) == old_self.has(t) by {
                if old_self.has(t) {
                    let j = old_self.position_of(t);
                    assert(self@[j].0 == t);
                }
                if self.has(t) {
                    let j = self.position_of(t);
                    assert(old_self@[j].0 == t);
                }
            }
        }
        Ok(())
    }

    /// Removes and returns the item stored under `sparse_index`; the last dense entry
    /// takes its place. Returns `None`, changing nothing, when the index is free.
    pub fn remove(&mut self, sparse_index: u32) -> (r: Option<T>)
        requires
            old(self).wf(),
        ensures
            final(self).wf(),
            Self::remove_outcome(*old(self), *final(self), sparse_index, r),
            r is Some ==> {
                &&& !final(self).has(sparse_index)
                &&& forall|t: u32| t != sparse_index ==> #[trigger] final(self).has(t) == old(self).has(t)
                &&& final(self).page_count() == old(self).page_count()
                &&& forall|p: int| #[trigger] final(self).page_allocated(p) == old(self).page_allocated(p)
            },
    {
        proof {
            self.lemma_slot_matches(sparse_index);
        }
        let dense_index = match self.find_dense_index(sparse_index) {
            Some(dense_index) => dense_index,
            None => return None,
        };
        let ghost old_self = *self;
        let ghost last = (old_self.dense_sparse_indices@.len() - 1) as int;
        let (sparse_page_index, sparse_item_index) = Self::get_page_and_item_indices(sparse_index);
        self.set_slot(sparse_page_index, sparse_item_index, None);
        let ghost cleared = *self;
        self.dense_sparse_indices.swap_remove(dense_index);
        let item = self.dense_items.swap_remove(dense_index);
        assert(self@ =~= old_self@.update(dense_index as int, old_self@.last()).drop_last());
        if dense_index < self.dense_sparse_indices.len() {
            let swapped_sparse_index = self.dense_sparse_indices[dense_index];
            assert(swapped_sparse_index == old_self.dense_sparse_indices@[last]);
            let (swapped_sparse_page_index, swapped_sparse_item_index) = Self::get_page_and_item_indices(
                swapped_sparse_index,
            );
            proof {
                if swapped_sparse_page_index == sparse_page_index && swapped_sparse_item_index == sparse_item_index {
                    Self::lemma_same_slot_same_index(swapped_sparse_index, sparse_index);
                }
            }
            let ghost before_swap_fix = *self;
            self.set_slot(swapped_sparse_page_index, swapped_sparse_item_index, Some(dense_index));
            proof {
                assert forall|i: int| 0 <= i < self.dense_sparse_indices@.len() implies {
                    let s = #[trigger] self.dense_sparse_indices@[i];
                    let p = page_of(s, PAGE_SIZE);
                    &&& p < self.sparse_pages@.len()
                    &&& self.sparse_pages@[p] is Some
                    &&& self.sparse_pages@[p]->0@[slot_of(s, PAGE_SIZE)] == Some(i as usize)
                } by {
                    let s = self.dense_sparse_indices@[i];
                    if i != dense_index {
                        assert(old_self.dense_sparse_indices@[i] == s);
                        if page_of(s, PAGE_SIZE) == page_of(sparse_index, PAGE_SIZE) && slot_of(s, PAGE_SIZE) == slot_of(sparse_index, PAGE_SIZE) {
                            Self::lemma_same_slot_same_index(s, sparse_index);
                        }
                        if page_of(s, PAGE_SIZE) == swapped_sparse_page_index && slot_of(s, PAGE_SIZE) == swapped_sparse_item_index {
                            Self::lemma_same_slot_same_index(s, swapped_sparse_index);
                        }
                    }
                }
                assert forall|p: int, k: int|
                    0 <= p < self.sparse_pages@.len() && self.sparse_pages@[p] is Some && 0 <= k
                        < PAGE_SIZE && #[trigger] self.sparse_pages@[p]->0@[k] is Some implies {
                        let d = self.sparse_pages@[p]->0@[k]->0 as int;
                        &&& 0 <= d < self.dense_sparse_indices@.len()
                        &&& page_of(self.dense_sparse_indices@[d], PAGE_SIZE) == p
                        &&& slot_of(self.dense_sparse_indices@[d], PAGE_SIZE) == k
                    } by {
                    if !(p == swapped_sparse_page_index && k == swapped_sparse_item_index) {
                        assert(before_swap_fix.sparse_pages@[p]->0@[k] == self.sparse_pages@[p]->0@[k]);
                        assert(!(p == sparse_page_index && k == sparse_item_index));
                        assert(cleared.sparse_pages@[p]->0@[k] == old_self.sparse_pages@[p]->0@[k]);
                        let d = old_self.sparse_pages@[p]->0@[k]->0 as int;
                        if d == last {
                            Self::lemma_same_slot_same_index(old_self.dense_sparse_indices@[d], swapped_sparse_index);
                        }
                        if d == dense_index {
                            Self::lemma_same_slot_same_index(old_self.dense_sparse_indices@[d], sparse_index);
                        }
                    }
                }
                assert forall|p: int| #[trigger] self.page_allocated(p) == old_self.page_allocated(p) by {}
            }
        } else {
            proof {
                assert forall|p: int, k: int|
                    0 <= p < self.sparse_pages@.len() && self.sparse_pages@[p] is Some && 0 <= k
                        < PAGE_SIZE && #[trigger] self.sparse_pages@[p]->0@[k] is Some implies {
                        let d = self.sparse_pages@[p]->0@[k]->0 as int;
                        &&& 0 <= d < self.dense_sparse_indices@.len()
                        &&& page_of(self.dense_sparse_indices@[d], PAGE_SIZE) == p
                        &&& slot_of(self.dense_sparse_indices@[d], PAGE_SIZE) == k
                    } by {
                    if !(p == sparse_page_index && k == sparse_item_index) {
                        assert(cleared.sparse_pages@[p]->0@[k] == old_self.sparse_pages@[p]->0@[k]);
                        let d = old_self.sparse_pages@[p]->0@[k]->0 as int;
                        if d == dense_index {
                            Self::lemma_same_slot_same_index(old_self.dense_sparse_indices@[d], sparse_index);
                        }
                    }
                }
                assert forall|i: int| 0 <= i < self.dense_sparse_indices@.len() implies {
                    let s = #[trigger] self.dense_sparse_indices@[i];
                    let p = page_of(s, PAGE_SIZE);
                    &&& p < self.sparse_pages@.len()
                    &&& self.sparse_pages@[p] is Some
                    &&& self.sparse_pages@[p]->0@[slot_of(s, PAGE_SIZE)] == Some(i as usize)
                } by {
                    let s = self.dense_sparse_indices@[i];
                    assert(old_self.dense_sparse_indices@[i] == s);
                    if page_of(s, PAGE_SIZE) == page_of(sparse_index, PAGE_SIZE) && slot_of(s, PAGE_SIZE) == slot_of(sparse_index, PAGE_SIZE) {
                        Self::lemma_same_slot_same_index(s, sparse_index);
                    }
                }
                assert forall|p: int| #[trigger] self.page_allocated(p) == old_self.page_allocated(p) by {}
            }
        }
        proof {
            let i = dense_index as int;
            old_self.lemma_keys_distinct();
            assert(old_self@[i].0 == sparse_index);
            if self.has(sparse_index) {
                let j = self.position_of(sparse_index);
                if j == i {
                    assert(old_self@[last].0 == sparse_index);
                } else {
                    assert(old_self@[j].0 == sparse_index);
                }
            }
            assert forall|t: u32| t != sparse_index implies #[trigger] self.has(t) == old_self.has(t) by {
                if old_self.has(t) {
                    let j = old_self.position_of(t);
                    if j == last {
                        assert(self@[i].0 == t);
                    } else {
                        assert(self@[j].0 == t);
                    }
                }
                if self.has(t) {
                    let j = self.position_of(t);
                    if j == i {
                        assert(old_self@[last].0 == t);
                    } else {
                        assert(old_self@[j].0 == t);
                    }
                }
            }
        }
        Some(item)
    }

    /// The dense entries in order, each as its sparse index and a reference to its item.
    pub fn iter(&self) -> (r: Vec<(u32, &T)>)
        requires
            self.wf(),
        ensures
            r@.len() == self@.len(),
            forall|i: int| 0 <= i < r@.len() ==> (#[trigger] r@[i]).0 == self@[i].0 && *r@[i].1 == self@[i].1,
    {
        let mut entries: Vec<(u32, &T)> = Vec::new();
        let mut i: usize = 0;
        while i < self.dense_sparse_indices.len()
            invariant
                self.wf(),
                i <= self.dense_sparse_indices@.len(),
                entries@.len() == i,
                forall|j: int| 0 <= j < i ==> (#[trigger] entries@[j]).0 == self@[j].0 && *entries@[j].1 == self@[j].1,
            decreases self.dense_sparse_indices@.len() - i,
        {
            entries.push((self.dense_sparse_indices[i], &self.dense_items[i]));
            i = i + 1;
        }
        entries
    }

    /// The sparse indices of the dense entries, and their items for in-place update.
    pub fn iter_mut(&mut self) -> (r: (&[u32], &mut [T]))
        requires
            old(self).wf(),
        ensures
            r.0@.len() == old(self)@.len(),
            r.1@.len() == old(self)@.len(),
            forall|i: int| 0 <= i < old(self)@.len() ==> #[trigger] r.0@[i] == old(self)@[i].0 && r.1@[i] == old(self)@[i].1,
            final(r.1)@.len() == old(self)@.len() ==> {
                &&& final(self).wf()
                &&& final(self)@ == Seq::new(old(self)@.len(), |i: int| (old(self)@[i].0, final(r.1)@[i]))
                &&& final(self).page_count() == old(self).page_count()
                &&& forall|p: int| #[trigger] final(self).page_allocated(p) == old(self).page_allocated(p)
            },
    {
        (self.dense_sparse_indices.as_slice(), self.dense_items.as_mut_slice())
    }

    /// The number of page slots in the sparse array.
    pub fn sparse_page_count(&self) -> (r: usize)
        ensures
            r == self.page_count(),
    {
        self.sparse_pages.len()
    }

    /// Page `p` of the sparse array, when it is allocated.
    pub fn sparse_page(&self, p: usize) -> (r: Option<&SparseSetPage<PAGE_SIZE>>)
        ensures
            r is Some <==> self.page_allocated(p as int),
            r is Some ==> r->0@ == self.page_slots(p as int),
    {
        if p < self.sparse_pages.len() {
            match &self.sparse_pages[p] {
                Some(sparse_page) => Some(&**sparse_page),
                None => None,
            }
        } else {
            None
        }
    }
}

} // verus!
