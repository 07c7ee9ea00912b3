use vstd::prelude::*;

use crate::error::{NeuclidioError, RenderError, RenderPipelineError};
use std::collections::HashMap;

verus! {

broadcast use vstd::std_specs::hash::group_hash_axioms;

/// The alignment of every allocation in a render buffer.
pub const RENDER_BUFFER_ALIGNMENT: u64 = 16;

/// The smallest render buffer that is ever created.
pub const MIN_RENDER_BUFFER_SIZE: u64 = 1024 * 1024 * 64;

/// The size of a new render buffer for an allocation of `virtual_allocation_size` bytes.
pub fn render_buffer_block_size(virtual_allocation_size: u64) -> (r: u64)
    ensures
        r == if virtual_allocation_size < MIN_RENDER_BUFFER_SIZE {
            MIN_RENDER_BUFFER_SIZE
        } else {
            virtual_allocation_size
        },
{
    if virtual_allocation_size < MIN_RENDER_BUFFER_SIZE {
        MIN_RENDER_BUFFER_SIZE
    } else {
        virtual_allocation_size
    }
}

/// Where a renderable sits in the render buffers, if it is allocated, and its size.
#[derive(Debug, Clone, Copy, PartialEq, Eq, Structural)]
pub struct RenderableAllocation {
    pub render_buffer_id: Option<u64>,
    pub render_buffer_offset: Option<u64>,
    pub size_in_render_buffer: u64,
}

/// The offset just past a renderable in its render buffer.
pub open spec fn end_offset(allocation: RenderableAllocation) -> Option<u64> {
    match allocation.render_buffer_offset {
        Some(offset) => Some((offset + allocation.size_in_render_buffer) as u64),
        None => None,
    }
}

/// Whether `next` lies in the same render buffer right after `previous`.
pub open spec fn continues(previous: RenderableAllocation, next: RenderableAllocation) -> bool {
    next.render_buffer_id == previous.render_buffer_id && next.render_buffer_offset == end_offset(previous)
}

/// The copy batches after the first `n` renderables: the closed batches and the open one.
/// A renderable that continues the open batch joins it; one that does not closes the open
/// batch and joins no batch; one that meets no open batch opens a batch.
pub open spec fn copy_plan_upto(allocations: Seq<RenderableAllocation>, n: nat) -> (Seq<Seq<usize>>, Seq<usize>)
    decreases n,
{
    if n == 0 {
        (Seq::empty(), Seq::empty())
    } else {
        let (closed, open) = copy_plan_upto(allocations, (n - 1) as nat);
        let k = n - 1;
        if open.len() == 0 {
            (closed, seq![k as usize])
        } else if continues(allocations[open.last() as int], allocations[k]) {
            (closed, open.push(k as usize))
        } else {
            (closed.push(open), Seq::empty())
        }
    }
}

/// The batches of renderables that are copied together into the render buffers.
pub open spec fn copy_plan(allocations: Seq<RenderableAllocation>) -> Seq<Seq<usize>> {
    let (closed, open) = copy_plan_upto(allocations, allocations.len());
    if open.len() == 0 {
        closed
    } else {
        closed.push(open)
    }
}

/// Whether `next` starts in the same render buffer exactly where `previous` ends: the
/// same buffer, and its offset is `previous`'s offset plus `previous`'s size (or both
/// have no offset).
pub open spec fn lies_right_after(previous: RenderableAllocation, next: RenderableAllocation) -> bool {
    &&& next.render_buffer_id == previous.render_buffer_id
    &&& previous.render_buffer_offset is Some ==> next.render_buffer_offset is Some
        && next.render_buffer_offset->0 == previous.render_buffer_offset->0 + previous.size_in_render_buffer
    &&& previous.render_buffer_offset is None ==> next.render_buffer_offset is None
}

/// A batch takes renderables at consecutive positions, each lying right after the one
/// before it.
spec fn batch_is_run(allocations: Seq<RenderableAllocation>, batch: Seq<usize>, n: int) -> bool {
    &&& forall|j: int| 0 <= j < batch.len() ==> #[trigger] batch[j] < n
    &&& forall|j: int|
        #![trigger batch[j + 1]]
        0 <= j < batch.len() - 1 ==> batch[j + 1] == batch[j] + 1 && lies_right_after(
            allocations[batch[j] as int],
            allocations[batch[j + 1] as int],
        )
}

/// The renderable after position `x` exists and does not lie right after it.
spec fn breaks_after(allocations: Seq<RenderableAllocation>, x: int) -> bool {
    x + 1 < allocations.len() && !lies_right_after(allocations[x], allocations[x + 1])
}

spec fn no_end_overflow(allocations: Seq<RenderableAllocation>) -> bool {
    forall|k: int|
        0 <= k < allocations.len() && (#[trigger] allocations[k]).render_buffer_offset is Some
            ==> allocations[k].render_buffer_offset->0 + allocations[k].size_in_render_buffer <= u64::MAX
}

/// What the closed batches and the open one look like after the first `n` renderables.
spec fn plan_shape(allocations: Seq<RenderableAllocation>, n: int, closed: Seq<Seq<usize>>, open: Seq<usize>) -> bool {
    &&& forall|i: int|
        #![trigger closed[i]]
        0 <= i < closed.len() ==> closed[i].len() > 0 && batch_is_run(allocations, closed[i], n)
    &&& batch_is_run(allocations, open, n)
    &&& open.len() > 0 ==> open.last() == n - 1
    &&& closed.len() > 0 ==> closed[0][0] == 0
    &&& closed.len() == 0 && open.len() > 0 ==> open[0] == 0
    &&& forall|i: int|
        #![trigger closed[i + 1]]
        0 <= i < closed.len() - 1 ==> closed[i + 1][0] == closed[i].last() + 2 && breaks_after(
            allocations,
            closed[i].last() as int,
        )
    &&& closed.len() > 0 && open.len() > 0 ==> open[0] == closed.last().last() + 2 && breaks_after(
        allocations,
        closed.last().last() as int,
    )
    &&& open.len() == 0 && n > 0 ==> closed.len() > 0 && closed.last().last() == n - 2 && breaks_after(
        allocations,
        n - 2,
    )
    &&& n == 0 ==> closed.len() == 0 && open.len() == 0
}

#[verifier::spinoff_prover]
#[verifier::rlimit(30)]
proof fn lemma_copy_plan_upto(allocations: Seq<RenderableAllocation>, n: nat)
    requires
        n <= allocations.len() <= usize::MAX,
        no_end_overflow(allocations),
    ensures
        plan_shape(allocations, n as int, copy_plan_upto(allocations, n).0, copy_plan_upto(allocations, n).1),
    decreases n,
{
    if n > 0 {
        lemma_copy_plan_upto(allocations, (n - 1) as nat);
        let (closed, open) = copy_plan_upto(allocations, (n - 1) as nat);
        let k = n - 1;
        let (closed2, open2) = copy_plan_upto(allocations, n);
        if open.len() == 0 {
            assert(open2 == seq![k as usize]);
        } else {
            let x = open.last() as int;
            assert(x == k - 1);
            let prev = allocations[x];
            let next = allocations[k as int];
            if prev.render_buffer_offset is Some {
                assert(prev.render_buffer_offset->0 + prev.size_in_render_buffer <= u64::MAX);
            }
            assert(continues(prev, next) == lies_right_after(prev, next));
            if continues(prev, next) {
                assert(open2 == open.push(k as usize));
                assert forall|j: int| #![trigger open2[j + 1]] 0 <= j < open2.len() - 1 implies open2[j + 1] == open2[j]
                    + 1 && lies_right_after(allocations[open2[j] as int], allocations[open2[j + 1] as int]) by {
                    if j < open.len() - 1 {
                        assert(open2[j] == open[j]);
                        assert(open2[j + 1] == open[j + 1]);
                    }
                }
            } else {
                assert(closed2 == closed.push(open));
                assert(open2.len() == 0);
                assert forall|i: int| #![trigger closed2[i + 1]] 0 <= i < closed2.len() - 1 implies closed2[i + 1][0]
                    == closed2[i].last() + 2 && breaks_after(allocations, closed2[i].last() as int) by {
                    if i < closed.len() - 1 {
                        assert(closed2[i] == closed[i]);
                        assert(closed2[i + 1] == closed[i + 1]);
                    }
                }
            }
        }
    }
}

/// The copy plan moves runs only: each batch is a run of renderables at consecutive
/// positions, each starting in the same render buffer exactly where the one before it
/// ends. The first batch starts at the first renderable; the renderable right after a
/// batch does not lie right after it and is left out, and the next batch starts just
/// after it; the last batch reaches the last renderable, or stops just before a last
/// renderable that does not lie right after it.
#[verifier::spinoff_prover]
#[verifier::rlimit(30)]
pub proof fn law_copy_plan_batches_are_runs(allocations: Seq<RenderableAllocation>)
    requires
        allocations.len() <= usize::MAX,
        forall|k: int|
            0 <= k < allocations.len() && (#[trigger] allocations[k]).render_buffer_offset is Some
                ==> allocations[k].render_buffer_offset->0 + allocations[k].size_in_render_buffer <= u64::MAX,
    ensures
        ({
            let plan = copy_plan(allocations);
            &&& plan.len() == 0 <==> allocations.len() == 0
            &&& forall|i: int| #![trigger plan[i]] 0 <= i < plan.len() ==> plan[i].len() > 0
            &&& forall|i: int, j: int|
                #![trigger plan[i][j]]
                0 <= i < plan.len() && 0 <= j < plan[i].len() ==> plan[i][j] < allocations.len()
            &&& forall|i: int, j: int|
                #![trigger plan[i][j + 1]]
                0 <= i < plan.len() && 0 <= j < plan[i].len() - 1 ==> {
                    let a = allocations[plan[i][j] as int];
                    let b = allocations[plan[i][j + 1] as int];
                    &&& plan[i][j + 1] == plan[i][j] + 1
                    &&& b.render_buffer_id == a.render_buffer_id
                    &&& a.render_buffer_offset is Some ==> b.render_buffer_offset is Some
                        && b.render_buffer_offset->0 == a.render_buffer_offset->0 + a.size_in_render_buffer
                    &&& a.render_buffer_offset is None ==> b.render_buffer_offset is None
                }
            &&& plan.len() > 0 ==> plan[0][0] == 0
            &&& forall|i: int|
                #![trigger plan[i + 1]]
                0 <= i < plan.len() - 1 ==> plan[i + 1][0] == plan[i].last() + 2 && !lies_right_after(
                    allocations[plan[i].last() as int],
                    allocations[plan[i].last() + 1],
                )
            &&& plan.len() > 0 ==> plan.last().last() == allocations.len() - 1 || (plan.last().last()
                == allocations.len() - 2 && !lies_right_after(
                allocations[allocations.len() - 2],
                allocations[allocations.len() - 1],
            ))
        }),
{
    let n = allocations.len();
    lemma_copy_plan_upto(allocations, n);
    let (closed, open) = copy_plan_upto(allocations, n);
    let plan = copy_plan(allocations);
    if open.len() > 0 {
        assert(plan == closed.push(open));
        assert forall|i: int| #![trigger plan[i + 1]] 0 <= i < plan.len() - 1 implies plan[i + 1][0] == plan[i].last()
            + 2 && !lies_right_after(allocations[plan[i].last() as int], allocations[plan[i].last() + 1]) by {
            assert(plan[i] == closed[i]);
            if i < closed.len() - 1 {
                assert(plan[i + 1] == closed[i + 1]);
            } else {
                assert(closed[i] == closed.last());
                assert(plan[i + 1] == open);
            }
            assert(breaks_after(allocations, plan[i].last() as int));
        }
    } else {
        assert(plan == closed);
        assert forall|i: int| #![trigger plan[i + 1]] 0 <= i < plan.len() - 1 implies plan[i + 1][0] == plan[i].last()
            + 2 && !lies_right_after(allocations[plan[i].last() as int], allocations[plan[i].last() + 1]) by {
            assert(plan[i] == closed[i]);
            assert(plan[i + 1] == closed[i + 1]);
            assert(breaks_after(allocations, plan[i].last() as int));
        }
    }
    assert forall|i: int, j: int| #![trigger plan[i][j]] 0 <= i < plan.len() && 0 <= j < plan[i].len() implies plan[i][j]
        < allocations.len() by {
        assert(batch_is_run(allocations, plan[i], n as int));
    }
    assert forall|i: int, j: int| #![trigger plan[i][j + 1]] 0 <= i < plan.len() && 0 <= j < plan[i].len() - 1 implies {
        let a = allocations[plan[i][j] as int];
        let b = allocations[plan[i][j + 1] as int];
        &&& plan[i][j + 1] == plan[i][j] + 1
        &&& b.render_buffer_id == a.render_buffer_id
        &&& a.render_buffer_offset is Some ==> b.render_buffer_offset is Some && b.render_buffer_offset->0
            == a.render_buffer_offset->0 + a.size_in_render_buffer
        &&& a.render_buffer_offset is None ==> b.render_buffer_offset is None
    } by {
        assert(batch_is_run(allocations, plan[i], n as int));
    }
}

/// Whether `next` lies in the same render buffer right after `previous`.
fn continues_run(previous: &RenderableAllocation, next: &RenderableAllocation) -> (r: bool)
    requires
        previous.render_buffer_offset is Some ==> previous.render_buffer_offset->0
            + previous.size_in_render_buffer <= u64::MAX,
    ensures
        r == continues(*previous, *next),
{
    let same_buffer = match (previous.render_buffer_id, next.render_buffer_id) {
        (Some(a), Some(b)) => a == b,
        (None, None) => true,
        _ => false,
    };
    let end = match previous.render_buffer_offset {
        Some(offset) => Some(offset + previous.size_in_render_buffer),
        None => None,
    };
    let same_offset = match (end, next.render_buffer_offset) {
        (Some(a), Some(b)) => a == b,
        (None, None) => true,
        _ => false,
    };
    same_buffer && same_offset
}

/// Groups newly allocated renderables (by position) into batches that one staging copy
/// each moves into the render buffers, following `copy_plan`.
pub fn plan_copy_batches(allocations: &[RenderableAllocation]) -> (r: Vec<Vec<usize>>)
    requires
        forall|k: int|
            0 <= k < allocations@.len() && (#[trigger] allocations@[k]).render_buffer_offset is Some
                ==> allocations@[k].render_buffer_offset->0 + allocations@[k].size_in_render_buffer <= u64::MAX,
    ensures
        r@.len() == copy_plan(allocations@).len(),
        forall|i: int| 0 <= i < r@.len() ==> (#[trigger] r@[i])@ == copy_plan(allocations@)[i],
{
    let mut batches: Vec<Vec<usize>> = Vec::new();
    let mut current: Vec<usize> = Vec::new();
    let mut k: usize = 0;
    while k < allocations.len()
        invariant
            k <= allocations@.len(),
            forall|j: int|
                0 <= j < allocations@.len() && (#[trigger] allocations@[j]).render_buffer_offset is Some
                    ==> allocations@[j].render_buffer_offset->0 + allocations@[j].size_in_render_buffer <= u64::MAX,
            batches@.len() == copy_plan_upto(allocations@, k as nat).0.len(),
            forall|i: int| 0 <= i < batches@.len() ==> (#[trigger] batches@[i])@ == copy_plan_upto(allocations@, k as nat).0[i],
            current@ == copy_plan_upto(allocations@, k as nat).1,
            forall|i: int| 0 <= i < current@.len() ==> #[trigger] current@[i] < k,
        decreases allocations@.len() - k,
    {
        let ghost before_batches = batches@;
        let ghost before_current = current@;
        if current.len() > 0 {
            let last = current[current.len() - 1];
            if continues_run(&allocations[last], &allocations[k]) {
                current.push(k);
            } else {
                batches.push(current);
                current = Vec::new();
            }
        } else {
            current.push(k);
        }
        proof {
            let (closed, open) = copy_plan_upto(allocations@, k as nat);
            assert(copy_plan_upto(allocations@, (k + 1) as nat) == {
                if open.len() == 0 {
                    (closed, seq![k as usize])
                } else if continues(allocations@[open.last() as int], allocations@[k as int]) {
                    (closed, open.push(k as usize))
                } else {
                    (closed.push(open), Seq::<usize>::empty())
                }
            });
            assert(current@ =~= copy_plan_upto(allocations@, (k + 1) as nat).1);
        }
        k = k + 1;
    }
    if current.len() > 0 {
        batches.push(current);
    }
    batches
}

/// Whether a renderable may still be in use on the GPU: some window that still has a
/// frame index semaphore last used it in a frame that semaphore has not reached.
pub open spec fn still_used(last_used_in_frame: Seq<(u64, u64)>, frame_index_semaphore_values: Map<u64, u64>) -> bool {
    exists|i: int|
        0 <= i < last_used_in_frame.len() && frame_index_semaphore_values.contains_key(
            (#[trigger] last_used_in_frame[i]).0,
        ) && last_used_in_frame[i].1 > frame_index_semaphore_values[last_used_in_frame[i].0]
}

/// A renderable counts as still in use exactly when some window it was used by has not
/// yet finished the frame it was last used in, wherever that window stands in the list:
/// an empty list is never in use, a single entry is in use when its window is known and
/// has not reached the frame, any unfinished entry makes the list in use, and joining two
/// lists is in use when either is.
pub proof fn law_still_used_by_any_window(
    last_used_in_frame: Seq<(u64, u64)>,
    more: Seq<(u64, u64)>,
    window_id: u64,
    frame: u64,
    frame_index_semaphore_values: Map<u64, u64>,
)
    ensures
        !still_used(Seq::empty(), frame_index_semaphore_values),
        still_used(seq![(window_id, frame)], frame_index_semaphore_values) <==> (
        frame_index_semaphore_values.contains_key(window_id) && frame > frame_index_semaphore_values[window_id]),
        forall|i: int|
            0 <= i < last_used_in_frame.len() && frame_index_semaphore_values.contains_key(
                (#[trigger] last_used_in_frame[i]).0,
            ) && last_used_in_frame[i].1 > frame_index_semaphore_values[last_used_in_frame[i].0] ==> still_used(
                last_used_in_frame,
                frame_index_semaphore_values,
            ),
        still_used(last_used_in_frame + more, frame_index_semaphore_values) == (still_used(
            last_used_in_frame,
            frame_index_semaphore_values,
        ) || still_used(more, frame_index_semaphore_values)),
{
    let vals = frame_index_semaphore_values;
    let one = seq![(window_id, frame)];
    if vals.contains_key(window_id) && frame > vals[window_id] {
        assert(one[0] == (window_id, frame));
    }
    let joined = last_used_in_frame + more;
    let n = last_used_in_frame.len() as int;
    if still_used(joined, vals) {
        let i = choose|i: int|
            0 <= i < joined.len() && vals.contains_key((#[trigger] joined[i]).0) && joined[i].1 > vals[joined[i].0];
        if i < n {
            assert(last_used_in_frame[i] == joined[i]);
        } else {
            assert(more[i - n] == joined[i]);
        }
    }
    if still_used(last_used_in_frame, vals) {
        let i = choose|i: int|
            0 <= i < n && vals.contains_key((#[trigger] last_used_in_frame[i]).0) && last_used_in_frame[i].1
                > vals[last_used_in_frame[i].0];
        assert(joined[i] == last_used_in_frame[i]);
    }
    if still_used(more, vals) {
        let i = choose|i: int|
            0 <= i < more.len() && vals.contains_key((#[trigger] more[i]).0) && more[i].1 > vals[more[i].0];
        assert(joined[n + i] == more[i]);
    }
}

/// Whether a renderable, last used in the given frame of each window, may still be in use.
pub fn renderable_still_used(
    last_used_in_frame: &[(u64, u64)],
    frame_index_semaphore_values: &HashMap<u64, u64>,
) -> (r: bool)
    ensures
        r == still_used(last_used_in_frame@, frame_index_semaphore_values@),
{
    let mut i: usize = 0;
    while i < last_used_in_frame.len()
        invariant
            i <= last_used_in_frame@.len(),
            forall|j: int|
                0 <= j < i ==> !(frame_index_semaphore_values@.contains_key((#[trigger] last_used_in_frame@[j]).0)
                    && last_used_in_frame@[j].1 > frame_index_semaphore_values@[last_used_in_frame@[j].0]),
        decreases last_used_in_frame@.len() - i,
    {
        let (window_id, last_used) = last_used_in_frame[i];
        match frame_index_semaphore_values.get(&window_id) {
            Some(frame_index_semaphore_value) => {
                if last_used > *frame_index_semaphore_value {
                    assert(last_used_in_frame@[i as int].0 == window_id);
                    return true;
                }
            },
            None => {},
        }
        i = i + 1;
    }
    false
}

/// Whether the pending renderable at position `k` can be deallocated: it was used at
/// least once and no window may still be using it.
pub open spec fn deallocatable(
    pending: Seq<Option<Vec<(u64, u64)>>>,
    frame_index_semaphore_values: Map<u64, u64>,
    k: int,
) -> bool {
    pending[k] is Some && !still_used(pending[k]->0@, frame_index_semaphore_values)
}

/// The positions, in increasing order, of the pending renderables that can be
/// deallocated; each is described by the frame in which each window last used it, or
/// `None` when it was never used.
pub fn select_renderables_to_deallocate(
    pending: &[Option<Vec<(u64, u64)>>],
    frame_index_semaphore_values: &HashMap<u64, u64>,
) -> (r: Vec<usize>)
    ensures
        forall|i: int| 0 <= i < r@.len() ==> #[trigger] r@[i] < pending@.len() && deallocatable(pending@, frame_index_semaphore_values@, r@[i] as int),
        forall|i: int, j: int| 0 <= i < j < r@.len() ==> #[trigger] r@[i] < #[trigger] r@[j],
        forall|k: int| 0 <= k < pending@.len() && #[trigger] deallocatable(pending@, frame_index_semaphore_values@, k) ==> r@.contains(k as usize),
{
    let mut selected: Vec<usize> = Vec::new();
    let mut k: usize = 0;
    while k < pending.len()
        invariant
            k <= pending@.len(),
            forall|i: int| 0 <= i < selected@.len() ==> #[trigger] selected@[i] < k && deallocatable(pending@, frame_index_semaphore_values@, selected@[i] as int),
            forall|i: int, j: int| 0 <= i < j < selected@.len() ==> #[trigger] selected@[i] < #[trigger] selected@[j],
            forall|t: int| 0 <= t < k && #[trigger] deallocatable(pending@, frame_index_semaphore_values@, t) ==> selected@.contains(t as usize),
        decreases pending@.len() - k,
    {
        let ghost before = selected@;
        match &pending[k] {
            Some(last_used_in_frame) => {
                if !renderable_still_used(last_used_in_frame.as_slice(), frame_index_semaphore_values) {
                    selected.push(k);
                    assert(selected@[selected@.len() - 1] == k);
                }
            },
            None => {},
        }
        proof {
            assert forall|t: int| 0 <= t < k + 1 && #[trigger] deallocatable(pending@, frame_index_semaphore_values@, t) implies selected@.contains(t as usize) by {
                if t < k {
                    assert(before.contains(t as usize));
                    let w = choose|w: int| 0 <= w < before.len() && before[w] == t as usize;
                    assert(selected@[w] == t as usize);
                }
            }
        }
        k = k + 1;
    }
    selected
}

/// How many renderables each render buffer holds. A buffer is known from its first
/// renderable on and forgotten, to be destroyed, when its last renderable leaves.
pub struct RenderBufferOccupancy {
    counts: HashMap<u64, usize>,
}

impl View for RenderBufferOccupancy {
    type V = Map<u64, usize>;

    closed spec fn view(&self) -> Map<u64, usize> {
        self.counts@
    }
}

/// The occupancy after a renderable is placed in a render buffer: one more renderable
/// in a known buffer, or a new buffer that holds one.
pub open spec fn after_placed(occupancy: Map<u64, usize>, render_buffer_id: u64) -> Map<u64, usize> {
    if occupancy.contains_key(render_buffer_id) {
        occupancy.insert(render_buffer_id, (occupancy[render_buffer_id] + 1) as usize)
    } else {
        occupancy.insert(render_buffer_id, 1)
    }
}

/// The occupancy after a renderable leaves a render buffer, and whether the buffer is
/// now empty and must be destroyed; an unknown buffer changes nothing.
pub open spec fn after_released(occupancy: Map<u64, usize>, render_buffer_id: u64) -> (Map<u64, usize>, bool) {
    if !occupancy.contains_key(render_buffer_id) {
        (occupancy, false)
    } else if occupancy[render_buffer_id] == 1 {
        (occupancy.remove(render_buffer_id), true)
    } else {
        (occupancy.insert(render_buffer_id, (occupancy[render_buffer_id] - 1) as usize), false)
    }
}

impl RenderBufferOccupancy {
    /// Every known buffer holds at least one renderable.
    pub open spec fn wf(&self) -> bool {
        forall|id: u64| #[trigger] self@.contains_key(id) ==> self@[id] > 0
    }

    /// No render buffer exists yet.
    pub fn new() -> (r: Self)
        ensures
            r.wf(),
            r@ == Map::<u64, usize>::empty(),
    {
        RenderBufferOccupancy { counts: HashMap::new() }
    }

    /// How many renderables a buffer holds, or `None` for an unknown buffer.
    pub fn renderable_count(&self, render_buffer_id: u64) -> (r: Option<usize>)
        ensures
            r == if self@.contains_key(render_buffer_id) {
                Some(self@[render_buffer_id])
            } else {
                None::<usize>
            },
    {
        match self.counts.get(&render_buffer_id) {
            Some(count) => Some(*count),
            None => None,
        }
    }

    /// A renderable was placed in a render buffer, a known one or one just created.
    pub fn place(&mut self, render_buffer_id: u64)
        requires
            old(self).wf(),
            old(self)@.contains_key(render_buffer_id) ==> old(self)@[render_buffer_id] < usize::MAX,
        ensures
            final(self).wf(),
            final(self)@ == after_placed(old(self)@, render_buffer_id),
    {
        let count: usize = match self.counts.get(&render_buffer_id) {
            Some(count) => *count + 1,
            None => 1,
        };
        self.counts.insert(render_buffer_id, count);
    }

    /// A renderable left a render buffer. Returns whether the buffer is now empty, and so
    /// forgotten and to be destroyed.
    pub fn release(&mut self, render_buffer_id: u64) -> (destroy: bool)
        requires
            old(self).wf(),
        ensures
            final(self).wf(),
            (final(self)@, destroy) == after_released(old(self)@, render_buffer_id),
    {
        match self.counts.get(&render_buffer_id) {
            Some(count) => {
                let count = *count;
                assert(old(self)@.contains_key(render_buffer_id));
                if count == 1 {
                    self.counts.remove(&render_buffer_id);
                    true
                } else {
                    self.counts.insert(render_buffer_id, count - 1);
                    false
                }
            },
            None => false,
        }
    }
}

/// What becomes of a renderable that asks for memory in the render buffers.
#[derive(Debug, Clone, Copy, PartialEq, Eq, Structural)]
pub enum AllocationAction {
    /// It already has memory: nothing happens.
    AlreadyAllocated,
    /// It goes into this existing render buffer.
    PlaceIn(u64),
    /// A new render buffer of `size` bytes is created with this id and holds it.
    CreateBuffer { render_buffer_id: u64, size: u64 },
}

/// Decides where a renderable's memory comes from and records it in the occupancy: a
/// renderable that is already allocated stays as it is; otherwise it goes into the first
/// existing render buffer that accepts it (`accepting_render_buffer`, as the render
/// buffers' virtual blocks answered), or else into a new render buffer with the fresh id
/// `new_render_buffer_id`, as large as the renderable but at least `MIN_RENDER_BUFFER_SIZE`.
pub fn allocate_renderable(
    occupancy: &mut RenderBufferOccupancy,
    allocated_in: Option<u64>,
    size_in_render_buffer: u64,
    accepting_render_buffer: Option<u64>,
    new_render_buffer_id: u64,
) -> (action: AllocationAction)
    requires
        old(occupancy).wf(),
        allocated_in is None && accepting_render_buffer is Some ==> {
            &&& old(occupancy)@.contains_key(accepting_render_buffer->0)
            &&& old(occupancy)@[accepting_render_buffer->0] < usize::MAX
        },
        allocated_in is None && accepting_render_buffer is None ==> !old(occupancy)@.contains_key(
            new_render_buffer_id,
        ),
    ensures
        final(occupancy).wf(),
        allocated_in is Some ==> action == AllocationAction::AlreadyAllocated && final(occupancy)@ == old(
            occupancy,
        )@,
        allocated_in is None && accepting_render_buffer is Some ==> {
            &&& action == AllocationAction::PlaceIn(accepting_render_buffer->0)
            &&& final(occupancy)@ == after_placed(old(occupancy)@, accepting_render_buffer->0)
        },
        allocated_in is None && accepting_render_buffer is None ==> {
            &&& action == (AllocationAction::CreateBuffer {
                render_buffer_id: new_render_buffer_id,
                size: if size_in_render_buffer < MIN_RENDER_BUFFER_SIZE {
                    MIN_RENDER_BUFFER_SIZE
                } else {
                    size_in_render_buffer
                },
            })
            &&& final(occupancy)@ == old(occupancy)@.insert(new_render_buffer_id, 1)
        },
{
    if allocated_in.is_some() {
        return AllocationAction::AlreadyAllocated;
    }
    match accepting_render_buffer {
        Some(render_buffer_id) => {
            occupancy.place(render_buffer_id);
            AllocationAction::PlaceIn(render_buffer_id)
        },
        None => {
            let size = render_buffer_block_size(size_in_render_buffer);
            occupancy.place(new_render_buffer_id);
            AllocationAction::CreateBuffer { render_buffer_id: new_render_buffer_id, size }
        },
    }
}

/// A renderable waiting for its memory to be released.
pub struct PendingRenderable {
    pub renderable_id: u64,
    /// The render buffer it lies in, if it is allocated.
    pub render_buffer_id: Option<u64>,
    /// The frame in which each window last used it, or `None` when it never was used.
    pub last_used_in_frame: Option<Vec<(u64, u64)>>,
}

/// Whether a pending renderable's memory can be released now: it was used at least once
/// and no window may still be using it.
pub open spec fn releasable(pending: PendingRenderable, frame_index_semaphore_values: Map<u64, u64>) -> bool {
    pending.last_used_in_frame is Some && !still_used(pending.last_used_in_frame->0@, frame_index_semaphore_values)
}

/// The occupancy after the renderables of the given render buffers (`None`: not
/// allocated) are released, the last one first, and the buffers left empty, in the order
/// they became empty.
pub open spec fn release_from_last(occupancy: Map<u64, usize>, render_buffer_ids: Seq<Option<u64>>) -> (
    Map<u64, usize>,
    Seq<u64>,
)
    decreases render_buffer_ids.len(),
{
    if render_buffer_ids.len() == 0 {
        (occupancy, Seq::empty())
    } else {
        let (after, emptied) = match render_buffer_ids.last() {
            Some(id) => {
                let (m, destroy) = after_released(occupancy, id);
                (m, if destroy {
                    seq![id]
                } else {
                    Seq::<u64>::empty()
                })
            },
            None => (occupancy, Seq::<u64>::empty()),
        };
        let (end, rest) = release_from_last(after, render_buffer_ids.drop_last());
        (end, emptied + rest)
    }
}

/// How many of the given renderables lie in render buffer `render_buffer_id`.
pub open spec fn releases_in(render_buffer_ids: Seq<Option<u64>>, render_buffer_id: u64) -> nat
    decreases render_buffer_ids.len(),
{
    if render_buffer_ids.len() == 0 {
        0
    } else {
        releases_in(render_buffer_ids.drop_last(), render_buffer_id) + if render_buffer_ids.last() == Some(
            render_buffer_id,
        ) {
            1nat
        } else {
            0nat
        }
    }
}

/// Releasing renderables takes from each render buffer one renderable per released
/// renderable that lies in it: a buffer that keeps some renderables holds that many
/// fewer, and one that runs out is forgotten and reported empty, once; an unknown buffer
/// stays unknown and is not reported.
#[verifier::spinoff_prover]
#[verifier::rlimit(30)]
pub proof fn law_release_counts(occupancy: Map<u64, usize>, render_buffer_ids: Seq<Option<u64>>)
    requires
        forall|id: u64| #[trigger] occupancy.contains_key(id) ==> occupancy[id] > 0,
    ensures
        ({
            let (after, emptied) = release_from_last(occupancy, render_buffer_ids);
            &&& emptied.no_duplicates()
            &&& forall|id: u64| #[trigger] after.contains_key(id) ==> after[id] > 0
            &&& forall|id: u64|
                #![trigger after.contains_key(id)]
                #![trigger emptied.contains(id)]
                {
                    let released = releases_in(render_buffer_ids, id);
                    &&& !occupancy.contains_key(id) ==> !after.contains_key(id) && !emptied.contains(id)
                    &&& occupancy.contains_key(id) && occupancy[id] > released ==> after.contains_key(id)
                        && after[id] == occupancy[id] - released && !emptied.contains(id)
                    &&& occupancy.contains_key(id) && occupancy[id] <= released ==> !after.contains_key(id)
                        && emptied.contains(id)
                }
        }),
    decreases render_buffer_ids.len(),
{
    if render_buffer_ids.len() > 0 {
        let rest = render_buffer_ids.drop_last();
        let (middle, first) = match render_buffer_ids.last() {
            Some(id) => {
                let (m, destroy) = after_released(occupancy, id);
                (m, if destroy {
                    seq![id]
                } else {
                    Seq::<u64>::empty()
                })
            },
            None => (occupancy, Seq::<u64>::empty()),
        };
        assert forall|id: u64| #[trigger] middle.contains_key(id) implies middle[id] > 0 by {
            assert(occupancy.contains_key(id));
        }
        law_release_counts(middle, rest);
        let (after, tail) = release_from_last(middle, rest);
        let emptied = release_from_last(occupancy, render_buffer_ids).1;
        assert(emptied == first + tail);
        assert forall|x: u64| #[trigger] emptied.contains(x) <==> first.contains(x) || tail.contains(x) by {
            if emptied.contains(x) {
                let i = choose|i: int| 0 <= i < emptied.len() && emptied[i] == x;
                if i < first.len() {
                    assert(first[i] == x);
                } else {
                    assert(tail[i - first.len()] == x);
                }
            }
            if first.contains(x) {
                let i = choose|i: int| 0 <= i < first.len() && first[i] == x;
                assert(emptied[i] == x);
            }
            if tail.contains(x) {
                let i = choose|i: int| 0 <= i < tail.len() && tail[i] == x;
                assert(emptied[first.len() + i] == x);
            }
        }
        if first.len() > 0 {
            assert(first[0] == render_buffer_ids.last()->0);
            assert(!middle.contains_key(first[0]));
            assert(!tail.contains(first[0]));
        }
        assert forall|i: int, j: int| 0 <= i < j < emptied.len() implies emptied[i] != emptied[j] by {
            if i < first.len() {
                assert(tail[j - first.len()] == emptied[j]);
                assert(tail.contains(emptied[j]));
            } else {
                assert(tail[i - first.len()] == emptied[i]);
                assert(tail[j - first.len()] == emptied[j]);
            }
        }
        assert forall|x: u64| first.contains(x) implies x == render_buffer_ids.last()->0 by {
            let i = choose|i: int| 0 <= i < first.len() && first[i] == x;
        }
    }
}

/// What a round of deallocation did: the renderables whose memory was released, in
/// the order they were pending, and the render buffers left empty, to be destroyed.
pub struct DeallocationRound {
    pub released_renderables: Vec<u64>,
    pub emptied_render_buffers: Vec<u64>,
}

/// One round of deallocation: every pending renderable that was used and that no window
/// may still be using leaves the pending list (the others stay, in order) and leaves its
/// render buffer, the last such renderable first; a buffer left without renderables is
/// reported, to be destroyed.
pub fn deallocation_round(
    pending: &mut Vec<PendingRenderable>,
    occupancy: &mut RenderBufferOccupancy,
    frame_index_semaphore_values: &HashMap<u64, u64>,
) -> (r: DeallocationRound)
    requires
        old(occupancy).wf(),
    ensures
        final(occupancy).wf(),
        final(pending)@ == old(pending)@.filter(
            |p: PendingRenderable| !releasable(p, frame_index_semaphore_values@),
        ),
        r.released_renderables@ == old(pending)@.filter(
            |p: PendingRenderable| releasable(p, frame_index_semaphore_values@),
        ).map_values(|p: PendingRenderable| p.renderable_id),
        (final(occupancy)@, r.emptied_render_buffers@) == release_from_last(
            old(occupancy)@,
            old(pending)@.filter(|p: PendingRenderable| releasable(p, frame_index_semaphore_values@)).map_values(
                |p: PendingRenderable| p.render_buffer_id,
            ),
        ),
{
    let ghost initial = pending@;
    let ghost keep = |p: PendingRenderable| !releasable(p, frame_index_semaphore_values@);
    let ghost drop = |p: PendingRenderable| releasable(p, frame_index_semaphore_values@);
    let mut source: Vec<PendingRenderable> = Vec::new();
    std::mem::swap(&mut source, pending);
    let mut released_renderables: Vec<u64> = Vec::new();
    let mut released_buffers: Vec<Option<u64>> = Vec::new();
    let ghost mut k: int = 0;
    while source.len() > 0
        invariant
            0 <= k,
            occupancy@ == old(occupancy)@,
            occupancy.wf(),
            k + source@.len() == initial.len(),
            source@ == initial.subrange(k, initial.len() as int),
            pending@ == initial.take(k).filter(keep),
            released_renderables@ == initial.take(k).filter(drop).map_values(|p: PendingRenderable| p.renderable_id),
            released_buffers@ == initial.take(k).filter(drop).map_values(|p: PendingRenderable| p.render_buffer_id),
            keep == (|p: PendingRenderable| !releasable(p, frame_index_semaphore_values@)),
            drop == (|p: PendingRenderable| releasable(p, frame_index_semaphore_values@)),
        decreases source@.len(),
    {
        let item = source.remove(0);
        proof {
            let next = initial.take(k + 1);
            assert(next.drop_last() =~= initial.take(k));
            assert(next.last() == item);
            reveal(Seq::filter);
        }
        let release = match &item.last_used_in_frame {
            Some(last_used_in_frame) => !renderable_still_used(last_used_in_frame.as_slice(), frame_index_semaphore_values),
            None => false,
        };
        let ghost before_renderables = released_renderables@;
        let ghost before_buffers = released_buffers@;
        let ghost before_kept = pending@;
        if release {
            released_renderables.push(item.renderable_id);
            released_buffers.push(item.render_buffer_id);
        } else {
            pending.push(item);
        }
        proof {
            let prefix = initial.take(k).filter(drop);
            let next = initial.take(k + 1).filter(drop);
            if release {
                assert(next == prefix.push(item));
                assert(released_renderables@ =~= next.map_values(|p: PendingRenderable| p.renderable_id));
                assert(released_buffers@ =~= next.map_values(|p: PendingRenderable| p.render_buffer_id));
            } else {
                assert(next == prefix);
            }
            assert(source@ =~= initial.subrange(k + 1, initial.len() as int));
            k = k + 1;
        }
    }
    assert(initial.take(initial.len() as int) =~= initial);
    let mut emptied_render_buffers: Vec<u64> = Vec::new();
    let mut j: usize = released_buffers.len();
    assert(released_buffers@.take(j as int) =~= released_buffers@);
    assert(Seq::<u64>::empty() + release_from_last(occupancy@, released_buffers@).1 =~= release_from_last(
        occupancy@,
        released_buffers@,
    ).1);
    while j > 0
        invariant
            j <= released_buffers@.len(),
            occupancy.wf(),
            release_from_last(old(occupancy)@, released_buffers@).0 == release_from_last(
                occupancy@,
                released_buffers@.take(j as int),
            ).0,
            release_from_last(old(occupancy)@, released_buffers@).1 == emptied_render_buffers@ + release_from_last(
                occupancy@,
                released_buffers@.take(j as int),
            ).1,
        decreases j,
    {
        let ghost before = occupancy@;
        let ghost before_emptied = emptied_render_buffers@;
        let ghost prefix = released_buffers@.take(j as int);
        proof {
            assert(prefix.drop_last() =~= released_buffers@.take(j - 1));
        }
        match released_buffers[j - 1] {
            Some(render_buffer_id) => {
                if occupancy.release(render_buffer_id) {
                    emptied_render_buffers.push(render_buffer_id);
                }
            },
            None => {},
        }
        proof {
            let rest = release_from_last(occupancy@, released_buffers@.take(j - 1));
            let emptied = emptied_render_buffers@.subrange(before_emptied.len() as int, emptied_render_buffers@.len() as int);
            assert(emptied_render_buffers@ =~= before_emptied + emptied);
            assert(release_from_last(before, prefix).0 == rest.0);
            assert(release_from_last(before, prefix).1 =~= emptied + rest.1);
            assert(before_emptied + (emptied + rest.1) =~= emptied_render_buffers@ + rest.1);
        }
        j = j - 1;
    }
    assert(released_buffers@.take(0) =~= Seq::<Option<u64>>::empty());
    assert(emptied_render_buffers@ + Seq::<u64>::empty() =~= emptied_render_buffers@);
    DeallocationRound { released_renderables, emptied_render_buffers }
}

/// A renderable placed in a render buffer and released from it again leaves the
/// occupancy as it was, and destroys the buffer exactly when it was created for it.
pub proof fn law_place_then_release(occupancy: Map<u64, usize>, render_buffer_id: u64)
    requires
        forall|id: u64| #[trigger] occupancy.contains_key(id) ==> occupancy[id] > 0,
        occupancy.contains_key(render_buffer_id) ==> occupancy[render_buffer_id] < usize::MAX,
    ensures
        after_released(after_placed(occupancy, render_buffer_id), render_buffer_id).0 == occupancy,
        after_released(after_placed(occupancy, render_buffer_id), render_buffer_id).1
            == !occupancy.contains_key(render_buffer_id),
{
    let placed = after_placed(occupancy, render_buffer_id);
    if occupancy.contains_key(render_buffer_id) {
        assert(placed[render_buffer_id] > 1);
        assert(placed.insert(render_buffer_id, (placed[render_buffer_id] - 1) as usize) =~= occupancy);
    } else {
        assert(placed.remove(render_buffer_id) =~= occupancy);
    }
}

/// The bytes a batch of renderables takes in all.
pub open spec fn batch_size(batch: Seq<RenderableAllocation>) -> int
    decreases batch.len(),
{
    if batch.len() == 0 {
        0
    } else {
        batch_size(batch.drop_last()) + batch.last().size_in_render_buffer
    }
}

/// The bytes of a batch are the bytes of its parts: a single renderable takes its own
/// size, and two batches joined take the sum of their sizes.
pub proof fn law_batch_size_adds_up(batch: Seq<RenderableAllocation>, more: Seq<RenderableAllocation>, allocation: RenderableAllocation)
    ensures
        batch_size(Seq::empty()) == 0,
        batch_size(seq![allocation]) == allocation.size_in_render_buffer,
        batch_size(batch + more) == batch_size(batch) + batch_size(more),
    decreases more.len(),
{
    assert(seq![allocation].drop_last() =~= Seq::<RenderableAllocation>::empty());
    assert(seq![allocation].last() == allocation);
    assert(batch_size(seq![allocation].drop_last()) == 0);
    if more.len() == 0 {
        assert(batch + more =~= batch);
    } else {
        law_batch_size_adds_up(batch, more.drop_last(), allocation);
        assert((batch + more).drop_last() =~= batch + more.drop_last());
        assert((batch + more).last() == more.last());
    }
}

/// One copy from a staging buffer into a render buffer.
#[derive(Debug, Clone, Copy, PartialEq, Eq, Structural)]
pub struct BufferCopy {
    pub render_buffer_id: u64,
    pub source_offset: u64,
    pub destination_offset: u64,
    pub size: u64,
}

/// Whether a batch can be copied: its first renderable is placed in a render buffer
/// that exists.
pub open spec fn batch_copyable(batch: Seq<RenderableAllocation>, occupancy: Map<u64, usize>) -> bool {
    &&& batch.len() > 0
    &&& batch[0].render_buffer_id is Some
    &&& occupancy.contains_key(batch[0].render_buffer_id->0)
    &&& batch[0].render_buffer_offset is Some
}

/// The copy that moves a batch into its render buffer: the whole batch, from the start
/// of a staging buffer, to where its first renderable lies. Fails with
/// `RenderableNotAllocated` when the batch cannot be copied.
pub fn batch_copy(batch: &[RenderableAllocation], occupancy: &RenderBufferOccupancy) -> (r: Result<BufferCopy, NeuclidioError>)
    requires
        batch_copyable(batch@, occupancy@) ==> batch_size(batch@) <= u64::MAX,
    ensures
        r is Ok <==> batch_copyable(batch@, occupancy@),
        r is Err ==> r == Err::<BufferCopy, NeuclidioError>(
            NeuclidioError::RenderError(RenderError::RenderPipelineError(RenderPipelineError::RenderableNotAllocated)),
        ),
        r is Ok ==> r->Ok_0 == (BufferCopy {
            render_buffer_id: batch@[0].render_buffer_id->0,
            source_offset: 0,
            destination_offset: batch@[0].render_buffer_offset->0,
            size: batch_size(batch@) as u64,
        }),
{
    let not_allocated = NeuclidioError::RenderError(
        RenderError::RenderPipelineError(RenderPipelineError::RenderableNotAllocated),
    );
    if batch.len() == 0 {
        return Err(not_allocated);
    }
    let first = batch[0];
    let render_buffer_id = match first.render_buffer_id {
        Some(id) => id,
        None => return Err(not_allocated),
    };
    if occupancy.renderable_count(render_buffer_id).is_none() {
        return Err(not_allocated);
    }
    let destination_offset = match first.render_buffer_offset {
        Some(offset) => offset,
        None => return Err(not_allocated),
    };
    let mut size: u64 = 0;
    let mut k: usize = 0;
    while k < batch.len()
        invariant
            k <= batch@.len(),
            batch_size(batch@) <= u64::MAX,
            size == batch_size(batch@.take(k as int)),
        decreases batch@.len() - k,
    {
        proof {
            lemma_batch_size_prefix(batch@, k + 1);
            assert(batch@.take(k + 1).drop_last() =~= batch@.take(k as int));
        }
        size = size + batch[k].size_in_render_buffer;
        k = k + 1;
    }
    assert(batch@.take(batch@.len() as int) =~= batch@);
    Ok(BufferCopy { render_buffer_id, source_offset: 0, destination_offset, size })
}

/// A prefix of a batch takes no more bytes than the whole batch.
proof fn lemma_batch_size_prefix(batch: Seq<RenderableAllocation>, n: int)
    requires
        0 <= n <= batch.len(),
    ensures
        0 <= batch_size(batch.take(n)) <= batch_size(batch),
    decreases batch.len(),
{
    if batch.len() > 0 {
        if n == batch.len() {
            assert(batch.take(n) =~= batch);
            lemma_batch_size_prefix(batch.drop_last(), n - 1);
        } else {
            assert(batch.drop_last().take(n) =~= batch.take(n));
            lemma_batch_size_prefix(batch.drop_last(), n);
        }
    }
}

} // verus!
