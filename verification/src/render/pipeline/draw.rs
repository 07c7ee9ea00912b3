use vstd::prelude::*;

use crate::render::pipeline::allocator::still_used;
use crate::render::pipeline::standard::{windows_of, RenderableEntities};

verus! {

/// A renderable as the command buffer of one window sees it: where it lies in the render
/// buffers, if it is allocated, and where its indices start within its allocation.
#[derive(Debug, Clone, Copy, PartialEq, Eq, Structural)]
pub struct RenderableDraw {
    pub renderable_id: u64,
    pub render_buffer_id: Option<u64>,
    pub render_buffer_offset: Option<u64>,
    /// Whether the allocator still holds the render buffer with that id.
    pub render_buffer_exists: bool,
    pub index_offset: u64,
    pub index_count: u64,
}

/// What the command buffer does for one renderable: bind its vertices and indices in its
/// render buffer, draw it once for each entity that shows it, and mark it as used.
#[derive(Debug, Clone, Copy, PartialEq, Eq, Structural)]
pub struct DrawCommand {
    pub renderable_id: u64,
    pub render_buffer_id: u64,
    /// Where the vertex buffer is bound: the start of the allocation.
    pub vertex_offset: u64,
    /// Where the index buffer is bound: the start of the indices in the allocation.
    pub index_offset: u64,
    /// The indices of each draw (as the 32-bit count that Vulkan takes).
    pub index_count: u32,
    /// One draw for each entity that shows the renderable in the window.
    pub draw_count: usize,
    /// The frame the renderable is marked as last used in, for this window.
    pub last_used_in_frame: u64,
}

/// A renderable is drawn in a window when some entity shows it there and it is allocated
/// in a render buffer that still exists.
pub open spec fn is_drawn(registry: Map<u64, Map<u64, Set<u64>>>, window_id: u64, renderable: RenderableDraw) -> bool {
    &&& windows_of(registry, renderable.renderable_id).contains_key(window_id)
    &&& renderable.render_buffer_id is Some
    &&& renderable.render_buffer_offset is Some
    &&& renderable.render_buffer_exists
}

/// The commands for a renderable that is drawn in the window's frame `frame_index`.
pub open spec fn draw_command(
    registry: Map<u64, Map<u64, Set<u64>>>,
    window_id: u64,
    frame_index: u64,
    renderable: RenderableDraw,
) -> DrawCommand {
    DrawCommand {
        renderable_id: renderable.renderable_id,
        render_buffer_id: renderable.render_buffer_id->0,
        vertex_offset: renderable.render_buffer_offset->0,
        index_offset: (renderable.render_buffer_offset->0 + renderable.index_offset) as u64,
        index_count: renderable.index_count as u32,
        draw_count: windows_of(registry, renderable.renderable_id)[window_id].len() as usize,
        last_used_in_frame: (frame_index + 1) as u64,
    }
}

/// The commands of a window's frame: one for each renderable that is drawn there, in the
/// order of `renderables`; the others are skipped.
pub open spec fn draw_plan(
    registry: Map<u64, Map<u64, Set<u64>>>,
    window_id: u64,
    frame_index: u64,
    renderables: Seq<RenderableDraw>,
) -> Seq<DrawCommand>
    decreases renderables.len(),
{
    if renderables.len() == 0 {
        Seq::empty()
    } else {
        let previous = draw_plan(registry, window_id, frame_index, renderables.drop_last());
        let renderable = renderables.last();
        if is_drawn(registry, window_id, renderable) {
            previous.push(draw_command(registry, window_id, frame_index, renderable))
        } else {
            previous
        }
    }
}

/// Every command of a frame marks its renderable as last used in the frame after it.
proof fn lemma_plan_marks_next_frame(
    registry: Map<u64, Map<u64, Set<u64>>>,
    window_id: u64,
    frame_index: u64,
    renderables: Seq<RenderableDraw>,
)
    requires
        frame_index < u64::MAX,
    ensures
        forall|i: int|
            0 <= i < draw_plan(registry, window_id, frame_index, renderables).len()
                ==> (#[trigger] draw_plan(registry, window_id, frame_index, renderables)[i]).last_used_in_frame
                == frame_index + 1,
    decreases renderables.len(),
{
    if renderables.len() > 0 {
        let previous = draw_plan(registry, window_id, frame_index, renderables.drop_last());
        lemma_plan_marks_next_frame(registry, window_id, frame_index, renderables.drop_last());
        let plan = draw_plan(registry, window_id, frame_index, renderables);
        assert forall|i: int| 0 <= i < plan.len() implies (#[trigger] plan[i]).last_used_in_frame == frame_index + 1 by {
            if i < previous.len() {
                assert(plan[i] == previous[i]);
            }
        }
    }
}

/// A renderable that a window draws in frame `frame_index` counts as still in use by that
/// window until the window's frame index semaphore has passed that frame, so its memory
/// is not released while the frame may still read it.
pub proof fn law_drawn_renderable_stays_in_use(
    registry: Map<u64, Map<u64, Set<u64>>>,
    window_id: u64,
    frame_index: u64,
    renderables: Seq<RenderableDraw>,
    i: int,
    frame_index_semaphore_values: Map<u64, u64>,
)
    requires
        frame_index < u64::MAX,
        0 <= i < draw_plan(registry, window_id, frame_index, renderables).len(),
        frame_index_semaphore_values.contains_key(window_id),
    ensures
        still_used(
            seq![(window_id, draw_plan(registry, window_id, frame_index, renderables)[i].last_used_in_frame)],
            frame_index_semaphore_values,
        ) <==> frame_index_semaphore_values[window_id] <= frame_index,
{
    lemma_plan_marks_next_frame(registry, window_id, frame_index, renderables);
    let used = seq![(window_id, draw_plan(registry, window_id, frame_index, renderables)[i].last_used_in_frame)];
    assert(used[0].0 == window_id);
    if frame_index_semaphore_values[window_id] <= frame_index {
        assert(0 <= 0 < used.len());
    }
}

/// A frame draws every renderable that is drawn in the window, and nothing else: the
/// plan has one command per such renderable, in their order, and the command at each
/// one's rank binds its vertices at its offset and its indices right after its
/// `index_offset` in the same render buffer, draws its index count once per entity that
/// shows it in the window, and marks it as used in the frame after this one.
pub proof fn law_plan_draws_every_drawn_renderable(
    registry: Map<u64, Map<u64, Set<u64>>>,
    window_id: u64,
    frame_index: u64,
    renderables: Seq<RenderableDraw>,
)
    requires
        frame_index < u64::MAX,
        forall|k: int|
            0 <= k < renderables.len() && is_drawn(registry, window_id, #[trigger] renderables[k])
                ==> renderables[k].render_buffer_offset->0 + renderables[k].index_offset <= u64::MAX,
    ensures
        ({
            let plan = draw_plan(registry, window_id, frame_index, renderables);
            let drawn = renderables.filter(
                |r: RenderableDraw|
                    registry.contains_key(r.renderable_id) && registry[r.renderable_id].contains_key(window_id)
                        && r.render_buffer_id is Some && r.render_buffer_offset is Some && r.render_buffer_exists,
            );
            &&& plan.len() == drawn.len()
            &&& forall|i: int|
                #![trigger plan[i]]
                0 <= i < plan.len() ==> {
                    let r = drawn[i];
                    &&& plan[i].renderable_id == r.renderable_id
                    &&& r.render_buffer_id == Some(plan[i].render_buffer_id)
                    &&& r.render_buffer_offset == Some(plan[i].vertex_offset)
                    &&& plan[i].index_offset == plan[i].vertex_offset + r.index_offset
                    &&& plan[i].index_count == #[verifier::truncate] (r.index_count as u32)
                    &&& plan[i].draw_count == #[verifier::truncate] (registry[r.renderable_id][window_id].len() as usize)
                    &&& plan[i].last_used_in_frame == frame_index + 1
                }
        }),
    decreases renderables.len(),
{
    reveal(Seq::filter);
    if renderables.len() > 0 {
        let rest = renderables.drop_last();
        assert forall|k: int|
            0 <= k < rest.len() && is_drawn(registry, window_id, #[trigger] rest[k])
                implies rest[k].render_buffer_offset->0 + rest[k].index_offset <= u64::MAX by {
            assert(rest[k] == renderables[k]);
        }
        law_plan_draws_every_drawn_renderable(registry, window_id, frame_index, rest);
        let previous = draw_plan(registry, window_id, frame_index, rest);
        let plan = draw_plan(registry, window_id, frame_index, renderables);
        let drawn_before = rest.filter(
            |r: RenderableDraw|
                registry.contains_key(r.renderable_id) && registry[r.renderable_id].contains_key(window_id)
                    && r.render_buffer_id is Some && r.render_buffer_offset is Some && r.render_buffer_exists,
        );
        let drawn = renderables.filter(
                |r: RenderableDraw|
                    registry.contains_key(r.renderable_id) && registry[r.renderable_id].contains_key(window_id)
                        && r.render_buffer_id is Some && r.render_buffer_offset is Some && r.render_buffer_exists,
            );
        let last = renderables.last();
        if is_drawn(registry, window_id, last) {
            assert(renderables[renderables.len() - 1] == last);
            assert(drawn == drawn_before.push(last));
            assert(plan == previous.push(draw_command(registry, window_id, frame_index, last)));
            assert forall|i: int| #![trigger plan[i]] 0 <= i < plan.len() implies {
                let r = drawn[i];
                &&& plan[i].renderable_id == r.renderable_id
                &&& r.render_buffer_id == Some(plan[i].render_buffer_id)
                &&& r.render_buffer_offset == Some(plan[i].vertex_offset)
                &&& plan[i].index_offset == plan[i].vertex_offset + r.index_offset
                &&& plan[i].index_count == #[verifier::truncate] (r.index_count as u32)
                &&& plan[i].draw_count == #[verifier::truncate] (registry[r.renderable_id][window_id].len() as usize)
                &&& plan[i].last_used_in_frame == frame_index + 1
            } by {
                if i < previous.len() {
                    assert(plan[i] == previous[i]);
                    assert(drawn[i] == drawn_before[i]);
                } else {
                    let k = renderables.len() - 1;
                    assert(is_drawn(registry, window_id, renderables[k]));
                    assert(renderables[k].render_buffer_offset->0 + renderables[k].index_offset <= u64::MAX);
                    assert(drawn[i] == last);
                    assert(plan[i] == draw_command(registry, window_id, frame_index, last));
                    assert(windows_of(registry, last.renderable_id) == registry[last.renderable_id]);
                }
            }
        } else {
            assert(drawn == drawn_before);
        }
    }
}

/// The draw commands that a window's command buffer records in frame `frame_index`, from
/// the entities that show each renderable and where each renderable is allocated.
pub fn plan_draws(
    registry: &RenderableEntities,
    window_id: u64,
    frame_index: u64,
    renderables: &[RenderableDraw],
) -> (r: Vec<DrawCommand>)
    requires
        frame_index < u64::MAX,
        forall|k: int|
            0 <= k < renderables@.len() && is_drawn(registry@, window_id, #[trigger] renderables@[k])
                ==> renderables@[k].render_buffer_offset->0 + renderables@[k].index_offset <= u64::MAX,
    ensures
        r@ == draw_plan(registry@, window_id, frame_index, renderables@),
{
    let mut commands: Vec<DrawCommand> = Vec::new();
    let mut k: usize = 0;
    while k < renderables.len()
        invariant
            k <= renderables@.len(),
            frame_index < u64::MAX,
            forall|j: int|
                0 <= j < renderables@.len() && is_drawn(registry@, window_id, #[trigger] renderables@[j])
                    ==> renderables@[j].render_buffer_offset->0 + renderables@[j].index_offset <= u64::MAX,
            commands@ == draw_plan(registry@, window_id, frame_index, renderables@.take(k as int)),
        decreases renderables@.len() - k,
    {
        let renderable = renderables[k];
        proof {
            let next = renderables@.take(k + 1);
            assert(next.drop_last() =~= renderables@.take(k as int));
            assert(next.last() == renderable);
        }
        match registry.window_entity_count(renderable.renderable_id, window_id) {
            Some(entity_count) => {
                match (renderable.render_buffer_id, renderable.render_buffer_offset) {
                    (Some(render_buffer_id), Some(render_buffer_offset)) => {
                        if renderable.render_buffer_exists {
                            #[verifier::truncate]
                            let index_count: u32 = renderable.index_count as u32;
                            commands.push(
                                DrawCommand {
                                    renderable_id: renderable.renderable_id,
                                    render_buffer_id,
                                    vertex_offset: render_buffer_offset,
                                    index_offset: render_buffer_offset + renderable.index_offset,
                                    index_count,
                                    draw_count: entity_count,
                                    last_used_in_frame: frame_index + 1,
                                },
                            );
                        }
                    },
                    _ => {},
                }
            },
            None => {},
        }
        k = k + 1;
    }
    assert(renderables@.take(renderables@.len() as int) =~= renderables@);
    commands
}

} // verus!
