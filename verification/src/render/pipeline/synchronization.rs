use vstd::prelude::*;

use crate::error::{NeuclidioError, RenderError, RenderPipelineError};
use std::collections::HashMap;

verus! {

broadcast use vstd::std_specs::hash::group_hash_axioms;

/// Vulkan's result code for a swap chain that no longer matches its surface.
pub const ERROR_OUT_OF_DATE_KHR: i32 = -1000001004;

/// The error for a Vulkan call that failed with `code`.
pub open spec fn vulkan_error<T>(code: i32) -> Result<T, NeuclidioError> {
    Err(NeuclidioError::RenderError(RenderError::VulkanErrorCode(code)))
}

/// What becomes of a window's frame once a swap chain image was asked for: the image
/// to render into, or `None` when the swap chain is out of date and the window must be
/// reset; any other failure is an error.
pub fn acquired_image(result: Result<u32, i32>) -> (r: Result<Option<u32>, NeuclidioError>)
    ensures
        r == match result {
            Ok(image_index) => Ok(Some(image_index)),
            Err(code) => if code == ERROR_OUT_OF_DATE_KHR {
                Ok(None)
            } else {
                vulkan_error(code)
            },
        },
{
    match result {
        Ok(image_index) => Ok(Some(image_index)),
        Err(code) => {
            if code == ERROR_OUT_OF_DATE_KHR {
                Ok(None)
            } else {
                Err(NeuclidioError::RenderError(RenderError::VulkanErrorCode(code)))
            }
        },
    }
}

/// The frame counters of one window.
#[derive(Debug, Clone, Copy, PartialEq, Eq, Structural)]
pub struct FrameCounter {
    /// The number of frames presented so far.
    pub frame_index: u64,
    /// Which of the frames in flight the next frame uses.
    pub frame_in_flight_index: usize,
}

/// The error for a window that was never prepared.
pub open spec fn unprepared<T>() -> Result<T, NeuclidioError> {
    Err(NeuclidioError::RenderError(RenderError::RenderPipelineError(RenderPipelineError::Unprepared)))
}

/// The frame counters of every prepared window, keyed by window id: the frame index and
/// which frame in flight comes next.
pub struct RenderPipelineSynchronizationState {
    window_states: HashMap<u64, FrameCounter>,
    max_frames_in_flight: usize,
}

impl RenderPipelineSynchronizationState {
    /// The frame index of every prepared window.
    pub closed spec fn frame_indices(&self) -> Map<u64, u64> {
        Map::new(|w: u64| self.window_states@.contains_key(w), |w: u64| self.window_states@[w].frame_index)
    }

    /// How many frames may be in flight at once.
    pub closed spec fn max_frames(&self) -> usize {
        self.max_frames_in_flight
    }

    /// Each window's frame in flight is its frame index modulo the number of frames in flight.
    pub closed spec fn wf(&self) -> bool {
        &&& self.max_frames_in_flight > 0
        &&& forall|w: u64|
            #[trigger] self.window_states@.contains_key(w) ==> self.window_states@[w].frame_in_flight_index as int
                == self.window_states@[w].frame_index as int % self.max_frames_in_flight as int
    }

    /// No window is prepared yet.
    pub fn new(max_frames_in_flight: usize) -> (r: Self)
        requires
            max_frames_in_flight > 0,
        ensures
            r.wf(),
            r.frame_indices() == Map::<u64, u64>::empty(),
            r.max_frames() == max_frames_in_flight,
    {
        let r = RenderPipelineSynchronizationState { window_states: HashMap::new(), max_frames_in_flight };
        assert(r.frame_indices() =~= Map::<u64, u64>::empty());
        r
    }

    /// Prepares a window with frame index 0; a prepared window keeps its counters.
    pub fn reset_window(&mut self, window_id: u64)
        requires
            old(self).wf(),
        ensures
            final(self).wf(),
            final(self).max_frames() == old(self).max_frames(),
            final(self).frame_indices() == if old(self).frame_indices().contains_key(window_id) {
                old(self).frame_indices()
            } else {
                old(self).frame_indices().insert(window_id, 0)
            },
    {
        if self.window_states.contains_key(&window_id) {
            return;
        }
        self.window_states.insert(window_id, FrameCounter { frame_index: 0, frame_in_flight_index: 0 });
        proof {
            let max = self.max_frames_in_flight as int;
            vstd::arithmetic::div_mod::lemma_small_mod(0nat, max as nat);
            assert forall|w: u64| #[trigger] self.window_states@.contains_key(w) implies self.window_states@[w].frame_in_flight_index as int
                == self.window_states@[w].frame_index as int % max by {
                if w != window_id {
                    assert(old(self).window_states@.contains_key(w));
                }
            }
        }
        assert(self.frame_indices() =~= old(self).frame_indices().insert(window_id, 0));
    }

    /// Forgets a window.
    pub fn clean_up_for_window(&mut self, window_id: u64)
        requires
            old(self).wf(),
        ensures
            final(self).wf(),
            final(self).max_frames() == old(self).max_frames(),
            final(self).frame_indices() == old(self).frame_indices().remove(window_id),
    {
        self.window_states.remove(&window_id);
        assert(self.frame_indices() =~= old(self).frame_indices().remove(window_id));
    }

    /// The frame index of a window; fails with `Unprepared` for an unknown window.
    pub fn frame_index(&self, window_id: u64) -> (r: Result<u64, NeuclidioError>)
        requires
            self.wf(),
        ensures
            r == if self.frame_indices().contains_key(window_id) {
                Ok(self.frame_indices()[window_id])
            } else {
                unprepared()
            },
    {
        match self.window_states.get(&window_id) {
            Some(window_state) => Ok(window_state.frame_index),
            None => Err(
                NeuclidioError::RenderError(RenderError::RenderPipelineError(RenderPipelineError::Unprepared)),
            ),
        }
    }

    /// Which frame in flight a window uses now: its frame index modulo the number of
    /// frames in flight; fails with `Unprepared` for an unknown window.
    pub fn frame_in_flight_index(&self, window_id: u64) -> (r: Result<usize, NeuclidioError>)
        requires
            self.wf(),
        ensures
            r == if self.frame_indices().contains_key(window_id) {
                Ok((self.frame_indices()[window_id] as int % self.max_frames() as int) as usize)
            } else {
                unprepared()
            },
    {
        match self.window_states.get(&window_id) {
            Some(window_state) => Ok(window_state.frame_in_flight_index),
            None => Err(
                NeuclidioError::RenderError(RenderError::RenderPipelineError(RenderPipelineError::Unprepared)),
            ),
        }
    }

    /// The value the frame index semaphore must reach before a window's frame may start:
    /// the frame index less the frames in flight, or 0 for the first frames.
    pub fn frame_index_semaphore_required_value(&self, window_id: u64) -> (r: Result<u64, NeuclidioError>)
        requires
            self.wf(),
        ensures
            r == if self.frame_indices().contains_key(window_id) {
                let frame_index = self.frame_indices()[window_id];
                if frame_index < self.max_frames() {
                    Ok(0u64)
                } else {
                    Ok((frame_index - self.max_frames()) as u64)
                }
            } else {
                unprepared()
            },
    {
        let frame_index = match self.frame_index(window_id) {
            Ok(frame_index) => frame_index,
            Err(err) => return Err(err),
        };
        if frame_index < self.max_frames_in_flight as u64 {
            Ok(0)
        } else {
            Ok(frame_index - self.max_frames_in_flight as u64)
        }
    }

    /// Moves a window on to its next frame; fails with `Unprepared`, changing nothing,
    /// for an unknown window.
    pub fn increment_frame(&mut self, window_id: u64) -> (r: Result<(), NeuclidioError>)
        requires
            old(self).wf(),
            old(self).frame_indices().contains_key(window_id) ==> old(self).frame_indices()[window_id] < u64::MAX,
        ensures
            final(self).wf(),
            final(self).max_frames() == old(self).max_frames(),
            r == if old(self).frame_indices().contains_key(window_id) {
                Ok(())
            } else {
                unprepared()
            },
            final(self).frame_indices() == if old(self).frame_indices().contains_key(window_id) {
                old(self).frame_indices().insert(window_id, (old(self).frame_indices()[window_id] + 1) as u64)
            } else {
                old(self).frame_indices()
            },
    {
        let window_state = match self.window_states.get(&window_id) {
            Some(window_state) => *window_state,
            None => return Err(
                NeuclidioError::RenderError(RenderError::RenderPipelineError(RenderPipelineError::Unprepared)),
            ),
        };
        let ghost max = self.max_frames_in_flight as int;
        let ghost f = window_state.frame_index as int;
        let next = FrameCounter {
            frame_in_flight_index: (window_state.frame_in_flight_index + 1) % self.max_frames_in_flight,
            frame_index: window_state.frame_index + 1,
        };
        proof {
            law_next_frame_in_flight(f, max);
        }
        self.window_states.insert(window_id, next);
        assert(self.frame_indices() =~= old(self).frame_indices().insert(window_id, (f + 1) as u64));
        Ok(())
    }
}

impl RenderPipelineSynchronizationState {
    /// Settles a window's frame once it was presented: a presented frame moves the window
    /// on to its next frame; an out-of-date swap chain keeps the counters and reports
    /// the window as changed (`true`), to be reset; any other failure is an error.
    pub fn finish_frame(&mut self, window_id: u64, present_result: Result<(), i32>) -> (r: Result<bool, NeuclidioError>)
        requires
            old(self).wf(),
            old(self).frame_indices().contains_key(window_id) ==> old(self).frame_indices()[window_id] < u64::MAX,
        ensures
            final(self).wf(),
            final(self).max_frames() == old(self).max_frames(),
            r == match present_result {
                Ok(()) => if old(self).frame_indices().contains_key(window_id) {
                    Ok(false)
                } else {
                    unprepared()
                },
                Err(code) => if code == ERROR_OUT_OF_DATE_KHR {
                    Ok(true)
                } else {
                    vulkan_error(code)
                },
            },
            final(self).frame_indices() == if present_result is Ok && old(self).frame_indices().contains_key(
                window_id,
            ) {
                old(self).frame_indices().insert(window_id, (old(self).frame_indices()[window_id] + 1) as u64)
            } else {
                old(self).frame_indices()
            },
    {
        match present_result {
            Ok(()) => match self.increment_frame(window_id) {
                Ok(()) => Ok(false),
                Err(err) => Err(err),
            },
            Err(code) => {
                if code == ERROR_OUT_OF_DATE_KHR {
                    Ok(true)
                } else {
                    Err(NeuclidioError::RenderError(RenderError::VulkanErrorCode(code)))
                }
            },
        }
    }
}

/// Each new frame moves a window on to the next frame in flight, wrapping around after
/// the last one: the frame in flight of frame `f + 1` follows that of frame `f`.
pub proof fn law_next_frame_in_flight(f: int, max: int)
    requires
        f >= 0,
        max > 0,
    ensures
        ((f % max) + 1) % max == (f + 1) % max,
{
    if max == 1 {
        assert(((f % max) + 1) % max == 0 && (f + 1) % max == 0) by (nonlinear_arith)
            requires
                max == 1,
        ;
    } else {
        vstd::arithmetic::div_mod::lemma_small_mod(1nat, max as nat);
        vstd::arithmetic::div_mod::lemma_add_mod_noop(f, 1, max);
    }
}

} // verus!
