use vstd::prelude::*;

use crate::error::{NeuclidioError, RenderError};

verus! {

/// Evidence that a physical device supports timeline semaphores.
pub struct SynchronizationSupport {}

impl SynchronizationSupport {
    /// Succeeds when the device reports the timeline semaphore feature (any value but
    /// Vulkan's `FALSE`, 0); fails with `MissingTimelineSemaphoreSupport` otherwise.
    pub fn new(timeline_semaphore: u32) -> (r: Result<Self, NeuclidioError>)
        ensures
            r is Ok <==> timeline_semaphore != 0,
            r is Err ==> r == Err::<Self, NeuclidioError>(
                NeuclidioError::RenderError(RenderError::MissingTimelineSemaphoreSupport),
            ),
    {
        if timeline_semaphore != 0 {
            Ok(SynchronizationSupport {})
        } else {
            Err(NeuclidioError::RenderError(RenderError::MissingTimelineSemaphoreSupport))
        }
    }
}

} // verus!
