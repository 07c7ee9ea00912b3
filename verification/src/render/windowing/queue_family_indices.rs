use vstd::prelude::*;

use crate::error::{NeuclidioError, RenderError};
use std::collections::HashSet;

verus! {

/// The Vulkan queue flag bit for graphics operations.
pub const QUEUE_GRAPHICS_BIT: u32 = 1;

/// Whether a queue family with these flags supports graphics operations.
pub open spec fn supports_graphics(queue_flags: u32) -> bool {
    queue_flags & QUEUE_GRAPHICS_BIT == QUEUE_GRAPHICS_BIT
}

/// `i` is the first position whose flags support graphics.
pub open spec fn is_first_graphics_family(queue_flags: Seq<u32>, i: int) -> bool {
    &&& 0 <= i < queue_flags.len()
    &&& supports_graphics(queue_flags[i])
    &&& forall|j: int| 0 <= j < i ==> !supports_graphics(#[trigger] queue_flags[j])
}

/// `i` is the first position whose family can present to the surface.
pub open spec fn is_first_present_family(present_support: Seq<bool>, i: int) -> bool {
    &&& 0 <= i < present_support.len()
    &&& present_support[i]
    &&& forall|j: int| 0 <= j < i ==> !#[trigger] present_support[j]
}

/// The Vulkan sharing mode for images used by one queue family.
pub const SHARING_MODE_EXCLUSIVE: i32 = 0;

/// The Vulkan sharing mode for images used by several queue families.
pub const SHARING_MODE_CONCURRENT: i32 = 1;

/// The queue families that the engine draws with and presents with.
#[derive(Copy, Clone, Debug, PartialEq, Eq, Structural)]
pub struct QueueFamilyIndices {
    pub graphics: u32,
    pub present: u32,
}

impl QueueFamilyIndices {
    /// Picks the first family that supports graphics and the first family that can
    /// present, from the flags of each family and whether each can present to the
    /// surface; fails with `MissingRequiredQueueFamilies` when either is missing.
    pub fn new(queue_flags: &[u32], present_support: &[bool]) -> (r: Result<Self, NeuclidioError>)
        requires
            queue_flags@.len() <= u32::MAX,
            present_support@.len() <= u32::MAX,
        ensures
            r is Ok <==> (exists|i: int| 0 <= i < queue_flags@.len() && supports_graphics(#[trigger] queue_flags@[i]))
                && (exists|i: int| 0 <= i < present_support@.len() && #[trigger] present_support@[i]),
            r is Err ==> r == Err::<Self, NeuclidioError>(
                NeuclidioError::RenderError(RenderError::MissingRequiredQueueFamilies),
            ),
            r is Ok ==> is_first_graphics_family(queue_flags@, r->Ok_0.graphics as int)
                && is_first_present_family(present_support@, r->Ok_0.present as int),
    {
        let mut graphics: Option<u32> = None;
        let mut i: usize = 0;
        while i < queue_flags.len() && graphics.is_none()
            invariant
                queue_flags@.len() <= u32::MAX,
                i <= queue_flags@.len(),
                graphics is None ==> forall|j: int| 0 <= j < i ==> !supports_graphics(#[trigger] queue_flags@[j]),
                graphics is Some ==> is_first_graphics_family(queue_flags@, graphics->0 as int),
            decreases queue_flags@.len() - i + (if graphics is None { 1int } else { 0int }),
        {
            if queue_flags[i] & QUEUE_GRAPHICS_BIT == QUEUE_GRAPHICS_BIT {
                graphics = Some(i as u32);
            } else {
                i = i + 1;
            }
        }
        let mut present: Option<u32> = None;
        let mut k: usize = 0;
        while k < present_support.len() && present.is_none()
            invariant
                present_support@.len() <= u32::MAX,
                k <= present_support@.len(),
                present is None ==> forall|j: int| 0 <= j < k ==> !#[trigger] present_support@[j],
                present is Some ==> is_first_present_family(present_support@, present->0 as int),
            decreases present_support@.len() - k + (if present is None { 1int } else { 0int }),
        {
            if present_support[k] {
                present = Some(k as u32);
            } else {
                k = k + 1;
            }
        }
        match (graphics, present) {
            (Some(graphics), Some(present)) => Ok(QueueFamilyIndices { graphics, present }),
            _ => Err(NeuclidioError::RenderError(RenderError::MissingRequiredQueueFamilies)),
        }
    }

    /// The distinct families among the graphics and present families.
    pub fn unique(&self) -> (r: HashSet<u32>)
        ensures
            r@ == set![self.graphics, self.present],
    {
        let mut unique_indices = HashSet::new();
        unique_indices.insert(self.graphics);
        unique_indices.insert(self.present);
        unique_indices
    }

    /// How swap chain images are shared: concurrently between the two families when they
    /// differ, exclusively (and with no family list) when they are the same.
    pub fn image_sharing(&self) -> (r: (i32, Vec<u32>))
        ensures
            self.graphics != self.present ==> r.0 == SHARING_MODE_CONCURRENT && r.1@ == seq![self.graphics, self.present],
            self.graphics == self.present ==> r.0 == SHARING_MODE_EXCLUSIVE && r.1@ == Seq::<u32>::empty(),
    {
        if self.graphics != self.present {
            let mut families: Vec<u32> = Vec::new();
            families.push(self.graphics);
            families.push(self.present);
            assert(families@ =~= seq![self.graphics, self.present]);
            (SHARING_MODE_CONCURRENT, families)
        } else {
            (SHARING_MODE_EXCLUSIVE, Vec::new())
        }
    }
}

} // verus!
