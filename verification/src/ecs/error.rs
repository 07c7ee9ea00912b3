use vstd::prelude::*;

verus! {

/// Errors raised by the paged sparse set.
#[derive(Debug, Clone, Copy, PartialEq, Eq, Structural)]
pub enum PagedSparseSetError {
    /// The slot for the requested sparse index already holds an item.
    SlotFull,
}

/// Errors raised by the entity component system.
#[derive(Debug, Clone, Copy, PartialEq, Eq, Structural)]
pub enum EcsError {
    PagedSparseSetError(PagedSparseSetError),
}

impl From<PagedSparseSetError> for EcsError {
    fn from(value: PagedSparseSetError) -> (r: Self)
        ensures r == EcsError::PagedSparseSetError(value),
    {
        EcsError::PagedSparseSetError(value)
    }
}

} // verus!
