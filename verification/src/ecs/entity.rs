use vstd::prelude::*;

verus! {

/// A handle to an entity: a slot (its sparse index) and the generation of that slot
/// at the time the handle was given out.
#[derive(PartialEq, Eq, Hash, Copy, Clone, Debug, Structural)]
pub struct Entity {
    pub(crate) sparse_index: u32,
    pub(crate) generation: u32,
}

impl Entity {
    /// The slot of this entity.
    pub closed spec fn spec_sparse_index(&self) -> u32 {
        self.sparse_index
    }

    /// The generation of the slot when this entity was given out.
    pub closed spec fn spec_generation(&self) -> u32 {
        self.generation
    }

    /// An entity for a slot and a generation.
    pub(crate) fn new(sparse_index: u32, generation: u32) -> (r: Self)
        ensures
            r.spec_sparse_index() == sparse_index,
            r.spec_generation() == generation,
    {
        Entity { sparse_index, generation }
    }

    /// Entities with the same slot and generation are the same entity.
    pub proof fn lemma_eq(a: Entity, b: Entity)
        requires
            a.spec_sparse_index() == b.spec_sparse_index(),
            a.spec_generation() == b.spec_generation(),
        ensures
            a == b,
    {
    }

    /// The slot of this entity.
    #[verifier::when_used_as_spec(spec_sparse_index)]
    pub fn sparse_index(&self) -> (r: u32)
        ensures
            r == self.spec_sparse_index(),
    {
        self.sparse_index
    }

    /// The generation of the slot when this entity was given out.
    #[verifier::when_used_as_spec(spec_generation)]
    pub fn generation(&self) -> (r: u32)
        ensures
            r == self.spec_generation(),
    {
        self.generation
    }
}

} // verus!
