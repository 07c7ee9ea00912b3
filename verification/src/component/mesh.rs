use vstd::prelude::*;

verus! {

/// The identity of a mesh.
#[derive(PartialEq, Eq, PartialOrd, Ord, Copy, Clone, Debug, Structural)]
pub struct MeshId(pub(crate) u64);

impl MeshId {
    /// The number of this id.
    pub closed spec fn spec_value(&self) -> u64 {
        self.0
    }

    /// The id with the given number.
    pub fn new(id: u64) -> (r: Self)
        ensures
            r.value() == id,
    {
        MeshId(id)
    }

    /// The number of this id.
    #[verifier::when_used_as_spec(spec_value)]
    pub fn value(&self) -> (r: u64)
        ensures
            r == self.spec_value(),
    {
        self.0
    }
}

/// The size in bytes of one vertex: a position and a normal of three `f32` each and a
/// texture coordinate of two.
pub const VERTEX_SIZE: u64 = 32;

/// The size in bytes of one index.
pub const INDEX_SIZE: u64 = 4;

/// How a mesh lies in a render buffer: its vertices first, then its indices.
#[derive(Copy, Clone, Debug, PartialEq, Eq, Structural)]
pub struct MeshLayout {
    pub vertex_count: u64,
    pub index_count: u64,
}

impl MeshLayout {
    /// The number of indices.
    pub fn index_count(&self) -> (r: u64)
        ensures
            r == self.index_count,
    {
        self.index_count
    }

    /// Where the indices start: right after the vertices.
    pub fn index_offset(&self) -> (r: u64)
        requires
            self.vertex_count * VERTEX_SIZE <= u64::MAX,
        ensures
            r == self.vertex_count * VERTEX_SIZE,
    {
        self.vertex_count * VERTEX_SIZE
    }

    /// The bytes the mesh takes in a render buffer: its vertices and its indices.
    pub fn size_in_render_buffer(&self) -> (r: u64)
        requires
            self.vertex_count * VERTEX_SIZE + self.index_count * INDEX_SIZE <= u64::MAX,
        ensures
            r == self.vertex_count * VERTEX_SIZE + self.index_count * INDEX_SIZE,
    {
        self.index_offset() + self.index_count * INDEX_SIZE
    }
}

} // verus!
