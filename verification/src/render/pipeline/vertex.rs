use vstd::prelude::*;

verus! {

/// The Vulkan format of three 32-bit floats.
pub const FORMAT_R32G32B32_SFLOAT: i32 = 106;

/// The Vulkan format of two 32-bit floats.
pub const FORMAT_R32G32_SFLOAT: i32 = 103;

/// The Vulkan input rate that advances per vertex.
pub const VERTEX_INPUT_RATE_VERTEX: i32 = 0;

/// The size in bytes of a vector of three 32-bit floats.
pub const VEC3_SIZE: u32 = 12;

/// The size in bytes of a vertex: position, normal (three floats each) and texture
/// coordinate (two floats).
pub const VERTEX_STRIDE: u32 = 32;

/// How vertices are read from a buffer binding.
#[derive(Debug, Clone, Copy, PartialEq, Eq, Structural)]
pub struct VertexInputBindingDescription {
    pub binding: u32,
    pub stride: u32,
    pub input_rate: i32,
}

/// Where one attribute of a vertex lies and how it is read.
#[derive(Debug, Clone, Copy, PartialEq, Eq, Structural)]
pub struct VertexInputAttributeDescription {
    pub binding: u32,
    pub location: u32,
    pub format: i32,
    pub offset: u32,
}

/// Vertices come from binding 0, one vertex after the other.
pub fn binding_descriptions() -> (r: Vec<VertexInputBindingDescription>)
    ensures
        r@ == seq![(VertexInputBindingDescription { binding: 0, stride: VERTEX_STRIDE, input_rate: VERTEX_INPUT_RATE_VERTEX })],
{
    let binding_description = VertexInputBindingDescription {
        binding: 0,
        stride: VERTEX_STRIDE,
        input_rate: VERTEX_INPUT_RATE_VERTEX,
    };
    let mut r: Vec<VertexInputBindingDescription> = Vec::new();
    r.push(binding_description);
    r
}

/// The position at location 0, the normal at location 1 right after it, and the texture
/// coordinate at location 2 after both.
pub fn attribute_descriptions() -> (r: Vec<VertexInputAttributeDescription>)
    ensures
        r@ == seq![
            (VertexInputAttributeDescription { binding: 0, location: 0, format: FORMAT_R32G32B32_SFLOAT, offset: 0 }),
            (VertexInputAttributeDescription { binding: 0, location: 1, format: FORMAT_R32G32B32_SFLOAT, offset: VEC3_SIZE }),
            (VertexInputAttributeDescription { binding: 0, location: 2, format: FORMAT_R32G32_SFLOAT, offset: 24 }),
        ],
{
    let position_attribute = VertexInputAttributeDescription {
        binding: 0,
        location: 0,
        format: FORMAT_R32G32B32_SFLOAT,
        offset: 0,
    };
    let normal_attribute = VertexInputAttributeDescription {
        binding: 0,
        location: 1,
        format: FORMAT_R32G32B32_SFLOAT,
        offset: VEC3_SIZE,
    };
    let texture_coordinate_attribute = VertexInputAttributeDescription {
        binding: 0,
        location: 2,
        format: FORMAT_R32G32_SFLOAT,
        offset: VEC3_SIZE + VEC3_SIZE,
    };
    let mut r: Vec<VertexInputAttributeDescription> = Vec::new();
    r.push(position_attribute);
    r.push(normal_attribute);
    r.push(texture_coordinate_attribute);
    assert(r@ =~= seq![position_attribute, normal_attribute, texture_coordinate_attribute]);
    r
}

} // verus!
