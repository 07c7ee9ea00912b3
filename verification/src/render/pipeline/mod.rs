use vstd::prelude::*;

use crate::error::{NeuclidioError, RenderError, RenderPipelineError};

pub mod allocator;
pub mod draw;
pub mod standard;
pub mod vertex;
pub mod synchronization;

verus! {

/// The Vulkan image tiling `OPTIMAL`.
pub const IMAGE_TILING_OPTIMAL: i32 = 0;

/// The Vulkan image tiling `LINEAR`.
pub const IMAGE_TILING_LINEAR: i32 = 1;

/// Whether the feature flags `features` include every flag of `required`.
pub open spec fn features_contain(features: u32, required: u32) -> bool {
    features & required == required
}

/// The features of a format for linear and for optimal tiling.
#[derive(Debug, Clone, Copy, PartialEq, Eq, Structural)]
pub struct FormatProperties {
    pub linear_tiling_features: u32,
    pub optimal_tiling_features: u32,
}

/// Whether a format with these properties offers the required features under the tiling.
pub open spec fn format_supports(properties: FormatProperties, image_tiling: i32, format_features: u32) -> bool {
    if image_tiling == IMAGE_TILING_LINEAR {
        features_contain(properties.linear_tiling_features, format_features)
    } else if image_tiling == IMAGE_TILING_OPTIMAL {
        features_contain(properties.optimal_tiling_features, format_features)
    } else {
        false
    }
}

/// Whether some format, given by its properties, offers the features under the tiling.
pub open spec fn any_supported(properties: Seq<FormatProperties>, image_tiling: i32, format_features: u32) -> bool {
    exists|k: int| 0 <= k < properties.len() && format_supports(#[trigger] properties[k], image_tiling, format_features)
}

/// Whether `format` is the first of the preferred formats (whose properties are given in
/// the same order) that offers the features under the tiling.
pub open spec fn is_first_supported(
    preferred_formats: Seq<i32>,
    properties: Seq<FormatProperties>,
    image_tiling: i32,
    format_features: u32,
    format: i32,
) -> bool {
    exists|k: int|
        0 <= k < properties.len() && format_supports(#[trigger] properties[k], image_tiling, format_features)
            && format == preferred_formats[k] && forall|j: int|
            0 <= j < k ==> !format_supports(#[trigger] properties[j], image_tiling, format_features)
}

/// The first preferred format whose properties (given in the same order) offer the
/// required features under the tiling, if any.
pub fn get_supported_image_format(
    image_tiling: i32,
    format_features: u32,
    preferred_formats: &[i32],
    format_properties: &[FormatProperties],
) -> (r: Option<i32>)
    requires
        preferred_formats@.len() == format_properties@.len(),
    ensures
        r is Some <==> any_supported(format_properties@, image_tiling, format_features),
        r is Some ==> is_first_supported(preferred_formats@, format_properties@, image_tiling, format_features, r->0),
{
    let mut k: usize = 0;
    while k < preferred_formats.len()
        invariant
            preferred_formats@.len() == format_properties@.len(),
            k <= preferred_formats@.len(),
            forall|j: int| 0 <= j < k ==> !format_supports(#[trigger] format_properties@[j], image_tiling, format_features),
        decreases preferred_formats@.len() - k,
    {
        let properties = format_properties[k];
        if image_tiling == IMAGE_TILING_LINEAR {
            if properties.linear_tiling_features & format_features == format_features {
                return Some(preferred_formats[k]);
            }
        } else if image_tiling == IMAGE_TILING_OPTIMAL {
            if properties.optimal_tiling_features & format_features == format_features {
                return Some(preferred_formats[k]);
            }
        }
        k = k + 1;
    }
    None
}

/// A pipeline keeps at least two frames in flight; fails with
/// `MaxFramesInFlightTooLittle` for fewer.
pub fn check_max_frames_in_flight(max_frames_in_flight: usize) -> (r: Result<(), NeuclidioError>)
    ensures
        r is Ok <==> max_frames_in_flight >= 2,
        r is Err ==> r == Err::<(), NeuclidioError>(
            NeuclidioError::RenderError(RenderError::RenderPipelineError(RenderPipelineError::MaxFramesInFlightTooLittle)),
        ),
{
    if max_frames_in_flight < 2 {
        return Err(
            NeuclidioError::RenderError(RenderError::RenderPipelineError(RenderPipelineError::MaxFramesInFlightTooLittle)),
        );
    }
    Ok(())
}

/// The Vulkan format `R16G16B16A16_SFLOAT`.
pub const FORMAT_R16G16B16A16_SFLOAT: i32 = 97;

/// The Vulkan format `D24_UNORM_S8_UINT`.
pub const FORMAT_D24_UNORM_S8_UINT: i32 = 129;

/// The Vulkan format `D32_SFLOAT_S8_UINT`.
pub const FORMAT_D32_SFLOAT_S8_UINT: i32 = 130;

/// The Vulkan format feature `COLOR_ATTACHMENT`.
pub const FORMAT_FEATURE_COLOR_ATTACHMENT: u32 = 128;

/// The Vulkan format feature `DEPTH_STENCIL_ATTACHMENT`.
pub const FORMAT_FEATURE_DEPTH_STENCIL_ATTACHMENT: u32 = 512;

/// The color formats the standard pipeline can render into, preferred first.
pub fn preferred_color_formats() -> (r: Vec<i32>)
    ensures
        r@ == seq![FORMAT_R16G16B16A16_SFLOAT],
{
    let mut r: Vec<i32> = Vec::new();
    r.push(FORMAT_R16G16B16A16_SFLOAT);
    assert(r@ =~= seq![FORMAT_R16G16B16A16_SFLOAT]);
    r
}

/// The depth-stencil formats the standard pipeline can use, preferred first.
pub fn preferred_depth_stencil_formats() -> (r: Vec<i32>)
    ensures
        r@ == seq![FORMAT_D32_SFLOAT_S8_UINT, FORMAT_D24_UNORM_S8_UINT],
{
    let mut r: Vec<i32> = Vec::new();
    r.push(FORMAT_D32_SFLOAT_S8_UINT);
    r.push(FORMAT_D24_UNORM_S8_UINT);
    assert(r@ =~= seq![FORMAT_D32_SFLOAT_S8_UINT, FORMAT_D24_UNORM_S8_UINT]);
    r
}

/// The images the standard pipeline renders into.
#[derive(Debug, Clone, Copy, PartialEq, Eq, Structural)]
pub struct AttachmentFormats {
    pub color: i32,
    pub depth_stencil: i32,
}

/// Sets up the standard pipeline's attachments from the properties of the preferred
/// color and depth-stencil formats (given in the order of `preferred_color_formats` and
/// `preferred_depth_stencil_formats`), with optimal tiling. Fails, in this order of
/// checks, with `MaxFramesInFlightTooLittle` for fewer than two frames in flight,
/// `MissingColorImageFormat`, or `MissingDepthStencilImageFormat`.
pub fn pick_attachment_formats(
    max_frames_in_flight: usize,
    color_properties: &[FormatProperties],
    depth_stencil_properties: &[FormatProperties],
) -> (r: Result<AttachmentFormats, NeuclidioError>)
    requires
        color_properties@.len() == 1,
        depth_stencil_properties@.len() == 2,
    ensures
        max_frames_in_flight < 2 ==> r == Err::<AttachmentFormats, NeuclidioError>(
            NeuclidioError::RenderError(RenderError::RenderPipelineError(RenderPipelineError::MaxFramesInFlightTooLittle)),
        ),
        max_frames_in_flight >= 2 && !any_supported(color_properties@, IMAGE_TILING_OPTIMAL, FORMAT_FEATURE_COLOR_ATTACHMENT)
            ==> r == Err::<AttachmentFormats, NeuclidioError>(
            NeuclidioError::RenderError(RenderError::MissingColorImageFormat),
        ),
        max_frames_in_flight >= 2 && any_supported(color_properties@, IMAGE_TILING_OPTIMAL, FORMAT_FEATURE_COLOR_ATTACHMENT)
            && !any_supported(depth_stencil_properties@, IMAGE_TILING_OPTIMAL, FORMAT_FEATURE_DEPTH_STENCIL_ATTACHMENT)
            ==> r == Err::<AttachmentFormats, NeuclidioError>(
            NeuclidioError::RenderError(RenderError::MissingDepthStencilImageFormat),
        ),
        r is Ok <==> max_frames_in_flight >= 2 && any_supported(
            color_properties@,
            IMAGE_TILING_OPTIMAL,
            FORMAT_FEATURE_COLOR_ATTACHMENT,
        ) && any_supported(depth_stencil_properties@, IMAGE_TILING_OPTIMAL, FORMAT_FEATURE_DEPTH_STENCIL_ATTACHMENT),
        r is Ok ==> is_first_supported(
            seq![FORMAT_R16G16B16A16_SFLOAT],
            color_properties@,
            IMAGE_TILING_OPTIMAL,
            FORMAT_FEATURE_COLOR_ATTACHMENT,
            r->Ok_0.color,
        ) && is_first_supported(
            seq![FORMAT_D32_SFLOAT_S8_UINT, FORMAT_D24_UNORM_S8_UINT],
            depth_stencil_properties@,
            IMAGE_TILING_OPTIMAL,
            FORMAT_FEATURE_DEPTH_STENCIL_ATTACHMENT,
            r->Ok_0.depth_stencil,
        ),
{
    match check_max_frames_in_flight(max_frames_in_flight) {
        Ok(()) => {},
        Err(err) => return Err(err),
    }
    let color_formats = preferred_color_formats();
    let color = match get_supported_image_format(
        IMAGE_TILING_OPTIMAL,
        FORMAT_FEATURE_COLOR_ATTACHMENT,
        color_formats.as_slice(),
        color_properties,
    ) {
        Some(format) => format,
        None => return Err(NeuclidioError::RenderError(RenderError::MissingColorImageFormat)),
    };
    let depth_stencil_formats = preferred_depth_stencil_formats();
    let depth_stencil = match get_supported_image_format(
        IMAGE_TILING_OPTIMAL,
        FORMAT_FEATURE_DEPTH_STENCIL_ATTACHMENT,
        depth_stencil_formats.as_slice(),
        depth_stencil_properties,
    ) {
        Some(format) => format,
        None => return Err(NeuclidioError::RenderError(RenderError::MissingDepthStencilImageFormat)),
    };
    Ok(AttachmentFormats { color, depth_stencil })
}

} // verus!
