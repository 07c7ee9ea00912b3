use vstd::prelude::*;

use crate::error::{NeuclidioError, RenderError};

verus! {

/// The Vulkan format `B8G8R8A8_SRGB`.
pub const FORMAT_B8G8R8A8_SRGB: i32 = 50;

/// The Vulkan color space `SRGB_NONLINEAR`.
pub const COLOR_SPACE_SRGB_NONLINEAR: i32 = 0;

/// A width and a height in pixels.
#[derive(Debug, Clone, Copy, PartialEq, Eq, Structural)]
pub struct Extent2D {
    pub width: u32,
    pub height: u32,
}

/// What a surface allows for the images of a swap chain.
#[derive(Debug, Clone, Copy, PartialEq, Eq, Structural)]
pub struct SurfaceCapabilities {
    pub min_image_count: u32,
    /// 0 when there is no upper bound.
    pub max_image_count: u32,
    /// A width of `u32::MAX` means that the swap chain decides the extent.
    pub current_extent: Extent2D,
    pub min_image_extent: Extent2D,
    pub max_image_extent: Extent2D,
}

/// A pixel format with its color space.
#[derive(Debug, Clone, Copy, PartialEq, Eq, Structural)]
pub struct SurfaceFormat {
    pub format: i32,
    pub color_space: i32,
}

/// `value` limited to `[min, max]`.
pub open spec fn clamp(value: u32, min: u32, max: u32) -> u32 {
    if value < min {
        min
    } else if value > max {
        max
    } else {
        value
    }
}

fn clamp_u32(value: u32, min: u32, max: u32) -> (r: u32)
    requires
        min <= max,
    ensures
        r == clamp(value, min, max),
{
    if value < min {
        min
    } else if value > max {
        max
    } else {
        value
    }
}

/// The number of swap chain images: the preferred count limited to what the surface allows.
pub fn get_image_count(surface_capabilities: SurfaceCapabilities, preferred_image_count: u32) -> (r: u32)
    requires
        surface_capabilities.max_image_count != 0 ==> surface_capabilities.min_image_count
            <= surface_capabilities.max_image_count,
    ensures
        r == if surface_capabilities.max_image_count != 0 {
            clamp(
                preferred_image_count,
                surface_capabilities.min_image_count,
                surface_capabilities.max_image_count,
            )
        } else if preferred_image_count < surface_capabilities.min_image_count {
            surface_capabilities.min_image_count
        } else {
            preferred_image_count
        },
{
    if surface_capabilities.max_image_count != 0 {
        clamp_u32(
            preferred_image_count,
            surface_capabilities.min_image_count,
            surface_capabilities.max_image_count,
        )
    } else if preferred_image_count < surface_capabilities.min_image_count {
        surface_capabilities.min_image_count
    } else {
        preferred_image_count
    }
}

/// The swap chain extent: the surface's current extent, or, when the surface leaves it
/// to the swap chain, the window size limited to what the surface allows.
pub fn get_extent(last_window_size: Extent2D, surface_capabilities: SurfaceCapabilities) -> (r: Extent2D)
    requires
        surface_capabilities.current_extent.width == u32::MAX ==> {
            &&& surface_capabilities.min_image_extent.width <= surface_capabilities.max_image_extent.width
            &&& surface_capabilities.min_image_extent.height <= surface_capabilities.max_image_extent.height
        },
    ensures
        r == if surface_capabilities.current_extent.width != u32::MAX {
            surface_capabilities.current_extent
        } else {
            Extent2D {
                width: clamp(
                    last_window_size.width,
                    surface_capabilities.min_image_extent.width,
                    surface_capabilities.max_image_extent.width,
                ),
                height: clamp(
                    last_window_size.height,
                    surface_capabilities.min_image_extent.height,
                    surface_capabilities.max_image_extent.height,
                ),
            }
        },
{
    if surface_capabilities.current_extent.width != u32::MAX {
        surface_capabilities.current_extent
    } else {
        Extent2D {
            width: clamp_u32(
                last_window_size.width,
                surface_capabilities.min_image_extent.width,
                surface_capabilities.max_image_extent.width,
            ),
            height: clamp_u32(
                last_window_size.height,
                surface_capabilities.min_image_extent.height,
                surface_capabilities.max_image_extent.height,
            ),
        }
    }
}

/// The surface format that the engine prefers: 8-bit BGRA in sRGB.
pub open spec fn is_preferred_surface_format(surface_format: SurfaceFormat) -> bool {
    surface_format.format == FORMAT_B8G8R8A8_SRGB && surface_format.color_space
        == COLOR_SPACE_SRGB_NONLINEAR
}

/// The position of the first preferred format, or 0 when there is none.
pub open spec fn find_or_first_index(formats: Seq<SurfaceFormat>) -> int {
    if exists|i: int| 0 <= i < formats.len() && is_preferred_surface_format(#[trigger] formats[i]) {
        choose|i: int|
            0 <= i < formats.len() && is_preferred_surface_format(#[trigger] formats[i]) && forall|j: int|
                0 <= j < i ==> !is_preferred_surface_format(#[trigger] formats[j])
    } else {
        0
    }
}

/// The first preferred format among those available, or else the first available one;
/// fails with `MissingSurfaceFormat` when none is available.
pub fn get_surface_format(available_surface_formats: &[SurfaceFormat]) -> (r: Result<SurfaceFormat, NeuclidioError>)
    ensures
        r is Err <==> available_surface_formats@.len() == 0,
        r is Err ==> r == Err::<SurfaceFormat, NeuclidioError>(NeuclidioError::RenderError(RenderError::MissingSurfaceFormat)),
        r is Ok ==> r->Ok_0 == available_surface_formats@[find_or_first_index(available_surface_formats@)],
{
    let n = available_surface_formats.len();
    if n == 0 {
        return Err(NeuclidioError::RenderError(RenderError::MissingSurfaceFormat));
    }
    let mut i: usize = 0;
    while i < n
        invariant
            n == available_surface_formats@.len(),
            i <= n,
            forall|j: int| 0 <= j < i ==> !is_preferred_surface_format(#[trigger] available_surface_formats@[j]),
        decreases n - i,
    {
        let surface_format = available_surface_formats[i];
        if surface_format.format == FORMAT_B8G8R8A8_SRGB && surface_format.color_space == COLOR_SPACE_SRGB_NONLINEAR {
            proof {
                let s = available_surface_formats@;
                assert(is_preferred_surface_format(s[i as int]));
                let k = find_or_first_index(s);
                assert(0 <= k < s.len() && is_preferred_surface_format(s[k]) && forall|j: int|
                    0 <= j < k ==> !is_preferred_surface_format(#[trigger] s[j]));
                if k < i {
                } else if k > i {
                    assert(!is_preferred_surface_format(s[i as int]));
                }
            }
            return Ok(surface_format);
        }
        i = i + 1;
    }
    Ok(available_surface_formats[0])
}

/// The first preferred present mode that the surface offers, or else the first mode it
/// offers; fails with `MissingPresentMode` when it offers none.
pub fn get_present_mode(present_modes: &[i32], preferred_present_modes: &[i32]) -> (r: Result<i32, NeuclidioError>)
    ensures
        r is Err <==> present_modes@.len() == 0,
        r is Err ==> r == Err::<i32, NeuclidioError>(NeuclidioError::RenderError(RenderError::MissingPresentMode)),
        r is Ok ==> {
            if exists|k: int| 0 <= k < preferred_present_modes@.len() && present_modes@.contains(#[trigger] preferred_present_modes@[k]) {
                exists|k: int|
                    0 <= k < preferred_present_modes@.len() && r->Ok_0 == #[trigger] preferred_present_modes@[k]
                        && present_modes@.contains(preferred_present_modes@[k]) && forall|j: int|
                        0 <= j < k ==> !present_modes@.contains(#[trigger] preferred_present_modes@[j])
            } else {
                r->Ok_0 == present_modes@[0]
            }
        },
{
    if present_modes.len() == 0 {
        return Err(NeuclidioError::RenderError(RenderError::MissingPresentMode));
    }
    let mut k: usize = 0;
    while k < preferred_present_modes.len()
        invariant
            present_modes@.len() > 0,
            k <= preferred_present_modes@.len(),
            forall|j: int| 0 <= j < k ==> !present_modes@.contains(#[trigger] preferred_present_modes@[j]),
        decreases preferred_present_modes@.len() - k,
    {
        let preferred_present_mode = preferred_present_modes[k];
        if contains_mode(present_modes, preferred_present_mode) {
            return Ok(preferred_present_mode);
        }
        k = k + 1;
    }
    Ok(present_modes[0])
}

/// Whether `mode` is among `modes`.
fn contains_mode(modes: &[i32], mode: i32) -> (r: bool)
    ensures
        r == modes@.contains(mode),
{
    let mut i: usize = 0;
    while i < modes.len()
        invariant
            i <= modes@.len(),
            forall|j: int| 0 <= j < i ==> modes@[j] != mode,
        decreases modes@.len() - i,
    {
        if modes[i] == mode {
            return true;
        }
        i = i + 1;
    }
    false
}

/// What a physical device supports for swap chains on a surface.
pub struct SwapChainSupport {
    pub capabilities: SurfaceCapabilities,
    pub formats: Vec<SurfaceFormat>,
    pub present_modes: Vec<i32>,
}

impl SwapChainSupport {
    /// The support of a device, which is usable only when it offers at least one
    /// format and one present mode; fails with `MissingSwapChainSupport` otherwise.
    pub fn new(
        capabilities: SurfaceCapabilities,
        formats: Vec<SurfaceFormat>,
        present_modes: Vec<i32>,
    ) -> (r: Result<Self, NeuclidioError>)
        ensures
            r is Err <==> formats@.len() == 0 || present_modes@.len() == 0,
            r is Err ==> r == Err::<Self, NeuclidioError>(NeuclidioError::RenderError(RenderError::MissingSwapChainSupport)),
            r is Ok ==> {
                &&& r->Ok_0.capabilities == capabilities
                &&& r->Ok_0.formats@ == formats@
                &&& r->Ok_0.present_modes@ == present_modes@
            },
    {
        if formats.len() == 0 || present_modes.len() == 0 {
            return Err(NeuclidioError::RenderError(RenderError::MissingSwapChainSupport));
        }
        Ok(SwapChainSupport { capabilities, formats, present_modes })
    }
}

} // verus!
