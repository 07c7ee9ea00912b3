use vstd::prelude::*;

use crate::ecs::error::EcsError;

verus! {

/// Errors of the windowing layer that carry no outside payload.
#[derive(Debug, Clone, Copy, PartialEq, Eq, Structural)]
pub enum WindowingError {
    ChannelClosed,
    WindowNotFound,
}

/// Errors of the render pipeline that carry no outside payload.
#[derive(Debug, Clone, Copy, PartialEq, Eq, Structural)]
pub enum RenderPipelineError {
    RenderableNotAllocated,
    Unprepared,
    MaxFramesInFlightTooLittle,
}

/// Errors of the render engine that carry no outside payload.
#[derive(Debug, Clone, Copy, PartialEq, Eq, Structural)]
pub enum RenderError {
    WindowingError(WindowingError),
    RenderPipelineError(RenderPipelineError),
    /// A Vulkan call failed with this result code.
    VulkanErrorCode(i32),
    NoSuitableDevice,
    MissingRequiredQueueFamilies,
    MissingSwapChainSupport,
    MissingDeviceExtensions,
    MissingSurfaceFormat,
    MissingImageFormat,
    MissingPresentMode,
    MissingValidationLayer,
    MissingTimelineSemaphoreSupport,
    MissingColorImageFormat,
    MissingDepthStencilImageFormat,
    OutOfDateSwapChain,
}

/// The error type of the library.
#[derive(Debug, Clone, Copy, PartialEq, Eq, Structural)]
pub enum NeuclidioError {
    /// An engine was already built in this process.
    EngineAlreadyExists,
    /// An error of the render engine.
    RenderError(RenderError),
    /// An error of the entity component system.
    EcsError(EcsError),
}

/// The result type of the library.
pub type NeuclidioResult<T> = Result<T, NeuclidioError>;

} // verus!
