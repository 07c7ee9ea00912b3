use neuclidio::builder::{EngineBuilder, DEFAULT_EVENT_BUS_SIZE};
use neuclidio::component::mesh::{MeshId, MeshLayout};
use neuclidio::error::{NeuclidioError, RenderError, RenderPipelineError};
use neuclidio::render::builder::RenderEngineBuilder;
use neuclidio::render::instance::{instance_setup, InstanceExtension, VulkanVersion};
use neuclidio::render::physical_device::{
    pick_physical_device, rate_physical_device, PHYSICAL_DEVICE_TYPE_DISCRETE_GPU,
    PHYSICAL_DEVICE_TYPE_INTEGRATED_GPU,
};
use neuclidio::render::pipeline::allocator::{
    allocate_renderable, batch_copy, deallocation_round, AllocationAction, PendingRenderable, plan_copy_batches, BufferCopy, render_buffer_block_size, renderable_still_used,
    select_renderables_to_deallocate, RenderBufferOccupancy, RenderableAllocation,
    MIN_RENDER_BUFFER_SIZE,
};
use neuclidio::render::pipeline::synchronization::{
    acquired_image, RenderPipelineSynchronizationState, ERROR_OUT_OF_DATE_KHR,
};
use neuclidio::render::pipeline::{
    check_max_frames_in_flight, get_supported_image_format, pick_attachment_formats,
    preferred_color_formats, preferred_depth_stencil_formats, AttachmentFormats, FormatProperties,
    FORMAT_D24_UNORM_S8_UINT, FORMAT_D32_SFLOAT_S8_UINT, FORMAT_R16G16B16A16_SFLOAT,
    IMAGE_TILING_LINEAR, IMAGE_TILING_OPTIMAL,
};
use neuclidio::render::windowing::device_extension_support::DeviceExtensionSupport;
use neuclidio::render::windowing::queue_family_indices::QueueFamilyIndices;
use neuclidio::render::windowing::swap_chain::{
    get_extent, get_image_count, get_present_mode, get_surface_format, Extent2D,
    SurfaceCapabilities, SurfaceFormat, SwapChainSupport, COLOR_SPACE_SRGB_NONLINEAR,
    FORMAT_B8G8R8A8_SRGB,
};
use neuclidio::render::windowing::synchronization_support::SynchronizationSupport;
use std::collections::HashMap;

const MAILBOX: i32 = 1;
const FIFO: i32 = 2;
const IMMEDIATE: i32 = 0;

fn capabilities(min: u32, max: u32, current_width: u32) -> SurfaceCapabilities {
    SurfaceCapabilities {
        min_image_count: min,
        max_image_count: max,
        current_extent: Extent2D { width: current_width, height: 600 },
        min_image_extent: Extent2D { width: 100, height: 100 },
        max_image_extent: Extent2D { width: 1000, height: 500 },
    }
}

#[test]
fn image_count_is_clamped_to_the_surface_limits() {
    assert_eq!(get_image_count(capabilities(2, 4, 800), 3), 3);
    assert_eq!(get_image_count(capabilities(2, 4, 800), 1), 2);
    assert_eq!(get_image_count(capabilities(2, 4, 800), 8), 4);
}

#[test]
fn image_count_has_only_a_lower_bound_when_the_maximum_is_zero() {
    assert_eq!(get_image_count(capabilities(2, 0, 800), 1), 2);
    assert_eq!(get_image_count(capabilities(2, 0, 800), 9), 9);
}

#[test]
fn extent_is_the_current_extent_unless_the_surface_leaves_it_open() {
    let window = Extent2D { width: 2000, height: 50 };
    assert_eq!(get_extent(window, capabilities(2, 4, 800)), Extent2D { width: 800, height: 600 });
    assert_eq!(get_extent(window, capabilities(2, 4, u32::MAX)), Extent2D { width: 1000, height: 100 });
    let inside = Extent2D { width: 640, height: 480 };
    assert_eq!(get_extent(inside, capabilities(2, 4, u32::MAX)), inside);
}

#[test]
fn surface_format_prefers_srgb_bgra_and_falls_back_to_the_first() {
    let other = SurfaceFormat { format: 37, color_space: COLOR_SPACE_SRGB_NONLINEAR };
    let wrong_space = SurfaceFormat { format: FORMAT_B8G8R8A8_SRGB, color_space: 7 };
    let preferred = SurfaceFormat { format: FORMAT_B8G8R8A8_SRGB, color_space: COLOR_SPACE_SRGB_NONLINEAR };
    assert_eq!(get_surface_format(&[other, wrong_space, preferred]), Ok(preferred));
    assert_eq!(get_surface_format(&[other, wrong_space]), Ok(other));
    assert_eq!(
        get_surface_format(&[]),
        Err(NeuclidioError::RenderError(RenderError::MissingSurfaceFormat))
    );
}

#[test]
fn present_mode_takes_the_first_preferred_mode_offered() {
    assert_eq!(get_present_mode(&[FIFO, MAILBOX], &[MAILBOX, FIFO]), Ok(MAILBOX));
    assert_eq!(get_present_mode(&[FIFO, IMMEDIATE], &[MAILBOX, FIFO]), Ok(FIFO));
    assert_eq!(get_present_mode(&[IMMEDIATE], &[MAILBOX, FIFO]), Ok(IMMEDIATE));
    assert_eq!(
        get_present_mode(&[], &[MAILBOX]),
        Err(NeuclidioError::RenderError(RenderError::MissingPresentMode))
    );
}

#[test]
fn swap_chain_support_needs_a_format_and_a_present_mode() {
    let format = SurfaceFormat { format: 50, color_space: 0 };
    assert!(SwapChainSupport::new(capabilities(2, 4, 800), vec![format], vec![FIFO]).is_ok());
    assert!(matches!(
        SwapChainSupport::new(capabilities(2, 4, 800), vec![], vec![FIFO]),
        Err(NeuclidioError::RenderError(RenderError::MissingSwapChainSupport))
    ));
    assert!(matches!(
        SwapChainSupport::new(capabilities(2, 4, 800), vec![format], vec![]),
        Err(NeuclidioError::RenderError(RenderError::MissingSwapChainSupport))
    ));
}

#[test]
fn queue_families_are_the_first_graphics_and_first_present_families() {
    let indices = QueueFamilyIndices::new(&[4, 3, 1], &[false, false, true]).unwrap();
    assert_eq!(indices, QueueFamilyIndices { graphics: 1, present: 2 });
    let unique = indices.unique();
    assert_eq!(unique.len(), 2);
    assert!(unique.contains(&1) && unique.contains(&2));

    let same = QueueFamilyIndices::new(&[1], &[true]).unwrap();
    assert_eq!(same.unique().len(), 1);
}

#[test]
fn queue_families_fail_when_one_is_missing() {
    let missing = Err(NeuclidioError::RenderError(RenderError::MissingRequiredQueueFamilies));
    assert_eq!(QueueFamilyIndices::new(&[2, 4], &[true]), missing);
    assert_eq!(QueueFamilyIndices::new(&[1], &[false, false]), missing);
}

#[test]
fn device_extensions_must_all_be_available() {
    let swapchain = b"VK_KHR_swapchain".to_vec();
    let other = b"VK_KHR_other".to_vec();
    assert_eq!(DeviceExtensionSupport::new(&[other.clone(), swapchain.clone()], &[swapchain.clone()]), Ok(()));
    assert_eq!(DeviceExtensionSupport::new(&[other.clone()], &[]), Ok(()));
    assert_eq!(
        DeviceExtensionSupport::new(&[other], &[swapchain]),
        Err(NeuclidioError::RenderError(RenderError::MissingDeviceExtensions))
    );
}

#[test]
fn timeline_semaphores_must_be_supported() {
    assert!(SynchronizationSupport::new(1).is_ok());
    assert!(matches!(
        SynchronizationSupport::new(0),
        Err(NeuclidioError::RenderError(RenderError::MissingTimelineSemaphoreSupport))
    ));
}

#[test]
fn devices_are_rated_by_type() {
    assert_eq!(rate_physical_device(PHYSICAL_DEVICE_TYPE_DISCRETE_GPU), 1000);
    assert_eq!(rate_physical_device(PHYSICAL_DEVICE_TYPE_INTEGRATED_GPU), 100);
    assert_eq!(rate_physical_device(4), 0);
}

#[test]
fn the_first_best_rated_device_is_picked() {
    assert_eq!(pick_physical_device(&[4, 1, 2, 3, 2]), Ok(2));
    assert_eq!(pick_physical_device(&[4, 1, 1]), Ok(1));
    assert_eq!(pick_physical_device(&[3]), Ok(0));
    assert_eq!(
        pick_physical_device(&[]),
        Err(NeuclidioError::RenderError(RenderError::NoSuitableDevice))
    );
}

#[test]
fn supported_image_format_is_the_first_preferred_one_with_the_features() {
    let properties = [
        FormatProperties { linear_tiling_features: 0b111, optimal_tiling_features: 0b001 },
        FormatProperties { linear_tiling_features: 0b000, optimal_tiling_features: 0b110 },
    ];
    assert_eq!(get_supported_image_format(IMAGE_TILING_OPTIMAL, 0b010, &[97, 130], &properties), Some(130));
    assert_eq!(get_supported_image_format(IMAGE_TILING_LINEAR, 0b010, &[97, 130], &properties), Some(97));
    assert_eq!(get_supported_image_format(IMAGE_TILING_OPTIMAL, 0b1000, &[97, 130], &properties), None);
    assert_eq!(get_supported_image_format(5, 0, &[97, 130], &properties), None);
}

#[test]
fn at_least_two_frames_are_kept_in_flight() {
    assert_eq!(check_max_frames_in_flight(2), Ok(()));
    assert_eq!(
        check_max_frames_in_flight(1),
        Err(NeuclidioError::RenderError(RenderError::RenderPipelineError(
            RenderPipelineError::MaxFramesInFlightTooLittle
        )))
    );
}

#[test]
fn frame_in_flight_wraps_around_as_frames_advance() {
    let mut state = RenderPipelineSynchronizationState::new(2);
    state.reset_window(7);
    assert_eq!(state.frame_index(7), Ok(0));
    assert_eq!(state.frame_in_flight_index(7), Ok(0));
    assert_eq!(state.frame_index_semaphore_required_value(7), Ok(0));
    for _ in 0..3 {
        assert_eq!(state.increment_frame(7), Ok(()));
    }
    assert_eq!(state.frame_index(7), Ok(3));
    assert_eq!(state.frame_in_flight_index(7), Ok(1));
    assert_eq!(state.frame_index_semaphore_required_value(7), Ok(1));
    state.reset_window(7);
    assert_eq!(state.frame_index(7), Ok(3));
}

#[test]
fn unknown_windows_are_unprepared() {
    let unprepared = NeuclidioError::RenderError(RenderError::RenderPipelineError(
        RenderPipelineError::Unprepared,
    ));
    let mut state = RenderPipelineSynchronizationState::new(3);
    assert_eq!(state.frame_index(1), Err(unprepared));
    assert_eq!(state.increment_frame(1), Err(unprepared));
    state.reset_window(1);
    state.clean_up_for_window(1);
    assert_eq!(state.frame_index_semaphore_required_value(1), Err(unprepared));
    assert_eq!(state.frame_in_flight_index(1), Err(unprepared));
}

fn allocation(id: Option<u64>, offset: Option<u64>, size: u64) -> RenderableAllocation {
    RenderableAllocation { render_buffer_id: id, render_buffer_offset: offset, size_in_render_buffer: size }
}

#[test]
fn contiguous_renderables_are_copied_together() {
    let allocations = [
        allocation(Some(1), Some(0), 16),
        allocation(Some(1), Some(16), 32),
        allocation(Some(1), Some(48), 16),
    ];
    assert_eq!(plan_copy_batches(&allocations), vec![vec![0, 1, 2]]);
}

#[test]
fn a_renderable_that_breaks_a_run_closes_the_batch_and_is_left_out() {
    let allocations = [
        allocation(Some(1), Some(0), 16),
        allocation(Some(2), Some(16), 16),
        allocation(Some(2), Some(32), 16),
        allocation(Some(2), Some(48), 16),
    ];
    assert_eq!(plan_copy_batches(&allocations), vec![vec![0], vec![2, 3]]);
    assert_eq!(plan_copy_batches(&[]), Vec::<Vec<usize>>::new());
}

#[test]
fn a_renderable_is_still_used_while_a_window_has_not_reached_its_frame() {
    let mut values = HashMap::new();
    values.insert(1u64, 5u64);
    values.insert(2u64, 9u64);
    assert!(!renderable_still_used(&[(1, 5), (2, 9)], &values));
    assert!(renderable_still_used(&[(1, 5), (2, 10)], &values));
    assert!(!renderable_still_used(&[(3, 100)], &values));
    assert!(!renderable_still_used(&[], &values));
}

#[test]
fn used_and_finished_renderables_are_selected_for_deallocation() {
    let mut values = HashMap::new();
    values.insert(1u64, 5u64);
    let pending = vec![Some(vec![(1, 4)]), None, Some(vec![(1, 6)]), Some(vec![])];
    assert_eq!(select_renderables_to_deallocate(&pending, &values), vec![0, 3]);
}

#[test]
fn render_buffers_have_a_minimum_size() {
    assert_eq!(render_buffer_block_size(10), MIN_RENDER_BUFFER_SIZE);
    assert_eq!(MIN_RENDER_BUFFER_SIZE, 67108864);
    assert_eq!(render_buffer_block_size(MIN_RENDER_BUFFER_SIZE + 1), MIN_RENDER_BUFFER_SIZE + 1);
}

#[test]
fn mesh_indices_follow_its_vertices() {
    let layout = MeshLayout { vertex_count: 3, index_count: 6 };
    assert_eq!(layout.index_count(), 6);
    assert_eq!(layout.index_offset(), 96);
    assert_eq!(layout.size_in_render_buffer(), 120);
    assert_eq!(MeshId::new(9).value(), 9);
    assert!(MeshId::new(1) < MeshId::new(2));
}

#[test]
fn render_engine_builder_describes_the_application() {
    let builder = RenderEngineBuilder::new();
    assert_eq!(builder.application_name, "Neuclidio Example");
    assert_eq!(
        (builder.application_version_major, builder.application_version_minor, builder.application_version_patch),
        (1, 0, 0)
    );
    let builder = builder.with_application_name("Dragon".to_string()).with_application_version(2, 5, 7);
    let info = builder.application_info(0, 1, 3);
    assert_eq!(info.application_name, b"Dragon\0".to_vec());
    assert_eq!(info.application_version, (2 << 22) | (5 << 12) | 7);
    assert_eq!(info.engine_name, b"Neuclidio\0".to_vec());
    assert_eq!(info.engine_version, (1 << 12) | 3);
    assert_eq!(info.api_version, 4206592);
}

#[test]
fn engine_builder_defaults_and_overrides() {
    let builder = EngineBuilder::new();
    assert_eq!(builder.event_bus_size(), DEFAULT_EVENT_BUS_SIZE);
    assert_eq!(builder.event_bus_size(), 64);
    assert_eq!(builder.render_engine_config().application_name, "Neuclidio Example");
    let builder = builder
        .with_event_bus_size(8)
        .with_render_engine_config(RenderEngineBuilder::new().with_application_name("X".to_string()));
    assert_eq!(builder.event_bus_size(), 8);
    assert_eq!(builder.render_engine_config().application_name, "X");
}

fn version(major: u32, minor: u32, patch: u32) -> VulkanVersion {
    VulkanVersion { major, minor, patch }
}

fn layer_names() -> Vec<Vec<u8>> {
    vec![b"VK_LAYER_LUNARG_api_dump".to_vec(), b"VK_LAYER_KHRONOS_validation".to_vec()]
}

#[test]
fn validation_without_its_layer_fails() {
    let available = vec![b"VK_LAYER_LUNARG_api_dump".to_vec()];
    let validation = b"VK_LAYER_KHRONOS_validation".to_vec();
    assert!(matches!(
        instance_setup(false, version(1, 3, 250), true, true, &available, &validation),
        Err(NeuclidioError::RenderError(RenderError::MissingValidationLayer))
    ));
    let setup = instance_setup(false, version(1, 3, 250), true, false, &available, &validation).unwrap();
    assert!(!setup.validation_layer);
    assert!(setup.extensions.is_empty());
    assert!(!setup.enumerate_portability);
}

#[test]
fn macos_from_1_3_216_enumerates_portability_devices() {
    let validation = b"VK_LAYER_KHRONOS_validation".to_vec();
    let setup = instance_setup(true, version(1, 3, 216), true, true, &layer_names(), &validation).unwrap();
    assert!(setup.validation_layer);
    assert!(setup.enumerate_portability);
    assert_eq!(
        setup.extensions,
        vec![
            InstanceExtension::GetPhysicalDeviceProperties2,
            InstanceExtension::PortabilityEnumeration,
            InstanceExtension::DebugUtils,
        ]
    );
    let before = instance_setup(true, version(1, 3, 215), true, false, &layer_names(), &validation).unwrap();
    assert!(!before.enumerate_portability);
    assert!(before.extensions.is_empty());
}

#[test]
fn vulkan_before_1_3_asks_for_synchronization2() {
    let validation = b"VK_LAYER_KHRONOS_validation".to_vec();
    let setup = instance_setup(false, version(1, 2, 999), true, false, &layer_names(), &validation).unwrap();
    assert_eq!(setup.extensions, vec![InstanceExtension::Synchronization2]);
    let core = instance_setup(false, version(1, 3, 0), true, false, &layer_names(), &validation).unwrap();
    assert!(core.extensions.is_empty());
    let window_manager =
        instance_setup(false, version(1, 2, 999), false, false, &layer_names(), &validation).unwrap();
    assert!(window_manager.extensions.is_empty());
}

#[test]
fn a_render_buffer_is_destroyed_when_its_last_renderable_leaves() {
    let mut occupancy = RenderBufferOccupancy::new();
    occupancy.place(7);
    occupancy.place(7);
    occupancy.place(8);
    assert_eq!(occupancy.renderable_count(7), Some(2));
    assert!(!occupancy.release(7));
    assert_eq!(occupancy.renderable_count(7), Some(1));
    assert!(occupancy.release(7));
    assert_eq!(occupancy.renderable_count(7), None);
    assert!(!occupancy.release(7));
    assert_eq!(occupancy.renderable_count(8), Some(1));
}

#[test]
fn a_batch_is_copied_whole_to_where_its_first_renderable_lies() {
    let mut occupancy = RenderBufferOccupancy::new();
    occupancy.place(4);
    occupancy.place(4);
    let batch = [allocation(Some(4), Some(128), 100), allocation(Some(4), Some(228), 28)];
    assert_eq!(
        batch_copy(&batch, &occupancy).unwrap(),
        BufferCopy { render_buffer_id: 4, source_offset: 0, destination_offset: 128, size: 128 }
    );
}

#[test]
fn a_batch_without_a_placed_first_renderable_is_not_copied() {
    let mut occupancy = RenderBufferOccupancy::new();
    occupancy.place(4);
    let not_allocated = NeuclidioError::RenderError(RenderError::RenderPipelineError(
        RenderPipelineError::RenderableNotAllocated,
    ));
    assert_eq!(batch_copy(&[], &occupancy), Err(not_allocated));
    assert_eq!(batch_copy(&[allocation(None, Some(0), 8)], &occupancy), Err(not_allocated));
    assert_eq!(batch_copy(&[allocation(Some(5), Some(0), 8)], &occupancy), Err(not_allocated));
    assert_eq!(batch_copy(&[allocation(Some(4), None, 8)], &occupancy), Err(not_allocated));
}

const ERROR_DEVICE_LOST: i32 = -4;

#[test]
fn an_out_of_date_swap_chain_skips_the_frame() {
    assert_eq!(acquired_image(Ok(2)), Ok(Some(2)));
    assert_eq!(acquired_image(Err(ERROR_OUT_OF_DATE_KHR)), Ok(None));
    assert_eq!(
        acquired_image(Err(ERROR_DEVICE_LOST)),
        Err(NeuclidioError::RenderError(RenderError::VulkanErrorCode(ERROR_DEVICE_LOST)))
    );
}

#[test]
fn only_a_presented_frame_advances_the_window() {
    let mut state = RenderPipelineSynchronizationState::new(2);
    state.reset_window(7);
    assert_eq!(state.finish_frame(7, Ok(())), Ok(false));
    assert_eq!(state.frame_index(7), Ok(1));
    assert_eq!(state.finish_frame(7, Err(ERROR_OUT_OF_DATE_KHR)), Ok(true));
    assert_eq!(state.frame_index(7), Ok(1));
    assert_eq!(
        state.finish_frame(7, Err(ERROR_DEVICE_LOST)),
        Err(NeuclidioError::RenderError(RenderError::VulkanErrorCode(ERROR_DEVICE_LOST)))
    );
    assert_eq!(state.frame_index(7), Ok(1));
    assert_eq!(state.frame_in_flight_index(7), Ok(1));
    assert_eq!(
        state.finish_frame(8, Ok(())),
        Err(NeuclidioError::RenderError(RenderError::RenderPipelineError(
            RenderPipelineError::Unprepared
        )))
    );
}

fn optimal(features: u32) -> FormatProperties {
    FormatProperties { linear_tiling_features: 0, optimal_tiling_features: features }
}

#[test]
fn the_pipeline_renders_into_the_first_supported_attachment_formats() {
    assert_eq!(preferred_color_formats(), vec![FORMAT_R16G16B16A16_SFLOAT]);
    assert_eq!(
        preferred_depth_stencil_formats(),
        vec![FORMAT_D32_SFLOAT_S8_UINT, FORMAT_D24_UNORM_S8_UINT]
    );
    let color = [optimal(0x80 | 0x100)];
    assert_eq!(
        pick_attachment_formats(2, &color, &[optimal(0x80), optimal(0x200)]),
        Ok(AttachmentFormats {
            color: FORMAT_R16G16B16A16_SFLOAT,
            depth_stencil: FORMAT_D24_UNORM_S8_UINT,
        })
    );
    assert_eq!(
        pick_attachment_formats(3, &color, &[optimal(0x200), optimal(0x200)]),
        Ok(AttachmentFormats {
            color: FORMAT_R16G16B16A16_SFLOAT,
            depth_stencil: FORMAT_D32_SFLOAT_S8_UINT,
        })
    );
}

#[test]
fn missing_attachment_formats_are_reported_in_order() {
    let depth = [optimal(0x200), optimal(0)];
    assert_eq!(
        pick_attachment_formats(1, &[optimal(0)], &[optimal(0), optimal(0)]),
        Err(NeuclidioError::RenderError(RenderError::RenderPipelineError(
            RenderPipelineError::MaxFramesInFlightTooLittle
        )))
    );
    assert_eq!(
        pick_attachment_formats(2, &[FormatProperties { linear_tiling_features: 0x80, optimal_tiling_features: 0 }], &depth),
        Err(NeuclidioError::RenderError(RenderError::MissingColorImageFormat))
    );
    assert_eq!(
        pick_attachment_formats(2, &[optimal(0x80)], &[optimal(0x100), optimal(0)]),
        Err(NeuclidioError::RenderError(RenderError::MissingDepthStencilImageFormat))
    );
}

#[test]
fn a_renderable_goes_into_an_accepting_buffer_or_a_new_one() {
    let mut occupancy = RenderBufferOccupancy::new();
    assert_eq!(
        allocate_renderable(&mut occupancy, None, 100, None, 1),
        AllocationAction::CreateBuffer { render_buffer_id: 1, size: MIN_RENDER_BUFFER_SIZE }
    );
    assert_eq!(occupancy.renderable_count(1), Some(1));
    assert_eq!(allocate_renderable(&mut occupancy, None, 100, Some(1), 2), AllocationAction::PlaceIn(1));
    assert_eq!(occupancy.renderable_count(1), Some(2));
    assert_eq!(
        allocate_renderable(&mut occupancy, Some(1), 100, Some(1), 3),
        AllocationAction::AlreadyAllocated
    );
    assert_eq!(occupancy.renderable_count(1), Some(2));
    assert_eq!(
        allocate_renderable(&mut occupancy, None, MIN_RENDER_BUFFER_SIZE + 1, None, 4),
        AllocationAction::CreateBuffer { render_buffer_id: 4, size: MIN_RENDER_BUFFER_SIZE + 1 }
    );
    assert_eq!(occupancy.renderable_count(4), Some(1));
}

fn pending(renderable_id: u64, render_buffer_id: u64, last_used: Option<Vec<(u64, u64)>>) -> PendingRenderable {
    PendingRenderable { renderable_id, render_buffer_id: Some(render_buffer_id), last_used_in_frame: last_used }
}

#[test]
fn a_deallocation_round_releases_what_no_window_still_uses() {
    let mut occupancy = RenderBufferOccupancy::new();
    occupancy.place(1);
    occupancy.place(1);
    occupancy.place(2);
    occupancy.place(2);
    let mut list = vec![
        pending(10, 1, Some(vec![(7, 5)])),
        pending(11, 2, None),
        pending(12, 1, Some(vec![(7, 9)])),
        pending(13, 1, Some(vec![(8, 100)])),
        pending(14, 2, Some(vec![])),
    ];
    let mut values = HashMap::new();
    values.insert(7u64, 6u64);
    let round = deallocation_round(&mut list, &mut occupancy, &values);
    assert_eq!(round.released_renderables, vec![10, 13, 14]);
    assert_eq!(round.emptied_render_buffers, vec![1]);
    assert_eq!(list.iter().map(|p| p.renderable_id).collect::<Vec<u64>>(), vec![11, 12]);
    assert_eq!(occupancy.renderable_count(1), None);
    assert_eq!(occupancy.renderable_count(2), Some(1));
}
