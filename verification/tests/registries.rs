use neuclidio::render::pipeline::allocator::renderable_still_used;
use std::collections::HashMap;
use neuclidio::engine::main_thread::EntityRegistry;
use neuclidio::engine::windows::{window_title, OpenWindows};
use neuclidio::error::{NeuclidioError, RenderError, WindowingError};
use neuclidio::entity::components::{ComponentEntry, ComponentKind, EntityComponents};
use neuclidio::render::pipeline::draw::{plan_draws, DrawCommand, RenderableDraw};
use neuclidio::render::pipeline::standard::RenderableEntities;
use neuclidio::render::pipeline::vertex::{
    attribute_descriptions, binding_descriptions, FORMAT_R32G32B32_SFLOAT, FORMAT_R32G32_SFLOAT,
};
use neuclidio::render::windowing::queue_family_indices::{
    QueueFamilyIndices, SHARING_MODE_CONCURRENT, SHARING_MODE_EXCLUSIVE,
};

#[test]
fn submitting_entities_allocates_each_new_renderable_once() {
    let mut registry = RenderableEntities::new();
    assert_eq!(registry.submit_entity(1, 10, &[100, 101, 100]), vec![100, 101]);
    assert_eq!(registry.submit_entity(2, 11, &[101, 102]), vec![102]);
    assert_eq!(registry.submit_entity(1, 12, &[100]), Vec::<u64>::new());
}

#[test]
fn removing_the_last_entity_of_a_renderable_releases_it() {
    let mut registry = RenderableEntities::new();
    registry.submit_entity(1, 10, &[100, 101]);
    registry.submit_entity(2, 11, &[101]);
    assert_eq!(registry.remove_entity(&[1], 10, &[100, 101, 100]), vec![100]);
    assert_eq!(registry.remove_entity(&[2], 11, &[101]), vec![101]);
    assert_eq!(registry.submit_entity(1, 10, &[100, 101]), vec![100, 101]);
}

#[test]
fn removing_an_entity_from_another_window_keeps_its_renderables() {
    let mut registry = RenderableEntities::new();
    registry.submit_entity(1, 10, &[100]);
    assert_eq!(registry.remove_entity(&[2], 10, &[100]), Vec::<u64>::new());
    assert_eq!(registry.remove_entity(&[1, 2], 10, &[100]), vec![100]);
}

#[test]
fn a_renderable_added_and_removed_again_is_allocated_and_released() {
    let mut registry = RenderableEntities::new();
    assert!(registry.handle_renderable_added(10, &[1, 2], 100));
    assert!(!registry.handle_renderable_added(11, &[1], 100));
    assert!(!registry.handle_renderable_removed(10, &[1, 2], 100));
    assert!(registry.handle_renderable_removed(11, &[1], 100));
    assert!(!registry.handle_renderable_removed(11, &[1], 100));
}

#[test]
fn a_renderable_of_an_entity_in_no_window_is_released_on_removal() {
    let mut registry = RenderableEntities::new();
    assert!(registry.handle_renderable_added(10, &[], 100));
    assert!(registry.handle_renderable_removed(10, &[], 100));
}

#[test]
fn an_entity_is_added_to_a_window_once() {
    let mut registry = EntityRegistry::new();
    assert!(registry.add_entity(1, 10));
    assert!(!registry.add_entity(1, 10));
    assert!(registry.add_entity(2, 10));
    assert!(registry.contains_entity(10));
    let windows = registry.window_ids(10).unwrap();
    assert!(windows.contains(&1) && windows.contains(&2) && windows.len() == 2);
}

#[test]
fn removing_an_entity_hands_back_its_windows() {
    let mut registry = EntityRegistry::new();
    registry.add_entity(3, 10);
    let windows = registry.remove_entity(10).unwrap();
    assert_eq!(windows.len(), 1);
    assert!(windows.contains(&3));
    assert!(!registry.contains_entity(10));
    assert!(registry.remove_entity(10).is_none());
    assert!(registry.window_ids(10).is_none());
}

#[test]
fn vertex_layout_is_position_normal_texture_coordinate() {
    let bindings = binding_descriptions();
    assert_eq!(bindings.len(), 1);
    assert_eq!((bindings[0].binding, bindings[0].stride, bindings[0].input_rate), (0, 32, 0));
    let attributes = attribute_descriptions();
    let summary: Vec<(u32, i32, u32)> = attributes.iter().map(|a| (a.location, a.format, a.offset)).collect();
    assert_eq!(
        summary,
        vec![(0, FORMAT_R32G32B32_SFLOAT, 0), (1, FORMAT_R32G32B32_SFLOAT, 12), (2, FORMAT_R32G32_SFLOAT, 24)]
    );
}

#[test]
fn swap_chain_images_are_shared_only_between_different_families() {
    let split = QueueFamilyIndices { graphics: 0, present: 2 };
    assert_eq!(split.image_sharing(), (SHARING_MODE_CONCURRENT, vec![0, 2]));
    let same = QueueFamilyIndices { graphics: 1, present: 1 };
    assert_eq!(same.image_sharing(), (SHARING_MODE_EXCLUSIVE, vec![]));
}

fn allocated(renderable_id: u64, offset: u64, index_offset: u64, index_count: u64) -> RenderableDraw {
    RenderableDraw {
        renderable_id,
        render_buffer_id: Some(3),
        render_buffer_offset: Some(offset),
        render_buffer_exists: true,
        index_offset,
        index_count,
    }
}

#[test]
fn a_window_draws_its_allocated_renderables_once_per_entity() {
    let mut registry = RenderableEntities::new();
    registry.submit_entity(5, 10, &[1, 3, 4]);
    registry.submit_entity(5, 11, &[1]);
    registry.submit_entity(6, 12, &[2]);
    assert_eq!(registry.window_entity_count(1, 5), Some(2));
    assert_eq!(registry.window_entity_count(2, 5), None);

    let mut unallocated = allocated(3, 0, 0, 3);
    unallocated.render_buffer_offset = None;
    let mut buffer_gone = allocated(4, 0, 0, 3);
    buffer_gone.render_buffer_exists = false;
    let renderables = [
        allocated(2, 0, 64, 6),
        allocated(1, 256, 96, 36),
        unallocated,
        buffer_gone,
    ];
    assert_eq!(
        plan_draws(&registry, 5, 7, &renderables),
        vec![DrawCommand {
            renderable_id: 1,
            render_buffer_id: 3,
            vertex_offset: 256,
            index_offset: 352,
            index_count: 36,
            draw_count: 2,
            last_used_in_frame: 8,
        }]
    );
}

#[test]
fn a_draw_takes_the_low_bits_of_a_large_index_count() {
    let mut registry = RenderableEntities::new();
    registry.submit_entity(5, 10, &[1]);
    let commands = plan_draws(&registry, 5, 0, &[allocated(1, 0, 0, (1u64 << 32) + 3)]);
    assert_eq!(commands.len(), 1);
    assert_eq!(commands[0].index_count, 3);
    assert_eq!(commands[0].last_used_in_frame, 1);
}

#[test]
fn a_drawn_renderable_stays_in_use_until_its_frame_is_done() {
    let mut registry = RenderableEntities::new();
    registry.submit_entity(5, 10, &[1]);
    let commands = plan_draws(&registry, 5, 7, &[allocated(1, 0, 0, 3)]);
    let used = [(5, commands[0].last_used_in_frame)];
    let mut values = HashMap::new();
    values.insert(5u64, 7u64);
    assert!(renderable_still_used(&used, &values));
    values.insert(5u64, 8u64);
    assert!(!renderable_still_used(&used, &values));
}

#[test]
fn removing_components_takes_out_those_of_other_kinds() {
    let mut components = EntityComponents::new();
    assert_eq!(components.add_component(ComponentEntry::Renderable(4)), Some(4));
    assert_eq!(components.add_component(ComponentEntry::Camera), None);
    assert_eq!(components.add_component(ComponentEntry::Renderable(9)), Some(9));
    assert_eq!(components.renderables(), vec![4, 9]);
    assert!(components.has_component(ComponentKind::Camera));

    assert_eq!(components.remove_components(ComponentKind::Camera), vec![4, 9]);
    assert!(components.has_component(ComponentKind::Camera));
    assert!(!components.has_component(ComponentKind::Renderable));
    assert_eq!(components.renderables(), Vec::<u64>::new());
    assert_eq!(components.remove_components(ComponentKind::Camera), Vec::<u64>::new());
}

#[test]
fn closing_an_unknown_window_fails() {
    let not_found = NeuclidioError::RenderError(RenderError::WindowingError(WindowingError::WindowNotFound));
    let mut windows = OpenWindows::new();
    windows.open_window(1);
    windows.open_window(2);
    windows.open_window(1);
    assert!(windows.is_open(1));
    assert_eq!(windows.resize_window(2), Ok(()));
    assert_eq!(windows.resize_window(3), Err(not_found));
    assert_eq!(windows.close_window(1), Ok(()));
    assert!(!windows.is_open(1));
    assert_eq!(windows.close_window(1), Err(not_found));
    windows.open_window(3);
    let closed = windows.close_all();
    let mut closed: Vec<u64> = closed.into_iter().collect();
    closed.sort();
    assert_eq!(closed, vec![2, 3]);
    assert!(!windows.is_open(2));
    assert_eq!(windows.close_window(3), Err(not_found));
}

#[test]
fn a_window_with_the_placeholder_title_is_named_after_the_engine() {
    assert_eq!(window_title("winit window".to_string()), "Neuclidio Example");
    assert_eq!(window_title("Dragons".to_string()), "Dragons");
}
