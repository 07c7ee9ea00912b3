use neuclidio::ecs::error::{EcsError, PagedSparseSetError};
use neuclidio::ecs::paged_sparse_set::PagedSparseSet;
use neuclidio::error::NeuclidioError;

fn page(target: &PagedSparseSet<PAGE_SIZE_FOR_TESTS, u8>, p: usize) -> Option<Vec<Option<usize>>> {
    target.sparse_page(p).map(|sparse_page| sparse_page.indices().to_vec())
}

fn dense(target: &PagedSparseSet<PAGE_SIZE_FOR_TESTS, u8>) -> Vec<(u32, u8)> {
    target
        .iter()
        .into_iter()
        .map(|(sparse_index, item)| (sparse_index, *item))
        .collect()
}

const PAGE_SIZE_FOR_TESTS: usize = 1024;

// Insertion

#[test]
fn should_insert_item_when_sparse_index_is_zero() {
    // Setup
    let mut target = PagedSparseSet::<PAGE_SIZE_FOR_TESTS, u8>::new();

    // Execute
    target.insert(0, 0x12).unwrap();

    // Assert
    let mut expected_indices = [None; PAGE_SIZE_FOR_TESTS];
    expected_indices[0] = Some(0);

    assert_eq!(target.sparse_page_count(), 1);
    assert_eq!(page(&target, 0), Some(expected_indices.to_vec()));
    assert_eq!(dense(&target), vec![(0, 0x12)]);
}

#[test]
fn should_insert_item_when_sparse_index_is_zero_and_same_page_already_contains_items() {
    // Setup
    let mut target = PagedSparseSet::<PAGE_SIZE_FOR_TESTS, u8>::new();
    target.insert(1, 0x12).unwrap();

    // Execute
    target.insert(0, 0x34).unwrap();

    // Assert
    let mut expected_indices = [None; PAGE_SIZE_FOR_TESTS];
    expected_indices[0] = Some(1);
    expected_indices[1] = Some(0);

    assert_eq!(target.sparse_page_count(), 1);
    assert_eq!(page(&target, 0), Some(expected_indices.to_vec()));
    assert_eq!(dense(&target), vec![(1, 0x12), (0, 0x34)]);
}

#[test]
fn should_insert_item_when_sparse_index_is_zero_and_different_page_already_contains_items() {
    // Setup
    let mut target = PagedSparseSet::<PAGE_SIZE_FOR_TESTS, u8>::new();
    target.insert(2048, 0x12).unwrap();

    // Execute
    target.insert(0, 0x34).unwrap();

    // Assert
    let mut expected_indices_0 = [None; PAGE_SIZE_FOR_TESTS];
    expected_indices_0[0] = Some(1);

    let mut expected_indices_2 = [None; PAGE_SIZE_FOR_TESTS];
    expected_indices_2[0] = Some(0);

    assert_eq!(target.sparse_page_count(), 3);
    assert_eq!(page(&target, 0), Some(expected_indices_0.to_vec()));
    assert_eq!(page(&target, 1), None);
    assert_eq!(page(&target, 2), Some(expected_indices_2.to_vec()));
    assert_eq!(dense(&target), vec![(2048, 0x12), (0, 0x34)]);
}

#[test]
fn should_insert_item_when_sparse_index_is_high() {
    // Setup
    let mut target = PagedSparseSet::<PAGE_SIZE_FOR_TESTS, u8>::new();

    // Execute
    target
        .insert(PAGE_SIZE_FOR_TESTS as u32 * 10, 0x12)
        .unwrap();

    // Assert
    let mut expected_indices = [None; PAGE_SIZE_FOR_TESTS];
    expected_indices[0] = Some(0);

    assert_eq!(target.sparse_page_count(), 11);
    for i in 0..10 {
        assert_eq!(page(&target, i), None);
    }
    assert_eq!(page(&target, 10), Some(expected_indices.to_vec()));
    assert_eq!(dense(&target), vec![(PAGE_SIZE_FOR_TESTS as u32 * 10, 0x12)]);
}

#[test]
fn should_insert_item_when_sparse_index_is_high_and_same_page_already_contains_items() {
    // Setup
    let mut target = PagedSparseSet::<PAGE_SIZE_FOR_TESTS, u8>::new();
    target
        .insert(PAGE_SIZE_FOR_TESTS as u32 * 10 + 1, 0x12)
        .unwrap();

    // Execute
    target
        .insert(PAGE_SIZE_FOR_TESTS as u32 * 10, 0x34)
        .unwrap();

    // Assert
    let mut expected_indices = [None; PAGE_SIZE_FOR_TESTS];
    expected_indices[0] = Some(1);
    expected_indices[1] = Some(0);

    assert_eq!(target.sparse_page_count(), 11);
    for i in 0..10 {
        assert_eq!(page(&target, i), None);
    }
    assert_eq!(page(&target, 10), Some(expected_indices.to_vec()));
    assert_eq!(dense(&target), vec![(PAGE_SIZE_FOR_TESTS as u32 * 10 + 1, 0x12), (PAGE_SIZE_FOR_TESTS as u32 * 10, 0x34)]);
}

#[test]
fn should_insert_item_when_sparse_index_is_high_and_different_page_already_contains_items() {
    // Setup
    let mut target = PagedSparseSet::<PAGE_SIZE_FOR_TESTS, u8>::new();
    target.insert(2048, 0x12).unwrap();

    // Execute
    target
        .insert(PAGE_SIZE_FOR_TESTS as u32 * 10, 0x34)
        .unwrap();

    // Assert
    let mut expected_indices_10 = [None; PAGE_SIZE_FOR_TESTS];
    expected_indices_10[0] = Some(1);

    let mut expected_indices_2 = [None; PAGE_SIZE_FOR_TESTS];
    expected_indices_2[0] = Some(0);

    assert_eq!(target.sparse_page_count(), 11);
    for i in 0..2 {
        assert_eq!(page(&target, i), None);
    }
    assert_eq!(page(&target, 2), Some(expected_indices_2.to_vec()));
    for i in 3..10 {
        assert_eq!(page(&target, i), None);
    }
    assert_eq!(page(&target, 10), Some(expected_indices_10.to_vec()));
    assert_eq!(dense(&target), vec![(2048, 0x12), (PAGE_SIZE_FOR_TESTS as u32 * 10, 0x34)]);
}

#[test]
fn should_return_slot_full_when_inserting_item_and_slot_is_already_filled() {
    // Setup
    let mut target = PagedSparseSet::<PAGE_SIZE_FOR_TESTS, u8>::new();
    target.insert(0, 0x12).unwrap();

    // Execute
    let result = target.insert(0, 0x34);

    // Assert
    assert!(matches!(result, Err(NeuclidioError::EcsError(EcsError::PagedSparseSetError(PagedSparseSetError::SlotFull)))));

    let mut expected_indices = [None; PAGE_SIZE_FOR_TESTS];
    expected_indices[0] = Some(0);

    assert_eq!(target.sparse_page_count(), 1);
    assert_eq!(page(&target, 0), Some(expected_indices.to_vec()));
    assert_eq!(dense(&target), vec![(0, 0x12)]);
}

// Removal

#[test]
fn should_remove_item_when_there_is_only_one_item() {
    // Setup
    let mut target = PagedSparseSet::<PAGE_SIZE_FOR_TESTS, u8>::new();
    target.insert(0, 0x12).unwrap();

    // Execute
    let result = target.remove(0);

    // Assert
    assert_eq!(result, Some(0x12));

    assert_eq!(target.sparse_page_count(), 1);
    assert!(page(&target, 0).unwrap().iter().all(|slot| slot.is_none()));
    assert!(dense(&target).is_empty());
}

#[test]
fn should_remove_item_when_there_are_multiple_items_in_the_same_page() {
    // Setup
    let mut target = PagedSparseSet::<PAGE_SIZE_FOR_TESTS, u8>::new();
    target.insert(0, 0x12).unwrap();
    target.insert(1, 0x34).unwrap();

    // Execute
    let result = target.remove(0);

    // Assert
    assert_eq!(result, Some(0x12));

    let mut expected_indices = [None; PAGE_SIZE_FOR_TESTS];
    expected_indices[1] = Some(0);

    assert_eq!(target.sparse_page_count(), 1);
    assert_eq!(page(&target, 0), Some(expected_indices.to_vec()));
    assert_eq!(dense(&target), vec![(1, 0x34)]);
}

#[test]
fn should_remove_item_when_there_are_multiple_items_in_different_pages() {
    // Setup
    let mut target = PagedSparseSet::<PAGE_SIZE_FOR_TESTS, u8>::new();
    target.insert(0, 0x12).unwrap();
    target.insert(2048, 0x34).unwrap();

    // Execute
    let result = target.remove(0);

    // Assert
    assert_eq!(result, Some(0x12));

    let mut expected_indices_2 = [None; PAGE_SIZE_FOR_TESTS];
    expected_indices_2[0] = Some(0);

    assert_eq!(target.sparse_page_count(), 3);
    assert!(page(&target, 0).unwrap().iter().all(|slot| slot.is_none()));
    assert_eq!(page(&target, 1), None);
    assert_eq!(page(&target, 2), Some(expected_indices_2.to_vec()));
    assert_eq!(dense(&target), vec![(2048, 0x34)]);
}

#[test]
fn should_remove_item_and_swap_last_item_in_when_there_are_multiple_items_in_the_same_page() {
    // Setup
    let mut target = PagedSparseSet::<PAGE_SIZE_FOR_TESTS, u8>::new();
    target.insert(0, 0x12).unwrap();
    target.insert(1, 0x34).unwrap();
    target.insert(2, 0x56).unwrap();

    // Execute
    let result = target.remove(0);

    // Assert
    assert_eq!(result, Some(0x12));

    let mut expected_indices = [None; PAGE_SIZE_FOR_TESTS];
    expected_indices[1] = Some(1);
    expected_indices[2] = Some(0);

    assert_eq!(target.sparse_page_count(), 1);
    assert_eq!(page(&target, 0), Some(expected_indices.to_vec()));
    assert_eq!(dense(&target), vec![(2, 0x56), (1, 0x34)]);
}

#[test]
fn should_remove_item_and_swap_last_item_in_when_there_are_multiple_items_in_different_pages() {
    // Setup
    let mut target = PagedSparseSet::<PAGE_SIZE_FOR_TESTS, u8>::new();
    target.insert(2048, 0x12).unwrap();
    target.insert(1, 0x34).unwrap();
    target.insert(2, 0x56).unwrap();

    // Execute
    let result = target.remove(2048);

    // Assert
    assert_eq!(result, Some(0x12));

    let mut expected_indices_0 = [None; PAGE_SIZE_FOR_TESTS];
    expected_indices_0[1] = Some(1);
    expected_indices_0[2] = Some(0);

    assert_eq!(target.sparse_page_count(), 3);
    assert_eq!(page(&target, 0), Some(expected_indices_0.to_vec()));
    assert_eq!(page(&target, 1), None);
    assert!(page(&target, 2).unwrap().iter().all(|slot| slot.is_none()));
    assert_eq!(dense(&target), vec![(2, 0x56), (1, 0x34)]);
}

#[test]
fn should_return_none_when_deleting_item_and_slot_is_already_empty() {
    // Setup
    let mut target = PagedSparseSet::<PAGE_SIZE_FOR_TESTS, u8>::new();

    // Execute
    let result = target.remove(0);

    // Assert
    assert!(result.is_none());

    assert_eq!(target.sparse_page_count(), 0);
    assert!(dense(&target).is_empty());
}

// Reference retrieval

#[test]
fn should_get_item_when_there_is_only_one_item() {
    // Setup
    let mut target = PagedSparseSet::<PAGE_SIZE_FOR_TESTS, u8>::new();
    target.insert(0, 0x12).unwrap();

    // Execute
    let result = target.get(0);

    // Assert
    assert_eq!(result, Some(&0x12));

    let mut expected_indices = [None; PAGE_SIZE_FOR_TESTS];
    expected_indices[0] = Some(0);

    assert_eq!(target.sparse_page_count(), 1);
    assert_eq!(page(&target, 0), Some(expected_indices.to_vec()));
    assert_eq!(dense(&target), vec![(0, 0x12)]);
}

#[test]
fn should_get_item_when_there_is_multiple_items_in_the_same_page() {
    // Setup
    let mut target = PagedSparseSet::<PAGE_SIZE_FOR_TESTS, u8>::new();
    target.insert(0, 0x12).unwrap();
    target.insert(2, 0x56).unwrap();

    // Execute
    let result = target.get(0);

    // Assert
    assert_eq!(result, Some(&0x12));

    let mut expected_indices = [None; PAGE_SIZE_FOR_TESTS];
    expected_indices[0] = Some(0);
    expected_indices[2] = Some(1);

    assert_eq!(target.sparse_page_count(), 1);
    assert_eq!(page(&target, 0), Some(expected_indices.to_vec()));
    assert_eq!(dense(&target), vec![(0, 0x12), (2, 0x56)]);
}

#[test]
fn should_get_item_when_there_is_multiple_items_in_different_pages() {
    // Setup
    let mut target = PagedSparseSet::<PAGE_SIZE_FOR_TESTS, u8>::new();
    target.insert(0, 0x12).unwrap();
    target.insert(2048, 0x56).unwrap();

    // Execute
    let result = target.get(0);

    // Assert
    assert_eq!(result, Some(&0x12));

    let mut expected_indices_0 = [None; PAGE_SIZE_FOR_TESTS];
    expected_indices_0[0] = Some(0);

    let mut expected_indices_2 = [None; PAGE_SIZE_FOR_TESTS];
    expected_indices_2[0] = Some(1);

    assert_eq!(target.sparse_page_count(), 3);
    assert_eq!(page(&target, 0), Some(expected_indices_0.to_vec()));
    assert_eq!(page(&target, 1), None);
    assert_eq!(page(&target, 2), Some(expected_indices_2.to_vec()));
    assert_eq!(dense(&target), vec![(0, 0x12), (2048, 0x56)]);
}

#[test]
fn should_return_none_when_getting_item_and_slot_is_empty() {
    // Setup
    let target = PagedSparseSet::<PAGE_SIZE_FOR_TESTS, u8>::new();

    // Execute
    let result = target.get(0);

    // Assert
    assert!(result.is_none());

    assert_eq!(target.sparse_page_count(), 0);
    assert!(dense(&target).is_empty());
}

// Mutable reference retrieval

#[test]
fn should_get_mutable_item_when_there_is_only_one_item() {
    // Setup
    let mut target = PagedSparseSet::<PAGE_SIZE_FOR_TESTS, u8>::new();
    target.insert(0, 0x12).unwrap();

    // Execute
    let result = target.get_mut(0).unwrap();
    *result = 0x34;

    // Assert
    assert_eq!(*result, 0x34);

    let mut expected_indices = [None; PAGE_SIZE_FOR_TESTS];
    expected_indices[0] = Some(0);

    assert_eq!(target.sparse_page_count(), 1);
    assert_eq!(page(&target, 0), Some(expected_indices.to_vec()));
    assert_eq!(dense(&target), vec![(0, 0x34)]);
}

#[test]
fn should_get_mutable_item_when_there_is_multiple_items_in_the_same_page() {
    // Setup
    let mut target = PagedSparseSet::<PAGE_SIZE_FOR_TESTS, u8>::new();
    target.insert(0, 0x12).unwrap();
    target.insert(2, 0x56).unwrap();

    // Execute
    let result = target.get_mut(0).unwrap();
    *result = 0x34;

    // Assert
    assert_eq!(*result, 0x34);

    let mut expected_indices = [None; PAGE_SIZE_FOR_TESTS];
    expected_indices[0] = Some(0);
    expected_indices[2] = Some(1);

    assert_eq!(target.sparse_page_count(), 1);
    assert_eq!(page(&target, 0), Some(expected_indices.to_vec()));
    assert_eq!(dense(&target), vec![(0, 0x34), (2, 0x56)]);
}

#[test]
fn should_get_mutable_item_when_there_is_multiple_items_in_different_pages() {
    // Setup
    let mut target = PagedSparseSet::<PAGE_SIZE_FOR_TESTS, u8>::new();
    target.insert(0, 0x12).unwrap();
    target.insert(2048, 0x56).unwrap();

    // Execute
    let result = target.get_mut(0).unwrap();
    *result = 0x34;

    // Assert
    assert_eq!(*result, 0x34);

    let mut expected_indices_0 = [None; PAGE_SIZE_FOR_TESTS];
    expected_indices_0[0] = Some(0);

    let mut expected_indices_2 = [None; PAGE_SIZE_FOR_TESTS];
    expected_indices_2[0] = Some(1);

    assert_eq!(target.sparse_page_count(), 3);
    assert_eq!(page(&target, 0), Some(expected_indices_0.to_vec()));
    assert_eq!(page(&target, 1), None);
    assert_eq!(page(&target, 2), Some(expected_indices_2.to_vec()));
    assert_eq!(dense(&target), vec![(0, 0x34), (2048, 0x56)]);
}

#[test]
fn should_return_none_when_getting_mutable_item_and_slot_is_empty() {
    // Setup
    let mut target = PagedSparseSet::<PAGE_SIZE_FOR_TESTS, u8>::new();

    // Execute
    let result = target.get_mut(0);

    // Assert
    assert!(result.is_none());

    assert_eq!(target.sparse_page_count(), 0);
    assert!(dense(&target).is_empty());
}

// Contains check

#[test]
fn should_return_false_when_contains_called_and_slot_is_empty() {
    // Setup
    let target = PagedSparseSet::<PAGE_SIZE_FOR_TESTS, u8>::new();

    // Execute
    let result = target.contains(0);

    // Assert
    assert_eq!(result, false);

    assert_eq!(target.sparse_page_count(), 0);
    assert!(dense(&target).is_empty());
}

#[test]
fn should_return_true_when_contains_called_and_slot_is_filled() {
    // Setup
    let mut target = PagedSparseSet::<PAGE_SIZE_FOR_TESTS, u8>::new();
    target.insert(0, 0x12).unwrap();

    // Execute
    let result = target.contains(0);

    // Assert
    assert_eq!(result, true);

    let mut expected_indices = [None; PAGE_SIZE_FOR_TESTS];
    expected_indices[0] = Some(0);

    assert_eq!(target.sparse_page_count(), 1);
    assert_eq!(page(&target, 0), Some(expected_indices.to_vec()));
    assert_eq!(dense(&target), vec![(0, 0x12)]);
}

// Iteration

#[test]
fn should_iterate_over_dense_entries_when_there_is_no_items() {
    // Setup
    let target = PagedSparseSet::<PAGE_SIZE_FOR_TESTS, u8>::new();

    // Execute
    let entries = target.iter();
    let mut result = entries.into_iter();

    // Assert
    assert!(result.next().is_none());

    assert_eq!(target.sparse_page_count(), 0);
    assert!(dense(&target).is_empty());
}

#[test]
fn should_iterate_over_dense_entries_when_there_is_many_items() {
    // Setup
    let mut target = PagedSparseSet::<PAGE_SIZE_FOR_TESTS, u8>::new();
    target.insert(0, 0x12).unwrap();
    target.insert(1, 0x34).unwrap();
    target.insert(2, 0x56).unwrap();
    target.insert(3, 0x78).unwrap();
    target.insert(4, 0x90).unwrap();

    // Execute
    let entries = target.iter();
    let mut result = entries.into_iter();

    // Assert
    assert_eq!(result.next(), Some((0, &0x12)));
    assert_eq!(result.next(), Some((1, &0x34)));
    assert_eq!(result.next(), Some((2, &0x56)));
    assert_eq!(result.next(), Some((3, &0x78)));
    assert_eq!(result.next(), Some((4, &0x90)));

    let mut expected_indices = [None; PAGE_SIZE_FOR_TESTS];
    expected_indices[0] = Some(0);
    expected_indices[1] = Some(1);
    expected_indices[2] = Some(2);
    expected_indices[3] = Some(3);
    expected_indices[4] = Some(4);

    assert_eq!(target.sparse_page_count(), 1);
    assert_eq!(page(&target, 0), Some(expected_indices.to_vec()));
    assert_eq!(dense(&target), vec![(0, 0x12), (1, 0x34), (2, 0x56), (3, 0x78), (4, 0x90)]);
}

#[test]
fn should_iterate_over_dense_entries_when_there_is_many_items_and_complex_state() {
    // Setup
    let mut target = PagedSparseSet::<PAGE_SIZE_FOR_TESTS, u8>::new();
    target.insert(6, 0xff).unwrap();
    target.insert(2, 0x56).unwrap();
    target.insert(0, 0x12).unwrap();
    target.insert(4, 0x90).unwrap();
    target.insert(1, 0x34).unwrap();
    target.insert(3, 0x78).unwrap();
    target.insert(5, 0xff).unwrap();
    target.remove(6).unwrap();
    target.remove(5).unwrap();

    // Execute
    let entries = target.iter();
    let mut result = entries.into_iter();

    // Assert
    assert_eq!(result.next(), Some((3, &0x78)));
    assert_eq!(result.next(), Some((2, &0x56)));
    assert_eq!(result.next(), Some((0, &0x12)));
    assert_eq!(result.next(), Some((4, &0x90)));
    assert_eq!(result.next(), Some((1, &0x34)));

    let mut expected_indices = [None; PAGE_SIZE_FOR_TESTS];
    expected_indices[0] = Some(2);
    expected_indices[1] = Some(4);
    expected_indices[2] = Some(1);
    expected_indices[3] = Some(0);
    expected_indices[4] = Some(3);

    assert_eq!(target.sparse_page_count(), 1);
    assert_eq!(page(&target, 0), Some(expected_indices.to_vec()));
    assert_eq!(dense(&target), vec![(3, 0x78), (2, 0x56), (0, 0x12), (4, 0x90), (1, 0x34)]);
}

// Mutable iteration

#[test]
fn should_mutably_iterate_over_dense_entries_when_there_is_no_items() {
    // Setup
    let mut target = PagedSparseSet::<PAGE_SIZE_FOR_TESTS, u8>::new();

    // Execute
    let (sparse_indices, items) = target.iter_mut();
    let mut result = sparse_indices.iter().copied().zip(items.iter_mut());

    // Assert
    assert!(result.next().is_none());

    drop(result);

    assert_eq!(target.sparse_page_count(), 0);
    assert!(dense(&target).is_empty());
}

#[test]
fn should_mutably_iterate_over_dense_entries_when_there_is_many_items() {
    // Setup
    let mut target = PagedSparseSet::<PAGE_SIZE_FOR_TESTS, u8>::new();
    target.insert(0, 0x12).unwrap();
    target.insert(1, 0x34).unwrap();
    target.insert(2, 0x56).unwrap();
    target.insert(3, 0x78).unwrap();
    target.insert(4, 0x90).unwrap();

    // Execute
    let (sparse_indices, items) = target.iter_mut();
    let mut result = sparse_indices.iter().copied().zip(items.iter_mut());
    *result.next().unwrap().1 = 0xff;
    *result.next().unwrap().1 = 0xff;
    *result.next().unwrap().1 = 0xff;
    *result.next().unwrap().1 = 0xff;
    *result.next().unwrap().1 = 0xff;

    drop(result);

    // Assert
    let mut expected_indices = [None; PAGE_SIZE_FOR_TESTS];
    expected_indices[0] = Some(0);
    expected_indices[1] = Some(1);
    expected_indices[2] = Some(2);
    expected_indices[3] = Some(3);
    expected_indices[4] = Some(4);

    assert_eq!(target.sparse_page_count(), 1);
    assert_eq!(page(&target, 0), Some(expected_indices.to_vec()));
    assert_eq!(dense(&target), vec![(0, 0xff), (1, 0xff), (2, 0xff), (3, 0xff), (4, 0xff)]);
}

#[test]
fn should_mutably_iterate_over_dense_entries_when_there_is_many_items_and_complex_state() {
    // Setup
    let mut target = PagedSparseSet::<PAGE_SIZE_FOR_TESTS, u8>::new();
    target.insert(6, 0xff).unwrap();
    target.insert(2, 0x56).unwrap();
    target.insert(0, 0x12).unwrap();
    target.insert(4, 0x90).unwrap();
    target.insert(1, 0x34).unwrap();
    target.insert(3, 0x78).unwrap();
    target.insert(5, 0xff).unwrap();
    target.remove(6).unwrap();
    target.remove(5).unwrap();

    // Execute
    let (sparse_indices, items) = target.iter_mut();
    let mut result = sparse_indices.iter().copied().zip(items.iter_mut());
    *result.next().unwrap().1 = 0xff;
    *result.next().unwrap().1 = 0xff;
    *result.next().unwrap().1 = 0xff;
    *result.next().unwrap().1 = 0xff;
    *result.next().unwrap().1 = 0xff;

    drop(result);

    // Assert
    let mut expected_indices = [None; PAGE_SIZE_FOR_TESTS];
    expected_indices[0] = Some(2);
    expected_indices[1] = Some(4);
    expected_indices[2] = Some(1);
    expected_indices[3] = Some(0);
    expected_indices[4] = Some(3);

    assert_eq!(target.sparse_page_count(), 1);
    assert_eq!(page(&target, 0), Some(expected_indices.to_vec()));
    assert_eq!(dense(&target), vec![(3, 0xff), (2, 0xff), (0, 0xff), (4, 0xff), (1, 0xff)]);
}

