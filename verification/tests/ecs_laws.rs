use neuclidio::ecs::error::{EcsError, PagedSparseSetError};
use neuclidio::ecs::paged_sparse_set::{PagedSparseSet, SparseSetPage};
use neuclidio::ecs::pool::EntityPool;

#[test]
fn a_removed_entity_stays_inactive_when_its_slot_is_reused() {
    let mut pool = EntityPool::new();
    let first = pool.add_entity();
    assert!(pool.is_entity_active(first));
    assert!(pool.remove_entity(first));
    assert!(!pool.is_entity_active(first));
    let second = pool.add_entity();
    assert_eq!(second.sparse_index(), first.sparse_index());
    assert_ne!(second, first);
    assert!(!pool.remove_entity(first));
    assert!(pool.is_entity_active(second));
}

#[test]
fn clearing_forgets_every_entity() {
    let mut pool = EntityPool::new();
    let entity = pool.add_entity();
    pool.clear();
    assert!(!pool.is_entity_active(entity));
    assert!(pool.active_entities().is_empty());
    assert_eq!(pool.add_entity().sparse_index(), 0);
}

#[test]
fn inserting_then_removing_gives_back_the_item() {
    let mut set = PagedSparseSet::<16, u32>::new();
    set.insert(40, 7).unwrap();
    set.insert(3, 9).unwrap();
    assert!(set.contains(40));
    assert_eq!(set.get(40), Some(&7));
    assert_eq!(set.remove(40), Some(7));
    assert!(!set.contains(40));
    assert_eq!(set.get(3), Some(&9));
    assert_eq!(set.remove(40), None);
    assert_eq!(set.sparse_page_count(), 3);
}

#[test]
fn slot_full_leaves_the_set_unchanged() {
    let mut set = PagedSparseSet::<4, u32>::new();
    set.insert(5, 1).unwrap();
    assert_eq!(
        set.insert(5, 2).unwrap_err(),
        neuclidio::error::NeuclidioError::EcsError(EcsError::PagedSparseSetError(PagedSparseSetError::SlotFull))
    );
    assert_eq!(set.get(5), Some(&1));
    assert_eq!(set.iter().len(), 1);
}

#[test]
fn a_new_page_has_only_empty_slots() {
    let page = SparseSetPage::<8>::new();
    assert_eq!(page.indices().len(), 8);
    assert!(page.indices().iter().all(|slot| slot.is_none()));
}

#[test]
fn ecs_error_wraps_the_sparse_set_error() {
    assert_eq!(
        EcsError::from(PagedSparseSetError::SlotFull),
        EcsError::PagedSparseSetError(PagedSparseSetError::SlotFull)
    );
}
