use zen_core::lazy_pool::LazyPool;
use zen_core::lazy_pool::PoolError;
use zen_core::lazy_pool::PoolSlot;

#[test]
fn slot_lifecycle() {
    let mut slot: PoolSlot<u32> = PoolSlot::new();
    assert!(slot.get().is_none());
    slot.allocate(11).unwrap();
    assert_eq!(slot.get(), Some(&11));
    assert_eq!(slot.allocate(22), Err(PoolError::SlotInUse));
    assert_eq!(slot.free(), Some(11));
    assert!(slot.get().is_none());
    assert_eq!(slot.free(), None);
}

#[test]
fn slot_get_mut_updates_in_place() {
    let mut slot: PoolSlot<u32> = PoolSlot::new();
    slot.allocate(1).unwrap();
    if let Some(v) = slot.get_mut() {
        *v = 99;
    }
    assert_eq!(slot.get(), Some(&99));
}

#[test]
fn pool_allocates_first_free_slot() {
    let mut pool: LazyPool<u64, 4> = LazyPool::new();
    assert_eq!(pool.allocate(10), Ok(0));
    assert_eq!(pool.allocate(20), Ok(1));
    assert_eq!(pool.free(0), Ok(10));
    // The freed slot is the first free one again.
    assert_eq!(pool.allocate(30), Ok(0));
    assert_eq!(pool.get(0), Some(&30));
    assert_eq!(pool.get(1), Some(&20));
}

#[test]
fn pool_fills_up() {
    let mut pool: LazyPool<u8, 3> = LazyPool::new();
    pool.allocate(1).unwrap();
    pool.allocate(2).unwrap();
    pool.allocate(3).unwrap();
    assert_eq!(pool.allocate(4), Err(PoolError::PoolFull));
}

#[test]
fn pool_free_errors() {
    let mut pool: LazyPool<u8, 2> = LazyPool::new();
    assert_eq!(pool.free(5), Err(PoolError::InvalidIndex));
    assert_eq!(pool.free(1), Err(PoolError::SlotNotAllocated));
}

#[test]
fn pool_get_mut_updates_one_slot() {
    let mut pool: LazyPool<i32, 2> = LazyPool::new();
    pool.allocate(-5).unwrap();
    pool.allocate(7).unwrap();
    if let Some(v) = pool.get_mut(0) {
        *v = 100;
    }
    assert_eq!(pool.get(0), Some(&100));
    assert_eq!(pool.get(1), Some(&7));
    assert!(pool.get_mut(9).is_none());
    assert!(pool.get(9).is_none());
}
