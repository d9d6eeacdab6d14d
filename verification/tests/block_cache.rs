use proc_core::fs::block_cache::{BlockCacheManager, CacheLookup, BLOCK_CACHE_SIZE};

fn fill(manager: &mut BlockCacheManager) {
    for block in 0..16usize {
        let in_use = vec![true; manager.len()];
        assert_eq!(
            manager.get_block_cache(100 + block, &in_use),
            CacheLookup::Load { evicted: None }
        );
    }
}

#[test]
fn block_cache_loads_then_hits() {
    assert_eq!(BLOCK_CACHE_SIZE, 16);
    let mut manager = BlockCacheManager::new();
    assert_eq!(manager.len(), 0);
    assert_eq!(manager.get_block_cache(7, &vec![]), CacheLookup::Load { evicted: None });
    assert_eq!(manager.get_block_cache(9, &vec![false]), CacheLookup::Load { evicted: None });
    assert_eq!(manager.len(), 2);
    assert_eq!(manager.get_block_cache(9, &vec![false, false]), CacheLookup::Hit { index: 1 });
    assert_eq!(manager.get_block_cache(7, &vec![true, true]), CacheLookup::Hit { index: 0 });
    assert_eq!(manager.len(), 2);
}

#[test]
fn full_block_cache_evicts_first_unused_block() {
    let mut manager = BlockCacheManager::new();
    fill(&mut manager);
    assert_eq!(manager.len(), 16);
    let mut in_use = vec![true; 16];
    in_use[5] = false;
    in_use[9] = false;
    assert_eq!(manager.get_block_cache(500, &in_use), CacheLookup::Load { evicted: Some(5) });
    assert_eq!(manager.len(), 16);
    let all_used = vec![true; 16];
    // Block 105 left; those behind it moved up, and the new block is last.
    assert_eq!(manager.get_block_cache(105, &all_used), CacheLookup::Exhausted);
    assert_eq!(manager.get_block_cache(104, &all_used), CacheLookup::Hit { index: 4 });
    assert_eq!(manager.get_block_cache(106, &all_used), CacheLookup::Hit { index: 5 });
    assert_eq!(manager.get_block_cache(115, &all_used), CacheLookup::Hit { index: 14 });
    assert_eq!(manager.get_block_cache(500, &all_used), CacheLookup::Hit { index: 15 });
}

#[test]
fn full_block_cache_in_use_is_exhausted() {
    let mut manager = BlockCacheManager::new();
    fill(&mut manager);
    let all_used = vec![true; 16];
    assert_eq!(manager.get_block_cache(1, &all_used), CacheLookup::Exhausted);
    assert_eq!(manager.len(), 16);
    // A cached block is still found.
    assert_eq!(manager.get_block_cache(100, &all_used), CacheLookup::Hit { index: 0 });
    // A hit evicts nothing, whatever is unused.
    assert_eq!(manager.get_block_cache(103, &vec![false; 16]), CacheLookup::Hit { index: 3 });
    assert_eq!(manager.get_block_cache(1, &vec![false; 16]), CacheLookup::Load { evicted: Some(0) });
    assert_eq!(manager.get_block_cache(100, &all_used), CacheLookup::Exhausted);
}
