use lucie::hinting::{HintCache, HintKey, HintLookup, MAX_CACHED_HINT_INSTANCES};

fn key(font_id: u64, size: u32) -> HintKey {
    HintKey { font_id, font_index: 0, size_bits: size, coords: vec![0, 16384] }
}

#[test]
fn lookup_in_empty_cache_is_vacant() {
    let cache = HintCache::new();
    assert_eq!(cache.lookup(true, &key(1, 12)), HintLookup::Vacant);
    assert_eq!(cache.lookup(false, &key(1, 12)), HintLookup::Vacant);
}

#[test]
fn inserted_configuration_is_found_in_its_format_only() {
    let mut cache = HintCache::new();
    let ix = cache.insert(true, key(1, 12));
    assert_eq!(ix, 0);
    cache.touch(true, ix);
    assert_eq!(cache.lookup(true, &key(1, 12)), HintLookup::Found(0));
    assert_eq!(cache.lookup(false, &key(1, 12)), HintLookup::Vacant);
    // a different size or coordinates is another configuration
    assert_eq!(cache.lookup(true, &key(1, 13)), HintLookup::Vacant);
    let other_coords = HintKey { font_id: 1, font_index: 0, size_bits: 12, coords: vec![0] };
    assert_eq!(cache.lookup(true, &other_coords), HintLookup::Vacant);
}

#[test]
fn full_cache_evicts_least_recently_used() {
    let mut cache = HintCache::new();
    for i in 0..MAX_CACHED_HINT_INSTANCES {
        let ix = cache.insert(false, key(i as u64, 10));
        cache.touch(false, ix);
    }
    // slot 0 was used first: it is the one to recycle
    assert_eq!(cache.lookup(false, &key(99, 10)), HintLookup::Evict(0));
    cache.touch(false, 0);
    assert_eq!(cache.lookup(false, &key(99, 10)), HintLookup::Evict(1));
    cache.reassign(false, 1, key(99, 10));
    cache.touch(false, 1);
    assert_eq!(cache.lookup(false, &key(99, 10)), HintLookup::Found(1));
    assert_eq!(cache.lookup(false, &key(1, 10)), HintLookup::Evict(2));
}

#[test]
fn clear_empties_cache() {
    let mut cache = HintCache::new();
    let ix = cache.insert(true, key(3, 9));
    cache.touch(true, ix);
    cache.clear();
    assert_eq!(cache.lookup(true, &key(3, 9)), HintLookup::Vacant);
}

#[test]
fn record_use_of_found_slot_keeps_it_current() {
    let mut cache = HintCache::new();
    let found = cache.lookup(true, &key(1, 12));
    assert_eq!(found, HintLookup::Vacant);
    assert_eq!(cache.record_use(true, key(1, 12), found, true), Some(0));
    let found = cache.lookup(true, &key(1, 12));
    assert_eq!(found, HintLookup::Found(0));
    assert_eq!(cache.record_use(true, key(1, 12), found, true), Some(0));
    assert_eq!(cache.lookup(false, &key(1, 12)), HintLookup::Vacant);
}

#[test]
fn record_use_without_instance_leaves_cache_alone() {
    let mut cache = HintCache::new();
    assert_eq!(cache.record_use(false, key(1, 12), HintLookup::Vacant, false), None);
    assert_eq!(cache.lookup(false, &key(1, 12)), HintLookup::Vacant);
}

#[test]
fn record_use_recycles_least_recently_used() {
    let mut cache = HintCache::new();
    for i in 0..MAX_CACHED_HINT_INSTANCES {
        let found = cache.lookup(true, &key(i as u64, 10));
        assert_eq!(cache.record_use(true, key(i as u64, 10), found, true), Some(i));
    }
    let found = cache.lookup(true, &key(99, 10));
    assert_eq!(found, HintLookup::Evict(0));
    assert_eq!(cache.record_use(true, key(99, 10), found, true), Some(0));
    assert_eq!(cache.lookup(true, &key(99, 10)), HintLookup::Found(0));
    // a failed reconfiguration stamps the slot but hands nothing out
    let found = cache.lookup(true, &key(77, 11));
    assert_eq!(found, HintLookup::Evict(1));
    assert_eq!(cache.record_use(true, key(77, 11), found, false), None);
    assert_eq!(cache.lookup(true, &key(77, 11)), HintLookup::Evict(2));
    // the slot took the font but kept the size it recorded
    assert_eq!(cache.lookup(true, &key(77, 10)), HintLookup::Found(1));
}
