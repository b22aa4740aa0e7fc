use voxrs::render::cache::Cache;
use voxrs::render::chunk_cache::ChunkCache;
use voxrs::types::safecloner::SafeCloner;

#[test]
fn cache_clear_unused() {
    let mut cache = Cache::new();

    assert_eq!(cache.set_used(1), false);
    cache.add(1, vec!["1".to_string()]);

    assert_eq!(cache.set_used(2), false);
    cache.add(2, vec!["2".to_string()]);

    let removed = cache.clear_unused();
    assert_eq!(removed, 0);

    cache.set_used(2);

    let removed = cache.clear_unused();
    assert_eq!(removed, 1);

    assert!(cache.get(&1).is_none());
    assert!(cache.get(&2).is_some());
}

#[test]
fn test_get() {
    let mut cache = Cache::new();
    cache.add(1, vec!["1".to_string()]);

    let cached = cache.get(&1).unwrap();
    assert_eq!(cached.iter().next(), Some(&"1".to_string()));
}

#[test]
fn chunk_cache_clear_unused() {
    let mut cache: ChunkCache<u32, Vec<u8>> = ChunkCache::new();
    assert_eq!(cache.set_used(1), false);

    let bp_chunk_1 = SafeCloner::new(Vec::new());
    let chunk_1 = Vec::new();
    cache.add(1, bp_chunk_1, chunk_1);

    let bp_chunk_2 = SafeCloner::new(Vec::new());
    let chunk_2 = Vec::new();
    cache.add(2, bp_chunk_2, chunk_2);

    let removed = cache.clear_unused();
    assert_eq!(removed, 0);

    cache.set_used(2);

    let removed = cache.clear_unused();
    assert_eq!(removed, 1);

    assert!(cache.get(&1).is_none());
    assert!(cache.get(&2).is_some());
}

#[test]
fn cache_add_replaces_and_reports() {
    let mut cache = Cache::new();
    assert_eq!(cache.add(7u64, vec![1, 2]), false);
    assert_eq!(cache.add(7u64, vec![3]), true);
    assert_eq!(cache.get(&7).unwrap(), &vec![3]);
}

#[test]
fn cache_set_used_reports_already_used() {
    let mut cache: Cache<u64, u8> = Cache::new();
    assert_eq!(cache.set_used(3), false);
    assert_eq!(cache.set_used(3), true);
}

#[test]
fn cache_clear_twice_empties() {
    let mut cache = Cache::new();
    cache.add(1u64, vec!['a']);
    cache.add(2u64, vec!['b']);
    cache.add(3u64, vec!['c']);
    assert_eq!(cache.clear_unused(), 0);
    assert_eq!(cache.clear_unused(), 3);
    assert!(cache.get(&1).is_none());
    assert!(cache.get(&2).is_none());
    assert!(cache.get(&3).is_none());
}

#[test]
fn cache_added_entry_survives_clear() {
    let mut cache = Cache::new();
    cache.add(1u64, vec![10]);
    cache.clear_unused();
    cache.add(2u64, vec![20]);
    assert_eq!(cache.clear_unused(), 1);
    assert!(cache.get(&1).is_none());
    assert_eq!(cache.get(&2), Some(&vec![20]));
}

#[test]
fn chunk_cache_get_does_not_mark_used() {
    let mut cache: ChunkCache<u32, u8> = ChunkCache::new();
    cache.add(5, SafeCloner::new(1), vec![9]);
    assert_eq!(cache.clear_unused(), 0);
    assert_eq!(cache.get(&5), Some(&vec![9]));
    assert_eq!(cache.clear_unused(), 1);
    assert!(cache.get(&5).is_none());
}
