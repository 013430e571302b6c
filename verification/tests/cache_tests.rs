//! Tests for the shape cache: hits, misses, round-robin replacement, and
//! the LRU sweep, run against the real shaper.

use cosmic_text::{Attrs, FontSystem, Metrics};
use glyphgrid::cache::LockFreeShapeCache;
use glyphgrid::fingerprint::fnv1a_hash;
use glyphgrid::shaper::ShapingMode;

fn insert(
    cache: &mut LockFreeShapeCache<4>,
    fs: &mut FontSystem,
    text: &str,
    frame: u64,
) -> usize {
    let attrs = Attrs::new();
    cache
        .get_or_create(
            text,
            fs,
            Metrics::new(14.0, 16.8),
            &attrs,
            ShapingMode::Advanced,
            frame,
        )
        .expect("shaping should succeed with system fonts present")
}

#[test]
fn hit_returns_same_slot_and_counts_a_hit() {
    let mut fs = FontSystem::new();
    let mut cache = LockFreeShapeCache::<4>::new();

    let first = insert(&mut cache, &mut fs, "hello", 1);
    let stats_after_miss = cache.stats();
    assert_eq!(stats_after_miss.miss_count, 1);
    assert_eq!(stats_after_miss.hit_count, 0);

    let second = insert(&mut cache, &mut fs, "hello", 2);
    assert_eq!(first, second);
    let stats_after_hit = cache.stats();
    assert_eq!(stats_after_hit.miss_count, 1);
    assert_eq!(stats_after_hit.hit_count, 1);
}

#[test]
fn capacity_is_never_exceeded_and_slots_stay_distinct() {
    let mut fs = FontSystem::new();
    let mut cache = LockFreeShapeCache::<4>::new();

    // Five distinct insertions into four slots.
    for (i, text) in ["a", "b", "c", "d", "e"].iter().enumerate() {
        insert(&mut cache, &mut fs, text, i as u64);
    }
    let stats = cache.stats();
    assert_eq!(stats.capacity, 4);
    assert_eq!(stats.entries_used, 4);
    assert_eq!(stats.miss_count, 5);

    // Every slot index resolves to at most one buffer, and an out-of-range
    // index resolves to nothing rather than panicking.
    for i in 0..4 {
        assert!(cache.get_buffer(i).is_some());
    }
    assert!(cache.get_buffer(4).is_none());
    assert!(cache.get_buffer(usize::MAX).is_none());
}

#[test]
fn round_robin_scenario_wraps_and_evicts_the_first_slot() {
    let mut fs = FontSystem::new();
    let mut cache = LockFreeShapeCache::<4>::new();

    // Four misses fill slots 0..4 in cursor order.
    assert_eq!(insert(&mut cache, &mut fs, "a", 1), 0);
    assert_eq!(insert(&mut cache, &mut fs, "b", 2), 1);
    assert_eq!(insert(&mut cache, &mut fs, "c", 3), 2);
    assert_eq!(insert(&mut cache, &mut fs, "d", 4), 3);

    // "a" again: a hit at its original index.
    assert_eq!(insert(&mut cache, &mut fs, "a", 5), 0);
    let stats = cache.stats();
    assert_eq!(stats.hit_count, 1);
    assert_eq!(stats.miss_count, 4);

    // "e": a miss; the cursor wraps to slot 0, evicting "a".
    assert_eq!(insert(&mut cache, &mut fs, "e", 6), 0);
    let stats = cache.stats();
    assert_eq!(stats.miss_count, 5);

    // "a" is gone, so asking for it again is a miss into the next slot.
    assert_eq!(insert(&mut cache, &mut fs, "a", 7), 1);
    let stats = cache.stats();
    assert_eq!(stats.hit_count, 1);
    assert_eq!(stats.miss_count, 6);
}

#[test]
fn lru_sweep_evicts_exactly_the_oldest_occupied_slots() {
    let mut fs = FontSystem::new();
    let mut cache = LockFreeShapeCache::<4>::new();

    // Distinct recency stamps: slot 1 is the oldest.
    insert(&mut cache, &mut fs, "a", 40);
    insert(&mut cache, &mut fs, "b", 10);
    insert(&mut cache, &mut fs, "c", 30);
    insert(&mut cache, &mut fs, "d", 20);

    // Utilization 100% > 50%: evict a quarter of four slots, i.e. exactly
    // the single oldest one.
    cache.evict_lru_if_needed(50, 100);
    let stats = cache.stats();
    assert_eq!(stats.entries_used, 3);
    assert!(cache.get_buffer(1).is_none());
    assert!(cache.get_buffer(0).is_some());
    assert!(cache.get_buffer(2).is_some());
    assert!(cache.get_buffer(3).is_some());
}

#[test]
fn lru_sweep_below_threshold_touches_nothing() {
    let mut fs = FontSystem::new();
    let mut cache = LockFreeShapeCache::<4>::new();

    insert(&mut cache, &mut fs, "a", 1);
    insert(&mut cache, &mut fs, "b", 2);

    // Utilization 50% is not above 50%: nothing is evicted.
    cache.evict_lru_if_needed(50, 100);
    let stats = cache.stats();
    assert_eq!(stats.entries_used, 2);
    assert!(cache.get_buffer(0).is_some());
    assert!(cache.get_buffer(1).is_some());
}

#[test]
fn utilization_reports_percent_of_capacity() {
    let mut fs = FontSystem::new();
    let mut cache = LockFreeShapeCache::<4>::new();
    assert_eq!(cache.utilization(), 0);
    insert(&mut cache, &mut fs, "a", 1);
    assert_eq!(cache.utilization(), 25);
    insert(&mut cache, &mut fs, "b", 2);
    assert_eq!(cache.utilization(), 50);
}

#[test]
fn lru_sweep_never_evicts_more_than_is_occupied() {
    let mut fs = FontSystem::new();
    let attrs = Attrs::new();
    let mut cache = LockFreeShapeCache::<8>::new();
    // One occupied slot; a zero threshold asks for a sweep of two slots
    // (a quarter of eight), but only the one occupied slot can go.
    cache
        .get_or_create(
            "solo",
            &mut fs,
            Metrics::new(14.0, 16.8),
            &attrs,
            ShapingMode::Advanced,
            1,
        )
        .unwrap();
    cache.evict_lru_if_needed(0, 2);
    let stats = cache.stats();
    assert_eq!(stats.entries_used, 0);
    for i in 0..8 {
        assert!(cache.get_buffer(i).is_none());
    }
}

#[test]
fn single_slot_cache_replaces_in_place() {
    let mut fs = FontSystem::new();
    let attrs = Attrs::new();
    let mut cache = LockFreeShapeCache::<1>::new();
    let first = cache
        .get_or_create("x", &mut fs, Metrics::new(14.0, 16.8), &attrs, ShapingMode::Basic, 1)
        .unwrap();
    let second = cache
        .get_or_create("y", &mut fs, Metrics::new(14.0, 16.8), &attrs, ShapingMode::Basic, 2)
        .unwrap();
    assert_eq!(first, 0);
    assert_eq!(second, 0);
    let stats = cache.stats();
    assert_eq!(stats.entries_used, 1);
    assert_eq!(stats.miss_count, 2);
    // "x" was evicted by "y": asking for it again misses.
    cache
        .get_or_create("x", &mut fs, Metrics::new(14.0, 16.8), &attrs, ShapingMode::Basic, 3)
        .unwrap();
    assert_eq!(cache.stats().miss_count, 3);
    assert_eq!(cache.stats().hit_count, 0);
}

#[test]
fn slot_matches_detects_stale_descriptors() {
    let mut fs = FontSystem::new();
    let mut cache = LockFreeShapeCache::<4>::new();

    // A descriptor recorded for "a" at slot 0 is valid while the slot still
    // holds "a"'s fingerprint.
    assert_eq!(insert(&mut cache, &mut fs, "a", 1), 0);
    assert!(cache.slot_matches(0, fnv1a_hash("a")));
    assert!(!cache.slot_matches(0, fnv1a_hash("b")));
    assert!(!cache.slot_matches(1, fnv1a_hash("a")));
    assert!(!cache.slot_matches(4, fnv1a_hash("a")));
    assert!(!cache.slot_matches(usize::MAX, fnv1a_hash("a")));

    // Once the round-robin cursor wraps and "e" replaces "a" in slot 0,
    // the old descriptor is stale and must be dropped.
    insert(&mut cache, &mut fs, "b", 2);
    insert(&mut cache, &mut fs, "c", 3);
    insert(&mut cache, &mut fs, "d", 4);
    assert_eq!(insert(&mut cache, &mut fs, "e", 5), 0);
    assert!(!cache.slot_matches(0, fnv1a_hash("a")));
    assert!(cache.slot_matches(0, fnv1a_hash("e")));
}

#[test]
fn whitespace_only_text_is_cached_without_error() {
    let mut fs = FontSystem::new();
    let mut cache = LockFreeShapeCache::<4>::new();
    let attrs = Attrs::new();
    let r = cache.get_or_create(
        "   ",
        &mut fs,
        Metrics::new(14.0, 16.8),
        &attrs,
        ShapingMode::Basic,
        1,
    );
    assert!(r.is_ok());
    let stats = cache.stats();
    assert_eq!(stats.entries_used, 1);
}
