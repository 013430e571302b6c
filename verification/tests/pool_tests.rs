//! Tests for the per-frame text area pool.

use glyphgrid::color::Color;
use glyphgrid::error::TextAreaPoolError;
use glyphgrid::pool::{SafeTextArea, TextBounds, ZeroAllocTextAreaPool};

fn bounds(top: i32) -> TextBounds {
    TextBounds { left: 0, top, right: 800, bottom: top + 20 }
}

fn white() -> Color {
    Color { r: 255, g: 255, b: 255, a: 255 }
}

fn add_row(pool: &mut ZeroAllocTextAreaPool<2>, slot: usize, hash: u64) -> Result<(), TextAreaPoolError> {
    pool.add_area(slot, hash, 0, 0, 0, bounds(0), white())
}

#[test]
fn pool_capacity_is_enforced_and_active_list_is_exact() {
    let mut pool = ZeroAllocTextAreaPool::<2>::new();
    assert!(add_row(&mut pool, 0, 11).is_ok());
    assert!(add_row(&mut pool, 1, 22).is_ok());
    let overflow = add_row(&mut pool, 2, 33);
    assert_eq!(overflow, Err(TextAreaPoolError::CapacityExceeded));

    let active = pool.iter_active();
    assert_eq!(active.len(), 2);
    assert_eq!(active[0].buffer_cache_index(), 0);
    assert_eq!(active[0].text_hash(), 11);
    assert_eq!(active[1].buffer_cache_index(), 1);
    assert_eq!(active[1].text_hash(), 22);
    assert_eq!(pool.len(), 2);
    assert!(!pool.is_empty());
    assert_eq!(pool.utilization(), 100);
}

#[test]
fn reset_with_no_adds_keeps_the_pool_empty() {
    let mut pool = ZeroAllocTextAreaPool::<2>::new();
    assert_eq!(pool.len(), 0);
    pool.reset();
    assert_eq!(pool.len(), 0);
    assert!(pool.is_empty());
    assert_eq!(pool.utilization(), 0);
    pool.reset();
    pool.reset();
    assert_eq!(pool.len(), 0);
}

#[test]
fn reset_empties_a_full_pool_for_the_next_frame() {
    let mut pool = ZeroAllocTextAreaPool::<2>::new();
    add_row(&mut pool, 0, 1).unwrap();
    add_row(&mut pool, 1, 2).unwrap();
    assert_eq!(pool.len(), 2);
    pool.reset();
    assert_eq!(pool.len(), 0);
    // The next frame can fill the pool again.
    add_row(&mut pool, 5, 50).unwrap();
    let active = pool.iter_active();
    assert_eq!(active.len(), 1);
    assert_eq!(active[0].buffer_cache_index(), 5);
}

#[test]
fn descriptors_record_their_creation_frame() {
    let mut pool = ZeroAllocTextAreaPool::<4>::new();
    pool.reset();
    pool.reset();
    // Two resets: the frame counter is now 2.
    pool.add_area(3, 99, 7, 8, 9, bounds(40), white()).unwrap();
    let active = pool.iter_active();
    assert_eq!(active.len(), 1);
    let area = active[0];
    assert_eq!(area.left(), 7);
    assert_eq!(area.top(), 8);
    assert_eq!(area.scale(), 9);
    assert_eq!(*area.bounds(), bounds(40));
    assert_eq!(*area.default_color(), white());
    assert_eq!(area.age_frames(2), 0);
    assert_eq!(area.age_frames(10), 8);
}

#[test]
fn staleness_follows_the_age_threshold() {
    let mut area = SafeTextArea::new(0, 1, 0, 0, 0, bounds(0), white(), 100);
    assert!(!area.is_stale(100, 180));
    assert!(!area.is_stale(280, 180));
    assert!(area.is_stale(281, 180));
    // Touching refreshes the descriptor.
    area.touch(281);
    assert!(!area.is_stale(281, 180));
    assert_eq!(area.age_frames(281), 0);
    // A clock that moved backwards never counts as stale.
    assert!(!area.is_stale(0, 180));
}

#[test]
fn pool_stats_report_ages_and_occupancy() {
    let mut pool = ZeroAllocTextAreaPool::<4>::new();
    pool.reset();
    pool.reset();
    pool.reset();
    // Frame counter is 3.
    pool.add_area(0, 1, 0, 0, 0, bounds(0), white()).unwrap();
    pool.add_area(1, 2, 0, 0, 0, bounds(20), white()).unwrap();
    let stats = pool.stats();
    assert_eq!(stats.capacity, 4);
    assert_eq!(stats.active_count, 2);
    assert_eq!(stats.current_frame, 3);
    assert_eq!(stats.oldest_age_frames, 0);
    assert_eq!(stats.average_age_frames, 0);
}
