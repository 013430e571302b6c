//! Tests for row text building, the frame pipeline, the renderer facade,
//! and batch bookkeeping.

use cosmic_text::{Attrs, FontSystem, Metrics};
use glyphgrid::advanced_text::AdvancedTextRenderer;
use glyphgrid::cache::LockFreeShapeCache;
use glyphgrid::cell::Cell;
use glyphgrid::color::{Color, ColorPalette};
use glyphgrid::error::{TextAreaPoolError, TextRenderingError};
use glyphgrid::fingerprint::fnv1a_hash;
use glyphgrid::frame::BatchContext;
use glyphgrid::pool::{TextBounds, ZeroAllocTextAreaPool};
use glyphgrid::ligature::{code_font_attrs, font_attrs_for_family, LigatureHelper};
use glyphgrid::shaper::{is_shape_safe, ShapingMode};
use glyphgrid::text_rendering::{
    DirtyRow, OversamplingMode, RenderStats, SafeTextAreaCollection, ZeroAllocTextRenderer,
};

fn row(chars: &str, width: usize) -> Vec<Cell> {
    let mut cells = vec![Cell::default(); width];
    for (i, c) in chars.chars().enumerate() {
        cells[i] = Cell::new(c);
    }
    cells
}

fn bounds(top: i32) -> TextBounds {
    TextBounds { left: 0, top, right: 640, bottom: top + 20 }
}

#[test]
fn row_text_trims_trailing_spaces_only() {
    let cells = row("hi there", 12);
    assert_eq!(ZeroAllocTextRenderer::build_row_text(&cells), "hi there");
    let blank = row("", 12);
    assert_eq!(ZeroAllocTextRenderer::build_row_text(&blank), "");
    let mut inner = row("a", 6);
    inner[3] = Cell::new('b');
    assert_eq!(ZeroAllocTextRenderer::build_row_text(&inner), "a  b");
}

#[test]
fn row_color_comes_from_the_first_visible_cell() {
    let palette = ColorPalette::new();
    let mut cells = row("", 5);
    cells[2] = Cell::styled('x', 9, 0, 0);
    cells[3] = Cell::styled('y', 12, 0, 0);
    let (text, color) = ZeroAllocTextRenderer::build_row_text_with_color(&cells, &palette);
    assert_eq!(text, "  xy");
    assert_eq!(color, Color { r: 255, g: 0, b: 0, a: 255 });
    // A blank row falls back to palette entry 7.
    let blank = row("", 5);
    let c = ZeroAllocTextRenderer::get_row_default_color(&blank, &palette);
    assert_eq!(c, Color { r: 192, g: 192, b: 192, a: 255 });
}

#[test]
fn pipeline_fills_the_pool_from_dirty_rows() {
    let mut fs = FontSystem::new();
    let mut cache = LockFreeShapeCache::<8>::new();
    let mut pool = ZeroAllocTextAreaPool::<4>::new();
    let palette = ColorPalette::new();
    let attrs = Attrs::new();

    let rows = vec![
        DirtyRow { cells: row("first", 8), y_bits: 0, scale_bits: 0, bounds: bounds(0) },
        DirtyRow { cells: row("", 8), y_bits: 20, scale_bits: 0, bounds: bounds(20) },
        DirtyRow { cells: row("second", 8), y_bits: 40, scale_bits: 0, bounds: bounds(40) },
    ];

    ZeroAllocTextRenderer::create_text_areas_for_dirty_rows(
        &rows,
        &mut cache,
        &mut pool,
        &palette,
        &mut fs,
        Metrics::new(14.0, 16.8),
        &attrs,
        ShapingMode::Advanced,
        1,
    );

    // The empty row is skipped; the two visible rows got descriptors whose
    // fingerprints match their texts.
    let active = pool.iter_active();
    assert_eq!(active.len(), 2);
    assert_eq!(active[0].text_hash(), fnv1a_hash("first"));
    assert_eq!(active[0].top(), 0);
    assert_eq!(active[1].text_hash(), fnv1a_hash("second"));
    assert_eq!(active[1].top(), 40);
    let stats = cache.stats();
    assert_eq!(stats.miss_count, 2);
    assert_eq!(stats.hit_count, 0);

    // The descriptors resolve to buffers in the cache.
    for area in active {
        assert!(cache.get_buffer(area.buffer_cache_index()).is_some());
    }
}

#[test]
fn pipeline_reuses_cached_rows_on_the_next_frame() {
    let mut fs = FontSystem::new();
    let mut cache = LockFreeShapeCache::<8>::new();
    let mut pool = ZeroAllocTextAreaPool::<4>::new();
    let palette = ColorPalette::new();
    let attrs = Attrs::new();
    let rows = vec![DirtyRow {
        cells: row("steady", 8),
        y_bits: 0,
        scale_bits: 0,
        bounds: bounds(0),
    }];

    for frame in 0..3 {
        ZeroAllocTextRenderer::create_text_areas_for_dirty_rows(
            &rows,
            &mut cache,
            &mut pool,
            &palette,
            &mut fs,
            Metrics::new(14.0, 16.8),
            &attrs,
            ShapingMode::Advanced,
            frame,
        );
    }
    let stats = cache.stats();
    assert_eq!(stats.miss_count, 1);
    assert_eq!(stats.hit_count, 2);
    assert_eq!(pool.len(), 1);
}

#[test]
fn single_row_rejects_unusable_metrics() {
    let mut fs = FontSystem::new();
    let mut cache = LockFreeShapeCache::<8>::new();
    let mut pool = ZeroAllocTextAreaPool::<4>::new();
    let palette = ColorPalette::new();
    let attrs = Attrs::new();
    let cells = row("text", 8);

    // A zero line height cannot be shaped; the row reports a cache failure
    // and the pool stays empty.
    let r = ZeroAllocTextRenderer::create_text_area_for_row(
        &cells,
        0,
        0,
        bounds(0),
        &mut cache,
        &mut pool,
        &palette,
        &mut fs,
        Metrics::new(14.0, 0.0),
        &attrs,
        ShapingMode::Advanced,
        1,
    );
    assert_eq!(r, Err(TextAreaPoolError::CacheIndexNotFound));
    assert_eq!(pool.len(), 0);
}

#[test]
fn single_row_overflow_reports_capacity() {
    let mut fs = FontSystem::new();
    let mut cache = LockFreeShapeCache::<8>::new();
    let mut pool = ZeroAllocTextAreaPool::<1>::new();
    let palette = ColorPalette::new();
    let attrs = Attrs::new();

    let ok = ZeroAllocTextRenderer::create_text_area_for_row(
        &row("one", 4),
        0,
        0,
        bounds(0),
        &mut cache,
        &mut pool,
        &palette,
        &mut fs,
        Metrics::new(14.0, 16.8),
        &attrs,
        ShapingMode::Advanced,
        1,
    );
    assert_eq!(ok, Ok(()));
    let overflow = ZeroAllocTextRenderer::create_text_area_for_row(
        &row("two", 4),
        0,
        0,
        bounds(20),
        &mut cache,
        &mut pool,
        &palette,
        &mut fs,
        Metrics::new(14.0, 16.8),
        &attrs,
        ShapingMode::Advanced,
        1,
    );
    assert_eq!(overflow, Err(TextAreaPoolError::CapacityExceeded));
    assert_eq!(pool.len(), 1);
}

#[test]
fn renderer_facade_shapes_and_caches() {
    let fs = FontSystem::new();
    let mut renderer = AdvancedTextRenderer::new(fs);
    let metrics = Metrics::new(14.0, 16.8);

    let empty = renderer.shape_text_cached("", metrics, "FiraCode");
    assert!(matches!(empty, Err(TextRenderingError::BufferCreationFailed)));

    let first = renderer.shape_text_cached("hello", metrics, "FiraCode").unwrap();
    let second = renderer.shape_text_cached("hello", metrics, "FiraCode").unwrap();
    assert_eq!(first, second);
    let stats = renderer.cache_stats();
    assert_eq!(stats.miss_count, 1);
    assert_eq!(stats.hit_count, 1);
    assert!(renderer.get_buffer(first).is_some());
    assert!(renderer.get_buffer(2047).is_none() || first == 2047);
    assert_eq!(renderer.current_frame(), 2);
    assert!(renderer.cache_utilization() <= 100);

    let bad_metrics = renderer.shape_text_cached("hello", Metrics::new(14.0, 0.0), "FiraCode");
    assert!(matches!(bad_metrics, Err(TextRenderingError::BufferCreationFailed)));

    assert_eq!(renderer.get_optimal_shaping("FiraCode"), ShapingMode::Advanced);
    assert!(renderer.supports_ligatures("FiraCode"));
    renderer.set_font_ligature_override(String::from("FiraCode"), false);
    assert!(!renderer.supports_ligatures("FiraCode"));
    assert!(renderer.config().is_globally_enabled());
    renderer.cleanup_cache();
}

#[test]
fn validate_text_checks_length_and_control_characters() {
    let fs = FontSystem::new();
    let renderer = AdvancedTextRenderer::new(fs);
    assert!(renderer.validate_text("hello world"));
    assert!(renderer.validate_text("tabs\tand\nnewlines"));
    assert!(!renderer.validate_text(""));
    assert!(!renderer.validate_text("bell\u{7}"));
    assert!(!renderer.validate_text("del\u{7f}"));
    let long = "x".repeat(8193);
    assert!(!renderer.validate_text(&long));
    let just_fits = "x".repeat(8192);
    assert!(renderer.validate_text(&just_fits));
}

#[test]
fn batch_context_counts_frames_and_dirt() {
    let mut ctx = BatchContext::new();
    assert!(ctx.is_viewport_dirty());
    assert_eq!(ctx.current_frame(), 0);
    assert_eq!(ctx.begin_frame(), 0);
    assert_eq!(ctx.begin_frame(), 1);
    assert_eq!(ctx.current_frame(), 2);
    ctx.clear_dirty_flags();
    assert!(!ctx.is_viewport_dirty());
    assert_eq!(ctx.begin_frame(), 2);
    assert!(ctx.is_viewport_dirty());

    assert!(!ctx.should_trim_atlas(0));
    assert!(ctx.should_trim_atlas(3));
    assert!(!ctx.should_trim_atlas(2));

    let info = ctx.get_frame_timing_info();
    assert_eq!(info.frame_number, 3);
    assert!(!info.is_even_frame);
    assert!(!info.is_key_frame);
    assert_eq!(info.phase, 3);
}

#[test]
fn render_stats_count_rows_hits_and_misses() {
    let mut stats = RenderStats::new();
    stats.record_row(false, 10);
    stats.record_row(true, 0);
    stats.record_row(false, 5);
    stats.record_cache_hit();
    stats.record_cache_miss();
    stats.record_cache_miss();
    assert_eq!(stats.rows_processed, 3);
    assert_eq!(stats.text_areas_created, 2);
    assert_eq!(stats.empty_rows_skipped, 1);
    assert_eq!(stats.total_characters, 15);
    assert_eq!(stats.cache_hits, 1);
    assert_eq!(stats.cache_misses, 2);
    stats.reset();
    assert_eq!(stats, RenderStats::new());
}

#[test]
fn oversampling_mode_flags() {
    assert!(!OversamplingMode::Off.is_enabled());
    assert!(OversamplingMode::Horizontal3x.is_enabled());
    assert_eq!(OversamplingMode::default(), OversamplingMode::Off);
}

#[test]
fn paragraph_breaking_text_is_rejected_not_shaped() {
    // The shaper cannot accept these paragraph-breaking characters; the
    // library must reject them cleanly instead of handing them over.
    assert!(is_shape_safe("plain text"));
    assert!(is_shape_safe("line\nbreaks\rare fine"));
    assert!(!is_shape_safe("a\u{2029}\u{05D0}"));
    assert!(!is_shape_safe("\u{0085}"));
    assert!(!is_shape_safe("x\u{001C}y"));
    assert!(!is_shape_safe("x\u{001D}y"));
    assert!(!is_shape_safe("x\u{001E}y"));

    let fs = FontSystem::new();
    let mut renderer = AdvancedTextRenderer::new(fs);
    let metrics = Metrics::new(14.0, 16.8);
    let rejected = renderer.shape_text_cached("a\u{2029}\u{05D0}", metrics, "FiraCode");
    assert!(matches!(rejected, Err(TextRenderingError::BufferCreationFailed)));
    let stats = renderer.cache_stats();
    assert_eq!(stats.entries_used, 0);
    assert_eq!(stats.miss_count, 0);
}

#[test]
fn row_with_paragraph_break_is_dropped() {
    let mut fs = FontSystem::new();
    let mut cache = LockFreeShapeCache::<8>::new();
    let mut pool = ZeroAllocTextAreaPool::<4>::new();
    let palette = ColorPalette::new();
    let attrs = Attrs::new();
    let mut cells = row("ab", 4);
    cells[1] = Cell::new('\u{2029}');

    let r = ZeroAllocTextRenderer::create_text_area_for_row(
        &cells,
        0,
        0,
        bounds(0),
        &mut cache,
        &mut pool,
        &palette,
        &mut fs,
        Metrics::new(14.0, 16.8),
        &attrs,
        ShapingMode::Advanced,
        1,
    );
    assert_eq!(r, Err(TextAreaPoolError::CacheIndexNotFound));
    assert_eq!(pool.len(), 0);
    assert_eq!(cache.stats().entries_used, 0);
}

#[test]
fn should_process_row_spots_visible_rows() {
    assert!(ZeroAllocTextRenderer::should_process_row(&row("x", 4)));
    assert!(!ZeroAllocTextRenderer::should_process_row(&row("", 4)));
    assert!(!ZeroAllocTextRenderer::should_process_row(&Vec::new()));
    let mut sparse = row("", 6);
    sparse[5] = Cell::new('z');
    assert!(ZeroAllocTextRenderer::should_process_row(&sparse));
}

#[test]
fn collection_views_the_pool() {
    let mut pool = ZeroAllocTextAreaPool::<4>::new();
    pool.add_area(2, 7, 0, 0, 0, bounds(0), Color { r: 1, g: 2, b: 3, a: 255 }).unwrap();
    let collection = SafeTextAreaCollection::new(&pool);
    assert!(!collection.is_empty());
    assert_eq!(collection.len(), 1);
    let areas = collection.iter();
    assert_eq!(areas[0].buffer_cache_index(), 2);
    assert_eq!(areas[0].text_hash(), 7);
}

#[test]
fn helper_builds_shaped_buffers() {
    let mut fs = FontSystem::new();
    let helper = LigatureHelper::with_programming_defaults();
    let attrs = code_font_attrs();
    assert_eq!(attrs.family, cosmic_text::Family::Monospace);
    assert_eq!(attrs.weight, cosmic_text::Weight::NORMAL);
    let serif = font_attrs_for_family(cosmic_text::Family::Serif);
    assert_eq!(serif.family, cosmic_text::Family::Serif);

    let buffer = helper.create_buffer(
        "ligatures -> work",
        &mut fs,
        Metrics::new(14.0, 16.8),
        &attrs,
        "FiraCode",
    );
    assert!(buffer.layout_runs().next().is_some());
}

#[test]
fn error_messages_are_nonempty() {
    assert!(!TextRenderingError::ShapingFailed.message().is_empty());
    assert!(!TextRenderingError::FontSystemCreationFailed.message().is_empty());
    assert!(!TextRenderingError::GlyphExtractionFailed.message().is_empty());
    assert!(!TextRenderingError::InvalidCacheIndex.message().is_empty());
    assert!(!TextRenderingError::CacheError(String::from("x")).message().is_empty());
    assert!(!TextAreaPoolError::CapacityExceeded.message().is_empty());
    assert!(!TextAreaPoolError::CacheIndexNotFound.message().is_empty());
}
