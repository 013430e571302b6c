//! Row text building and the per-frame text pipeline.
//!
//! For each dirty row the renderer derives the row's text (trailing spaces
//! trimmed) and default color from its cells, asks the shape cache for a
//! shaped buffer (shaping only on a miss), and appends a draw descriptor to
//! the per-frame pool.  Rows whose text is empty are skipped, and a full
//! pool drops the overflowing rows for that frame only.

use vstd::prelude::*;
use vstd::string::StringSliceAdditionalSpecFns;

use crate::cache::LockFreeShapeCache;
use crate::cell::Cell;
use crate::color::{Color, ColorPalette};
use crate::error::TextAreaPoolError;
use crate::fingerprint::fnv1a;
use crate::pool::{wrap_inc_spec, SafeTextArea, TextBounds, ZeroAllocTextAreaPool};
use crate::shaper::{
    blank_text, is_shape_safe, metrics_ok, metrics_usable, shape_safe_text,
    shaping_fonts_available, ShapingMode,
};

verus! {

/// Relies on `String::push`: appends one character to the string.
#[verifier::external_body]
fn string_push(s: &mut String, c: char)
    ensures
        final(s)@ == old(s)@.push(c),
{
    s.push(c);
}

/// One past the last non-space cell of a row; zero when the row is all
/// spaces.
pub open spec fn last_non_space(cells: Seq<Cell>) -> int
    decreases cells.len(),
{
    if cells.len() == 0 {
        0
    } else if cells[cells.len() - 1].character != ' ' {
        cells.len() as int
    } else {
        last_non_space(cells.drop_last())
    }
}

/// The text derived from a row: its characters up to the last non-space.
pub open spec fn row_text(cells: Seq<Cell>) -> Seq<char> {
    Seq::new(last_non_space(cells) as nat, |i: int| cells[i].character)
}

/// `last_non_space` lies within the row, and everything at or after it is a
/// space.
pub proof fn lemma_last_non_space(cells: Seq<Cell>)
    ensures
        0 <= last_non_space(cells) <= cells.len(),
        forall|j: int| last_non_space(cells) <= j < cells.len() ==> cells[j].character == ' ',
    decreases cells.len(),
{
    if cells.len() > 0 && cells[cells.len() - 1].character == ' ' {
        lemma_last_non_space(cells.drop_last());
        assert(forall|j: int|
            0 <= j < cells.len() - 1 ==> cells.drop_last()[j] == cells[j]);
    }
}

/// The foreground palette index of the first visible (non-space) cell, or
/// the default index 7 when every cell is a space.
pub open spec fn first_visible_fg(cells: Seq<Cell>) -> u8
    decreases cells.len(),
{
    if cells.len() == 0 {
        7
    } else if cells[0].character != ' ' {
        cells[0].foreground
    } else {
        first_visible_fg(cells.drop_first())
    }
}

/// When the first non-space cell sits at `i`, it decides the row color.
pub proof fn lemma_first_visible_at(cells: Seq<Cell>, i: int)
    requires
        0 <= i < cells.len(),
        cells[i].character != ' ',
        forall|j: int| 0 <= j < i ==> cells[j].character == ' ',
    ensures
        first_visible_fg(cells) == cells[i].foreground,
    decreases i,
{
    if i > 0 {
        lemma_first_visible_at(cells.drop_first(), i - 1);
    }
}

/// When every cell is a space, the default index decides the row color.
pub proof fn lemma_first_visible_none(cells: Seq<Cell>)
    requires
        forall|j: int| 0 <= j < cells.len() ==> cells[j].character == ' ',
    ensures
        first_visible_fg(cells) == 7,
    decreases cells.len(),
{
    if cells.len() > 0 {
        lemma_first_visible_none(cells.drop_first());
    }
}

/// Zero-allocation text renderer: builds row text and drives the per-frame
/// shape-and-record pipeline.
pub struct ZeroAllocTextRenderer;

impl ZeroAllocTextRenderer {
    /// Index one past the last non-space cell, scanning from the end.
    fn find_last_non_space_simd_friendly(row_cells: &Vec<Cell>) -> (r: usize)
        ensures
            r as int == last_non_space(row_cells@),
    {
        let mut i: usize = row_cells.len();
        proof {
            assert(row_cells@.subrange(0, row_cells@.len() as int) =~= row_cells@);
        }
        while i > 0
            invariant
                i <= row_cells@.len(),
                last_non_space(row_cells@) == last_non_space(row_cells@.subrange(0, i as int)),
            decreases i,
        {
            if row_cells[i - 1].character != ' ' {
                proof {
                    assert(row_cells@.subrange(0, i as int)[i - 1] == row_cells@[i - 1]);
                }
                return i;
            }
            proof {
                let t = row_cells@.subrange(0, i as int);
                assert(t[t.len() - 1] == row_cells@[i - 1]);
                assert(t.drop_last() =~= row_cells@.subrange(0, i as int - 1));
            }
            i = i - 1;
        }
        proof {
            assert(row_cells@.subrange(0, 0) =~= Seq::<Cell>::empty());
        }
        0
    }

    /// Append the characters of the first `length` cells to `text`.
    fn build_text_chunked(text: &mut String, row_cells: &Vec<Cell>, length: usize)
        requires
            length <= old(text)@.len() + row_cells@.len(),
            (length as int) <= row_cells@.len(),
        ensures
            final(text)@ == old(text)@ + Seq::new(length as nat, |i: int| row_cells@[i].character),
    {
        let mut i: usize = 0;
        while i < length
            invariant
                i <= length,
                (length as int) <= row_cells@.len(),
                text@ == old(text)@ + Seq::new(i as nat, |k: int| row_cells@[k].character),
            decreases length - i,
        {
            let ghost before = text@;
            string_push(text, row_cells[i].character);
            proof {
                assert(text@ =~= old(text)@ + Seq::new(
                    (i + 1) as nat,
                    |k: int| row_cells@[k].character,
                ));
            }
            i = i + 1;
        }
    }

    /// The row's text: its characters up to the last non-space cell.
    pub fn build_row_text(row_cells: &Vec<Cell>) -> (r: String)
        ensures
            r@ == row_text(row_cells@),
    {
        let last = Self::find_last_non_space_simd_friendly(row_cells);
        let mut text = String::new();
        if last == 0 {
            proof {
                assert(text@ =~= row_text(row_cells@));
            }
            return text;
        }
        proof {
            lemma_last_non_space(row_cells@);
        }
        Self::build_text_chunked(&mut text, row_cells, last);
        proof {
            assert(text@ =~= row_text(row_cells@));
        }
        text
    }

    /// The row's text and its default color: the foreground of the first
    /// visible cell, or palette entry 7 when the row is blank.
    pub fn build_row_text_with_color(row_cells: &Vec<Cell>, color_palette: &ColorPalette) -> (r: (
        String,
        Color,
    ))
        requires
            color_palette.wf(),
        ensures
            r.0@ == row_text(row_cells@),
            r.1 == color_palette.color_at(first_visible_fg(row_cells@) as int),
    {
        let text = Self::build_row_text(row_cells);
        let color = Self::get_row_default_color(row_cells, color_palette);
        (text, color)
    }

    /// Whether a row would produce a text area: it holds at least one
    /// non-space cell.
    pub fn should_process_row(row_cells: &Vec<Cell>) -> (r: bool)
        ensures
            r == (last_non_space(row_cells@) > 0),
    {
        Self::find_last_non_space_simd_friendly(row_cells) > 0
    }

    /// The row's default color: the foreground of its first visible cell,
    /// or palette entry 7 when the row is blank.
    pub fn get_row_default_color(row_cells: &Vec<Cell>, color_palette: &ColorPalette) -> (r: Color)
        requires
            color_palette.wf(),
        ensures
            r == color_palette.color_at(first_visible_fg(row_cells@) as int),
    {
        let mut i: usize = 0;
        while i < row_cells.len()
            invariant
                color_palette.wf(),
                i <= row_cells@.len(),
                forall|j: int| 0 <= j < i ==> row_cells@[j].character == ' ',
            decreases row_cells@.len() - i,
        {
            if row_cells[i].character != ' ' {
                proof {
                    lemma_first_visible_at(row_cells@, i as int);
                }
                return color_palette.get_glyph_color(row_cells[i].foreground);
            }
            i = i + 1;
        }
        proof {
            lemma_first_visible_none(row_cells@);
        }
        color_palette.get_glyph_color(7)
    }
}

/// A row prepared for resolution: its cells and where on the surface it is
/// drawn.  The vertical position and scale are carried as opaque 32-bit
/// values.
pub struct DirtyRow {
    pub cells: Vec<Cell>,
    pub y_bits: u32,
    pub scale_bits: u32,
    pub bounds: TextBounds,
}

/// The text, color, and placement derived from one row.
pub struct RowData {
    pub text: String,
    pub bounds: TextBounds,
    pub y_bits: u32,
    pub default_color: Color,
}

impl RowData {
    /// Derive a row's text and color from its cells, with the placement the
    /// caller computed.
    pub fn from_cells(
        cells: &Vec<Cell>,
        y_bits: u32,
        bounds: TextBounds,
        color_palette: &ColorPalette,
    ) -> (r: RowData)
        requires
            color_palette.wf(),
        ensures
            r.text@ == row_text(cells@),
            r.bounds == bounds,
            r.y_bits == y_bits,
            r.default_color == color_palette.color_at(first_visible_fg(cells@) as int),
    {
        let (text, default_color) = ZeroAllocTextRenderer::build_row_text_with_color(
            cells,
            color_palette,
        );
        RowData { text, bounds, y_bits, default_color }
    }
}

/// Number of rows among the first `n` whose derived text is not empty.
pub open spec fn nonempty_rows(rows: Seq<DirtyRow>, n: int) -> int
    decreases n,
{
    if n <= 0 {
        0
    } else {
        nonempty_rows(rows, n - 1) + if row_text(rows[n - 1].cells@).len() > 0 {
            1int
        } else {
            0int
        }
    }
}

/// A pool descriptor matches a prepared row when it records the row's
/// fingerprint, placement, and color.
pub open spec fn descriptor_matches_row<const SIZE: usize>(
    a: SafeTextArea,
    row: DirtyRow,
    palette: &ColorPalette,
) -> bool {
    &&& a.fingerprint_spec() == fnv1a(vstd::utf8::encode_utf8(row_text(row.cells@)))
    &&& a.top_spec() == row.y_bits
    &&& a.scale_spec() == row.scale_bits
    &&& a.left_spec() == 0
    &&& a.bounds_spec() == row.bounds
    &&& a.color_spec() == palette.color_at(first_visible_fg(row.cells@) as int)
    &&& (a.cache_index_spec() as int) < SIZE as int
}

/// A pool slot holds a descriptor derived from one of the given rows.
pub open spec fn pool_entry_from_rows<const SIZE: usize>(
    a: Option<SafeTextArea>,
    rows: Seq<DirtyRow>,
    palette: &ColorPalette,
) -> bool {
    exists|r: int| 0 <= r < rows.len() && descriptor_matches_row::<SIZE>(a->0, rows[r], palette)
}

impl ZeroAllocTextRenderer {
    /// Resolve one row: derive its text and color, shape or reuse a cached
    /// buffer, and append a descriptor to the pool.  A row with empty text
    /// is skipped and changes nothing.  `CacheIndexNotFound` reports a
    /// failed shaping (or unusable metrics); `CapacityExceeded` reports a
    /// pool that was already full; in both cases the pool is unchanged.
    /// `CacheIndexNotFound` also reports a row whose text holds a
    /// paragraph-breaking character the shaper cannot accept.  When the
    /// row's shapeable text is already cached, usable metrics were given,
    /// and the pool has room, no outside call decides and a descriptor is
    /// owed.  The caller must bring a font system whose fallback search
    /// finds fonts; shaping never changes that.
    #[allow(clippy::too_many_arguments)]
    pub fn create_text_area_for_row<const SIZE: usize, const CAPACITY: usize>(
        cells: &Vec<Cell>,
        y_bits: u32,
        scale_bits: u32,
        bounds: TextBounds,
        shape_cache: &mut LockFreeShapeCache<SIZE>,
        text_area_pool: &mut ZeroAllocTextAreaPool<CAPACITY>,
        color_palette: &ColorPalette,
        font_system: &mut cosmic_text::FontSystem,
        metrics: cosmic_text::Metrics,
        attrs: &cosmic_text::Attrs,
        shaping: ShapingMode,
        frame_count: u64,
    ) -> (r: Result<(), TextAreaPoolError>)
        requires
            old(shape_cache).wf(),
            old(text_area_pool).wf(),
            color_palette.wf(),
            shaping_fonts_available(*old(font_system)),
        ensures
            final(shape_cache).wf(),
            final(text_area_pool).wf(),
            final(text_area_pool).frame() == old(text_area_pool).frame(),
            shaping_fonts_available(*final(font_system)) == shaping_fonts_available(
                *old(font_system),
            ),
            row_text(cells@).len() == 0 ==> r is Ok && *final(text_area_pool) == *old(text_area_pool) && *final(shape_cache) == *old(shape_cache),
            !metrics_ok(metrics) ==> *final(shape_cache) == *old(shape_cache),
            !shape_safe_text(row_text(cells@)) ==> *final(shape_cache) == *old(shape_cache),
            (row_text(cells@).len() > 0 && metrics_ok(metrics) && shape_safe_text(
                row_text(cells@),
            ) && old(shape_cache).hits() < u64::MAX && old(shape_cache).misses() < u64::MAX)
                ==> final(shape_cache).hits() + final(shape_cache).misses() == old(
                shape_cache,
            ).hits() + old(shape_cache).misses() + 1,
            r matches Err(e) ==> (e == TextAreaPoolError::CacheIndexNotFound || e
                == TextAreaPoolError::CapacityExceeded) && final(text_area_pool).active() == old(
                text_area_pool,
            ).active() && (forall|j: int|
                0 <= j < CAPACITY as int ==> final(text_area_pool).area_at(j) == old(
                    text_area_pool,
                ).area_at(j)),
            (row_text(cells@).len() > 0 && metrics_ok(metrics) && shape_safe_text(
                row_text(cells@),
            ) && old(shape_cache).contains_fp(fnv1a(vstd::utf8::encode_utf8(row_text(cells@))))
                && old(text_area_pool).active() < CAPACITY as int) ==> r is Ok,
            (r matches Err(e) && e == TextAreaPoolError::CapacityExceeded) ==> old(
                text_area_pool,
            ).active() >= CAPACITY as int,
            (r matches Err(e) && e == TextAreaPoolError::CacheIndexNotFound) ==> !metrics_ok(
                metrics,
            ) || !shape_safe_text(row_text(cells@)) || (!old(shape_cache).contains_fp(
                fnv1a(vstd::utf8::encode_utf8(row_text(cells@))),
            ) && !blank_text(row_text(cells@))),
            (row_text(cells@).len() > 0 && metrics_ok(metrics) && old(shape_cache).contains_fp(
                fnv1a(vstd::utf8::encode_utf8(row_text(cells@))))) ==> forall|j: int|
                0 <= j < SIZE as int ==> final(shape_cache).slot_occupied(j) == old(
                    shape_cache,
                ).slot_occupied(j) && final(shape_cache).slot_fingerprint(j) == old(
                    shape_cache,
                ).slot_fingerprint(j),
            r is Ok && row_text(cells@).len() > 0 ==> final(text_area_pool).active() == old(text_area_pool).active() + 1 && final(text_area_pool).area_at(old(text_area_pool).active()) is Some
                && ({
                let a = final(text_area_pool).area_at(old(text_area_pool).active())->0;
                &&& a.fingerprint_spec() == fnv1a(vstd::utf8::encode_utf8(row_text(cells@)))
                &&& a.top_spec() == y_bits
                &&& a.scale_spec() == scale_bits
                &&& a.left_spec() == 0
                &&& a.bounds_spec() == bounds
                &&& a.color_spec() == color_palette.color_at(first_visible_fg(cells@) as int)
                &&& (a.cache_index_spec() as int) < SIZE as int
            }) && (forall|j: int|
                0 <= j < CAPACITY as int && j != old(text_area_pool).active() ==> final(text_area_pool).area_at(j) == old(text_area_pool).area_at(j)),
    {
        let row_data = RowData::from_cells(cells, y_bits, bounds, color_palette);

        if row_data.text.as_str().is_empty() {
            return Ok(());
        }

        if !metrics_usable(&metrics) {
            return Err(TextAreaPoolError::CacheIndexNotFound);
        }

        if !is_shape_safe(row_data.text.as_str()) {
            return Err(TextAreaPoolError::CacheIndexNotFound);
        }

        let cache_index = match shape_cache.get_or_create(
            row_data.text.as_str(),
            font_system,
            metrics,
            attrs,
            shaping,
            frame_count,
        ) {
            Ok(index) => index,
            Err(_) => {
                return Err(TextAreaPoolError::CacheIndexNotFound);
            },
        };

        proof {
            let fp = fnv1a(vstd::utf8::encode_utf8(row_data.text@));
            if old(shape_cache).contains_fp(fp) {
                old(shape_cache).lemma_find_from_some(fp, 0);
                let hit = old(shape_cache).spec_find(fp)->0;
                assert forall|j: int| 0 <= j < SIZE as int implies shape_cache.slot_occupied(j)
                    == old(shape_cache).slot_occupied(j) && shape_cache.slot_fingerprint(j)
                    == old(shape_cache).slot_fingerprint(j) by {
                    if j != hit {
                        assert(shape_cache.slot_unchanged(old(shape_cache), j));
                    }
                }
            }
        }
        let text_hash = LockFreeShapeCache::<SIZE>::hash_text_fnv1a_optimized(
            row_data.text.as_str(),
        );
        text_area_pool.add_area(
            cache_index,
            text_hash,
            0,
            row_data.y_bits,
            scale_bits,
            row_data.bounds,
            row_data.default_color,
        )
    }

    /// Resolve every prepared row for this frame: reset the pool, then for
    /// each row with non-empty text shape or reuse a buffer and record a
    /// descriptor.  Rows that fail to shape or overflow the pool are
    /// dropped for this frame only.  Every descriptor left in the pool
    /// records the fingerprint, placement, and color of one of the given
    /// rows, and the cache counts exactly one hit or miss per non-empty
    /// shapeable row.  When every row's text is shapeable and already
    /// cached and the rows fit the pool, no outside call decides and one
    /// descriptor per row is owed.  The caller must bring a font system
    /// whose fallback search finds fonts; shaping never changes that.
    #[allow(clippy::too_many_arguments)]
    pub fn create_text_areas_for_dirty_rows<const SIZE: usize, const CAPACITY: usize>(
        dirty_rows: &Vec<DirtyRow>,
        shape_cache: &mut LockFreeShapeCache<SIZE>,
        text_area_pool: &mut ZeroAllocTextAreaPool<CAPACITY>,
        color_palette: &ColorPalette,
        font_system: &mut cosmic_text::FontSystem,
        metrics: cosmic_text::Metrics,
        attrs: &cosmic_text::Attrs,
        shaping: ShapingMode,
        frame_count: u64,
    )
        requires
            old(shape_cache).wf(),
            old(text_area_pool).wf(),
            color_palette.wf(),
            shaping_fonts_available(*old(font_system)),
        ensures
            final(shape_cache).wf(),
            final(text_area_pool).wf(),
            shaping_fonts_available(*final(font_system)) == shaping_fonts_available(
                *old(font_system),
            ),
            final(text_area_pool).frame() == wrap_inc_spec(old(text_area_pool).frame()),
            final(text_area_pool).active() <= dirty_rows@.len(),
            forall|k: int|
                0 <= k < final(text_area_pool).active() ==> pool_entry_from_rows::<SIZE>(
                    #[trigger] final(text_area_pool).area_at(k),
                    dirty_rows@,
                    color_palette,
                ),
            (metrics_ok(metrics) && old(shape_cache).hits() + old(shape_cache).misses()
                + dirty_rows@.len() < u64::MAX && (forall|r: int|
                0 <= r < dirty_rows@.len() ==> shape_safe_text(
                    row_text((#[trigger] dirty_rows@[r]).cells@),
                ))) ==> final(shape_cache).hits() + final(shape_cache).misses() == old(
                shape_cache,
            ).hits() + old(shape_cache).misses() + nonempty_rows(
                dirty_rows@,
                dirty_rows@.len() as int,
            ),
            (metrics_ok(metrics) && dirty_rows@.len() <= CAPACITY as int && (forall|r: int|
                0 <= r < dirty_rows@.len() ==> row_text((#[trigger] dirty_rows@[r]).cells@).len()
                    > 0 && shape_safe_text(row_text(dirty_rows@[r].cells@)) && old(
                    shape_cache,
                ).contains_fp(
                    fnv1a(vstd::utf8::encode_utf8(row_text(dirty_rows@[r].cells@))),
                ))) ==> final(text_area_pool).active() == dirty_rows@.len(),
    {
        text_area_pool.reset();

        let ghost h0 = old(shape_cache).hits() as int;
        let ghost m0 = old(shape_cache).misses() as int;
        let ghost bounded = metrics_ok(metrics) && h0 + m0 + dirty_rows@.len() < u64::MAX && (
        forall|r: int|
            0 <= r < dirty_rows@.len() ==> shape_safe_text(
                row_text((#[trigger] dirty_rows@[r]).cells@),
            ));
        let ghost all_hits = metrics_ok(metrics) && dirty_rows@.len() <= CAPACITY as int && (
        forall|r: int|
            0 <= r < dirty_rows@.len() ==> row_text((#[trigger] dirty_rows@[r]).cells@).len() > 0
                && shape_safe_text(row_text(dirty_rows@[r].cells@)) && old(
                shape_cache,
            ).contains_fp(fnv1a(vstd::utf8::encode_utf8(row_text(dirty_rows@[r].cells@)))));

        let mut i: usize = 0;
        while i < dirty_rows.len()
            invariant
                shape_cache.wf(),
                text_area_pool.wf(),
                color_palette.wf(),
                i <= dirty_rows@.len(),
                text_area_pool.frame() == wrap_inc_spec(old(text_area_pool).frame()),
                text_area_pool.active() <= i as int,
                h0 == old(shape_cache).hits() as int,
                m0 == old(shape_cache).misses() as int,
                bounded == (metrics_ok(metrics) && h0 + m0 + dirty_rows@.len() < u64::MAX && (
                forall|r: int|
                    0 <= r < dirty_rows@.len() ==> shape_safe_text(
                        row_text((#[trigger] dirty_rows@[r]).cells@),
                    ))),
                shaping_fonts_available(*font_system),
                shaping_fonts_available(*font_system) == shaping_fonts_available(
                    *old(font_system),
                ),
                bounded ==> shape_cache.hits() + shape_cache.misses() == h0 + m0 + nonempty_rows(
                    dirty_rows@,
                    i as int,
                ),
                all_hits == (metrics_ok(metrics) && dirty_rows@.len() <= CAPACITY as int && (
                forall|r: int|
                    0 <= r < dirty_rows@.len() ==> row_text((#[trigger] dirty_rows@[r]).cells@).len()
                        > 0 && shape_safe_text(row_text(dirty_rows@[r].cells@)) && old(
                        shape_cache,
                    ).contains_fp(
                        fnv1a(vstd::utf8::encode_utf8(row_text(dirty_rows@[r].cells@))),
                    ))),
                all_hits ==> text_area_pool.active() == i as int,
                all_hits ==> forall|j: int|
                    0 <= j < SIZE as int ==> shape_cache.slot_occupied(j) == old(
                        shape_cache,
                    ).slot_occupied(j) && shape_cache.slot_fingerprint(j) == old(
                        shape_cache,
                    ).slot_fingerprint(j),
                forall|k: int|
                    0 <= k < text_area_pool.active() ==> pool_entry_from_rows::<SIZE>(
                        #[trigger] text_area_pool.area_at(k),
                        dirty_rows@,
                        color_palette,
                    ),
            decreases dirty_rows@.len() - i,
        {
            proof {
                nonempty_rows_bounded(dirty_rows@, i as int);
            }
            let ghost pool_before = *text_area_pool;
            let ghost cache_before = *shape_cache;
            proof {
                if all_hits {
                    let fp = fnv1a(
                        vstd::utf8::encode_utf8(row_text(dirty_rows@[i as int].cells@)),
                    );
                    shape_cache.lemma_find_congruent(old(shape_cache), fp, 0);
                }
            }
            let row = &dirty_rows[i];
            let _ = Self::create_text_area_for_row(
                &row.cells,
                row.y_bits,
                row.scale_bits,
                row.bounds,
                shape_cache,
                text_area_pool,
                color_palette,
                font_system,
                metrics,
                attrs,
                shaping,
                frame_count,
            );
            proof {
                if all_hits {
                    assert forall|j: int|
                        0 <= j < SIZE as int implies shape_cache.slot_occupied(j) == old(
                        shape_cache,
                    ).slot_occupied(j) && shape_cache.slot_fingerprint(j) == old(
                        shape_cache,
                    ).slot_fingerprint(j) by {
                        assert(cache_before.slot_occupied(j) == old(shape_cache).slot_occupied(j)
                            && cache_before.slot_fingerprint(j) == old(
                            shape_cache,
                        ).slot_fingerprint(j));
                    }
                    assert(text_area_pool.active() == i as int + 1);
                }
                assert forall|k: int|
                    0 <= k < text_area_pool.active() implies pool_entry_from_rows::<SIZE>(
                        #[trigger] text_area_pool.area_at(k),
                        dirty_rows@,
                        color_palette,
                    ) by {
                    if k < pool_before.active() {
                        assert(text_area_pool.area_at(k) == pool_before.area_at(k));
                        assert(pool_entry_from_rows::<SIZE>(
                            pool_before.area_at(k),
                            dirty_rows@,
                            color_palette,
                        ));
                    } else {
                        assert(descriptor_matches_row::<SIZE>(
                            text_area_pool.area_at(k)->0,
                            dirty_rows@[i as int],
                            color_palette,
                        ));
                    }
                }
            }
            i = i + 1;
        }
    }
}

/// A read-only view of the pool's active descriptors for one frame.
/// Consumers resolve each descriptor's slot index against the cache
/// immediately before drawing.
pub struct SafeTextAreaCollection<'a, const CAPACITY: usize> {
    pool: &'a ZeroAllocTextAreaPool<CAPACITY>,
}

impl<'a, const CAPACITY: usize> SafeTextAreaCollection<'a, CAPACITY> {
    /// The wrapped pool.
    pub closed spec fn pool_spec(&self) -> &'a ZeroAllocTextAreaPool<CAPACITY> {
        self.pool
    }

    /// Wrap a pool.
    pub fn new(pool: &'a ZeroAllocTextAreaPool<CAPACITY>) -> (r: Self)
        ensures
            r.pool_spec() == pool,
    {
        SafeTextAreaCollection { pool }
    }

    /// The active descriptors, in insertion order.
    pub fn iter(&self) -> (r: Vec<SafeTextArea>)
        requires
            self.pool_spec().wf(),
        ensures
            r@.len() == self.pool_spec().active(),
            forall|i: int|
                0 <= i < self.pool_spec().active() ==> Some(r@[i]) == self.pool_spec().area_at(i),
    {
        self.pool.iter_active()
    }

    /// Number of active descriptors.
    pub fn len(&self) -> (r: usize)
        ensures
            r as int == self.pool_spec().active(),
    {
        self.pool.len()
    }

    /// Whether no descriptor is active.
    pub fn is_empty(&self) -> (r: bool)
        ensures
            r == (self.pool_spec().active() == 0),
    {
        self.pool.is_empty()
    }
}

/// Font oversampling configuration.  `Off` renders at normal resolution;
/// `Horizontal3x` oversamples horizontally for sub-pixel quality.
#[derive(Debug, Clone, Copy, PartialEq, Eq, Structural)]
pub enum OversamplingMode {
    Off,
    Horizontal3x,
}

impl OversamplingMode {
    /// Whether oversampling is enabled.
    pub fn is_enabled(self) -> (r: bool)
        ensures
            r == (self != OversamplingMode::Off),
    {
        !matches!(self, OversamplingMode::Off)
    }
}

impl Default for OversamplingMode {
    /// Standard rendering.
    fn default() -> (r: Self)
        ensures
            r == OversamplingMode::Off,
    {
        OversamplingMode::Off
    }
}

/// Saturating increment on `usize`, for the statistics counters.
pub open spec fn usize_sat_inc(x: usize) -> usize {
    if x == usize::MAX {
        x
    } else {
        (x + 1) as usize
    }
}

/// Saturating addition on `usize`, for the statistics counters.
pub open spec fn usize_sat_add(x: usize, y: usize) -> usize {
    if x + y > usize::MAX {
        usize::MAX
    } else {
        (x + y) as usize
    }
}

/// Per-frame rendering statistics.  The counters saturate at the top of
/// their range instead of wrapping.
#[derive(Debug, Clone, Copy, PartialEq, Eq, Structural)]
pub struct RenderStats {
    pub rows_processed: usize,
    pub text_areas_created: usize,
    pub empty_rows_skipped: usize,
    pub total_characters: usize,
    pub cache_hits: usize,
    pub cache_misses: usize,
}

impl RenderStats {
    /// All counters zero.
    pub fn new() -> (r: Self)
        ensures
            r == (RenderStats {
                rows_processed: 0,
                text_areas_created: 0,
                empty_rows_skipped: 0,
                total_characters: 0,
                cache_hits: 0,
                cache_misses: 0,
            }),
    {
        RenderStats {
            rows_processed: 0,
            text_areas_created: 0,
            empty_rows_skipped: 0,
            total_characters: 0,
            cache_hits: 0,
            cache_misses: 0,
        }
    }

    /// Record one processed row: an empty row only counts as skipped, a
    /// visible row counts a created text area and its characters.
    pub fn record_row(&mut self, was_empty: bool, char_count: usize)
        ensures
            final(self).rows_processed == usize_sat_inc(old(self).rows_processed),
            final(self).empty_rows_skipped == if was_empty {
                usize_sat_inc(old(self).empty_rows_skipped)
            } else {
                old(self).empty_rows_skipped
            },
            final(self).text_areas_created == if was_empty {
                old(self).text_areas_created
            } else {
                usize_sat_inc(old(self).text_areas_created)
            },
            final(self).total_characters == if was_empty {
                old(self).total_characters
            } else {
                usize_sat_add(old(self).total_characters, char_count)
            },
            final(self).cache_hits == old(self).cache_hits,
            final(self).cache_misses == old(self).cache_misses,
    {
        self.rows_processed = if self.rows_processed == usize::MAX {
            self.rows_processed
        } else {
            self.rows_processed + 1
        };
        if was_empty {
            self.empty_rows_skipped = if self.empty_rows_skipped == usize::MAX {
                self.empty_rows_skipped
            } else {
                self.empty_rows_skipped + 1
            };
        } else {
            self.text_areas_created = if self.text_areas_created == usize::MAX {
                self.text_areas_created
            } else {
                self.text_areas_created + 1
            };
            self.total_characters = if self.total_characters >= usize::MAX - char_count {
                usize::MAX
            } else {
                self.total_characters + char_count
            };
        }
    }

    /// Record a shape-cache hit.
    pub fn record_cache_hit(&mut self)
        ensures
            final(self).cache_hits == usize_sat_inc(old(self).cache_hits),
            final(self).cache_misses == old(self).cache_misses,
            final(self).rows_processed == old(self).rows_processed,
            final(self).text_areas_created == old(self).text_areas_created,
            final(self).empty_rows_skipped == old(self).empty_rows_skipped,
            final(self).total_characters == old(self).total_characters,
    {
        self.cache_hits = if self.cache_hits == usize::MAX {
            self.cache_hits
        } else {
            self.cache_hits + 1
        };
    }

    /// Record a shape-cache miss.
    pub fn record_cache_miss(&mut self)
        ensures
            final(self).cache_misses == usize_sat_inc(old(self).cache_misses),
            final(self).cache_hits == old(self).cache_hits,
            final(self).rows_processed == old(self).rows_processed,
            final(self).text_areas_created == old(self).text_areas_created,
            final(self).empty_rows_skipped == old(self).empty_rows_skipped,
            final(self).total_characters == old(self).total_characters,
    {
        self.cache_misses = if self.cache_misses == usize::MAX {
            self.cache_misses
        } else {
            self.cache_misses + 1
        };
    }

    /// Zero all counters.
    pub fn reset(&mut self)
        ensures
            *final(self) == (RenderStats {
                rows_processed: 0,
                text_areas_created: 0,
                empty_rows_skipped: 0,
                total_characters: 0,
                cache_hits: 0,
                cache_misses: 0,
            }),
    {
        *self = Self::new();
    }
}

impl Default for RenderStats {
    /// All counters zero.
    fn default() -> (r: Self)
        ensures
            r == (RenderStats {
                rows_processed: 0,
                text_areas_created: 0,
                empty_rows_skipped: 0,
                total_characters: 0,
                cache_hits: 0,
                cache_misses: 0,
            }),
    {
        Self::new()
    }
}

/// A prefix count of non-empty rows never exceeds the prefix length.
pub proof fn nonempty_rows_bounded(rows: Seq<DirtyRow>, n: int)
    requires
        n >= 0,
    ensures
        0 <= nonempty_rows(rows, n) <= n,
    decreases n,
{
    if n > 0 {
        nonempty_rows_bounded(rows, n - 1);
    }
}

} // verus!
