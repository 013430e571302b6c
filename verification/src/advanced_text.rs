//! High-level text renderer: a font system, a ligature helper, and a shape
//! cache behind one facade.  Callers hand in text and metrics; the renderer
//! decides the shaping mode, maintains the cache, and hands back slot
//! indices into it.

use vstd::prelude::*;
use vstd::string::StringSliceAdditionalSpecFns;

use crate::cache::{CacheStats, LockFreeShapeCache};
use crate::error::TextRenderingError;
use crate::fingerprint::fnv1a;
use crate::ligature::LigatureHelper;
use crate::ligature_config::LigatureConfig;
use crate::pool::wrap_inc_spec;
use crate::shaper::{
    blank_text, is_shape_safe, metrics_ok, metrics_usable, shape_safe_text,
    shaping_fonts_available, ShapingMode,
};

verus! {

/// A character in the Unicode control category: the C0 range below space,
/// delete, and the C1 range.
pub open spec fn is_control_char(c: char) -> bool {
    (c as u32) < 32 || (127 <= c as u32 && c as u32 <= 159)
}

/// Text the renderer accepts: non-empty, at most 8192 bytes, and free of
/// control characters other than newline and tab.
pub open spec fn valid_text_spec(s: &str) -> bool {
    &&& s@.len() > 0
    &&& s.spec_bytes().len() as usize <= 8192
    &&& forall|i: int|
        0 <= i < s@.len() ==> !is_control_char(#[trigger] s@[i]) || s@[i] == '\n' || s@[i] == '\t'
}

/// Text renderer with ligature support and a shape cache of 2048 slots.
pub struct AdvancedTextRenderer {
    font_system: cosmic_text::FontSystem,
    ligature_helper: LigatureHelper,
    shape_cache: LockFreeShapeCache<2048>,
    frame_counter: u64,
}

impl AdvancedTextRenderer {
    /// The renderer's shape cache.
    pub closed spec fn cache_spec(&self) -> LockFreeShapeCache<2048> {
        self.shape_cache
    }

    /// The renderer's ligature configuration.
    pub closed spec fn config_spec(&self) -> LigatureConfig {
        self.ligature_helper.config_spec()
    }

    /// The renderer's frame counter.
    pub closed spec fn frame_spec(&self) -> u64 {
        self.frame_counter
    }

    /// The renderer's font system.
    pub closed spec fn font_system_spec(&self) -> cosmic_text::FontSystem {
        self.font_system
    }

    /// Well-formedness: the cache and the ligature configuration are.
    pub open spec fn wf(&self) -> bool {
        &&& self.cache_spec().wf()
        &&& self.config_spec().wf()
    }

    /// Build a renderer around an already-initialized font system, with the
    /// programming-font ligature defaults and an empty cache.
    pub fn new(font_system: cosmic_text::FontSystem) -> (r: Self)
        ensures
            r.wf(),
            r.frame_spec() == 0,
            r.font_system_spec() == font_system,
            forall|i: int| 0 <= i < 2048 ==> !r.cache_spec().slot_occupied(i),
            r.cache_spec().hits() == 0,
            r.cache_spec().misses() == 0,
    {
        AdvancedTextRenderer {
            font_system,
            ligature_helper: LigatureHelper::with_programming_defaults(),
            shape_cache: LockFreeShapeCache::new(),
            frame_counter: 0,
        }
    }

    /// Shape `text` through the cache: advance the frame counter, run the
    /// periodic LRU sweep, and look the text up by fingerprint, shaping only
    /// on a miss.  Empty text, unusable metrics, and text holding a
    /// paragraph-breaking character the shaper cannot accept are rejected
    /// with `BufferCreationFailed`; for good input the only error is
    /// `ShapingFailed`, and on a non-sweep frame a cached text is owed a
    /// hit.  A successful call hands back the cache slot now holding the
    /// text's fingerprint, and every call on good input counts exactly one
    /// hit or miss.  The caller must bring a font system whose fallback
    /// search finds fonts; shaping never changes that.
    pub fn shape_text_cached(
        &mut self,
        text: &str,
        metrics: cosmic_text::Metrics,
        font_name: &str,
    ) -> (r: Result<usize, TextRenderingError>)
        requires
            old(self).wf(),
            shaping_fonts_available(old(self).font_system_spec()),
        ensures
            final(self).wf(),
            shaping_fonts_available(final(self).font_system_spec()) == shaping_fonts_available(
                old(self).font_system_spec(),
            ),
            text@.len() == 0 ==> (r matches Err(e) && e is BufferCreationFailed) && *final(self)
                == *old(self),
            text@.len() > 0 ==> final(self).frame_spec() == wrap_inc_spec(old(self).frame_spec()),
            r matches Ok(i) ==> (i as int) < 2048 && final(self).cache_spec().slot_occupied(
                i as int,
            ) && final(self).cache_spec().slot_fingerprint(i as int) == fnv1a(text.spec_bytes())
                && final(self).cache_spec().slot_last_used(i as int) == final(self).frame_spec(),
            (text@.len() > 0 && !metrics_ok(metrics)) ==> (r matches Err(e)
                && e is BufferCreationFailed),
            (text@.len() > 0 && metrics_ok(metrics) && !shape_safe_text(text@)) ==> (r matches Err(
                e,
            ) && e is BufferCreationFailed),
            (text@.len() > 0 && metrics_ok(metrics) && shape_safe_text(text@) && blank_text(
                text@,
            )) ==> r is Ok,
            (text@.len() > 0 && metrics_ok(metrics) && shape_safe_text(text@) && old(
                self,
            ).cache_spec().contains_fp(fnv1a(text.spec_bytes())) && (wrap_inc_spec(
                old(self).frame_spec(),
            ) % 60 != 0 || old(self).cache_spec().occupied_count() * 100 <= 80 * 2048))
                ==> r is Ok,
            (text@.len() > 0 && metrics_ok(metrics) && shape_safe_text(text@)) ==> (r matches Err(
                e,
            ) ==> e is ShapingFailed),
            (text@.len() > 0 && metrics_ok(metrics) && shape_safe_text(text@) && old(
                self,
            ).cache_spec().hits() < u64::MAX && old(self).cache_spec().misses() < u64::MAX)
                ==> final(self).cache_spec().hits() + final(self).cache_spec().misses() == old(
                self,
            ).cache_spec().hits() + old(self).cache_spec().misses() + 1,
    {
        if text.is_empty() {
            return Err(TextRenderingError::BufferCreationFailed);
        }

        let frame = self.frame_counter;
        self.frame_counter = if frame == u64::MAX {
            0
        } else {
            frame + 1
        };

        if !metrics_usable(&metrics) {
            return Err(TextRenderingError::BufferCreationFailed);
        }

        if !is_shape_safe(text) {
            return Err(TextRenderingError::BufferCreationFailed);
        }

        let shaping = self.ligature_helper.shaping_for_font(font_name);

        if self.frame_counter % 60 == 0 {
            self.shape_cache.evict_lru_if_needed(80, self.frame_counter);
        }

        let ghost pre = self.shape_cache;
        let frame_now = self.frame_counter;
        let attrs = crate::shaper::monospace_attrs();
        let r = self.shape_cache.get_or_create(
            text,
            &mut self.font_system,
            metrics,
            &attrs,
            shaping,
            frame_now,
        );
        proof {
            let fp = fnv1a(text.spec_bytes());
            if pre.contains_fp(fp) {
                pre.lemma_find_from_some(fp, 0);
            }
            if old(self).cache_spec().occupied_count() * 100 <= 80 * 2048 {
                assert forall|j: int|
                    0 <= j < 2048 implies pre.slot_occupied(j) == old(
                    self,
                ).cache_spec().slot_occupied(j) && pre.slot_fingerprint(j) == old(
                    self,
                ).cache_spec().slot_fingerprint(j) by {
                    if wrap_inc_spec(old(self).frame_spec()) % 60 == 0 {
                        assert(pre.slot_unchanged(&old(self).cache_spec(), j));
                    } else {
                        assert(pre == old(self).cache_spec());
                    }
                }
                pre.lemma_find_congruent(&old(self).cache_spec(), fp, 0);
            }
        }
        match r {
            Ok(index) => Ok(index),
            Err(e) => Err(e),
        }
    }

    /// Borrow the shaped buffer stored at `cache_index`, if that slot is
    /// occupied.
    pub fn get_buffer(&self, cache_index: usize) -> (r: Option<&cosmic_text::Buffer>)
        requires
            self.wf(),
        ensures
            r is Some <==> (cache_index as int) < 2048 && self.cache_spec().slot_occupied(
                cache_index as int,
            ),
            r matches Some(b) ==> self.cache_spec().slot_buffer(cache_index as int) == Some(*b),
    {
        self.shape_cache.get_buffer(cache_index)
    }

    /// The shaping mode the ligature configuration picks for a font.
    pub fn get_optimal_shaping(&self, font_name: &str) -> (r: ShapingMode)
        ensures
            r == if self.config_spec().enabled_for(font_name@) {
                ShapingMode::Advanced
            } else {
                ShapingMode::Basic
            },
    {
        self.ligature_helper.shaping_for_font(font_name)
    }

    /// Whether ligatures are enabled for a font.
    pub fn supports_ligatures(&self, font_name: &str) -> (r: bool)
        ensures
            r == self.config_spec().enabled_for(font_name@),
    {
        self.ligature_helper.should_enable_ligatures(font_name)
    }

    /// Store a font-specific ligature override.
    pub fn set_font_ligature_override(&mut self, font_name: String, enabled: bool)
        requires
            old(self).wf(),
        ensures
            final(self).wf(),
            final(self).config_spec().override_for(font_name@) == Some(enabled),
            final(self).cache_spec() == old(self).cache_spec(),
            final(self).frame_spec() == old(self).frame_spec(),
    {
        self.ligature_helper.set_font_override(font_name, enabled);
    }

    /// Snapshot of the cache's statistics.
    pub fn cache_stats(&self) -> (r: CacheStats)
        requires
            self.wf(),
        ensures
            r.capacity == 2048,
            r.entries_used as int == self.cache_spec().occupied_count(),
            r.hit_count == self.cache_spec().hits(),
            r.miss_count == self.cache_spec().misses(),
    {
        self.shape_cache.stats()
    }

    /// Cache occupancy as a percentage of capacity.
    pub fn cache_utilization(&self) -> (r: u64)
        requires
            self.wf(),
        ensures
            r as int == self.cache_spec().occupied_count() * 100 / 2048,
    {
        self.shape_cache.utilization()
    }

    /// Whether `text` can be rendered: non-empty, within the length limit,
    /// and free of control characters other than newline and tab.
    pub fn validate_text(&self, text: &str) -> (r: bool)
        ensures
            r == valid_text_spec(text),
    {
        if text.is_empty() {
            return false;
        }
        if text.len() > 8192 {
            return false;
        }
        let n = text.unicode_len();
        let mut i: usize = 0;
        while i < n
            invariant
                n == text@.len(),
                text@.len() > 0,
                text.spec_bytes().len() as usize <= 8192,
                i <= n,
                forall|j: int|
                    0 <= j < i ==> !is_control_char(#[trigger] text@[j]) || text@[j] == '\n'
                        || text@[j] == '\t',
            decreases n - i,
        {
            let c = text.get_char(i);
            let code = c as u32;
            if (code < 32 || (127 <= code && code <= 159)) && c != '\n' && c != '\t' {
                return false;
            }
            i = i + 1;
        }
        true
    }

    /// The current frame counter.
    pub fn current_frame(&self) -> (r: u64)
        ensures
            r == self.frame_spec(),
    {
        self.frame_counter
    }

    /// Borrow the ligature configuration.
    pub fn config(&self) -> (r: &LigatureConfig)
        ensures
            *r == self.config_spec(),
    {
        self.ligature_helper.config()
    }

    /// Sweep the cache down when it is more than half full: evict a quarter
    /// of the slots, oldest first; below the threshold nothing changes.
    pub fn cleanup_cache(&mut self)
        requires
            old(self).wf(),
        ensures
            final(self).wf(),
            final(self).frame_spec() == old(self).frame_spec(),
            final(self).config_spec() == old(self).config_spec(),
            if old(self).cache_spec().occupied_count() * 100 > 50 * 2048 {
                final(self).cache_spec().evicted_oldest_from(&old(self).cache_spec(), 512)
            } else {
                &&& final(self).cache_spec().cursor() == old(self).cache_spec().cursor()
                &&& final(self).cache_spec().hits() == old(self).cache_spec().hits()
                &&& final(self).cache_spec().misses() == old(self).cache_spec().misses()
                &&& forall|j: int|
                    0 <= j < 2048 ==> final(self).cache_spec().slot_unchanged(
                        &old(self).cache_spec(),
                        j,
                    )
            },
    {
        self.shape_cache.evict_lru_if_needed(50, self.frame_counter);
    }
}

} // verus!
