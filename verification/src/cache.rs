//! Fixed-capacity shape cache with round-robin replacement and an LRU sweep.
//!
//! The cache owns a fixed array of slots, each holding at most one shaped
//! buffer keyed by the fingerprint of the text it was shaped from.  Lookups
//! scan the slots linearly; on a miss a round-robin cursor picks the slot to
//! overwrite.  A periodic sweep evicts the least recently used slots when
//! occupancy crosses a threshold.  The capacity is fixed at construction and
//! the slot storage is allocated once, never grown.

use vstd::prelude::*;
use vstd::string::StringSliceAdditionalSpecFns;

use crate::error::TextRenderingError;
use crate::fingerprint::{fnv1a, fnv1a_hash};
use crate::shaper::{
    blank_text, buffer_has_layout_runs, buffer_new, buffer_set_text, buffer_shape, is_blank,
    metrics_ok, shape_safe_text, shaping_fonts_available, ShapingMode,
};

verus! {

/// Shape cache capacity used by the renderer.
pub const SHAPE_CACHE_SIZE: usize = 2048;

/// Saturating increment, used for the monotonic counters.
pub open spec fn sat_inc_spec(x: u64) -> u64 {
    if x == u64::MAX {
        x
    } else {
        (x + 1) as u64
    }
}

fn sat_inc(x: u64) -> (r: u64)
    ensures
        r == sat_inc_spec(x),
{
    if x == u64::MAX {
        x
    } else {
        x + 1
    }
}

/// The sweep's eviction order: slot `a`, last used at `lu_a`, goes before
/// slot `b`, last used at `lu_b`, when it is older, with ties broken by slot
/// index.
pub open spec fn lex_older(lu_a: u64, a: int, lu_b: u64, b: int) -> bool {
    lu_a < lu_b || (lu_a == lu_b && a < b)
}

/// One cache slot: a fingerprint, the shaped buffer (`None` marks an empty
/// slot), and recency metadata for the LRU sweep.  A slot's fingerprint is
/// meaningful only while its buffer is present.
pub struct ShapeCacheEntry {
    text_hash: u64,
    buffer: Option<cosmic_text::Buffer>,
    last_used: u64,
    hit_count: u64,
}

impl ShapeCacheEntry {
    /// Whether the slot holds a buffer.
    pub closed spec fn occupied(&self) -> bool {
        self.buffer is Some
    }

    /// The slot's fingerprint field.
    pub closed spec fn fingerprint(&self) -> u64 {
        self.text_hash
    }

    /// The frame at which the slot was last written or hit.
    pub closed spec fn last_used_spec(&self) -> u64 {
        self.last_used
    }

    /// How often the slot has been written or hit.
    pub closed spec fn hit_count_spec(&self) -> u64 {
        self.hit_count
    }

    /// The slot's buffer, if any.
    pub closed spec fn buffer_spec(&self) -> Option<cosmic_text::Buffer> {
        self.buffer
    }

    /// Whether the slot is cleared: no buffer, all fields zero.
    pub open spec fn is_cleared(&self) -> bool {
        &&& !self.occupied()
        &&& self.fingerprint() == 0
        &&& self.last_used_spec() == 0
        &&& self.hit_count_spec() == 0
    }
}

impl Default for ShapeCacheEntry {
    /// An empty slot.
    fn default() -> (r: Self)
        ensures
            r.is_cleared(),
    {
        ShapeCacheEntry { text_hash: 0, buffer: None, last_used: 0, hit_count: 0 }
    }
}

/// Read-only cache statistics.  The hit rate follows from the two counters;
/// it is not stored.
#[derive(Clone, Copy, Debug, PartialEq, Eq, Structural)]
pub struct CacheStats {
    pub capacity: usize,
    pub entries_used: usize,
    pub hit_count: u64,
    pub miss_count: u64,
}

/// Fixed-capacity shape cache.  `SIZE` slots are allocated at construction;
/// nothing ever grows.  The counters are bookkeeping for statistics and for
/// the eviction heuristic, not correctness-critical state.
pub struct LockFreeShapeCache<const SIZE: usize> {
    entries: Vec<ShapeCacheEntry>,
    next_index: usize,
    hit_count: u64,
    miss_count: u64,
}

impl<const SIZE: usize> LockFreeShapeCache<SIZE> {
    /// Number of slots actually allocated.
    pub closed spec fn num_slots(&self) -> int {
        self.entries@.len() as int
    }

    /// Whether slot `i` holds a buffer.
    pub closed spec fn slot_occupied(&self, i: int) -> bool {
        self.entries@[i].occupied()
    }

    /// The fingerprint stored in slot `i`.
    pub closed spec fn slot_fingerprint(&self, i: int) -> u64 {
        self.entries@[i].fingerprint()
    }

    /// The frame at which slot `i` was last written or hit.
    pub closed spec fn slot_last_used(&self, i: int) -> u64 {
        self.entries@[i].last_used_spec()
    }

    /// How often slot `i` has been written or hit.
    pub closed spec fn slot_hits(&self, i: int) -> u64 {
        self.entries@[i].hit_count_spec()
    }

    /// The buffer stored in slot `i`, if any.
    pub closed spec fn slot_buffer(&self, i: int) -> Option<cosmic_text::Buffer> {
        self.entries@[i].buffer_spec()
    }

    /// The round-robin replacement cursor.
    pub closed spec fn cursor(&self) -> int {
        self.next_index as int
    }

    /// Where the cursor stands after one advance: it wraps from the last
    /// slot back to slot zero.
    pub open spec fn next_cursor(c: int) -> int {
        if c + 1 >= SIZE as int {
            0
        } else {
            c + 1
        }
    }

    /// The global hit counter.
    pub closed spec fn hits(&self) -> u64 {
        self.hit_count
    }

    /// The global miss counter.
    pub closed spec fn misses(&self) -> u64 {
        self.miss_count
    }

    /// Well-formedness: all `SIZE` slots exist, the cursor is in range, and
    /// no fingerprint is readable through two occupied slots at once.
    pub open spec fn wf(&self) -> bool {
        &&& self.num_slots() == SIZE as int
        &&& SIZE >= 1
        &&& 0 <= self.cursor() < SIZE as int
        &&& forall|i: int, j: int|
            0 <= i < j < SIZE as int && self.slot_occupied(i) && self.slot_occupied(j)
                ==> self.slot_fingerprint(i) != self.slot_fingerprint(j)
    }

    /// Slot `j` of `self` is identical to slot `j` of `other`.
    pub open spec fn slot_unchanged(&self, other: &Self, j: int) -> bool {
        &&& self.slot_occupied(j) == other.slot_occupied(j)
        &&& self.slot_fingerprint(j) == other.slot_fingerprint(j)
        &&& self.slot_last_used(j) == other.slot_last_used(j)
        &&& self.slot_hits(j) == other.slot_hits(j)
        &&& self.slot_buffer(j) == other.slot_buffer(j)
    }

    /// The first occupied slot at or after `i` whose fingerprint is `fp`.
    pub open spec fn find_from(&self, fp: u64, i: int) -> Option<int>
        decreases SIZE as int - i,
    {
        if i < 0 || i >= SIZE as int {
            None
        } else if self.slot_occupied(i) && self.slot_fingerprint(i) == fp {
            Some(i)
        } else {
            self.find_from(fp, i + 1)
        }
    }

    /// The first occupied slot whose fingerprint is `fp`.
    pub open spec fn spec_find(&self, fp: u64) -> Option<int> {
        self.find_from(fp, 0)
    }

    /// Whether some occupied slot holds fingerprint `fp`.
    pub open spec fn contains_fp(&self, fp: u64) -> bool {
        self.spec_find(fp) is Some
    }

    /// `find_from(fp, i)` is `None` exactly when no occupied slot in
    /// `[i, SIZE)` holds `fp`.
    pub proof fn lemma_find_from_none(&self, fp: u64, i: int)
        requires
            0 <= i,
        ensures
            self.find_from(fp, i) is None <==> forall|j: int|
                i <= j < SIZE as int ==> !(self.slot_occupied(j) && self.slot_fingerprint(j)
                    == fp),
        decreases SIZE as int - i,
    {
        if 0 <= i < SIZE as int {
            self.lemma_find_from_none(fp, i + 1);
        }
    }

    /// When `find_from(fp, i)` finds a slot, that slot is the first match:
    /// it is in range, occupied with `fp`, and nothing before it matches.
    pub proof fn lemma_find_from_some(&self, fp: u64, i: int)
        requires
            self.find_from(fp, i) is Some,
        ensures
            ({
                let k = self.find_from(fp, i)->0;
                &&& i <= k < SIZE as int
                &&& self.slot_occupied(k) && self.slot_fingerprint(k) == fp
                &&& forall|j: int|
                    i <= j < k ==> !(self.slot_occupied(j) && self.slot_fingerprint(j) == fp)
            }),
        decreases SIZE as int - i,
    {
        if !(i < 0 || i >= SIZE as int) {
            if !(self.slot_occupied(i) && self.slot_fingerprint(i) == fp) {
                self.lemma_find_from_some(fp, i + 1);
            }
        }
    }

    /// If the first match from `i` onward sits at `k`, `find_from` says so.
    pub proof fn lemma_find_from_first(&self, fp: u64, i: int, k: int)
        requires
            0 <= i <= k < SIZE as int,
            self.slot_occupied(k) && self.slot_fingerprint(k) == fp,
            forall|j: int| i <= j < k ==> !(self.slot_occupied(j) && self.slot_fingerprint(j) == fp),
        ensures
            self.find_from(fp, i) == Some(k),
        decreases SIZE as int - i,
    {
        if 0 <= i && i < k {
            self.lemma_find_from_first(fp, i + 1, k);
        }
    }

    /// Two caches that agree on occupancy and fingerprints agree on lookup.
    pub proof fn lemma_find_congruent(&self, other: &Self, fp: u64, i: int)
        requires
            forall|j: int|
                0 <= j < SIZE as int ==> self.slot_occupied(j) == other.slot_occupied(j)
                    && self.slot_fingerprint(j) == other.slot_fingerprint(j),
        ensures
            self.find_from(fp, i) == other.find_from(fp, i),
        decreases SIZE as int - i,
    {
        if 0 <= i < SIZE as int {
            self.lemma_find_congruent(other, fp, i + 1);
        }
    }

    /// No fingerprint is readable through two occupied slots at once: in a
    /// well-formed cache, distinct occupied slots hold distinct fingerprints.
    pub proof fn lemma_occupied_fingerprints_distinct(&self, i: int, j: int)
        requires
            self.wf(),
            0 <= i < SIZE as int,
            0 <= j < SIZE as int,
            i != j,
            self.slot_occupied(i),
            self.slot_occupied(j),
        ensures
            self.slot_fingerprint(i) != self.slot_fingerprint(j),
    {
    }

    /// After a fresh insert of an absent fingerprint into slot `k`, a lookup
    /// of that fingerprint finds exactly slot `k`.  With the contract of
    /// `get_or_create` this gives hit correctness: a second call with the
    /// same text, and no intervening eviction, returns the same index and
    /// counts a hit.
    pub proof fn lemma_fresh_insert_is_found(pre: &Self, post: &Self, fp: u64, k: int)
        requires
            !pre.contains_fp(fp),
            pre.num_slots() == SIZE as int,
            post.num_slots() == SIZE as int,
            0 <= k < SIZE as int,
            post.slot_occupied(k),
            post.slot_fingerprint(k) == fp,
            forall|j: int| 0 <= j < SIZE as int && j != k ==> post.slot_unchanged(pre, j),
        ensures
            post.spec_find(fp) == Some(k),
    {
        pre.lemma_find_from_none(fp, 0);
        assert forall|j: int| 0 <= j < k implies !(post.slot_occupied(j)
            && post.slot_fingerprint(j) == fp) by {
            assert(post.slot_unchanged(pre, j));
        }
        post.lemma_find_from_first(fp, 0, k);
    }

    /// Two caches over the same slot array have the same per-slot state.
    proof fn lemma_same_entries(a: &Self, b: &Self)
        requires
            a.entries@ == b.entries@,
        ensures
            a.num_slots() == b.num_slots(),
            forall|j: int| 0 <= j < a.num_slots() ==> a.slot_unchanged(b, j),
            forall|j: int|
                0 <= j < a.num_slots() ==> a.slot_occupied(j) == b.slot_occupied(j)
                    && a.slot_fingerprint(j) == b.slot_fingerprint(j),
    {
        assert forall|j: int| 0 <= j < a.num_slots() implies a.slot_unchanged(b, j) by {
            assert(a.entries@[j] == b.entries@[j]);
        }
        assert forall|j: int|
            0 <= j < a.num_slots() implies a.slot_occupied(j) == b.slot_occupied(j)
            && a.slot_fingerprint(j) == b.slot_fingerprint(j) by {
            assert(a.entries@[j] == b.entries@[j]);
        }
    }

    /// Well-formedness carries over to a cache with the same occupancy and
    /// fingerprints and an in-range cursor.
    proof fn lemma_same_keys_wf(pre: &Self, post: &Self)
        requires
            pre.wf(),
            post.num_slots() == SIZE as int,
            0 <= post.cursor() < SIZE as int,
            forall|j: int|
                0 <= j < SIZE as int ==> post.slot_occupied(j) == pre.slot_occupied(j)
                    && post.slot_fingerprint(j) == pre.slot_fingerprint(j),
        ensures
            post.wf(),
    {
        assert forall|i: int, j: int|
            0 <= i < j < SIZE as int && post.slot_occupied(i) && post.slot_occupied(
                j,
            ) implies post.slot_fingerprint(i) != post.slot_fingerprint(j) by {
            assert(post.slot_occupied(i) == pre.slot_occupied(i) && post.slot_fingerprint(i)
                == pre.slot_fingerprint(i));
            assert(post.slot_occupied(j) == pre.slot_occupied(j) && post.slot_fingerprint(j)
                == pre.slot_fingerprint(j));
        }
    }

    /// Well-formedness carries over to a cache that differs in one slot, as
    /// long as that slot received a fingerprint no occupied slot held.
    proof fn lemma_update_slot_wf(pre: &Self, post: &Self, k: int, fp: u64)
        requires
            pre.wf(),
            post.num_slots() == SIZE as int,
            0 <= post.cursor() < SIZE as int,
            0 <= k < SIZE as int,
            post.slot_fingerprint(k) == fp,
            !pre.contains_fp(fp),
            forall|j: int| 0 <= j < SIZE as int && j != k ==> post.slot_unchanged(pre, j),
        ensures
            post.wf(),
    {
        pre.lemma_find_from_none(fp, 0);
        assert forall|i: int, j: int|
            0 <= i < j < SIZE as int && post.slot_occupied(i) && post.slot_occupied(
                j,
            ) implies post.slot_fingerprint(i) != post.slot_fingerprint(j) by {
            if i != k {
                assert(post.slot_unchanged(pre, i));
            }
            if j != k {
                assert(post.slot_unchanged(pre, j));
            }
        }
    }

    /// Create a cache with `SIZE` empty slots.
    pub fn new() -> (r: Self)
        requires
            SIZE >= 1,
        ensures
            r.wf(),
            r.cursor() == 0,
            r.hits() == 0,
            r.misses() == 0,
            forall|i: int| 0 <= i < SIZE as int ==> !r.slot_occupied(i),
            forall|i: int|
                0 <= i < SIZE as int ==> r.slot_fingerprint(i) == 0 && r.slot_last_used(i) == 0
                    && r.slot_hits(i) == 0,
    {
        let mut entries: Vec<ShapeCacheEntry> = Vec::new();
        let mut i: usize = 0;
        while i < SIZE
            invariant
                i <= SIZE,
                entries@.len() == i as int,
                forall|j: int| 0 <= j < i as int ==> (#[trigger] entries@[j]).is_cleared(),
            decreases SIZE - i,
        {
            entries.push(ShapeCacheEntry::default());
            i = i + 1;
        }
        LockFreeShapeCache { entries, next_index: 0, hit_count: 0, miss_count: 0 }
    }

    /// The FNV-1a fingerprint of `text`'s UTF-8 bytes.  Equal texts always
    /// receive equal fingerprints, in every call and in every process.
    pub fn hash_text_fnv1a_optimized(text: &str) -> (r: u64)
        ensures
            r == fnv1a(text.spec_bytes()),
    {
        fnv1a_hash(text)
    }

    /// Linear scan for an occupied slot holding `text_hash`.
    fn find_cached_entry(&self, text_hash: u64) -> (r: Option<usize>)
        requires
            self.wf(),
        ensures
            match r {
                Some(i) => self.spec_find(text_hash) == Some(i as int),
                None => !self.contains_fp(text_hash),
            },
    {
        let mut i: usize = 0;
        while i < self.entries.len()
            invariant
                self.wf(),
                i <= SIZE,
                self.num_slots() == SIZE as int,
                forall|j: int|
                    0 <= j < i as int ==> !(self.slot_occupied(j) && self.slot_fingerprint(j)
                        == text_hash),
            decreases SIZE - i,
        {
            if self.entries[i].buffer.is_some() && self.entries[i].text_hash == text_hash {
                proof {
                    self.lemma_find_from_first(text_hash, 0, i as int);
                }
                return Some(i);
            }
            i = i + 1;
        }
        proof {
            self.lemma_find_from_none(text_hash, 0);
        }
        None
    }

    /// Advance the round-robin cursor and hand back the slot it pointed at.
    fn find_replacement_slot(&mut self) -> (r: usize)
        requires
            old(self).wf(),
        ensures
            final(self).wf(),
            r as int == old(self).cursor(),
            final(self).cursor() == Self::next_cursor(old(self).cursor()),
            final(self).hits() == old(self).hits(),
            final(self).misses() == old(self).misses(),
            forall|j: int| 0 <= j < SIZE as int ==> final(self).slot_unchanged(old(self), j),
    {
        let index = self.next_index;
        self.next_index = if index + 1 == SIZE {
            0
        } else {
            index + 1
        };
        proof {
            Self::lemma_same_entries(self, old(self));
            Self::lemma_same_keys_wf(old(self), self);
        }
        index
    }

    /// Mark slot `index` as used now and count the hit on it.
    fn update_access_stats(&mut self, index: usize, frame_count: u64)
        requires
            old(self).wf(),
            (index as int) < SIZE as int,
        ensures
            final(self).wf(),
            final(self).slot_last_used(index as int) == frame_count,
            final(self).slot_hits(index as int) == sat_inc_spec(old(self).slot_hits(index as int)),
            final(self).slot_occupied(index as int) == old(self).slot_occupied(index as int),
            final(self).slot_fingerprint(index as int) == old(self).slot_fingerprint(index as int),
            final(self).slot_buffer(index as int) == old(self).slot_buffer(index as int),
            forall|j: int|
                0 <= j < SIZE as int && j != index as int ==> final(self).slot_unchanged(
                    old(self),
                    j,
                ),
            final(self).cursor() == old(self).cursor(),
            final(self).hits() == old(self).hits(),
            final(self).misses() == old(self).misses(),
    {
        let hits = sat_inc(self.entries[index].hit_count);
        self.entries[index].last_used = frame_count;
        self.entries[index].hit_count = hits;
        proof {
            assert forall|j: int|
                0 <= j < SIZE as int && j != index as int implies self.slot_unchanged(
                old(self),
                j,
            ) by {
                assert(self.entries@[j] == old(self).entries@[j]);
            }
            assert forall|j: int|
                0 <= j < SIZE as int implies self.slot_occupied(j) == old(self).slot_occupied(j)
                    && self.slot_fingerprint(j) == old(self).slot_fingerprint(j) by {
                if j != index as int {
                    assert(self.entries@[j] == old(self).entries@[j]);
                } else {
                    assert(self.entries@[j].buffer == old(self).entries@[j].buffer);
                    assert(self.entries@[j].text_hash == old(self).entries@[j].text_hash);
                }
            }
            Self::lemma_same_keys_wf(old(self), self);
        }
    }

    /// Look the text up by fingerprint; on a hit, refresh the slot's recency
    /// and count a hit.  On a miss, advance the round-robin cursor, shape the
    /// text through the external shaper, and store the result in the slot the
    /// cursor pointed at, evicting whatever was there.  Fails with
    /// `ShapingFailed` only when the shaper produced no layout runs for a
    /// text that is not whitespace alone; the cursor and the miss counter
    /// still advance in that case, and no slot is touched.  The `requires`
    /// exclude the shaper's two panics: text holding a paragraph-breaking
    /// character (test with `is_shape_safe` first) and a font system whose
    /// fallback search finds no font.
    #[verifier::rlimit(50)]
    pub fn get_or_create(
        &mut self,
        text: &str,
        font_system: &mut cosmic_text::FontSystem,
        metrics: cosmic_text::Metrics,
        attrs: &cosmic_text::Attrs,
        shaping: ShapingMode,
        frame_count: u64,
    ) -> (r: Result<usize, TextRenderingError>)
        requires
            old(self).wf(),
            metrics_ok(metrics),
            shape_safe_text(text@),
            shaping_fonts_available(*old(font_system)),
        ensures
            final(self).wf(),
            shaping_fonts_available(*final(font_system)) == shaping_fonts_available(
                *old(font_system),
            ),
            ({
                let fp = fnv1a(text.spec_bytes());
                if old(self).contains_fp(fp) {
                    let i = old(self).spec_find(fp)->0;
                    &&& r matches Ok(idx) && idx as int == i
                    &&& final(self).hits() == sat_inc_spec(old(self).hits())
                    &&& final(self).misses() == old(self).misses()
                    &&& final(self).cursor() == old(self).cursor()
                    &&& final(self).slot_occupied(i) && final(self).slot_fingerprint(i) == fp
                    &&& final(self).slot_last_used(i) == frame_count
                    &&& final(self).slot_hits(i) == sat_inc_spec(old(self).slot_hits(i))
                    &&& final(self).slot_buffer(i) == old(self).slot_buffer(i)
                    &&& forall|j: int|
                        0 <= j < SIZE as int && j != i ==> final(self).slot_unchanged(old(self), j)
                } else {
                    &&& final(self).hits() == old(self).hits()
                    &&& final(self).misses() == sat_inc_spec(old(self).misses())
                    &&& final(self).cursor() == Self::next_cursor(old(self).cursor())
                    &&& match r {
                        Ok(k) => {
                            &&& k as int == old(self).cursor()
                            &&& final(self).slot_occupied(k as int)
                            &&& final(self).slot_fingerprint(k as int) == fp
                            &&& final(self).slot_last_used(k as int) == frame_count
                            &&& final(self).slot_hits(k as int) == 1
                            &&& forall|j: int|
                                0 <= j < SIZE as int && j != k as int
                                    ==> final(self).slot_unchanged(old(self), j)
                        },
                        Err(e) => {
                            &&& e is ShapingFailed
                            &&& !blank_text(text@)
                            &&& forall|j: int|
                                0 <= j < SIZE as int ==> final(self).slot_unchanged(old(self), j)
                        },
                    }
                }
            }),
            blank_text(text@) ==> r is Ok,
    {
        let text_hash = Self::hash_text_fnv1a_optimized(text);

        if let Some(index) = self.find_cached_entry(text_hash) {
            proof {
                self.lemma_find_from_some(text_hash, 0);
            }
            self.update_access_stats(index, frame_count);
            let ghost mid = *self;
            self.hit_count = sat_inc(self.hit_count);
            proof {
                Self::lemma_same_entries(self, &mid);
                assert(self.slot_unchanged(&mid, index as int));
                Self::lemma_same_keys_wf(&mid, self);
                assert forall|j: int|
                    0 <= j < SIZE as int && j != index as int implies self.slot_unchanged(
                    old(self),
                    j,
                ) by {
                    assert(self.slot_unchanged(&mid, j));
                    assert(mid.slot_unchanged(old(self), j));
                }
            }
            return Ok(index);
        }

        self.miss_count = sat_inc(self.miss_count);
        let ghost m1 = *self;
        proof {
            Self::lemma_same_entries(&m1, old(self));
            Self::lemma_same_keys_wf(old(self), &m1);
        }

        let replacement_index = self.find_replacement_slot();
        let ghost m2 = *self;

        let mut buffer = buffer_new(font_system, metrics);
        buffer_set_text(&mut buffer, text, attrs, shaping);
        buffer_shape(&mut buffer, font_system);

        if !buffer_has_layout_runs(&buffer) && !is_blank(text) {
            proof {
                assert forall|j: int| 0 <= j < SIZE as int implies self.slot_unchanged(
                    old(self),
                    j,
                ) by {
                    assert(m2.slot_unchanged(&m1, j));
                    assert(m1.slot_unchanged(old(self), j));
                }
            }
            return Err(TextRenderingError::ShapingFailed);
        }

        let entry = ShapeCacheEntry {
            text_hash,
            buffer: Some(buffer),
            last_used: frame_count,
            hit_count: 1,
        };
        self.entries[replacement_index] = entry;

        proof {
            let k = replacement_index as int;
            assert(self.entries@ == m2.entries@.update(k, entry));
            assert forall|j: int|
                0 <= j < SIZE as int && j != k implies self.slot_unchanged(old(self), j) by {
                assert(self.entries@[j] == m2.entries@[j]);
                assert(m2.slot_unchanged(&m1, j));
                assert(m1.slot_unchanged(old(self), j));
            }
            assert(self.slot_occupied(k) && self.slot_fingerprint(k) == text_hash);
            Self::lemma_update_slot_wf(old(self), self, k, text_hash);
        }

        Ok(replacement_index)
    }

    /// Number of occupied slots among the first `n`.
    pub open spec fn occupied_prefix(&self, n: int) -> int
        decreases n,
    {
        if n <= 0 {
            0
        } else {
            self.occupied_prefix(n - 1) + if self.slot_occupied(n - 1) {
                1int
            } else {
                0int
            }
        }
    }

    /// Number of occupied slots.
    pub open spec fn occupied_count(&self) -> int {
        self.occupied_prefix(SIZE as int)
    }

    /// An occupancy prefix count lies between zero and its length.
    pub proof fn lemma_occupied_prefix_bounds(&self, n: int)
        requires
            n >= 0,
        ensures
            0 <= self.occupied_prefix(n) <= n,
        decreases n,
    {
        if n > 0 {
            self.lemma_occupied_prefix_bounds(n - 1);
        }
    }

    /// A prefix count is zero exactly when no slot in the prefix is occupied.
    pub proof fn lemma_occupied_prefix_zero(&self, n: int)
        requires
            n >= 0,
        ensures
            self.occupied_prefix(n) == 0 <==> forall|j: int| 0 <= j < n ==> !self.slot_occupied(j),
        decreases n,
    {
        if n > 0 {
            self.lemma_occupied_prefix_zero(n - 1);
            self.lemma_occupied_prefix_bounds(n - 1);
        }
    }

    /// Caches that agree on occupancy below `n` agree on the prefix count.
    proof fn lemma_occupied_prefix_congruent(a: &Self, b: &Self, n: int)
        requires
            forall|j: int| 0 <= j < n ==> a.slot_occupied(j) == b.slot_occupied(j),
        ensures
            a.occupied_prefix(n) == b.occupied_prefix(n),
        decreases n,
    {
        if n > 0 {
            Self::lemma_occupied_prefix_congruent(a, b, n - 1);
        }
    }

    /// Clearing one occupied slot lowers the prefix count by one where the
    /// slot lies inside the prefix.
    proof fn lemma_occupied_prefix_clear(a: &Self, b: &Self, m: int, n: int)
        requires
            n >= 0,
            0 <= m,
            a.slot_occupied(m),
            !b.slot_occupied(m),
            forall|j: int| 0 <= j < n && j != m ==> a.slot_occupied(j) == b.slot_occupied(j),
        ensures
            b.occupied_prefix(n) == a.occupied_prefix(n) - if m < n {
                1int
            } else {
                0int
            },
        decreases n,
    {
        if n > 0 {
            Self::lemma_occupied_prefix_clear(a, b, m, n - 1);
        }
    }

    /// Count the occupied slots.
    fn count_occupied(&self) -> (r: usize)
        requires
            self.wf(),
        ensures
            r as int == self.occupied_count(),
    {
        let mut count: usize = 0;
        let mut i: usize = 0;
        while i < self.entries.len()
            invariant
                self.wf(),
                i <= SIZE,
                count as int == self.occupied_prefix(i as int),
                count <= i,
            decreases SIZE - i,
        {
            proof {
                self.lemma_occupied_prefix_bounds(i as int);
            }
            if self.entries[i].buffer.is_some() {
                count = count + 1;
            }
            i = i + 1;
        }
        count
    }

    /// Read-only snapshot of capacity, occupancy, and the hit and miss
    /// counters.
    pub fn stats(&self) -> (r: CacheStats)
        requires
            self.wf(),
        ensures
            r.capacity == SIZE,
            r.entries_used as int == self.occupied_count(),
            r.hit_count == self.hits(),
            r.miss_count == self.misses(),
    {
        CacheStats {
            capacity: SIZE,
            entries_used: self.count_occupied(),
            hit_count: self.hit_count,
            miss_count: self.miss_count,
        }
    }

    /// Occupancy as a percentage of capacity, rounded down.
    pub fn utilization(&self) -> (r: u64)
        requires
            self.wf(),
        ensures
            r as int == self.occupied_count() * 100 / (SIZE as int),
            r <= 100,
    {
        let count = self.count_occupied();
        proof {
            self.lemma_occupied_prefix_bounds(SIZE as int);
            vstd::arithmetic::div_mod::lemma_div_is_ordered(
                count as int * 100,
                SIZE as int * 100,
                SIZE as int,
            );
            vstd::arithmetic::div_mod::lemma_div_multiples_vanish(100, SIZE as int);
            assert(SIZE as int * 100 == (SIZE as int) * 100);
            assert((SIZE as int) * 100 / (SIZE as int) == 100);
        }
        let percent: u128 = (count as u128) * 100 / (SIZE as u128);
        percent as u64
    }

    /// Clear slot `m`, freeing its payload.
    fn clear_slot(&mut self, m: usize)
        requires
            old(self).wf(),
            (m as int) < SIZE as int,
        ensures
            final(self).num_slots() == SIZE as int,
            final(self).entries_cleared_at(m as int),
            forall|j: int|
                0 <= j < SIZE as int && j != m as int ==> final(self).slot_unchanged(old(self), j),
            final(self).cursor() == old(self).cursor(),
            final(self).hits() == old(self).hits(),
            final(self).misses() == old(self).misses(),
    {
        self.entries[m] = ShapeCacheEntry::default();
        proof {
            assert forall|j: int|
                0 <= j < SIZE as int && j != m as int implies self.slot_unchanged(
                old(self),
                j,
            ) by {
                assert(self.entries@[j] == old(self).entries@[j]);
            }
        }
    }

    /// Slot `m` is cleared: unoccupied with all metadata zero.
    pub open spec fn entries_cleared_at(&self, m: int) -> bool {
        &&& !self.slot_occupied(m)
        &&& self.slot_fingerprint(m) == 0
        &&& self.slot_last_used(m) == 0
        &&& self.slot_hits(m) == 0
    }

    /// Find the occupied slot that the sweep should evict next: the one with
    /// the smallest `last_used`, ties broken by the lower slot index.
    fn find_oldest_occupied(&self) -> (r: Option<usize>)
        requires
            self.num_slots() == SIZE as int,
        ensures
            match r {
                Some(m) => (m as int) < SIZE as int && self.slot_occupied(m as int) && forall|
                    j: int,
                |
                    0 <= j < SIZE as int && self.slot_occupied(j) && j != m as int ==> lex_older(
                        self.slot_last_used(m as int),
                        m as int,
                        self.slot_last_used(j),
                        j,
                    ),
                None => forall|j: int| 0 <= j < SIZE as int ==> !self.slot_occupied(j),
            },
    {
        let mut best: Option<usize> = None;
        let mut i: usize = 0;
        while i < self.entries.len()
            invariant
                self.num_slots() == SIZE as int,
                i <= SIZE,
                match best {
                    Some(b) => (b as int) < i as int && self.slot_occupied(b as int) && forall|
                        j: int,
                    |
                        0 <= j < i as int && self.slot_occupied(j) && j != b as int ==> lex_older(
                            self.slot_last_used(b as int),
                            b as int,
                            self.slot_last_used(j),
                            j,
                        ),
                    None => forall|j: int| 0 <= j < i as int ==> !self.slot_occupied(j),
                },
            decreases SIZE - i,
        {
            if self.entries[i].buffer.is_some() {
                best = match best {
                    None => Some(i),
                    Some(b) => {
                        if self.entries[i].last_used < self.entries[b].last_used {
                            Some(i)
                        } else {
                            Some(b)
                        }
                    },
                };
            }
            i = i + 1;
        }
        best
    }

    /// Evict up to `evict_count` occupied slots, always the oldest first
    /// (smallest `last_used`, ties broken by slot index).  Empty slots are
    /// never touched, and no more slots are evicted than were occupied.
    fn evict_lru_entries(&mut self, evict_count: usize)
        requires
            old(self).wf(),
        ensures
            final(self).wf(),
            final(self).evicted_oldest_from(old(self), evict_count as int),
    {
        let mut k: usize = 0;
        proof {
            self.lemma_occupied_prefix_bounds(SIZE as int);
        }
        while k < evict_count
            invariant
                self.wf(),
                old(self).wf(),
                k <= evict_count,
                self.occupied_count() == old(self).occupied_count() - k,
                k as int <= old(self).occupied_count(),
                self.cursor() == old(self).cursor(),
                self.hits() == old(self).hits(),
                self.misses() == old(self).misses(),
                forall|j: int|
                    0 <= j < SIZE as int && self.slot_occupied(j) ==> old(self).slot_occupied(j)
                        && self.slot_unchanged(old(self), j),
                forall|j: int|
                    0 <= j < SIZE as int && old(self).slot_occupied(j) && !self.slot_occupied(j)
                        ==> self.entries_cleared_at(j),
                forall|j: int|
                    0 <= j < SIZE as int && !old(self).slot_occupied(j) ==> self.slot_unchanged(
                        old(self),
                        j,
                    ),
                forall|i: int, j: int|
                    0 <= i < SIZE as int && 0 <= j < SIZE as int && old(self).slot_occupied(i)
                        && !self.slot_occupied(i) && self.slot_occupied(j) ==> lex_older(
                        old(self).slot_last_used(i),
                        i,
                        old(self).slot_last_used(j),
                        j,
                    ),
            ensures
                self.wf(),
                self.evicted_oldest_from(old(self), evict_count as int),
            decreases evict_count - k,
        {
            let found = self.find_oldest_occupied();
            if found.is_none() {
                proof {
                    self.lemma_occupied_prefix_zero(SIZE as int);
                }
                break ;
            }
            let m = found.unwrap();
            proof {
                self.lemma_occupied_prefix_zero(SIZE as int);
                self.lemma_occupied_prefix_bounds(SIZE as int);
            }
            let ghost before = *self;
            self.clear_slot(m);
            proof {
                Self::lemma_clear_step(old(self), &before, self, m as int);
            }
            k = k + 1;
        }
    }

    /// What the sweep guarantees, relating the cache after the sweep to the
    /// cache before it, for a requested eviction budget of `n`:
    /// exactly `min(n, occupied)` slots were evicted; every surviving slot is
    /// untouched; every evicted slot is cleared; slots that were empty
    /// before the sweep are never touched; and every evicted slot is older
    /// than every survivor.
    pub open spec fn evicted_oldest_from(&self, pre: &Self, n: int) -> bool {
        let evicted = if n <= pre.occupied_count() {
            n
        } else {
            pre.occupied_count()
        };
        &&& self.occupied_count() == pre.occupied_count() - evicted
        &&& self.cursor() == pre.cursor()
        &&& self.hits() == pre.hits()
        &&& self.misses() == pre.misses()
        &&& forall|j: int|
            0 <= j < SIZE as int && self.slot_occupied(j) ==> pre.slot_occupied(j)
                && self.slot_unchanged(pre, j)
        &&& forall|j: int|
            0 <= j < SIZE as int && pre.slot_occupied(j) && !self.slot_occupied(j)
                ==> self.entries_cleared_at(j)
        &&& forall|j: int|
            0 <= j < SIZE as int && !pre.slot_occupied(j) ==> self.slot_unchanged(pre, j)
        &&& forall|i: int, j: int|
            0 <= i < SIZE as int && 0 <= j < SIZE as int && pre.slot_occupied(i)
                && !self.slot_occupied(i) && self.slot_occupied(j) ==> lex_older(
                pre.slot_last_used(i),
                i,
                pre.slot_last_used(j),
                j,
            )
    }

    /// One sweep step: clearing the current oldest occupied slot keeps the
    /// sweep invariants relative to the original cache.
    proof fn lemma_clear_step(orig: &Self, before: &Self, after: &Self, m: int)
        requires
            0 <= m < SIZE as int,
            before.wf(),
            before.slot_occupied(m),
            after.num_slots() == SIZE as int,
            after.cursor() == before.cursor(),
            after.entries_cleared_at(m),
            forall|j: int| 0 <= j < SIZE as int && j != m ==> after.slot_unchanged(before, j),
            forall|j: int|
                0 <= j < SIZE as int && before.slot_occupied(j) && j != m ==> lex_older(
                    before.slot_last_used(m),
                    m,
                    before.slot_last_used(j),
                    j,
                ),
            forall|j: int|
                0 <= j < SIZE as int && before.slot_occupied(j) ==> orig.slot_occupied(j)
                    && before.slot_unchanged(orig, j),
            forall|j: int|
                0 <= j < SIZE as int && orig.slot_occupied(j) && !before.slot_occupied(j)
                    ==> before.entries_cleared_at(j),
            forall|j: int|
                0 <= j < SIZE as int && !orig.slot_occupied(j) ==> before.slot_unchanged(orig, j),
            forall|i: int, j: int|
                0 <= i < SIZE as int && 0 <= j < SIZE as int && orig.slot_occupied(i)
                    && !before.slot_occupied(i) && before.slot_occupied(j) ==> lex_older(
                    orig.slot_last_used(i),
                    i,
                    orig.slot_last_used(j),
                    j,
                ),
        ensures
            after.wf(),
            after.occupied_count() == before.occupied_count() - 1,
            forall|j: int|
                0 <= j < SIZE as int && after.slot_occupied(j) ==> orig.slot_occupied(j)
                    && after.slot_unchanged(orig, j),
            forall|j: int|
                0 <= j < SIZE as int && orig.slot_occupied(j) && !after.slot_occupied(j)
                    ==> after.entries_cleared_at(j),
            forall|j: int|
                0 <= j < SIZE as int && !orig.slot_occupied(j) ==> after.slot_unchanged(orig, j),
            forall|i: int, j: int|
                0 <= i < SIZE as int && 0 <= j < SIZE as int && orig.slot_occupied(i)
                    && !after.slot_occupied(i) && after.slot_occupied(j) ==> lex_older(
                    orig.slot_last_used(i),
                    i,
                    orig.slot_last_used(j),
                    j,
                ),
    {
        assert forall|j: int|
            0 <= j < SIZE as int && after.slot_occupied(j) implies orig.slot_occupied(j)
            && after.slot_unchanged(orig, j) by {
            assert(after.slot_unchanged(before, j));
            assert(before.slot_unchanged(orig, j));
        }
        assert forall|j: int|
            0 <= j < SIZE as int && orig.slot_occupied(j) && !after.slot_occupied(
                j,
            ) implies after.entries_cleared_at(j) by {
            if j != m {
                assert(after.slot_unchanged(before, j));
            }
        }
        assert forall|i: int, j: int|
            0 <= i < SIZE as int && 0 <= j < SIZE as int && orig.slot_occupied(i)
                && !after.slot_occupied(i) && after.slot_occupied(j) implies lex_older(
            orig.slot_last_used(i),
            i,
            orig.slot_last_used(j),
            j,
        ) by {
            assert(after.slot_unchanged(before, j));
            if i != m {
                assert(after.slot_unchanged(before, i));
            } else {
                assert(before.slot_unchanged(orig, m));
                assert(before.slot_unchanged(orig, j));
            }
        }
        assert forall|j: int|
            0 <= j < SIZE as int && j != m implies before.slot_occupied(j) == after.slot_occupied(
            j,
        ) by {
            assert(after.slot_unchanged(before, j));
        }
        assert forall|j: int|
            0 <= j < SIZE as int && !orig.slot_occupied(j) implies after.slot_unchanged(
            orig,
            j,
        ) by {
            assert(before.slot_unchanged(orig, j));
            assert(j != m);
            assert(after.slot_unchanged(before, j));
        }
        Self::lemma_occupied_prefix_clear(before, after, m, SIZE as int);
        assert forall|i: int, j: int|
            0 <= i < j < SIZE as int && after.slot_occupied(i) && after.slot_occupied(
                j,
            ) implies after.slot_fingerprint(i) != after.slot_fingerprint(j) by {
            assert(after.slot_unchanged(before, i));
            assert(after.slot_unchanged(before, j));
        }
    }

    /// If occupancy exceeds `max_utilization_percent` percent of capacity,
    /// evict a quarter of the slots, oldest first; otherwise change nothing.
    #[allow(unused_variables)]
    pub fn evict_lru_if_needed(&mut self, max_utilization_percent: u64, current_frame: u64)
        requires
            old(self).wf(),
            max_utilization_percent <= 100,
        ensures
            final(self).wf(),
            if old(self).occupied_count() * 100 > max_utilization_percent * (SIZE as int) {
                final(self).evicted_oldest_from(old(self), (SIZE as int) / 4)
            } else {
                final(self).cursor() == old(self).cursor() && final(self).hits() == old(
                    self,
                ).hits() && final(self).misses() == old(self).misses() && forall|j: int|
                    0 <= j < SIZE as int ==> final(self).slot_unchanged(old(self), j)
            },
    {
        let count = self.count_occupied();
        proof {
            assert((max_utilization_percent as int) * (SIZE as int) <= 100 * (SIZE as int))
                by (nonlinear_arith)
                requires
                    max_utilization_percent <= 100,
                    SIZE as int >= 0,
            ;
        }
        let over = (count as u128) * 100 > (max_utilization_percent as u128) * (SIZE as u128);
        if over {
            self.evict_lru_entries(SIZE / 4);
        } else {
            proof {
                Self::lemma_same_entries(self, old(self));
                Self::lemma_same_keys_wf(old(self), self);
            }
        }
    }

    /// Whether slot `cache_index` still holds exactly the given fingerprint.
    /// A descriptor recorded for a fingerprint is valid only while this
    /// holds; once the cache has replaced the slot, the descriptor must be
    /// treated as stale and dropped.  An out-of-range index never matches.
    pub fn slot_matches(&self, cache_index: usize, fingerprint: u64) -> (r: bool)
        requires
            self.wf(),
        ensures
            r == ((cache_index as int) < SIZE as int && self.slot_occupied(cache_index as int)
                && self.slot_fingerprint(cache_index as int) == fingerprint),
    {
        if cache_index >= self.entries.len() {
            return false;
        }
        self.entries[cache_index].buffer.is_some() && self.entries[cache_index].text_hash
            == fingerprint
    }

    /// The occupied-slot count never exceeds the capacity: the cache is
    /// bounded whatever sequence of calls produced it.
    pub proof fn lemma_occupied_count_bounded(&self)
        ensures
            0 <= self.occupied_count() <= SIZE as int,
    {
        self.lemma_occupied_prefix_bounds(SIZE as int);
    }

    /// Writing one slot, as a miss of `get_or_create` does, grows the
    /// occupied count by one when the slot was empty and leaves it unchanged
    /// when the slot was replaced.  Together with
    /// `lemma_occupied_count_bounded` this gives eviction safety in general:
    /// distinct insertions into a cache of capacity `SIZE` occupy at most
    /// `SIZE` slots, and one more insertion replaces a slot rather than
    /// growing the cache.
    pub proof fn lemma_occupied_count_after_insert(pre: &Self, post: &Self, k: int)
        requires
            pre.num_slots() == SIZE as int,
            post.num_slots() == SIZE as int,
            0 <= k < SIZE as int,
            post.slot_occupied(k),
            forall|j: int| 0 <= j < SIZE as int && j != k ==> post.slot_unchanged(pre, j),
        ensures
            post.occupied_count() == pre.occupied_count() + if pre.slot_occupied(k) {
                0int
            } else {
                1int
            },
    {
        assert forall|j: int|
            0 <= j < SIZE as int && j != k implies pre.slot_occupied(j) == post.slot_occupied(
            j,
        ) by {
            assert(post.slot_unchanged(pre, j));
        }
        Self::lemma_occupied_prefix_insert(pre, post, k, SIZE as int);
    }

    /// Counting helper for `lemma_occupied_count_after_insert`.
    proof fn lemma_occupied_prefix_insert(pre: &Self, post: &Self, k: int, n: int)
        requires
            n >= 0,
            0 <= k,
            post.slot_occupied(k),
            forall|j: int| 0 <= j < n && j != k ==> pre.slot_occupied(j) == post.slot_occupied(j),
        ensures
            post.occupied_prefix(n) == pre.occupied_prefix(n) + if k < n && !pre.slot_occupied(
                k,
            ) {
                1int
            } else {
                0int
            },
        decreases n,
    {
        if n > 0 {
            Self::lemma_occupied_prefix_insert(pre, post, k, n - 1);
        }
    }

    /// Borrow the buffer stored at `cache_index`, if that slot is occupied.
    /// An out-of-range index yields `None`, never a panic.
    pub fn get_buffer(&self, cache_index: usize) -> (r: Option<&cosmic_text::Buffer>)
        requires
            self.wf(),
        ensures
            r is Some <==> (cache_index as int) < SIZE as int && self.slot_occupied(
                cache_index as int,
            ),
            r matches Some(b) ==> self.slot_buffer(cache_index as int) == Some(*b),
    {
        if cache_index < self.entries.len() {
            self.entries[cache_index].buffer.as_ref()
        } else {
            None
        }
    }
}

/// The shape cache at the capacity the renderer uses.
pub type ShapeCache = LockFreeShapeCache<SHAPE_CACHE_SIZE>;

} // verus!
