//! Per-frame pool of draw descriptors.
//!
//! Each frame, the renderer records one lightweight descriptor per visible
//! row: which shape-cache slot to draw, where, and in what color.  The pool
//! owns a fixed array of descriptor slots allocated once; `reset` empties it
//! logically at the start of every frame, and on a periodic cadence compacts
//! out descriptors that have not been touched for a long time.
//!
//! A descriptor stays valid only as long as the cache slot it points at
//! still holds the fingerprint recorded in the descriptor; the cache may
//! overwrite the slot at any time between frames, and a consumer must then
//! treat the descriptor as stale.

use vstd::prelude::*;

use crate::color::Color;
use crate::error::TextAreaPoolError;

verus! {

/// Text area pool capacity used by the renderer.
pub const TEXT_AREA_POOL_SIZE: usize = 128;

/// Maximum age in frames before a descriptor is compacted away.
pub const MAX_AGE_FRAMES: u64 = 180;

/// How often, in frames, the pool compacts stale descriptors.
pub const CLEANUP_INTERVAL_FRAMES: u64 = 60;

/// Pixel-space clipping bounds of one drawn text area.
#[derive(Clone, Copy, Debug, PartialEq, Eq, Structural)]
pub struct TextBounds {
    pub left: i32,
    pub top: i32,
    pub right: i32,
    pub bottom: i32,
}

/// Increment that wraps around at the top of `u64`.
pub open spec fn wrap_inc_spec(x: u64) -> u64 {
    if x == u64::MAX {
        0
    } else {
        (x + 1) as u64
    }
}

/// Addition on `u64` that saturates at the top instead of wrapping.
pub open spec fn sat_add_u64(a: u64, b: u64) -> u64 {
    if a + b > u64::MAX {
        u64::MAX
    } else {
        (a + b) as u64
    }
}

/// Frames elapsed since `last_access`, clamped at zero when the clock moved
/// backwards.
pub open spec fn age_of(last_access: u64, current_frame: u64) -> u64 {
    if current_frame >= last_access {
        (current_frame - last_access) as u64
    } else {
        0
    }
}

/// One draw descriptor: a shape-cache slot index plus the fingerprint it was
/// resolved for, position and scale (carried as opaque 32-bit values; the
/// pool never interprets them, and callers that work in floating point pass
/// the raw bits), clipping bounds, color, and recency metadata.
#[derive(Clone, Copy, Debug)]
pub struct SafeTextArea {
    buffer_cache_index: usize,
    text_hash: u64,
    left: u32,
    top: u32,
    scale: u32,
    bounds: TextBounds,
    default_color: Color,
    created_frame: u64,
    last_access_frame: u64,
}

impl SafeTextArea {
    /// The cache slot this descriptor points at.
    pub closed spec fn cache_index_spec(&self) -> usize {
        self.buffer_cache_index
    }

    /// The fingerprint the descriptor was resolved for.
    pub closed spec fn fingerprint_spec(&self) -> u64 {
        self.text_hash
    }

    /// The stored left position bits.
    pub closed spec fn left_spec(&self) -> u32 {
        self.left
    }

    /// The stored top position bits.
    pub closed spec fn top_spec(&self) -> u32 {
        self.top
    }

    /// The stored scale bits.
    pub closed spec fn scale_spec(&self) -> u32 {
        self.scale
    }

    /// The stored clipping bounds.
    pub closed spec fn bounds_spec(&self) -> TextBounds {
        self.bounds
    }

    /// The stored default color.
    pub closed spec fn color_spec(&self) -> Color {
        self.default_color
    }

    /// The frame the descriptor was created in.
    pub closed spec fn created_spec(&self) -> u64 {
        self.created_frame
    }

    /// The frame the descriptor was last touched in.
    pub closed spec fn last_access_spec(&self) -> u64 {
        self.last_access_frame
    }

    /// Whether the descriptor counts as stale at `current_frame`.
    pub open spec fn stale_spec(&self, current_frame: u64, max_age: u64) -> bool {
        age_of(self.last_access_spec(), current_frame) > max_age
    }

    /// Create a descriptor; its last access is its creation frame.
    #[allow(clippy::too_many_arguments)]
    pub fn new(
        buffer_cache_index: usize,
        text_hash: u64,
        left: u32,
        top: u32,
        scale: u32,
        bounds: TextBounds,
        default_color: Color,
        created_frame: u64,
    ) -> (r: Self)
        ensures
            r.cache_index_spec() == buffer_cache_index,
            r.fingerprint_spec() == text_hash,
            r.left_spec() == left,
            r.top_spec() == top,
            r.scale_spec() == scale,
            r.bounds_spec() == bounds,
            r.color_spec() == default_color,
            r.created_spec() == created_frame,
            r.last_access_spec() == created_frame,
    {
        SafeTextArea {
            buffer_cache_index,
            text_hash,
            left,
            top,
            scale,
            bounds,
            default_color,
            created_frame,
            last_access_frame: created_frame,
        }
    }

    /// The cache slot index.
    pub fn buffer_cache_index(&self) -> (r: usize)
        ensures
            r == self.cache_index_spec(),
    {
        self.buffer_cache_index
    }

    /// The fingerprint the descriptor was resolved for.
    pub fn text_hash(&self) -> (r: u64)
        ensures
            r == self.fingerprint_spec(),
    {
        self.text_hash
    }

    /// The left position bits.
    pub fn left(&self) -> (r: u32)
        ensures
            r == self.left_spec(),
    {
        self.left
    }

    /// The top position bits.
    pub fn top(&self) -> (r: u32)
        ensures
            r == self.top_spec(),
    {
        self.top
    }

    /// The scale bits.
    pub fn scale(&self) -> (r: u32)
        ensures
            r == self.scale_spec(),
    {
        self.scale
    }

    /// The clipping bounds.
    pub fn bounds(&self) -> (r: &TextBounds)
        ensures
            *r == self.bounds_spec(),
    {
        &self.bounds
    }

    /// The default color.
    pub fn default_color(&self) -> (r: &Color)
        ensures
            *r == self.color_spec(),
    {
        &self.default_color
    }

    /// Record an access at `current_frame`.
    pub fn touch(&mut self, current_frame: u64)
        ensures
            final(self).last_access_spec() == current_frame,
            final(self).cache_index_spec() == old(self).cache_index_spec(),
            final(self).fingerprint_spec() == old(self).fingerprint_spec(),
            final(self).left_spec() == old(self).left_spec(),
            final(self).top_spec() == old(self).top_spec(),
            final(self).scale_spec() == old(self).scale_spec(),
            final(self).bounds_spec() == old(self).bounds_spec(),
            final(self).color_spec() == old(self).color_spec(),
            final(self).created_spec() == old(self).created_spec(),
    {
        self.last_access_frame = current_frame;
    }

    /// Whether the descriptor is older than `max_age` frames.
    pub fn is_stale(&self, current_frame: u64, max_age: u64) -> (r: bool)
        ensures
            r == self.stale_spec(current_frame, max_age),
    {
        let last_access = self.last_access_frame;
        let age = if current_frame >= last_access {
            current_frame - last_access
        } else {
            0
        };
        age > max_age
    }

    /// Frames since the descriptor was last touched.
    pub fn age_frames(&self, current_frame: u64) -> (r: u64)
        ensures
            r == age_of(self.last_access_spec(), current_frame),
    {
        let last_access = self.last_access_frame;
        if current_frame >= last_access {
            current_frame - last_access
        } else {
            0
        }
    }
}

/// Whether a pool slot holds a descriptor that is not stale at `frame`.
pub open spec fn area_live(a: Option<SafeTextArea>, frame: u64) -> bool {
    match a {
        Some(x) => !x.stale_spec(frame, MAX_AGE_FRAMES),
        None => false,
    }
}

/// The live descriptors among the first `n` slots, in slot order.
pub open spec fn live_prefix(areas: Seq<Option<SafeTextArea>>, frame: u64, n: int) -> Seq<
    SafeTextArea,
>
    decreases n,
{
    if n <= 0 {
        Seq::empty()
    } else {
        let rest = live_prefix(areas, frame, n - 1);
        if area_live(areas[n - 1], frame) {
            rest.push(areas[n - 1]->0)
        } else {
            rest
        }
    }
}

/// A live prefix is never longer than the slots it was drawn from.
pub proof fn lemma_live_prefix_len(areas: Seq<Option<SafeTextArea>>, frame: u64, n: int)
    requires
        n >= 0,
    ensures
        live_prefix(areas, frame, n).len() <= n,
    decreases n,
{
    if n > 0 {
        lemma_live_prefix_len(areas, frame, n - 1);
    }
}

/// Read-only pool statistics.
#[derive(Debug, Clone, Copy, PartialEq, Eq, Structural)]
pub struct PoolStats {
    pub capacity: usize,
    pub active_count: usize,
    pub average_age_frames: u64,
    pub oldest_age_frames: u64,
    pub current_frame: u64,
}

/// Fixed-capacity, per-frame-reset pool of draw descriptors.  The slot array
/// is allocated once at construction and never grows; `reset` empties the
/// pool logically by zeroing the active count.
pub struct ZeroAllocTextAreaPool<const CAPACITY: usize> {
    areas: Vec<Option<SafeTextArea>>,
    active_count: usize,
    frame_counter: u64,
}

impl<const CAPACITY: usize> ZeroAllocTextAreaPool<CAPACITY> {
    /// Number of slots actually allocated.
    pub closed spec fn num_slots(&self) -> int {
        self.areas@.len() as int
    }

    /// The whole slot array.
    pub closed spec fn areas_view(&self) -> Seq<Option<SafeTextArea>> {
        self.areas@
    }

    /// The slot at index `i`.
    pub closed spec fn area_at(&self, i: int) -> Option<SafeTextArea> {
        self.areas@[i]
    }

    /// Number of active descriptors this frame.
    pub closed spec fn active(&self) -> int {
        self.active_count as int
    }

    /// The pool's frame counter.
    pub closed spec fn frame(&self) -> u64 {
        self.frame_counter
    }

    /// Well-formedness: all slots exist, and every index below the active
    /// count holds a descriptor.
    pub open spec fn wf(&self) -> bool {
        &&& self.num_slots() == CAPACITY as int
        &&& 0 <= self.active() <= CAPACITY as int
        &&& forall|i: int| 0 <= i < self.active() ==> self.area_at(i) is Some
    }

    /// Create an empty pool.
    pub fn new() -> (r: Self)
        ensures
            r.wf(),
            r.active() == 0,
            r.frame() == 0,
            forall|i: int| 0 <= i < CAPACITY as int ==> r.area_at(i) is None,
    {
        let mut areas: Vec<Option<SafeTextArea>> = Vec::new();
        let mut i: usize = 0;
        while i < CAPACITY
            invariant
                i <= CAPACITY,
                areas@.len() == i as int,
                forall|j: int| 0 <= j < i as int ==> areas@[j] is None,
            decreases CAPACITY - i,
        {
            areas.push(None);
            i = i + 1;
        }
        ZeroAllocTextAreaPool { areas, active_count: 0, frame_counter: 0 }
    }

    /// Compact the slot array: keep the descriptors younger than
    /// `MAX_AGE_FRAMES` in order at the front, clear everything else.
    fn cleanup_stale_areas(&mut self, current_frame: u64)
        requires
            old(self).num_slots() == CAPACITY as int,
        ensures
            final(self).num_slots() == CAPACITY as int,
            final(self).active() == old(self).active(),
            final(self).frame() == old(self).frame(),
            ({
                let live = live_prefix(old(self).areas@, current_frame, CAPACITY as int);
                &&& forall|i: int| 0 <= i < live.len() ==> final(self).area_at(i) == Some(live[i])
                &&& forall|i: int|
                    live.len() <= i < CAPACITY as int ==> final(self).area_at(i) is None
            }),
    {
        let mut write_idx: usize = 0;
        let mut read_idx: usize = 0;
        while read_idx < CAPACITY
            invariant
                self.num_slots() == CAPACITY as int,
                self.active() == old(self).active(),
                self.frame() == old(self).frame(),
                write_idx <= read_idx <= CAPACITY,
                write_idx as int == live_prefix(
                    old(self).areas@,
                    current_frame,
                    read_idx as int,
                ).len(),
                forall|i: int|
                    0 <= i < write_idx as int ==> self.area_at(i) == Some(
                        live_prefix(old(self).areas@, current_frame, read_idx as int)[i],
                    ),
                forall|i: int| write_idx as int <= i < read_idx as int ==> self.area_at(i) is None,
                forall|i: int|
                    read_idx as int <= i < CAPACITY as int ==> self.area_at(i) == old(
                        self,
                    ).area_at(i),
            decreases CAPACITY - read_idx,
        {
            proof {
                lemma_live_prefix_len(old(self).areas@, current_frame, read_idx as int);
                assert(self.area_at(read_idx as int) == old(self).area_at(read_idx as int));
            }
            let ghost prior = *self;
            let ghost lp = live_prefix(old(self).areas@, current_frame, read_idx as int);
            let ghost lp1 = live_prefix(old(self).areas@, current_frame, read_idx as int + 1);
            let slot = self.areas[read_idx];
            match slot {
                Some(area) => {
                    if !area.is_stale(current_frame, MAX_AGE_FRAMES) {
                        proof {
                            assert(area_live(old(self).areas@[read_idx as int], current_frame));
                            assert(lp1 == lp.push(area));
                        }
                        if write_idx != read_idx {
                            self.areas[write_idx] = Some(area);
                            self.areas[read_idx] = None;
                        }
                        proof {
                            assert forall|i: int| 0 <= i < write_idx as int + 1 implies self
                                .area_at(i) == Some(lp1[i]) by {
                                if i < write_idx as int {
                                    assert(self.area_at(i) == prior.area_at(i));
                                    assert(prior.area_at(i) == Some(lp[i]));
                                } else {
                                    assert(self.area_at(i) == Some(area));
                                }
                            }
                            assert forall|i: int|
                                write_idx as int + 1 <= i < read_idx as int + 1 implies self
                                .area_at(i) is None by {
                                if i < read_idx as int {
                                    assert(self.area_at(i) == prior.area_at(i));
                                }
                            }
                            assert forall|i: int|
                                read_idx as int + 1 <= i < CAPACITY as int implies self.area_at(i)
                                == old(self).area_at(i) by {
                                assert(self.area_at(i) == prior.area_at(i));
                            }
                        }
                        write_idx = write_idx + 1;
                    } else {
                        self.areas[read_idx] = None;
                        proof {
                            assert(!area_live(old(self).areas@[read_idx as int], current_frame));
                            assert(lp1 == lp);
                            assert(self.area_at(read_idx as int) is None);
                            assert forall|i: int|
                                0 <= i < CAPACITY as int && i != read_idx as int implies self
                                .area_at(i) == prior.area_at(i) by {
                                assert(self.areas@[i] == prior.areas@[i]);
                            }
                            assert forall|i: int| 0 <= i < write_idx as int implies self.area_at(i)
                                == Some(lp1[i]) by {
                                assert(self.area_at(i) == prior.area_at(i));
                                assert(prior.area_at(i) == Some(lp[i]));
                            }
                            assert forall|i: int|
                                write_idx as int <= i < read_idx as int + 1 implies self.area_at(i)
                                is None by {
                                if i != read_idx as int {
                                    assert(self.area_at(i) == prior.area_at(i));
                                }
                            }
                        }
                    }
                },
                None => {
                    proof {
                        assert(!area_live(old(self).areas@[read_idx as int], current_frame));
                        assert(lp1 == lp);
                        assert(self.area_at(read_idx as int) is None);
                        assert forall|i: int| 0 <= i < write_idx as int implies self.area_at(i)
                            == Some(lp1[i]) by {
                            assert(prior.area_at(i) == Some(lp[i]));
                        }
                    }
                },
            }
            read_idx = read_idx + 1;
        }
    }

    /// Begin a new frame: advance the frame counter, compact stale
    /// descriptors on the periodic cadence, and empty the pool.  With no
    /// intervening `add_area`, a `reset` leaves the pool's length at zero.
    pub fn reset(&mut self)
        requires
            old(self).wf(),
        ensures
            final(self).wf(),
            final(self).active() == 0,
            final(self).frame() == wrap_inc_spec(old(self).frame()),
            if old(self).frame() % CLEANUP_INTERVAL_FRAMES == 0 {
                ({
                    let live = live_prefix(
                        old(self).areas_view(),
                        old(self).frame(),
                        CAPACITY as int,
                    );
                    &&& forall|i: int|
                        0 <= i < live.len() ==> final(self).area_at(i) == Some(live[i])
                    &&& forall|i: int|
                        live.len() <= i < CAPACITY as int ==> final(self).area_at(i) is None
                })
            } else {
                forall|j: int|
                    0 <= j < CAPACITY as int ==> final(self).area_at(j) == old(self).area_at(j)
            },
    {
        let frame = self.frame_counter;
        self.frame_counter = if frame == u64::MAX {
            0
        } else {
            frame + 1
        };
        self.active_count = 0;

        let ghost mid = *self;
        if frame % CLEANUP_INTERVAL_FRAMES == 0 {
            self.cleanup_stale_areas(frame);
            proof {
                assert(mid.areas_view() == old(self).areas_view());
            }
        } else {
            proof {
                assert forall|j: int| 0 <= j < CAPACITY as int implies self.area_at(j) == old(
                    self,
                ).area_at(j) by {
                    assert(self.areas@[j] == old(self).areas@[j]);
                }
            }
        }
    }

    /// Append a descriptor for the given cache slot at the next free index.
    /// Fails with `CapacityExceeded`, changing nothing, when the pool is
    /// full.
    #[allow(clippy::too_many_arguments)]
    pub fn add_area(
        &mut self,
        buffer_cache_index: usize,
        text_hash: u64,
        left: u32,
        top: u32,
        scale: u32,
        bounds: TextBounds,
        default_color: Color,
    ) -> (r: Result<(), TextAreaPoolError>)
        requires
            old(self).wf(),
        ensures
            final(self).wf(),
            final(self).frame() == old(self).frame(),
            if old(self).active() >= CAPACITY as int {
                &&& r matches Err(e) && e == TextAreaPoolError::CapacityExceeded
                &&& final(self).active() == old(self).active()
                &&& forall|j: int|
                    0 <= j < CAPACITY as int ==> final(self).area_at(j) == old(self).area_at(j)
            } else {
                &&& r is Ok
                &&& final(self).active() == old(self).active() + 1
                &&& ({
                    let a = final(self).area_at(old(self).active())->0;
                    &&& final(self).area_at(old(self).active()) is Some
                    &&& a.cache_index_spec() == buffer_cache_index
                    &&& a.fingerprint_spec() == text_hash
                    &&& a.left_spec() == left
                    &&& a.top_spec() == top
                    &&& a.scale_spec() == scale
                    &&& a.bounds_spec() == bounds
                    &&& a.color_spec() == default_color
                    &&& a.created_spec() == old(self).frame()
                    &&& a.last_access_spec() == old(self).frame()
                })
                &&& forall|j: int|
                    0 <= j < CAPACITY as int && j != old(self).active() ==> final(self).area_at(j)
                        == old(self).area_at(j)
            },
    {
        let current_count = self.active_count;
        if current_count >= CAPACITY {
            return Err(TextAreaPoolError::CapacityExceeded);
        }

        let current_frame = self.frame_counter;
        let safe_area = SafeTextArea::new(
            buffer_cache_index,
            text_hash,
            left,
            top,
            scale,
            bounds,
            default_color,
            current_frame,
        );

        self.areas[current_count] = Some(safe_area);
        self.active_count = current_count + 1;

        proof {
            assert forall|j: int|
                0 <= j < CAPACITY as int && j != current_count as int implies self.area_at(j)
                == old(self).area_at(j) by {
                assert(self.areas@[j] == old(self).areas@[j]);
            }
            assert(self.area_at(current_count as int) == Some(safe_area));
            assert forall|i: int| 0 <= i < self.active() implies self.area_at(i) is Some by {
                if i != current_count as int {
                    assert(self.area_at(i) == old(self).area_at(i));
                }
            }
        }
        Ok(())
    }

    /// The active descriptors of this frame, in insertion order: exactly the
    /// first `len()` entries.
    pub fn iter_active(&self) -> (r: Vec<SafeTextArea>)
        requires
            self.wf(),
        ensures
            r@.len() == self.active(),
            forall|i: int| 0 <= i < self.active() ==> Some(r@[i]) == self.area_at(i),
    {
        let mut out: Vec<SafeTextArea> = Vec::new();
        let mut i: usize = 0;
        while i < self.active_count
            invariant
                self.wf(),
                i <= self.active(),
                out@.len() == i as int,
                forall|j: int| 0 <= j < i as int ==> Some(out@[j]) == self.area_at(j),
            decreases self.active_count - i,
        {
            let slot = self.areas[i];
            proof {
                assert(self.area_at(i as int) is Some);
            }
            out.push(slot.unwrap());
            i = i + 1;
        }
        out
    }

    /// Number of active descriptors.
    pub fn len(&self) -> (r: usize)
        ensures
            r as int == self.active(),
    {
        self.active_count
    }

    /// Whether the pool holds no active descriptor.
    pub fn is_empty(&self) -> (r: bool)
        ensures
            r == (self.active() == 0),
    {
        self.active_count == 0
    }

    /// The summed ages (frames since last access) of the first `n` active
    /// descriptors, saturating at the top of `u64`.
    pub open spec fn total_age_prefix(&self, frame: u64, n: int) -> u64
        decreases n,
    {
        if n <= 0 {
            0
        } else {
            sat_add_u64(
                self.total_age_prefix(frame, n - 1),
                age_of((self.area_at(n - 1)->0).last_access_spec(), frame),
            )
        }
    }

    /// The greatest age among the first `n` active descriptors.
    pub open spec fn oldest_age_prefix(&self, frame: u64, n: int) -> u64
        decreases n,
    {
        if n <= 0 {
            0
        } else {
            let rest = self.oldest_age_prefix(frame, n - 1);
            let a = age_of((self.area_at(n - 1)->0).last_access_spec(), frame);
            if a > rest {
                a
            } else {
                rest
            }
        }
    }

    /// Read-only snapshot of the pool: capacity, occupancy, and descriptor
    /// ages at the current frame.
    pub fn stats(&self) -> (r: PoolStats)
        requires
            self.wf(),
        ensures
            r.capacity == CAPACITY,
            r.active_count as int == self.active(),
            r.current_frame == self.frame(),
            r.oldest_age_frames == self.oldest_age_prefix(self.frame(), self.active()),
            r.average_age_frames == if self.active() > 0 {
                self.total_age_prefix(self.frame(), self.active()) / (self.active() as u64)
            } else {
                0
            },
    {
        let current_frame = self.frame_counter;
        let active_count = self.active_count;
        let mut total_age: u64 = 0;
        let mut oldest_age: u64 = 0;
        let mut i: usize = 0;
        while i < active_count
            invariant
                self.wf(),
                active_count as int == self.active(),
                current_frame == self.frame(),
                i <= active_count,
                total_age == self.total_age_prefix(current_frame, i as int),
                oldest_age == self.oldest_age_prefix(current_frame, i as int),
            decreases active_count - i,
        {
            proof {
                assert(self.area_at(i as int) is Some);
            }
            let area = self.areas[i].unwrap();
            let age = area.age_frames(current_frame);
            total_age = if total_age >= u64::MAX - age {
                u64::MAX
            } else {
                total_age + age
            };
            if age > oldest_age {
                oldest_age = age;
            }
            i = i + 1;
        }
        let average_age: u64 = if active_count > 0 {
            total_age / (active_count as u64)
        } else {
            0
        };
        PoolStats {
            capacity: CAPACITY,
            active_count,
            average_age_frames: average_age,
            oldest_age_frames: oldest_age,
            current_frame,
        }
    }

    /// Occupancy as a percentage of capacity, rounded down.
    pub fn utilization(&self) -> (r: u64)
        requires
            self.wf(),
            CAPACITY >= 1,
        ensures
            r as int == self.active() * 100 / (CAPACITY as int),
            r <= 100,
    {
        proof {
            vstd::arithmetic::div_mod::lemma_div_is_ordered(
                self.active() * 100,
                CAPACITY as int * 100,
                CAPACITY as int,
            );
            vstd::arithmetic::div_mod::lemma_div_multiples_vanish(100, CAPACITY as int);
        }
        let percent: u128 = (self.active_count as u128) * 100 / (CAPACITY as u128);
        percent as u64
    }
}

/// The text area pool at the capacity the renderer uses.
pub type TextAreaPool = ZeroAllocTextAreaPool<TEXT_AREA_POOL_SIZE>;

} // verus!
