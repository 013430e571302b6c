//! Per-frame batch bookkeeping: the frame counter and the viewport dirty
//! flag.  The dirty flag is kept as a word, zero for clean and one for
//! dirty.

use vstd::prelude::*;

use crate::pool::wrap_inc_spec;

verus! {

/// Timing facts derived from the frame counter, for adaptive work
/// scheduling.
#[derive(Debug, Clone, Copy, PartialEq, Eq, Structural)]
pub struct FrameTimingInfo {
    pub frame_number: u64,
    pub is_even_frame: bool,
    pub is_key_frame: bool,
    pub phase: u64,
}

/// Frame counter and viewport dirty flag for one render batch.
pub struct BatchContext {
    pub frame_count: u64,
    pub viewport_dirty: u64,
}

impl BatchContext {
    /// A fresh context: frame zero, viewport dirty.
    pub fn new() -> (r: Self)
        ensures
            r.frame_count == 0,
            r.viewport_dirty == 1,
    {
        BatchContext { frame_count: 0, viewport_dirty: 1 }
    }

    /// Begin a new frame: hand back the old frame number, advance the
    /// counter, and mark the viewport dirty.
    pub fn begin_frame(&mut self) -> (r: u64)
        ensures
            r == old(self).frame_count,
            final(self).frame_count == wrap_inc_spec(old(self).frame_count),
            final(self).viewport_dirty == 1,
    {
        let frame = self.frame_count;
        self.frame_count = if frame == u64::MAX {
            0
        } else {
            frame + 1
        };
        self.viewport_dirty = 1;
        frame
    }

    /// Mark the viewport clean.
    pub fn clear_dirty_flags(&mut self)
        ensures
            final(self).viewport_dirty == 0,
            final(self).frame_count == old(self).frame_count,
    {
        self.viewport_dirty = 0;
    }

    /// Whether the viewport is dirty.
    pub fn is_viewport_dirty(&self) -> (r: bool)
        ensures
            r == (self.viewport_dirty != 0),
    {
        self.viewport_dirty != 0
    }

    /// The current frame number.
    pub fn current_frame(&self) -> (r: u64)
        ensures
            r == self.frame_count,
    {
        self.frame_count
    }

    /// Whether this frame falls on the given trim cadence.  An interval of
    /// zero never trims.
    pub fn should_trim_atlas(&self, interval: u64) -> (r: bool)
        ensures
            r == (interval != 0 && self.frame_count % interval == 0),
    {
        if interval == 0 {
            return false;
        }
        self.frame_count % interval == 0
    }

    /// Timing facts for the current frame: parity, a once-a-second key
    /// frame, and a four-phase rotation for spreading work out.
    pub fn get_frame_timing_info(&self) -> (r: FrameTimingInfo)
        ensures
            r.frame_number == self.frame_count,
            r.is_even_frame == (self.frame_count % 2 == 0),
            r.is_key_frame == (self.frame_count % 60 == 0),
            r.phase == self.frame_count % 4,
    {
        let current_frame = self.frame_count;
        FrameTimingInfo {
            frame_number: current_frame,
            is_even_frame: current_frame % 2 == 0,
            is_key_frame: current_frame % 60 == 0,
            phase: current_frame % 4,
        }
    }
}

impl Default for BatchContext {
    /// A fresh context.
    fn default() -> (r: Self)
        ensures
            r.frame_count == 0,
            r.viewport_dirty == 1,
    {
        Self::new()
    }
}

} // verus!
