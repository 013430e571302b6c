//! A verified core for a cached text-shaping pipeline.
//!
//! Styled rows of characters are rendered every frame; shaping a row (turning
//! its text into positioned glyphs) is expensive, so shaped results are kept in
//! a fixed-capacity cache keyed by a content fingerprint, and a per-frame pool
//! of draw descriptors records where each cached shape should be drawn.  The
//! cache and the pool never allocate on the per-frame hot path and never grow.

pub mod advanced_text;
pub mod cache;
pub mod cell;
pub mod color;
pub mod error;
pub mod frame;
pub mod fingerprint;
pub mod ligature;
pub mod ligature_config;
pub mod pool;
pub mod shaper;
pub mod text_rendering;
