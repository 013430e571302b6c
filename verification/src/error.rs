//! Error types of the text-rendering core.

use vstd::prelude::*;

verus! {

/// Errors of the shaping pipeline.
#[derive(Debug, Clone)]
pub enum TextRenderingError {
    FontSystemCreationFailed,
    BufferCreationFailed,
    ShapingFailed,
    GlyphExtractionFailed,
    CacheError(String),
    InvalidCacheIndex,
}

/// Errors of the per-frame text area pool.
#[derive(Debug, Clone, Copy, PartialEq, Eq, Structural)]
pub enum TextAreaPoolError {
    CapacityExceeded,
    CacheIndexNotFound,
}

impl TextRenderingError {
    /// A short description of the error.
    pub fn message(&self) -> (r: &'static str)
        ensures
            r@.len() > 0,
    {
        let s: &'static str = match self {
            TextRenderingError::FontSystemCreationFailed => "failed to create font system",
            TextRenderingError::BufferCreationFailed => "failed to create text buffer",
            TextRenderingError::ShapingFailed => "failed to shape text",
            TextRenderingError::GlyphExtractionFailed => "failed to extract glyphs from shaped text",
            TextRenderingError::CacheError(_) => "cache error",
            TextRenderingError::InvalidCacheIndex => "invalid cache index",
        };
        proof {
            reveal_strlit("failed to create font system");
            reveal_strlit("failed to create text buffer");
            reveal_strlit("failed to shape text");
            reveal_strlit("failed to extract glyphs from shaped text");
            reveal_strlit("cache error");
            reveal_strlit("invalid cache index");
        }
        s
    }
}

impl TextAreaPoolError {
    /// A short description of the error.
    pub fn message(&self) -> (r: &'static str)
        ensures
            r@.len() > 0,
    {
        let s: &'static str = match self {
            TextAreaPoolError::CapacityExceeded => "text area pool capacity exceeded",
            TextAreaPoolError::CacheIndexNotFound => "cache index not found in shape cache",
        };
        proof {
            reveal_strlit("text area pool capacity exceeded");
            reveal_strlit("cache index not found in shape cache");
        }
        s
    }
}

} // verus!
