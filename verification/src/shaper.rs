//! The trusted boundary to the external text shaper (cosmic-text).
//!
//! The shaper turns a string plus font attributes into a shaped `Buffer` of
//! positioned glyphs.  The cache treats that buffer as an opaque payload: no
//! verified code ever reads inside one, so the wrappers here state only what
//! the shaper's source plainly shows.  What a shaping call produces depends on
//! the fonts loaded into the `FontSystem`, so no wrapper promises anything
//! about a buffer's contents.
//!
//! Shaping panics on two kinds of input, and the wrappers exclude both by
//! `requires`: a stored line holding several Unicode bidi paragraphs of
//! differing direction (reachable only through the paragraph-breaking
//! characters that the shaper's line splitting does not strip), and a font
//! system whose fallback search yields no font at all.

use vstd::prelude::*;

verus! {

/// The shaping mode requested from the shaper.  `Advanced` enables ligatures
/// and full Unicode shaping; `Basic` maps characters to glyphs directly.
#[derive(Clone, Copy, Debug, PartialEq, Eq, Structural)]
pub enum ShapingMode {
    Basic,
    Advanced,
}

#[verifier::external_type_specification]
#[verifier::external_body]
pub struct ExBuffer(cosmic_text::Buffer);

#[verifier::external_type_specification]
#[verifier::external_body]
pub struct ExFontSystem(cosmic_text::FontSystem);

#[verifier::external_type_specification]
#[verifier::external_body]
pub struct ExMetrics(cosmic_text::Metrics);

#[verifier::external_type_specification]
#[verifier::external_body]
pub struct ExAttrs<'a>(cosmic_text::Attrs<'a>);

#[verifier::external_type_specification]
#[verifier::external_body]
pub struct ExFamily<'a>(cosmic_text::Family<'a>);

/// Holds when a `Metrics` value can be given to `cosmic_text::Buffer::new`
/// without panicking: its line height is not (positive or negative) zero.
pub uninterp spec fn metrics_ok(m: cosmic_text::Metrics) -> bool;

/// A character at which Unicode breaks a bidi paragraph but the shaper's
/// line splitting does not break a line: the paragraph separator, the next
/// line character, and the three information separators.  A stored line
/// holding one of these can span several bidi paragraphs, and shaping
/// asserts that all paragraphs of a line share one direction.
pub open spec fn is_forced_break(c: char) -> bool {
    c == '\u{2029}' || c == '\u{0085}' || c == '\u{001C}' || c == '\u{001D}' || c == '\u{001E}'
}

/// Text that shaping accepts: free of the paragraph-breaking characters
/// above.  Line feeds and carriage returns are fine; the shaper splits
/// lines on them before shaping.
pub open spec fn shape_safe_text(s: Seq<char>) -> bool {
    forall|i: int| 0 <= i < s.len() ==> !is_forced_break(s[i])
}

/// Decide whether `text` is free of the paragraph-breaking characters that
/// shaping cannot accept.
pub fn is_shape_safe(text: &str) -> (r: bool)
    ensures
        r == shape_safe_text(text@),
{
    let n = text.unicode_len();
    let mut i: usize = 0;
    while i < n
        invariant
            n == text@.len(),
            i <= n,
            forall|j: int| 0 <= j < i ==> !is_forced_break(text@[j]),
        decreases n - i,
    {
        let c = text.get_char(i);
        if c == '\u{2029}' || c == '\u{0085}' || c == '\u{001C}' || c == '\u{001D}' || c
            == '\u{001E}' {
            return false;
        }
        i = i + 1;
    }
    true
}

/// Holds when the font system's fallback search finds at least one font for
/// every shaping request: the condition under which shaping never panics
/// for want of a font.  A font system backed by a database with the
/// platform's usual text fonts satisfies it; one with an empty database
/// does not.  No verified code can decide this, so it stands as a named
/// assumption that callers discharge by loading fonts; shaping itself never
/// adds or removes fonts, which the wrappers state.
pub uninterp spec fn shaping_fonts_available(fs: cosmic_text::FontSystem) -> bool;

/// Holds when every line stored in the buffer is a single bidi paragraph,
/// so that the direction assertion in shaping cannot fire.  Established by
/// setting paragraph-break-free text, and kept by shaping, which does not
/// change the text.
pub uninterp spec fn buffer_text_shapeable(b: cosmic_text::Buffer) -> bool;

/// Relies on the representation of `cosmic_text::Metrics`: `line_height` is a
/// public 32-bit IEEE-754 field, and `Buffer::new` asserts that it is not
/// equal to zero.  The two bit patterns excluded here are exactly the ones
/// that compare equal to zero.
#[verifier::external_body]
pub fn metrics_usable(m: &cosmic_text::Metrics) -> (r: bool)
    ensures
        r == metrics_ok(*m),
{
    let bits = m.line_height.to_bits();
    bits != 0 && bits != 0x8000_0000
}

/// Relies on `cosmic_text::Buffer::new`, which builds a buffer holding the
/// empty text with the given metrics; it panics only when the line height
/// is zero, which `metrics_ok` rules out (shaping the empty line never
/// looks a font up).  The empty text has no paragraph break, and nothing
/// here loads or drops fonts.
#[verifier::external_body]
pub fn buffer_new(
    font_system: &mut cosmic_text::FontSystem,
    metrics: cosmic_text::Metrics,
) -> (r: cosmic_text::Buffer)
    requires
        metrics_ok(metrics),
    ensures
        buffer_text_shapeable(r),
        shaping_fonts_available(*final(font_system)) == shaping_fonts_available(
            *old(font_system),
        ),
{
    cosmic_text::Buffer::new(font_system, metrics)
}

/// Relies on `cosmic_text::Buffer::set_text`, which replaces the buffer's
/// text and marks it for reshaping; it stores lines split on line feeds and
/// carriage returns and never panics.  Text free of the remaining
/// paragraph-breaking characters therefore yields one bidi paragraph per
/// stored line.
#[verifier::external_body]
pub fn buffer_set_text(
    buffer: &mut cosmic_text::Buffer,
    text: &str,
    attrs: &cosmic_text::Attrs,
    mode: ShapingMode,
)
    ensures
        shape_safe_text(text@) ==> buffer_text_shapeable(*final(buffer)),
{
    let shaping = match mode {
        ShapingMode::Basic => cosmic_text::Shaping::Basic,
        ShapingMode::Advanced => cosmic_text::Shaping::Advanced,
    };
    buffer.set_text(text, attrs, shaping, None);
}

/// Relies on `cosmic_text::Buffer::shape_until_scroll`, which shapes and
/// lays out the buffer's visible lines using the fonts in `font_system`.
/// It panics when a stored line spans bidi paragraphs of differing
/// direction, or when the fallback search finds no font; the two `requires`
/// exclude exactly those inputs.  Shaping changes neither the buffer's text
/// nor the set of available fonts.
#[verifier::external_body]
pub fn buffer_shape(
    buffer: &mut cosmic_text::Buffer,
    font_system: &mut cosmic_text::FontSystem,
)
    requires
        buffer_text_shapeable(*old(buffer)),
        shaping_fonts_available(*old(font_system)),
    ensures
        buffer_text_shapeable(*final(buffer)),
        shaping_fonts_available(*final(font_system)) == shaping_fonts_available(
            *old(font_system),
        ),
{
    buffer.shape_until_scroll(font_system, false);
}

/// Relies on `cosmic_text::Buffer::layout_runs`, which iterates the laid-out
/// runs.  Whether any run exists depends on the fonts available to the
/// shaper, so nothing more can be promised of the answer.
#[verifier::external_body]
pub fn buffer_has_layout_runs(buffer: &cosmic_text::Buffer) -> bool {
    buffer.layout_runs().next().is_some()
}

/// Relies on `cosmic_text::Attrs::new` and `Attrs::family`: the default
/// font attributes, narrowed to the monospace family.
#[verifier::external_body]
pub fn monospace_attrs() -> cosmic_text::Attrs<'static> {
    cosmic_text::Attrs::new().family(cosmic_text::Family::Monospace)
}

/// Holds when `c` has the Unicode `White_Space` property, as decided by
/// `char::is_whitespace`.
pub uninterp spec fn is_unicode_whitespace(c: char) -> bool;

/// Relies on `char::is_whitespace`: the answer depends on the character
/// alone, and a space is whitespace.
pub assume_specification[ char::is_whitespace ](c: char) -> (r: bool)
    ensures
        r == is_unicode_whitespace(c),
        c == ' ' ==> r,
;

/// A text is blank when every character in it is whitespace; the empty text
/// is blank.
pub open spec fn blank_text(s: Seq<char>) -> bool {
    forall|i: int| 0 <= i < s.len() ==> is_unicode_whitespace(s[i])
}

/// Decide whether `text` consists of whitespace alone.
pub fn is_blank(text: &str) -> (r: bool)
    ensures
        r == blank_text(text@),
{
    let n = text.unicode_len();
    let mut i: usize = 0;
    while i < n
        invariant
            n == text@.len(),
            i <= n,
            forall|j: int| 0 <= j < i ==> is_unicode_whitespace(text@[j]),
        decreases n - i,
    {
        if !text.get_char(i).is_whitespace() {
            return false;
        }
        i = i + 1;
    }
    true
}

} // verus!
