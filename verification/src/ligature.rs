//! Ligature helper: decides the shaping mode per font and builds shaped
//! buffers with the right ligature settings.

use vstd::prelude::*;

use crate::ligature_config::{lower_of, suggests_ligatures, LigatureConfig};
use crate::shaper::{
    buffer_new, buffer_set_text, buffer_shape, metrics_ok, shape_safe_text,
    shaping_fonts_available, ShapingMode,
};

verus! {

/// Wraps a `LigatureConfig` and turns its decisions into shaping modes.
pub struct LigatureHelper {
    config: LigatureConfig,
}

impl LigatureHelper {
    /// The wrapped configuration.
    pub closed spec fn config_spec(&self) -> LigatureConfig {
        self.config
    }

    /// Wrap the given configuration.
    pub fn new(config: LigatureConfig) -> (r: Self)
        ensures
            r.config_spec() == config,
    {
        LigatureHelper { config }
    }

    /// A helper with the programming-font defaults.
    pub fn with_programming_defaults() -> (r: Self)
        ensures
            r.config_spec().wf(),
            r.config_spec().enabled,
    {
        Self::new(LigatureConfig::with_programming_defaults())
    }

    /// A helper with ligatures enabled globally.
    pub fn enabled() -> (r: Self)
        ensures
            r.config_spec().wf(),
            r.config_spec().enabled,
            r.config_spec().font_overrides@.len() == 0,
    {
        Self::new(LigatureConfig::enabled())
    }

    /// A helper with ligatures disabled globally.
    pub fn disabled() -> (r: Self)
        ensures
            r.config_spec().wf(),
            !r.config_spec().enabled,
            r.config_spec().font_overrides@.len() == 0,
    {
        Self::new(LigatureConfig::disabled())
    }

    /// Borrow the wrapped configuration.
    pub fn config(&self) -> (r: &LigatureConfig)
        ensures
            *r == self.config_spec(),
    {
        &self.config
    }

    /// Replace the wrapped configuration.
    pub fn set_config(&mut self, config: LigatureConfig)
        ensures
            final(self).config_spec() == config,
    {
        self.config = config;
    }

    /// The shaping mode for a font: `Advanced` (ligatures) when the
    /// configuration enables them for the font, `Basic` otherwise.
    pub fn shaping_for_font(&self, font_name: &str) -> (r: ShapingMode)
        ensures
            r == if self.config_spec().enabled_for(font_name@) {
                ShapingMode::Advanced
            } else {
                ShapingMode::Basic
            },
    {
        if self.config.is_enabled_for_font(font_name) {
            ShapingMode::Advanced
        } else {
            ShapingMode::Basic
        }
    }

    /// Build a shaped buffer for `text` with the ligature settings that the
    /// configuration picks for `font_name`.  The `requires` exclude the
    /// shaper's panics: the text must be free of paragraph-breaking
    /// characters (test with `is_shape_safe` first) and the font system's
    /// fallback search must find fonts.
    pub fn create_buffer(
        &self,
        text: &str,
        font_system: &mut cosmic_text::FontSystem,
        metrics: cosmic_text::Metrics,
        attrs: &cosmic_text::Attrs,
        font_name: &str,
    ) -> cosmic_text::Buffer
        requires
            metrics_ok(metrics),
            shape_safe_text(text@),
            shaping_fonts_available(*old(font_system)),
    {
        let shaping = self.shaping_for_font(font_name);
        let mut buffer = buffer_new(font_system, metrics);
        buffer_set_text(&mut buffer, text, attrs, shaping);
        buffer_shape(&mut buffer, font_system);
        buffer
    }

    /// Whether ligatures should be enabled for a font.
    pub fn should_enable_ligatures(&self, font_name: &str) -> (r: bool)
        ensures
            r == self.config_spec().enabled_for(font_name@),
    {
        self.config.is_enabled_for_font(font_name)
    }

    /// Store a font-specific override.
    pub fn set_font_override(&mut self, font_name: String, enabled: bool)
        requires
            old(self).config_spec().wf(),
        ensures
            final(self).config_spec().wf(),
            final(self).config_spec().enabled == old(self).config_spec().enabled,
            final(self).config_spec().override_for(font_name@) == Some(enabled),
            forall|k: Seq<char>|
                k != font_name@ ==> final(self).config_spec().override_for(k) == old(
                    self,
                ).config_spec().override_for(k),
    {
        self.config.set_font_override(font_name, enabled);
    }

    /// Set the global switch.
    pub fn set_globally_enabled(&mut self, enabled: bool)
        ensures
            final(self).config_spec().enabled == enabled,
            final(self).config_spec().font_overrides == old(
                self,
            ).config_spec().font_overrides,
    {
        self.config.set_globally_enabled(enabled);
    }

    /// The global switch.
    pub fn is_globally_enabled(&self) -> (r: bool)
        ensures
            r == self.config_spec().enabled,
    {
        self.config.is_globally_enabled()
    }
}

impl Default for LigatureHelper {
    /// A helper with the programming-font defaults.
    fn default() -> (r: Self)
        ensures
            r.config_spec().wf(),
            r.config_spec().enabled,
    {
        Self::with_programming_defaults()
    }
}

/// Relies on the `cosmic_text::Attrs` builders: font attributes for code
/// rendering — the monospace family at normal weight and style.
#[verifier::external_body]
pub fn code_font_attrs() -> cosmic_text::Attrs<'static> {
    cosmic_text::Attrs::new().family(cosmic_text::Family::Monospace).weight(
        cosmic_text::Weight::NORMAL,
    ).style(cosmic_text::Style::Normal)
}

/// Relies on the `cosmic_text::Attrs` builders: font attributes for a
/// specific family at normal weight and style.
#[verifier::external_body]
pub fn font_attrs_for_family(family: cosmic_text::Family<'static>) -> cosmic_text::Attrs<
    'static,
> {
    cosmic_text::Attrs::new().family(family).weight(cosmic_text::Weight::NORMAL).style(
        cosmic_text::Style::Normal,
    )
}

/// Whether the font's name alone suggests good ligature support.
pub fn font_supports_ligatures(font_name: &str) -> (r: bool)
    ensures
        r == suggests_ligatures(lower_of(font_name@)),
{
    LigatureConfig::font_has_good_ligature_support(font_name)
}

/// The shaping mode recommended for a font from its name alone.
pub fn recommended_shaping(font_name: &str) -> (r: ShapingMode)
    ensures
        r == if suggests_ligatures(lower_of(font_name@)) {
            ShapingMode::Advanced
        } else {
            ShapingMode::Basic
        },
{
    if font_supports_ligatures(font_name) {
        ShapingMode::Advanced
    } else {
        ShapingMode::Basic
    }
}

} // verus!
