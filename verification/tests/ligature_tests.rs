//! Tests for ligature configuration and helpers.

use glyphgrid::ligature::{font_supports_ligatures, recommended_shaping, LigatureHelper};
use glyphgrid::ligature_config::{LigatureConfig, LigatureConfigBuilder};
use glyphgrid::shaper::{is_blank, ShapingMode};

#[test]
fn overrides_beat_the_global_switch() {
    let mut config = LigatureConfig::disabled();
    assert!(!config.is_enabled_for_font("FiraCode"));
    config.set_font_override(String::from("FiraCode"), true);
    assert!(config.is_enabled_for_font("FiraCode"));
    assert!(!config.is_enabled_for_font("Menlo"));
    config.set_globally_enabled(true);
    assert!(config.is_enabled_for_font("Menlo"));
    config.remove_font_override("FiraCode");
    assert!(config.is_enabled_for_font("FiraCode"));
    config.set_globally_enabled(false);
    assert!(!config.is_enabled_for_font("FiraCode"));
}

#[test]
fn setting_an_override_twice_keeps_the_latest_value() {
    let mut config = LigatureConfig::enabled();
    config.set_font_override(String::from("Menlo"), false);
    config.set_font_override(String::from("Menlo"), true);
    assert!(config.is_enabled_for_font("Menlo"));
    config.set_font_override(String::from("Menlo"), false);
    assert!(!config.is_enabled_for_font("Menlo"));
}

#[test]
fn programming_defaults_know_common_fonts() {
    let config = LigatureConfig::with_programming_defaults();
    assert!(config.is_globally_enabled());
    assert!(config.is_enabled_for_font("FiraCode"));
    assert!(config.is_enabled_for_font("JetBrains Mono"));
    assert!(config.is_enabled_for_font("Iosevka"));
    assert!(!config.is_enabled_for_font("Monaco"));
    assert!(!config.is_enabled_for_font("Courier New"));
    // A font with no override falls back to the global switch.
    assert!(config.is_enabled_for_font("Some Unknown Font"));
}

#[test]
fn builder_collects_overrides() {
    let config = LigatureConfigBuilder::new()
        .enabled(false)
        .font_override(String::from("Hack"), true)
        .build();
    assert!(!config.is_globally_enabled());
    assert!(config.is_enabled_for_font("Hack"));
    assert!(!config.is_enabled_for_font("Menlo"));
}

#[test]
fn name_heuristic_lowercases_before_matching() {
    // The match happens on the lowercased name, so case must not matter;
    // this fails if the lowercasing boundary handed its input back unchanged
    // in a way that breaks case folding.
    assert!(font_supports_ligatures("FiraCode"));
    assert!(font_supports_ligatures("FIRACODE"));
    assert!(font_supports_ligatures("fira code retina"));
    assert!(font_supports_ligatures("My Iosevka Custom"));
    assert!(font_supports_ligatures("CASCADIA code"));
    assert!(!font_supports_ligatures("Menlo"));
    assert!(!font_supports_ligatures("Courier New"));
}

#[test]
fn recommended_shaping_follows_the_heuristic() {
    assert_eq!(recommended_shaping("JetBrains Mono"), ShapingMode::Advanced);
    assert_eq!(recommended_shaping("Menlo"), ShapingMode::Basic);
}

#[test]
fn helper_picks_the_shaping_mode_per_font() {
    let mut helper = LigatureHelper::with_programming_defaults();
    assert_eq!(helper.shaping_for_font("FiraCode"), ShapingMode::Advanced);
    assert_eq!(helper.shaping_for_font("Monaco"), ShapingMode::Basic);
    assert!(helper.should_enable_ligatures("FiraCode"));
    helper.set_font_override(String::from("FiraCode"), false);
    assert_eq!(helper.shaping_for_font("FiraCode"), ShapingMode::Basic);
    assert!(helper.is_globally_enabled());
    helper.set_globally_enabled(false);
    assert!(!helper.is_globally_enabled());
    assert_eq!(LigatureHelper::enabled().shaping_for_font("anything"), ShapingMode::Advanced);
    assert_eq!(LigatureHelper::disabled().shaping_for_font("anything"), ShapingMode::Basic);
}

#[test]
fn blank_detection_spans_whitespace_kinds() {
    // Exercises the whitespace decision on every character.
    assert!(is_blank(""));
    assert!(is_blank(" "));
    assert!(is_blank(" \t\n\r "));
    assert!(is_blank("\u{a0}\u{2003}"));
    assert!(!is_blank(" a "));
    assert!(!is_blank("."));
}
