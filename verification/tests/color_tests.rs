//! Tests for the color palette.

use glyphgrid::color::{Color, ColorModifier, ColorPalette, LIGHT_GRAY, RED, WHITE};

#[test]
fn default_palette_holds_the_standard_colors() {
    let palette = ColorPalette::new();
    assert_eq!(palette.get_glyph_color(0), Color { r: 0, g: 0, b: 0, a: 255 });
    assert_eq!(palette.get_glyph_color(5), Color { r: 128, g: 0, b: 128, a: 255 });
    assert_eq!(palette.get_glyph_color(LIGHT_GRAY), Color { r: 192, g: 192, b: 192, a: 255 });
    assert_eq!(palette.get_glyph_color(RED), Color { r: 255, g: 0, b: 0, a: 255 });
    assert_eq!(palette.get_glyph_color(WHITE), Color { r: 255, g: 255, b: 255, a: 255 });
    // The grayscale ramp: entry 16 is black, entry 255 is near-white.
    assert_eq!(palette.get_glyph_color(16), Color { r: 0, g: 0, b: 0, a: 255 });
    let last = palette.get_glyph_color(255);
    assert_eq!(last.r, last.g);
    assert_eq!(last.g, last.b);
    assert_eq!(last.r as u32, (239u32 * 255) / 240);
}

#[test]
fn set_color_and_reset() {
    let mut palette = ColorPalette::new();
    palette.set_color(10, 1, 2, 3, 4);
    assert_eq!(palette.get_glyph_color(10), Color { r: 1, g: 2, b: 3, a: 4 });
    palette.set_rgb(11, 9, 8, 7);
    assert_eq!(palette.get_glyph_color(11), Color { r: 9, g: 8, b: 7, a: 255 });
    palette.reset();
    assert_eq!(palette.get_glyph_color(10), Color { r: 0, g: 255, b: 0, a: 255 });
}

#[test]
fn modifiers_remap_the_basic_range_only() {
    let palette = ColorPalette::new();
    assert_eq!(palette.apply_modifier(3, ColorModifier::Unchanged), 3);
    assert_eq!(palette.apply_modifier(3, ColorModifier::Bright), 11);
    assert_eq!(palette.apply_modifier(11, ColorModifier::Bright), 11);
    assert_eq!(palette.apply_modifier(11, ColorModifier::Dim), 3);
    assert_eq!(palette.apply_modifier(3, ColorModifier::Dim), 3);
    assert_eq!(palette.apply_modifier(200, ColorModifier::Bright), 200);
}

#[test]
fn find_closest_color_prefers_exact_and_then_lowest_index() {
    let palette = ColorPalette::new();
    assert_eq!(palette.find_closest_color(255, 0, 0), RED);
    assert_eq!(palette.find_closest_color(0, 0, 0), 0);
    // Pure white matches the standard white at index 15 before the end of
    // the grayscale ramp, because the lowest index wins among exact ties.
    assert_eq!(palette.find_closest_color(255, 255, 255), WHITE);
}

#[test]
fn load_palette_overwrites_a_prefix() {
    let mut palette = ColorPalette::new();
    let custom = vec![
        Color { r: 10, g: 20, b: 30, a: 0 },
        Color { r: 40, g: 50, b: 60, a: 0 },
    ];
    palette.load_palette(&custom);
    // Alpha is forced to full opacity.
    assert_eq!(palette.get_glyph_color(0), Color { r: 10, g: 20, b: 30, a: 255 });
    assert_eq!(palette.get_glyph_color(1), Color { r: 40, g: 50, b: 60, a: 255 });
    // Entries past the loaded prefix keep their defaults.
    assert_eq!(palette.get_glyph_color(2), Color { r: 0, g: 128, b: 0, a: 255 });
}
