//! Color palette for terminal cell rendering.
//!
//! The palette maps 8-bit color indices to RGBA colors.  The sixteen
//! standard terminal colors occupy the first slots; the remainder is filled
//! with a grayscale ramp.  Conversions into linear color space are display
//! work in floating point and live outside the verified core; the palette
//! here keeps the 8-bit sRGB values that every lookup reads.

use vstd::prelude::*;

verus! {

/// Number of palette slots: the full 8-bit index space.
pub const COLOR_PALETTE_SIZE: usize = 256;

/// An 8-bit RGBA color.
#[derive(Clone, Copy, Debug, PartialEq, Eq, Structural)]
pub struct Color {
    pub r: u8,
    pub g: u8,
    pub b: u8,
    pub a: u8,
}

/// Style modifiers that remap a color index.
#[derive(Debug, Clone, Copy, PartialEq, Eq, Structural)]
pub enum ColorModifier {
    Unchanged,
    Bright,
    Dim,
}

/// Standard color indices.
pub const BLACK: u8 = 0;

pub const DARK_RED: u8 = 1;

pub const DARK_GREEN: u8 = 2;

pub const DARK_YELLOW: u8 = 3;

pub const DARK_BLUE: u8 = 4;

pub const DARK_MAGENTA: u8 = 5;

pub const DARK_CYAN: u8 = 6;

pub const LIGHT_GRAY: u8 = 7;

pub const DARK_GRAY: u8 = 8;

pub const RED: u8 = 9;

pub const GREEN: u8 = 10;

pub const YELLOW: u8 = 11;

pub const BLUE: u8 = 12;

pub const MAGENTA: u8 = 13;

pub const CYAN: u8 = 14;

pub const WHITE: u8 = 15;

/// An opaque color from its three channels.
pub open spec fn rgb(r: u8, g: u8, b: u8) -> Color {
    Color { r, g, b, a: 255 }
}

/// The default palette: sixteen standard colors, then a grayscale ramp.
pub open spec fn default_color_at(i: int) -> Color {
    if i == 0 {
        rgb(0, 0, 0)
    } else if i == 1 {
        rgb(128, 0, 0)
    } else if i == 2 {
        rgb(0, 128, 0)
    } else if i == 3 {
        rgb(128, 128, 0)
    } else if i == 4 {
        rgb(0, 0, 128)
    } else if i == 5 {
        rgb(128, 0, 128)
    } else if i == 6 {
        rgb(0, 128, 128)
    } else if i == 7 {
        rgb(192, 192, 192)
    } else if i == 8 {
        rgb(128, 128, 128)
    } else if i == 9 {
        rgb(255, 0, 0)
    } else if i == 10 {
        rgb(0, 255, 0)
    } else if i == 11 {
        rgb(255, 255, 0)
    } else if i == 12 {
        rgb(0, 0, 255)
    } else if i == 13 {
        rgb(255, 0, 255)
    } else if i == 14 {
        rgb(0, 255, 255)
    } else if i == 15 {
        rgb(255, 255, 255)
    } else {
        rgb(
            (((i - 16) * 255) / 240) as u8,
            (((i - 16) * 255) / 240) as u8,
            (((i - 16) * 255) / 240) as u8,
        )
    }
}

/// The squared channel distance between a palette color and an RGB triple.
pub open spec fn color_dist(c: Color, r: u8, g: u8, b: u8) -> int {
    (c.r - r) * (c.r - r) + (c.g - g) * (c.g - g) + (c.b - b) * (c.b - b)
}

/// The color palette: 256 RGBA colors addressed by `u8` index.
pub struct ColorPalette {
    colors: Vec<Color>,
}

impl ColorPalette {
    /// The color stored at index `i`.
    pub closed spec fn color_at(&self, i: int) -> Color {
        self.colors@[i]
    }

    /// Well-formedness: all 256 slots exist.
    pub closed spec fn wf(&self) -> bool {
        self.colors@.len() == COLOR_PALETTE_SIZE as int
    }

    /// Build the default palette.
    pub fn new() -> (r: Self)
        ensures
            r.wf(),
            forall|i: int| 0 <= i < 256 ==> r.color_at(i) == default_color_at(i),
    {
        let mut colors: Vec<Color> = Vec::new();
        colors.push(Color { r: 0, g: 0, b: 0, a: 255 });
        colors.push(Color { r: 128, g: 0, b: 0, a: 255 });
        colors.push(Color { r: 0, g: 128, b: 0, a: 255 });
        colors.push(Color { r: 128, g: 128, b: 0, a: 255 });
        colors.push(Color { r: 0, g: 0, b: 128, a: 255 });
        colors.push(Color { r: 128, g: 0, b: 128, a: 255 });
        colors.push(Color { r: 0, g: 128, b: 128, a: 255 });
        colors.push(Color { r: 192, g: 192, b: 192, a: 255 });
        colors.push(Color { r: 128, g: 128, b: 128, a: 255 });
        colors.push(Color { r: 255, g: 0, b: 0, a: 255 });
        colors.push(Color { r: 0, g: 255, b: 0, a: 255 });
        colors.push(Color { r: 255, g: 255, b: 0, a: 255 });
        colors.push(Color { r: 0, g: 0, b: 255, a: 255 });
        colors.push(Color { r: 255, g: 0, b: 255, a: 255 });
        colors.push(Color { r: 0, g: 255, b: 255, a: 255 });
        colors.push(Color { r: 255, g: 255, b: 255, a: 255 });
        let mut i: usize = 16;
        while i < COLOR_PALETTE_SIZE
            invariant
                16 <= i <= COLOR_PALETTE_SIZE,
                colors@.len() == i as int,
                forall|j: int| 0 <= j < i as int ==> colors@[j] == default_color_at(j),
            decreases COLOR_PALETTE_SIZE - i,
        {
            let intensity: u8 = (((i - 16) * 255) / 240) as u8;
            colors.push(Color { r: intensity, g: intensity, b: intensity, a: 255 });
            i = i + 1;
        }
        ColorPalette { colors }
    }

    /// Read the color for a glyph at palette index `index`.
    pub fn get_glyph_color(&self, index: u8) -> (r: Color)
        requires
            self.wf(),
        ensures
            r == self.color_at(index as int),
    {
        self.colors[index as usize]
    }

    /// Store a color at palette index `index`.
    pub fn set_color(&mut self, index: u8, r: u8, g: u8, b: u8, a: u8)
        requires
            old(self).wf(),
        ensures
            final(self).wf(),
            final(self).color_at(index as int) == (Color { r, g, b, a }),
            forall|j: int|
                0 <= j < 256 && j != index as int ==> final(self).color_at(j) == old(
                    self,
                ).color_at(j),
    {
        self.colors[index as usize] = Color { r, g, b, a };
    }

    /// Store an opaque color at palette index `index`.
    pub fn set_rgb(&mut self, index: u8, r: u8, g: u8, b: u8)
        requires
            old(self).wf(),
        ensures
            final(self).wf(),
            final(self).color_at(index as int) == rgb(r, g, b),
            forall|j: int|
                0 <= j < 256 && j != index as int ==> final(self).color_at(j) == old(
                    self,
                ).color_at(j),
    {
        self.set_color(index, r, g, b, 255);
    }

    /// How a modifier remaps a color index: `Bright` lifts the eight basic
    /// colors to their bright variants, `Dim` lowers the eight bright ones.
    pub open spec fn spec_apply_modifier(color_index: u8, modifier: ColorModifier) -> u8 {
        match modifier {
            ColorModifier::Unchanged => color_index,
            ColorModifier::Bright => if color_index < 8 {
                (color_index + 8) as u8
            } else {
                color_index
            },
            ColorModifier::Dim => if 8 <= color_index < 16 {
                (color_index - 8) as u8
            } else {
                color_index
            },
        }
    }

    /// Apply a style modifier to a color index.
    pub fn apply_modifier(&self, color_index: u8, modifier: ColorModifier) -> (r: u8)
        ensures
            r == Self::spec_apply_modifier(color_index, modifier),
    {
        match modifier {
            ColorModifier::Unchanged => color_index,
            ColorModifier::Bright => {
                if color_index < 8 {
                    color_index + 8
                } else {
                    color_index
                }
            },
            ColorModifier::Dim => {
                if 8 <= color_index && color_index < 16 {
                    color_index - 8
                } else {
                    color_index
                }
            },
        }
    }

    /// Find the palette index whose color is closest to the given RGB triple
    /// in squared channel distance; among equally close colors, the lowest
    /// index wins.
    pub fn find_closest_color(&self, r: u8, g: u8, b: u8) -> (m: u8)
        requires
            self.wf(),
        ensures
            forall|i: int|
                0 <= i < 256 ==> color_dist(self.color_at(m as int), r, g, b) <= color_dist(
                    #[trigger] self.color_at(i),
                    r,
                    g,
                    b,
                ),
            forall|i: int|
                0 <= i < m as int ==> color_dist(#[trigger] self.color_at(i), r, g, b)
                    > color_dist(self.color_at(m as int), r, g, b),
    {
        let mut best_index: usize = 0;
        let mut best_distance: u32 = Self::channel_dist(self.colors[0], r, g, b);
        let mut i: usize = 1;
        while i < COLOR_PALETTE_SIZE
            invariant
                self.wf(),
                1 <= i <= 256,
                best_index < i,
                best_distance == color_dist(self.color_at(best_index as int), r, g, b),
                forall|j: int|
                    0 <= j < i as int ==> best_distance <= color_dist(
                        #[trigger] self.color_at(j),
                        r,
                        g,
                        b,
                    ),
                forall|j: int|
                    0 <= j < best_index as int ==> color_dist(#[trigger] self.color_at(j), r, g, b)
                        > best_distance,
            decreases COLOR_PALETTE_SIZE - i,
        {
            let d = Self::channel_dist(self.colors[i], r, g, b);
            if d < best_distance {
                best_distance = d;
                best_index = i;
            }
            i = i + 1;
        }
        best_index as u8
    }

    /// Squared channel distance, computed in integers.
    fn channel_dist(c: Color, r: u8, g: u8, b: u8) -> (d: u32)
        ensures
            d == color_dist(c, r, g, b),
    {
        let dr: u32 = if c.r >= r {
            (c.r - r) as u32
        } else {
            (r - c.r) as u32
        };
        let dg: u32 = if c.g >= g {
            (c.g - g) as u32
        } else {
            (g - c.g) as u32
        };
        let db: u32 = if c.b >= b {
            (c.b - b) as u32
        } else {
            (b - c.b) as u32
        };
        proof {
            assert(dr * dr == (c.r - r) * (c.r - r) && dr * dr <= 65025) by (nonlinear_arith)
                requires
                    dr <= 255,
                    dr == c.r - r || dr == r - c.r,
            ;
            assert(dg * dg == (c.g - g) * (c.g - g) && dg * dg <= 65025) by (nonlinear_arith)
                requires
                    dg <= 255,
                    dg == c.g - g || dg == g - c.g,
            ;
            assert(db * db == (c.b - b) * (c.b - b) && db * db <= 65025) by (nonlinear_arith)
                requires
                    db <= 255,
                    db == c.b - b || db == b - c.b,
            ;
        }
        dr * dr + dg * dg + db * db
    }

    /// Restore the default palette.
    pub fn reset(&mut self)
        ensures
            final(self).wf(),
            forall|i: int| 0 <= i < 256 ==> final(self).color_at(i) == default_color_at(i),
    {
        *self = Self::new();
    }

    /// Load custom opaque colors into the palette, starting at index zero.
    /// Entries past the palette's capacity are ignored, and the alpha of the
    /// given colors is replaced by full opacity.
    pub fn load_palette(&mut self, colors: &Vec<Color>)
        requires
            old(self).wf(),
        ensures
            final(self).wf(),
            forall|i: int|
                0 <= i < 256 && i < colors@.len() ==> final(self).color_at(i) == rgb(
                    colors@[i].r,
                    colors@[i].g,
                    colors@[i].b,
                ),
            forall|i: int|
                colors@.len() <= i < 256 ==> final(self).color_at(i) == old(self).color_at(i),
    {
        let mut i: usize = 0;
        let n = if colors.len() < COLOR_PALETTE_SIZE {
            colors.len()
        } else {
            COLOR_PALETTE_SIZE
        };
        while i < n
            invariant
                self.wf(),
                n <= 256,
                n <= colors@.len(),
                i <= n,
                n == if colors@.len() < 256 {
                    colors@.len() as int
                } else {
                    256
                },
                forall|j: int|
                    0 <= j < i as int ==> self.color_at(j) == rgb(
                        colors@[j].r,
                        colors@[j].g,
                        colors@[j].b,
                    ),
                forall|j: int|
                    i as int <= j < 256 ==> self.color_at(j) == old(self).color_at(j),
            decreases n - i,
        {
            let c = colors[i];
            self.set_rgb(i as u8, c.r, c.g, c.b);
            i = i + 1;
        }
    }
}

impl Default for ColorPalette {
    /// The default palette.
    fn default() -> (r: Self)
        ensures
            r.wf(),
            forall|i: int| 0 <= i < 256 ==> r.color_at(i) == default_color_at(i),
    {
        Self::new()
    }
}

} // verus!
