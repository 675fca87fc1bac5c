//! Theme tokens of the panel: colours, the palette, the theme and the
//! panel's sections.

use vstd::prelude::*;
use crate::text::owned;

verus! {

/// A colour as `0xAARRGGBB`.
#[derive(Clone, Copy, Debug, PartialEq, Eq, Structural)]
pub struct Color(pub u32);

/// The `0xAARRGGBB` value of the given channels.
pub open spec fn argb(r: u8, g: u8, b: u8, a: u8) -> u32 {
    ((a as u32) << 24u32) | ((r as u32) << 16u32) | ((g as u32) << 8u32) | (b as u32)
}

impl Color {
    /// An opaque colour.
    pub fn rgb(r: u8, g: u8, b: u8) -> (c: Color)
        ensures
            c.0 == argb(r, g, b, 0xFF),
    {
        let c = Color(0xFF00_0000u32 | ((r as u32) << 16u32) | ((g as u32) << 8u32) | (b as u32));
        assert(0xFF00_0000u32 | ((r as u32) << 16u32) | ((g as u32) << 8u32) | (b as u32)
            == ((0xFFu8 as u32) << 24u32) | ((r as u32) << 16u32) | ((g as u32) << 8u32) | (b as u32))
            by (bit_vector);
        c
    }

    /// A colour with the given alpha.
    pub fn rgba(r: u8, g: u8, b: u8, a: u8) -> (c: Color)
        ensures
            c.0 == argb(r, g, b, a),
    {
        Color(((a as u32) << 24u32) | ((r as u32) << 16u32) | ((g as u32) << 8u32) | (b as u32))
    }

    /// The red channel.
    pub fn r(&self) -> (v: u8)
        ensures
            v == ((self.0 >> 16u32) & 0xFFu32) as u8,
    {
        ((self.0 >> 16u32) & 0xFFu32) as u8
    }

    /// The green channel.
    pub fn g(&self) -> (v: u8)
        ensures
            v == ((self.0 >> 8u32) & 0xFFu32) as u8,
    {
        ((self.0 >> 8u32) & 0xFFu32) as u8
    }

    /// The blue channel.
    pub fn b(&self) -> (v: u8)
        ensures
            v == (self.0 & 0xFFu32) as u8,
    {
        (self.0 & 0xFFu32) as u8
    }

    /// The alpha channel.
    pub fn a(&self) -> (v: u8)
        ensures
            v == ((self.0 >> 24u32) & 0xFFu32) as u8,
    {
        ((self.0 >> 24u32) & 0xFFu32) as u8
    }
}

/// Decoding the channels of a composed colour gives back the channels.
pub proof fn lemma_channels_round_trip(r: u8, g: u8, b: u8, a: u8)
    ensures
        ((argb(r, g, b, a) >> 16u32) & 0xFFu32) as u8 == r,
        ((argb(r, g, b, a) >> 8u32) & 0xFFu32) as u8 == g,
        (argb(r, g, b, a) & 0xFFu32) as u8 == b,
        ((argb(r, g, b, a) >> 24u32) & 0xFFu32) as u8 == a,
{
    assert(((((a as u32) << 24u32) | ((r as u32) << 16u32) | ((g as u32) << 8u32) | (b as u32)) >> 16u32) & 0xFFu32 == r as u32) by (bit_vector);
    assert(((((a as u32) << 24u32) | ((r as u32) << 16u32) | ((g as u32) << 8u32) | (b as u32)) >> 8u32) & 0xFFu32 == g as u32) by (bit_vector);
    assert((((a as u32) << 24u32) | ((r as u32) << 16u32) | ((g as u32) << 8u32) | (b as u32)) & 0xFFu32 == b as u32) by (bit_vector);
    assert(((((a as u32) << 24u32) | ((r as u32) << 16u32) | ((g as u32) << 8u32) | (b as u32)) >> 24u32) & 0xFFu32 == a as u32) by (bit_vector);
}

/// The panel's colour tokens.
#[derive(Clone, Copy, Debug, PartialEq, Eq, Structural)]
pub struct ThemePalette {
    pub background: Color,
    pub pill_active_bg: Color,
    pub pill_active_text: Color,
    pub pill_inactive_bg: Color,
    pub pill_inactive_text: Color,
    pub center_text: Color,
    pub metric_text: Color,
    pub divider: Color,
    pub shadow: Color,
}

/// The built-in dark palette: a `#111111` background, a white active
/// pill, muted inactive text.
pub open spec fn omarchy_dark_palette() -> ThemePalette {
    ThemePalette {
        background: Color(argb(0x11, 0x11, 0x11, 230)),
        pill_active_bg: Color(argb(0xFF, 0xFF, 0xFF, 0xFF)),
        pill_active_text: Color(argb(0x11, 0x11, 0x11, 0xFF)),
        pill_inactive_bg: Color(argb(0, 0, 0, 0)),
        pill_inactive_text: Color(argb(0xFF, 0xFF, 0xFF, 115)),
        center_text: Color(argb(0xEE, 0xEE, 0xEE, 0xFF)),
        metric_text: Color(argb(0xEE, 0xEE, 0xEE, 200)),
        divider: Color(argb(0xFF, 0xFF, 0xFF, 28)),
        shadow: Color(argb(0, 0, 0, 100)),
    }
}

impl ThemePalette {
    /// The built-in dark palette.
    pub fn omarchy_dark() -> (p: Self)
        ensures
            p == omarchy_dark_palette(),
    {
        ThemePalette {
            background: Color::rgba(0x11, 0x11, 0x11, 230),
            pill_active_bg: Color::rgb(0xFF, 0xFF, 0xFF),
            pill_active_text: Color::rgb(0x11, 0x11, 0x11),
            pill_inactive_bg: Color::rgba(0, 0, 0, 0),
            pill_inactive_text: Color::rgba(0xFF, 0xFF, 0xFF, 115),
            center_text: Color::rgb(0xEE, 0xEE, 0xEE),
            metric_text: Color::rgba(0xEE, 0xEE, 0xEE, 200),
            divider: Color::rgba(0xFF, 0xFF, 0xFF, 28),
            shadow: Color::rgba(0, 0, 0, 100),
        }
    }
}

/// The built-in palette's background is a dark neutral: each colour
/// channel is below 32.
pub proof fn lemma_omarchy_background_dark()
    ensures
        (((omarchy_dark_palette().background.0 >> 16u32) & 0xFFu32) as u8) < 32,
        (((omarchy_dark_palette().background.0 >> 8u32) & 0xFFu32) as u8) < 32,
        ((omarchy_dark_palette().background.0 & 0xFFu32) as u8) < 32,
{
    lemma_channels_round_trip(0x11, 0x11, 0x11, 230);
}

impl Default for ThemePalette {
    fn default() -> (p: Self)
        ensures
            p == omarchy_dark_palette(),
    {
        Self::omarchy_dark()
    }
}

/// A named theme.
#[derive(Debug)]
pub struct Theme {
    pub palette: ThemePalette,
    pub name: String,
    pub corner_radius_px: i32,
}

impl Clone for Theme {
    fn clone(&self) -> (r: Self)
        ensures
            r == *self,
    {
        Theme { palette: self.palette, name: self.name.clone(), corner_radius_px: self.corner_radius_px }
    }
}

impl Default for Theme {
    fn default() -> (t: Self)
        ensures
            t.palette == omarchy_dark_palette(),
            t.name@ == "omarchy-dark"@,
            t.corner_radius_px == 6,
    {
        Theme { palette: ThemePalette::omarchy_dark(), name: owned("omarchy-dark"), corner_radius_px: 6 }
    }
}

/// A section of the panel.
#[derive(Clone, Copy, Debug, PartialEq, Eq, Structural)]
pub enum PanelSection {
    Left,
    Center,
    Right,
}

} // verus!
