//! 98wm theme system — early-2000s bubble aesthetic.
//!
//! Visual language:
//!   • Big, rounded titlebars with a two-stop blue gradient (XP Luna / Aqua)
//!   • Traffic-light close/min/max bubbles (glossy highlight on each)
//!   • Thick coloured border for the active window
//!   • Soft drop shadow
//!   • "Wet" button sheen: a small white oval in the upper-left quadrant
//!
//! This module holds the palette and the geometry, and decides which colour
//! and which button positions a titlebar gets; painting them is left to the
//! renderer of each platform.
use vstd::prelude::*;

verus! {

// ---------------------------------------------------------------------------
// Colour palette
// ---------------------------------------------------------------------------

/// An 8-bit-per-channel RGBA colour, not premultiplied.
#[derive(Debug, Clone, Copy, PartialEq, Eq, Structural)]
pub struct Rgba8 {
    pub r: u8,
    pub g: u8,
    pub b: u8,
    pub a: u8,
}

/// The colour with the given channels.
pub open spec fn rgba(r: u8, g: u8, b: u8, a: u8) -> Rgba8 {
    Rgba8 { r, g, b, a }
}

impl Rgba8 {
    /// Opaque white.
    pub fn white() -> (c: Rgba8)
        ensures
            c == rgba(255, 255, 255, 255),
    {
        Rgba8 { r: 255, g: 255, b: 255, a: 255 }
    }
}

#[derive(Debug, Clone, Copy)]
pub struct ThemeColors {
    /// Titlebar gradient — bright end (top)
    pub titlebar_hi: Rgba8,
    /// Titlebar gradient — dark end (bottom)
    pub titlebar_lo: Rgba8,
    pub titlebar_text: Rgba8,
    pub border_active: Rgba8,
    pub border_inactive: Rgba8,
    /// Close button (red)
    pub btn_close: Rgba8,
    /// Minimise button (amber)
    pub btn_min: Rgba8,
    /// Maximise button (green)
    pub btn_max: Rgba8,
    pub shadow: Rgba8,
    /// Classic win98-style silver/beige desktop background
    pub desktop_bg: Rgba8,
}

/// The default palette.
pub open spec fn is_default_colors(c: ThemeColors) -> bool {
    &&& c.titlebar_hi == rgba(74, 187, 238, 255)
    &&& c.titlebar_lo == rgba(15, 107, 189, 255)
    &&& c.titlebar_text == rgba(255, 255, 255, 255)
    &&& c.border_active == rgba(0, 120, 215, 255)
    &&& c.border_inactive == rgba(130, 170, 200, 255)
    &&& c.btn_close == rgba(255, 95, 86, 255)
    &&& c.btn_min == rgba(255, 189, 46, 255)
    &&& c.btn_max == rgba(39, 201, 63, 255)
    &&& c.shadow == rgba(0, 0, 0, 70)
    &&& c.desktop_bg == rgba(58, 110, 165, 255)
}

impl Default for ThemeColors {
    fn default() -> (c: Self)
        ensures
            is_default_colors(c),
    {
        ThemeColors {
            titlebar_hi: Rgba8 { r: 74, g: 187, b: 238, a: 255 },  // aqua
            titlebar_lo: Rgba8 { r: 15, g: 107, b: 189, a: 255 },  // deep blue
            titlebar_text: Rgba8::white(),
            border_active: Rgba8 { r: 0, g: 120, b: 215, a: 255 },
            border_inactive: Rgba8 { r: 130, g: 170, b: 200, a: 255 },
            btn_close: Rgba8 { r: 255, g: 95, b: 86, a: 255 },
            btn_min: Rgba8 { r: 255, g: 189, b: 46, a: 255 },
            btn_max: Rgba8 { r: 39, g: 201, b: 63, a: 255 },
            shadow: Rgba8 { r: 0, g: 0, b: 0, a: 70 },
            desktop_bg: Rgba8 { r: 58, g: 110, b: 165, a: 255 },  // XP default blue
        }
    }
}

impl ThemeColors {
    /// The titlebar's base colour: the bright gradient end when focused, the
    /// inactive border colour otherwise.
    pub fn titlebar_background(&self, focused: bool) -> (c: Rgba8)
        ensures
            c == if focused { self.titlebar_hi } else { self.border_inactive },
    {
        if focused {
            self.titlebar_hi
        } else {
            self.border_inactive
        }
    }

    /// The border colour of an active or inactive window.
    pub fn border_color(&self, focused: bool) -> (c: Rgba8)
        ensures
            c == if focused { self.border_active } else { self.border_inactive },
    {
        if focused {
            self.border_active
        } else {
            self.border_inactive
        }
    }
}

// ---------------------------------------------------------------------------
// Geometry
// ---------------------------------------------------------------------------

#[derive(Debug, Clone, Copy)]
pub struct ThemeGeometry {
    pub titlebar_h: u32,
    pub border_w: u32,
    pub corner_r: u32,
    pub button_sz: u32,
    pub button_gap: u32,
    pub shadow_dx: i32,
    pub shadow_dy: i32,
    pub shadow_blur: u32,
}

/// The default geometry.
pub open spec fn is_default_geometry(g: ThemeGeometry) -> bool {
    &&& g.titlebar_h == 36
    &&& g.border_w == 3
    &&& g.corner_r == 12
    &&& g.button_sz == 18
    &&& g.button_gap == 7
    &&& g.shadow_dx == 4
    &&& g.shadow_dy == 6
    &&& g.shadow_blur == 18
}

impl Default for ThemeGeometry {
    fn default() -> (g: Self)
        ensures
            is_default_geometry(g),
    {
        ThemeGeometry {
            titlebar_h: 36,
            border_w: 3,
            corner_r: 12,
            button_sz: 18,
            button_gap: 7,
            shadow_dx: 4,
            shadow_dy: 6,
            shadow_blur: 18,
        }
    }
}

/// Where the three traffic-light buttons of a titlebar go: all share the
/// top edge `y` and the diameter `size`; `close_x`, `min_x` and `max_x` are
/// their left edges.
#[derive(Debug, Clone, Copy, PartialEq, Eq, Structural)]
pub struct ButtonRow {
    pub y: i32,
    pub size: u32,
    pub close_x: u32,
    pub min_x: u32,
    pub max_x: u32,
}

/// The button row fits in `u32` arithmetic.
pub open spec fn button_row_fits(g: ThemeGeometry) -> bool {
    g.button_gap + (g.button_sz + g.button_gap) * 2 <= u32::MAX
}

impl ThemeGeometry {
    /// The traffic-light buttons: vertically centred in the titlebar, the
    /// first one `button_gap` from the left edge, each next one a button and
    /// a gap further right.
    pub fn button_row(&self) -> (row: ButtonRow)
        requires
            button_row_fits(*self),
        ensures
            row.y == self.titlebar_h / 2 - self.button_sz / 2,
            row.size == self.button_sz,
            row.close_x == self.button_gap,
            row.min_x == self.button_gap + self.button_sz + self.button_gap,
            row.max_x == self.button_gap + (self.button_sz + self.button_gap) * 2,
    {
        let bsz = self.button_sz;
        let gap = self.button_gap;
        let half_h = self.titlebar_h / 2;
        let half_b = bsz / 2;
        let by = (half_h as i32) - (half_b as i32);
        let bx0 = gap;
        ButtonRow {
            y: by,
            size: bsz,
            close_x: bx0,
            min_x: bx0 + bsz + gap,
            max_x: bx0 + (bsz + gap) * 2,
        }
    }
}

// ---------------------------------------------------------------------------
// Theme
// ---------------------------------------------------------------------------

#[derive(Debug, Clone, Copy)]
pub struct Theme {
    pub colors: ThemeColors,
    pub geometry: ThemeGeometry,
}

impl Default for Theme {
    fn default() -> (t: Self)
        ensures
            is_default_colors(t.colors),
            is_default_geometry(t.geometry),
    {
        Theme { colors: ThemeColors::default(), geometry: ThemeGeometry::default() }
    }
}

} // verus!
