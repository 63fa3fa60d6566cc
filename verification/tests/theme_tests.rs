use wm98_core::theme::{ButtonRow, Rgba8, Theme, ThemeColors, ThemeGeometry};

fn rgba(r: u8, g: u8, b: u8, a: u8) -> Rgba8 {
    Rgba8 { r, g, b, a }
}

#[test]
fn default_palette() {
    let c = ThemeColors::default();
    assert_eq!(c.titlebar_hi, rgba(74, 187, 238, 255));
    assert_eq!(c.titlebar_lo, rgba(15, 107, 189, 255));
    assert_eq!(c.titlebar_text, Rgba8::white());
    assert_eq!(c.border_active, rgba(0, 120, 215, 255));
    assert_eq!(c.border_inactive, rgba(130, 170, 200, 255));
    assert_eq!(c.btn_close, rgba(255, 95, 86, 255));
    assert_eq!(c.btn_min, rgba(255, 189, 46, 255));
    assert_eq!(c.btn_max, rgba(39, 201, 63, 255));
    assert_eq!(c.shadow, rgba(0, 0, 0, 70));
    assert_eq!(c.desktop_bg, rgba(58, 110, 165, 255));
}

#[test]
fn default_geometry() {
    let g = ThemeGeometry::default();
    assert_eq!(
        (g.titlebar_h, g.border_w, g.corner_r, g.button_sz, g.button_gap, g.shadow_dx, g.shadow_dy, g.shadow_blur),
        (36, 3, 12, 18, 7, 4, 6, 18)
    );
}

#[test]
fn titlebar_and_border_colours_follow_focus() {
    let t = Theme::default();
    assert_eq!(t.colors.titlebar_background(true), rgba(74, 187, 238, 255));
    assert_eq!(t.colors.titlebar_background(false), rgba(130, 170, 200, 255));
    assert_eq!(t.colors.border_color(true), rgba(0, 120, 215, 255));
    assert_eq!(t.colors.border_color(false), rgba(130, 170, 200, 255));
}

#[test]
fn default_button_row() {
    let g = ThemeGeometry::default();
    assert_eq!(g.button_row(), ButtonRow { y: 9, size: 18, close_x: 7, min_x: 32, max_x: 57 });
}

#[test]
fn button_row_can_sit_above_the_titlebar() {
    let mut g = ThemeGeometry::default();
    g.titlebar_h = 10;
    g.button_sz = 25;
    g.button_gap = 0;
    assert_eq!(g.button_row(), ButtonRow { y: -7, size: 25, close_x: 0, min_x: 25, max_x: 50 });
}
