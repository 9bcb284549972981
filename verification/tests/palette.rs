use herd::terminal::grid::{CellColor, CellFlags, NamedColorId};
use herd::terminal::palette::{Palette, Rgb};
use herd::terminal::render::{brighten, resolve_colors};

#[test]
fn test_dark_palette_foreground() {
    let p = Palette::dark();
    assert_eq!(p.foreground, Rgb::new(204, 204, 204));
}

#[test]
fn test_resolve_named_red() {
    let p = Palette::dark();
    let color = p.resolve(CellColor::Named(NamedColorId::Red));
    assert_eq!(color, Rgb::new(204, 0, 0));
}

#[test]
fn test_resolve_rgb_passthrough() {
    let p = Palette::dark();
    let color = p.resolve(CellColor::Rgb(100, 200, 50));
    assert_eq!(color, Rgb::new(100, 200, 50));
}

#[test]
fn test_resolve_indexed_standard() {
    let p = Palette::dark();
    let color = p.resolve(CellColor::Indexed(1));
    assert_eq!(color, Rgb::new(204, 0, 0));
}

#[test]
fn test_resolve_indexed_cube() {
    let p = Palette::dark();
    let color = p.resolve(CellColor::Indexed(196));
    assert_eq!(color, Rgb::new(255, 0, 0));
}

#[test]
fn test_resolve_indexed_grayscale() {
    let p = Palette::dark();
    let color = p.resolve(CellColor::Indexed(232));
    assert_eq!(color, Rgb::new(8, 8, 8));
    let color = p.resolve(CellColor::Indexed(255));
    assert_eq!(color, Rgb::new(238, 238, 238));
}

#[test]
fn test_all_named_colors_resolve() {
    let p = Palette::dark();
    let ids = [
        NamedColorId::Black,
        NamedColorId::Red,
        NamedColorId::Green,
        NamedColorId::Yellow,
        NamedColorId::Blue,
        NamedColorId::Magenta,
        NamedColorId::Cyan,
        NamedColorId::White,
        NamedColorId::BrightBlack,
        NamedColorId::BrightRed,
        NamedColorId::BrightGreen,
        NamedColorId::BrightYellow,
        NamedColorId::BrightBlue,
        NamedColorId::BrightMagenta,
        NamedColorId::BrightCyan,
        NamedColorId::BrightWhite,
        NamedColorId::Foreground,
        NamedColorId::Background,
        NamedColorId::Cursor,
    ];
    for id in ids {
        let _ = p.resolve(CellColor::Named(id));
    }
}

// ── Own tests ──

#[test]
fn indexed_standard_colors_match_named_ones() {
    let p = Palette::dark();
    let named = [
        NamedColorId::Black,
        NamedColorId::Red,
        NamedColorId::Green,
        NamedColorId::Yellow,
        NamedColorId::Blue,
        NamedColorId::Magenta,
        NamedColorId::Cyan,
        NamedColorId::White,
        NamedColorId::BrightBlack,
        NamedColorId::BrightRed,
        NamedColorId::BrightGreen,
        NamedColorId::BrightYellow,
        NamedColorId::BrightBlue,
        NamedColorId::BrightMagenta,
        NamedColorId::BrightCyan,
        NamedColorId::BrightWhite,
    ];
    for (i, id) in named.iter().enumerate() {
        assert_eq!(p.resolve(CellColor::Indexed(i as u8)), p.resolve(CellColor::Named(*id)));
    }
}

#[test]
fn cube_corners_and_middle() {
    let p = Palette::dark();
    assert_eq!(p.resolve(CellColor::Indexed(16)), Rgb::new(0, 0, 0));
    assert_eq!(p.resolve(CellColor::Indexed(231)), Rgb::new(255, 255, 255));
    // 16 + 1*36 + 2*6 + 3 = 67
    assert_eq!(p.resolve(CellColor::Indexed(67)), Rgb::new(95, 135, 175));
}

#[test]
fn gray_ramp_increases() {
    let p = Palette::dark();
    let mut last = 0u8;
    for i in 232u8..=255 {
        let c = p.resolve(CellColor::Indexed(i));
        assert_eq!(c.r, c.g);
        assert_eq!(c.g, c.b);
        assert!(c.r > last || i == 232);
        last = c.r;
    }
}

#[test]
fn brighten_raises_and_caps() {
    assert_eq!(brighten(Rgb::new(0, 100, 240)), Rgb::new(30, 130, 255));
    assert_eq!(brighten(Rgb::new(255, 225, 226)), Rgb::new(255, 255, 255));
}

#[test]
fn inverse_swaps_and_bold_brightens() {
    let p = Palette::dark();
    let fg = CellColor::Named(NamedColorId::Red);
    let bg = CellColor::Named(NamedColorId::Background);
    let plain = resolve_colors(&p, fg, bg, CellFlags::default());
    assert_eq!(plain, (Rgb::new(204, 0, 0), Rgb::new(13, 13, 26)));
    let inverse = CellFlags { inverse: true, ..CellFlags::default() };
    assert_eq!(resolve_colors(&p, fg, bg, inverse), (Rgb::new(13, 13, 26), Rgb::new(204, 0, 0)));
    let bold_inverse = CellFlags { inverse: true, bold: true, ..CellFlags::default() };
    assert_eq!(resolve_colors(&p, fg, bg, bold_inverse), (Rgb::new(43, 43, 56), Rgb::new(204, 0, 0)));
}
