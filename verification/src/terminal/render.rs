//! Colour decisions made when a cell is drawn.
use vstd::prelude::*;

use crate::terminal::grid::{CellColor, CellFlags, TerminalContent};
use crate::terminal::palette::{rgb, Palette, Rgb};

verus! {

pub open spec fn saturating_add_u8(a: u8, b: u8) -> u8 {
    if a + b > 255 {
        255
    } else {
        (a + b) as u8
    }
}

/// Each channel raised by 30, capped at 255.
pub open spec fn brighten_spec(c: Rgb) -> Rgb {
    rgb(saturating_add_u8(c.r, 30), saturating_add_u8(c.g, 30), saturating_add_u8(c.b, 30))
}

/// Foreground and background of a cell: inverse swaps them, and bold then
/// brightens the (possibly swapped) foreground.
pub open spec fn resolve_colors_spec(
    palette: &Palette,
    fg: CellColor,
    bg: CellColor,
    flags: CellFlags,
) -> (Rgb, Rgb) {
    let f = palette.resolve_spec(fg);
    let b = palette.resolve_spec(bg);
    let (f2, b2) = if flags.inverse {
        (b, f)
    } else {
        (f, b)
    };
    (
        if flags.bold {
            brighten_spec(f2)
        } else {
            f2
        },
        b2,
    )
}

pub fn brighten(c: Rgb) -> (r: Rgb)
    ensures
        r == brighten_spec(c),
{
    Rgb::new(c.r.saturating_add(30), c.g.saturating_add(30), c.b.saturating_add(30))
}

/// Resolve foreground/background colours, handling inverse and bold-brightening.
pub fn resolve_colors(palette: &Palette, fg: CellColor, bg: CellColor, flags: CellFlags) -> (r: (
    Rgb,
    Rgb,
))
    ensures
        r == resolve_colors_spec(palette, fg, bg, flags),
{
    let mut fg_rgb = palette.resolve(fg);
    let mut bg_rgb = palette.resolve(bg);

    if flags.inverse {
        std::mem::swap(&mut fg_rgb, &mut bg_rgb);
    }
    if flags.bold {
        fg_rgb = brighten(fg_rgb);
    }

    (fg_rgb, bg_rgb)
}

/// What the terminal pane draws: a snapshot of the focused terminal and the
/// palette it is drawn with.
pub struct TerminalProgram {
    pub content: TerminalContent,
    pub palette: Palette,
}

impl TerminalProgram {
    /// A program drawing `content` with the dark palette.
    pub fn new(content: TerminalContent) -> (p: Self)
        ensures
            p.content == content,
            p.palette.foreground == rgb(204, 204, 204),
            p.palette.background == rgb(13, 13, 26),
            p.palette.cursor == rgb(204, 204, 204),
            p.palette.named@ == crate::terminal::palette::dark_named(),
    {
        TerminalProgram { content, palette: Palette::dark() }
    }
}

// ---------------------------------------------------------------------------
// Laws
// ---------------------------------------------------------------------------

/// Brightening never darkens a channel.
pub proof fn law_brighten_never_darkens(c: Rgb)
    ensures
        brighten_spec(c).r >= c.r,
        brighten_spec(c).g >= c.g,
        brighten_spec(c).b >= c.b,
{
}

/// Inverse video swaps the colours of a plain cell.
pub proof fn law_inverse_swaps(palette: &Palette, fg: CellColor, bg: CellColor, flags: CellFlags)
    requires
        flags.inverse,
        !flags.bold,
    ensures
        resolve_colors_spec(palette, fg, bg, flags) == (palette.resolve_spec(bg), palette.resolve_spec(fg)),
{
}

} // verus!
