//! Terminal colour palette: maps terminal colour indices to RGB values.
//!
//! The 256-colour space is the 16 named ANSI colours, a 6x6x6 colour cube and
//! a ramp of 24 greys.
use vstd::prelude::*;

use crate::terminal::grid::{CellColor, NamedColorId};

verus! {

/// RGB colour value.
#[derive(Debug, Clone, Copy, PartialEq, Eq, Structural)]
pub struct Rgb {
    pub r: u8,
    pub g: u8,
    pub b: u8,
}

pub open spec fn rgb(r: u8, g: u8, b: u8) -> Rgb {
    Rgb { r, g, b }
}

impl Rgb {
    pub fn new(r: u8, g: u8, b: u8) -> (c: Self)
        ensures
            c == rgb(r, g, b),
    {
        Rgb { r, g, b }
    }
}

/// Terminal colour palette with all named and indexed colours.
pub struct Palette {
    pub foreground: Rgb,
    pub background: Rgb,
    pub cursor: Rgb,
    pub named: [Rgb; 16],
}

/// The sixteen ANSI colours of the dark theme.
pub open spec fn dark_named() -> Seq<Rgb> {
    seq![
        rgb(0, 0, 0),
        rgb(204, 0, 0),
        rgb(0, 204, 0),
        rgb(204, 204, 0),
        rgb(0, 0, 204),
        rgb(204, 0, 204),
        rgb(0, 204, 204),
        rgb(204, 204, 204),
        rgb(85, 85, 85),
        rgb(255, 85, 85),
        rgb(85, 255, 85),
        rgb(255, 255, 85),
        rgb(85, 85, 255),
        rgb(255, 85, 255),
        rgb(85, 255, 255),
        rgb(255, 255, 255),
    ]
}

/// Position of a named colour among the sixteen ANSI colours.
pub open spec fn ansi_index(id: NamedColorId) -> Option<int> {
    match id {
        NamedColorId::Black => Some(0),
        NamedColorId::Red => Some(1),
        NamedColorId::Green => Some(2),
        NamedColorId::Yellow => Some(3),
        NamedColorId::Blue => Some(4),
        NamedColorId::Magenta => Some(5),
        NamedColorId::Cyan => Some(6),
        NamedColorId::White => Some(7),
        NamedColorId::BrightBlack => Some(8),
        NamedColorId::BrightRed => Some(9),
        NamedColorId::BrightGreen => Some(10),
        NamedColorId::BrightYellow => Some(11),
        NamedColorId::BrightBlue => Some(12),
        NamedColorId::BrightMagenta => Some(13),
        NamedColorId::BrightCyan => Some(14),
        NamedColorId::BrightWhite => Some(15),
        _ => None,
    }
}

/// One axis of the colour cube: level 0 is black, levels 1-5 are 95, 135, 175, 215, 255.
pub open spec fn cube_level(c: int) -> int {
    if c == 0 {
        0
    } else {
        c * 40 + 55
    }
}

pub open spec fn cube_color(i: int) -> Rgb {
    let k = i - 16;
    rgb(cube_level(k / 36) as u8, cube_level((k % 36) / 6) as u8, cube_level(k % 6) as u8)
}

pub open spec fn gray_color(i: int) -> Rgb {
    let v = ((i - 232) * 10 + 8) as u8;
    rgb(v, v, v)
}

impl Palette {
    pub open spec fn named_spec(&self, id: NamedColorId) -> Rgb {
        match id {
            NamedColorId::Foreground => self.foreground,
            NamedColorId::Background => self.background,
            NamedColorId::Cursor => self.cursor,
            _ => self.named@[ansi_index(id)->0],
        }
    }

    pub open spec fn indexed_spec(&self, idx: u8) -> Rgb {
        if idx < 16 {
            self.named@[idx as int]
        } else if idx < 232 {
            cube_color(idx as int)
        } else {
            gray_color(idx as int)
        }
    }

    pub open spec fn resolve_spec(&self, color: CellColor) -> Rgb {
        match color {
            CellColor::Named(id) => self.named_spec(id),
            CellColor::Indexed(idx) => self.indexed_spec(idx),
            CellColor::Rgb(r, g, b) => rgb(r, g, b),
        }
    }

    /// Dark theme palette (matches common terminal defaults).
    pub fn dark() -> (p: Self)
        ensures
            p.foreground == rgb(204, 204, 204),
            p.background == rgb(13, 13, 26),
            p.cursor == rgb(204, 204, 204),
            p.named@ == dark_named(),
    {
        let p = Palette {
            foreground: Rgb::new(204, 204, 204),
            background: Rgb::new(13, 13, 26),
            cursor: Rgb::new(204, 204, 204),
            named: [
                Rgb::new(0, 0, 0),  // Black
                Rgb::new(204, 0, 0),  // Red
                Rgb::new(0, 204, 0),  // Green
                Rgb::new(204, 204, 0),  // Yellow
                Rgb::new(0, 0, 204),  // Blue
                Rgb::new(204, 0, 204),  // Magenta
                Rgb::new(0, 204, 204),  // Cyan
                Rgb::new(204, 204, 204),  // White
                Rgb::new(85, 85, 85),  // Bright Black
                Rgb::new(255, 85, 85),  // Bright Red
                Rgb::new(85, 255, 85),  // Bright Green
                Rgb::new(255, 255, 85),  // Bright Yellow
                Rgb::new(85, 85, 255),  // Bright Blue
                Rgb::new(255, 85, 255),  // Bright Magenta
                Rgb::new(85, 255, 255),  // Bright Cyan
                Rgb::new(255, 255, 255),  // Bright White
            ],
        };
        proof {
            assert(p.named@ =~= dark_named());
        }
        p
    }

    /// Resolve a `CellColor` to an RGB value.
    pub fn resolve(&self, color: CellColor) -> (c: Rgb)
        ensures
            c == self.resolve_spec(color),
    {
        match color {
            CellColor::Named(id) => self.resolve_named(id),
            CellColor::Indexed(idx) => self.resolve_indexed(idx),
            CellColor::Rgb(r, g, b) => Rgb::new(r, g, b),
        }
    }

    fn resolve_named(&self, id: NamedColorId) -> (c: Rgb)
        ensures
            c == self.named_spec(id),
    {
        match id {
            NamedColorId::Black => self.named[0],
            NamedColorId::Red => self.named[1],
            NamedColorId::Green => self.named[2],
            NamedColorId::Yellow => self.named[3],
            NamedColorId::Blue => self.named[4],
            NamedColorId::Magenta => self.named[5],
            NamedColorId::Cyan => self.named[6],
            NamedColorId::White => self.named[7],
            NamedColorId::BrightBlack => self.named[8],
            NamedColorId::BrightRed => self.named[9],
            NamedColorId::BrightGreen => self.named[10],
            NamedColorId::BrightYellow => self.named[11],
            NamedColorId::BrightBlue => self.named[12],
            NamedColorId::BrightMagenta => self.named[13],
            NamedColorId::BrightCyan => self.named[14],
            NamedColorId::BrightWhite => self.named[15],
            NamedColorId::Foreground => self.foreground,
            NamedColorId::Background => self.background,
            NamedColorId::Cursor => self.cursor,
        }
    }

    /// Resolve a 256-colour index.
    fn resolve_indexed(&self, idx: u8) -> (c: Rgb)
        ensures
            c == self.indexed_spec(idx),
    {
        if idx <= 15 {
            // Standard 16 colours
            self.named[idx as usize]
        } else if idx <= 231 {
            // 216-colour cube (indices 16-231)
            let i = idx - 16;
            let r = i / 36;
            let g = (i % 36) / 6;
            let b = i % 6;
            Rgb::new(
                if r == 0 {
                    0
                } else {
                    r * 40 + 55
                },
                if g == 0 {
                    0
                } else {
                    g * 40 + 55
                },
                if b == 0 {
                    0
                } else {
                    b * 40 + 55
                },
            )
        } else {
            // 24 grayscale (indices 232-255)
            let v = (idx - 232) * 10 + 8;
            Rgb::new(v, v, v)
        }
    }
}

// ---------------------------------------------------------------------------
// Laws
// ---------------------------------------------------------------------------

/// The named colour at position `i` of the sixteen ANSI colours.
pub open spec fn ansi_color(i: int) -> NamedColorId {
    if i == 0 {
        NamedColorId::Black
    } else if i == 1 {
        NamedColorId::Red
    } else if i == 2 {
        NamedColorId::Green
    } else if i == 3 {
        NamedColorId::Yellow
    } else if i == 4 {
        NamedColorId::Blue
    } else if i == 5 {
        NamedColorId::Magenta
    } else if i == 6 {
        NamedColorId::Cyan
    } else if i == 7 {
        NamedColorId::White
    } else if i == 8 {
        NamedColorId::BrightBlack
    } else if i == 9 {
        NamedColorId::BrightRed
    } else if i == 10 {
        NamedColorId::BrightGreen
    } else if i == 11 {
        NamedColorId::BrightYellow
    } else if i == 12 {
        NamedColorId::BrightBlue
    } else if i == 13 {
        NamedColorId::BrightMagenta
    } else if i == 14 {
        NamedColorId::BrightCyan
    } else {
        NamedColorId::BrightWhite
    }
}

/// The first sixteen indexed colours are the sixteen named ANSI colours.
pub proof fn law_indexed_matches_named(p: Palette, i: u8)
    requires
        i < 16,
    ensures
        p.resolve_spec(CellColor::Indexed(i)) == p.resolve_spec(CellColor::Named(ansi_color(i as int))),
{
}

/// Explicit RGB colours are passed through unchanged.
pub proof fn law_rgb_passthrough(p: Palette, r: u8, g: u8, b: u8)
    ensures
        p.resolve_spec(CellColor::Rgb(r, g, b)) == rgb(r, g, b),
{
}

/// The grey ramp gets lighter with the index, from 8 to 238.
pub proof fn law_gray_ramp_increasing(p: Palette, i: u8, j: u8)
    requires
        232 <= i < j,
    ensures
        p.resolve_spec(CellColor::Indexed(i)).r < p.resolve_spec(CellColor::Indexed(j)).r,
        p.resolve_spec(CellColor::Indexed(232)).r == 8,
        p.resolve_spec(CellColor::Indexed(255)).r == 238,
{
}

} // verus!
