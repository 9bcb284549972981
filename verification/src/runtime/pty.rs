//! Terminal dimensions for the pseudo-terminals of managed processes.
use vstd::prelude::*;

verus! {

/// Default terminal dimensions
pub const DEFAULT_COLS: u16 = 80;

pub const DEFAULT_ROWS: u16 = 24;

pub const DEFAULT_CELL_WIDTH: u16 = 8;

pub const DEFAULT_CELL_HEIGHT: u16 = 16;

/// Size of a terminal in cells, and of a cell in pixels.
#[derive(Debug, Clone, Copy, PartialEq, Eq, Structural)]
pub struct WindowSize {
    pub num_lines: u16,
    pub num_cols: u16,
    pub cell_width: u16,
    pub cell_height: u16,
}

/// Create a default `WindowSize` for initial terminal setup
pub fn default_window_size() -> (ws: WindowSize)
    ensures
        ws == (WindowSize {
            num_lines: DEFAULT_ROWS,
            num_cols: DEFAULT_COLS,
            cell_width: DEFAULT_CELL_WIDTH,
            cell_height: DEFAULT_CELL_HEIGHT,
        }),
{
    WindowSize {
        num_lines: DEFAULT_ROWS,
        num_cols: DEFAULT_COLS,
        cell_width: DEFAULT_CELL_WIDTH,
        cell_height: DEFAULT_CELL_HEIGHT,
    }
}

/// A cell dimension of zero counts as one pixel.
pub open spec fn at_least_one(x: u16) -> u16 {
    if x == 0 {
        1
    } else {
        x
    }
}

/// Compute `WindowSize` from pixel dimensions and cell size: as many whole
/// cells as fit.
pub fn window_size_from_pixels(width_px: u16, height_px: u16, cell_width: u16, cell_height: u16) -> (ws:
    WindowSize)
    ensures
        ws == (WindowSize {
            num_cols: width_px / at_least_one(cell_width),
            num_lines: height_px / at_least_one(cell_height),
            cell_width,
            cell_height,
        }),
{
    let w = if cell_width == 0 {
        1
    } else {
        cell_width
    };
    let h = if cell_height == 0 {
        1
    } else {
        cell_height
    };
    WindowSize { num_cols: width_px / w, num_lines: height_px / h, cell_width, cell_height }
}

/// Cells never overflow the window: the columns and lines cover at most the
/// given pixels.
pub proof fn law_cells_fit_in_window(width_px: u16, height_px: u16, cell_width: u16, cell_height: u16)
    ensures
        (width_px / at_least_one(cell_width)) * at_least_one(cell_width) <= width_px,
        (height_px / at_least_one(cell_height)) * at_least_one(cell_height) <= height_px,
{
    vstd::arithmetic::div_mod::lemma_fundamental_div_mod(
        width_px as int,
        at_least_one(cell_width) as int,
    );
    vstd::arithmetic::div_mod::lemma_fundamental_div_mod(
        height_px as int,
        at_least_one(cell_height) as int,
    );
    vstd::arithmetic::div_mod::lemma_mod_bound(width_px as int, at_least_one(cell_width) as int);
    vstd::arithmetic::div_mod::lemma_mod_bound(height_px as int, at_least_one(cell_height) as int);
}

} // verus!
