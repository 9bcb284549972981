//! Renderer-facing description of a terminal grid: cells, colours and flags.
use vstd::prelude::*;

verus! {

/// Simplified colour representation for the renderer.
#[derive(Debug, Clone, Copy)]
pub enum CellColor {
    Named(NamedColorId),
    Indexed(u8),
    Rgb(u8, u8, u8),
}

/// Named colour identifiers (matching standard terminal colours).
#[derive(Debug, Clone, Copy)]
pub enum NamedColorId {
    Black,
    Red,
    Green,
    Yellow,
    Blue,
    Magenta,
    Cyan,
    White,
    BrightBlack,
    BrightRed,
    BrightGreen,
    BrightYellow,
    BrightBlue,
    BrightMagenta,
    BrightCyan,
    BrightWhite,
    Foreground,
    Background,
    Cursor,
}

/// Simplified cell flags for rendering.
#[derive(Debug, Clone, Copy, Default)]
pub struct CellFlags {
    pub bold: bool,
    pub italic: bool,
    pub underline: bool,
    pub dim: bool,
    pub inverse: bool,
    pub strikethrough: bool,
    pub hidden: bool,
}

/// A cell ready for rendering with resolved colours.
#[derive(Debug, Clone)]
pub struct RenderableCell {
    pub x: usize,
    pub y: usize,
    pub character: char,
    pub fg: CellColor,
    pub bg: CellColor,
    pub flags: CellFlags,
}

/// Snapshot of terminal content for rendering.
#[derive(Debug, Clone)]
pub struct TerminalContent {
    pub cells: Vec<RenderableCell>,
    pub cols: usize,
    pub rows: usize,
    pub cursor_x: usize,
    pub cursor_y: usize,
    pub cursor_visible: bool,
}

} // verus!
