//! Terminal handling: sanitizing output, colours, rendering decisions and the
//! bytes that key presses send.
pub mod grid;
pub mod keys;
pub mod palette;
pub mod render;
pub mod sanitizer;
