//! The core of a host for a fantasy game console with a 160×160 screen of
//! 2-bit pixels: the packed framebuffer and its drawing primitives (pixels,
//! lines, rectangles, ovals, sprite blits and bitmap text), the `tracef`
//! formatter, the cart's linear memory with its host calls, save disk and
//! tone queue, and the hand-off around each frame.

pub mod pixel;
pub mod screen;
pub mod access;
pub mod line;
pub mod rect;
pub mod oval;
pub mod blit;
pub mod text;
pub mod pack;
pub mod trace;
pub mod audio;
pub mod console;
pub mod present;
pub mod laws;
