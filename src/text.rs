//! Bitmap text in the built-in 8×8 font.
use vstd::prelude::*;
use crate::blit::{blit_shape, blit_sub_impl, lemma_low_bits, source_of, BlitParams};
use crate::screen::{
    blank, console_drawn, console_screen, draw_color, drawn, lemma_drawn_ext, lemma_drawn_refl,
    lemma_drawn_trans, overlay_shape, ArrayScreen,
};

verus! {

/// Width of the font atlas in pixels.
pub const FONT_WIDTH: u32 = 128;

/// Height of the font atlas in pixels.
pub const FONT_HEIGHT: u32 = 112;

/// The font atlas: 1 bit per pixel, 16 glyphs of 8×8 per row, starting at
/// character 32.
pub const FONT: [u8; 1792] = [
    0xff, 0xc7, 0x93, 0x93, 0xef, 0x9d, 0x8f, 0xcf, 0xf3, 0x9f, 0xff, 0xff, 0xff, 0xff, 0xff, 0xfd,
    0xff, 0xc7, 0x93, 0x01, 0x83, 0x5b, 0x27, 0xcf, 0xe7, 0xcf, 0x93, 0xe7, 0xff, 0xff, 0xff, 0xfb,
    0xff, 0xc7, 0x93, 0x93, 0x2f, 0x37, 0x27, 0xcf, 0xcf, 0xe7, 0xc7, 0xe7, 0xff, 0xff, 0xff, 0xf7,
    0xff, 0xcf, 0xff, 0x93, 0x83, 0xef, 0x8f, 0xff, 0xcf, 0xe7, 0x01, 0x81, 0xff, 0x81, 0xff, 0xef,
    0xff, 0xcf, 0xff, 0x93, 0xe9, 0xd9, 0x25, 0xff, 0xcf, 0xe7, 0xc7, 0xe7, 0xff, 0xff, 0xff, 0xdf,
    0xff, 0xff, 0xff, 0x01, 0x03, 0xb5, 0x33, 0xff, 0xe7, 0xcf, 0x93, 0xe7, 0xcf, 0xff, 0xcf, 0xbf,
    0xff, 0xcf, 0xff, 0x93, 0xef, 0x73, 0x81, 0xff, 0xf3, 0x9f, 0xff, 0xff, 0xcf, 0xff, 0xcf, 0x7f,
    0xff, 0xff, 0xff, 0xff, 0xff, 0xff, 0xff, 0xff, 0xff, 0xff, 0xff, 0xff, 0x9f, 0xff, 0xff, 0xff,
    0xc7, 0xe7, 0x83, 0x81, 0xe3, 0x03, 0xc3, 0x01, 0x87, 0x83, 0xff, 0xff, 0xf3, 0xff, 0x9f, 0x83,
    0xb3, 0xc7, 0x39, 0xf3, 0xc3, 0x3f, 0x9f, 0x39, 0x3b, 0x39, 0xcf, 0xcf, 0xe7, 0xff, 0xcf, 0x01,
    0x39, 0xe7, 0xf1, 0xe7, 0x93, 0x03, 0x3f, 0xf3, 0x1b, 0x39, 0xcf, 0xcf, 0xcf, 0x01, 0xe7, 0x39,
    0x39, 0xe7, 0xc3, 0xc3, 0x33, 0xf9, 0x03, 0xe7, 0x87, 0x81, 0xff, 0xff, 0x9f, 0xff, 0xf3, 0xf3,
    0x39, 0xe7, 0x87, 0xf9, 0x01, 0xf9, 0x39, 0xcf, 0x61, 0xf9, 0xcf, 0xcf, 0xcf, 0x01, 0xe7, 0xc7,
    0x9b, 0xe7, 0x1f, 0x39, 0xf3, 0x39, 0x39, 0xcf, 0x79, 0xf3, 0xcf, 0xcf, 0xe7, 0xff, 0xcf, 0xff,
    0xc7, 0x81, 0x01, 0x83, 0xf3, 0x83, 0x83, 0xcf, 0x83, 0x87, 0xff, 0x9f, 0xf3, 0xff, 0x9f, 0xc7,
    0xff, 0xff, 0xff, 0xff, 0xff, 0xff, 0xff, 0xff, 0xff, 0xff, 0xff, 0xff, 0xff, 0xff, 0xff, 0xff,
    0x83, 0xc7, 0x03, 0xc3, 0x07, 0x01, 0x01, 0xc1, 0x39, 0x81, 0xf9, 0x39, 0x9f, 0x39, 0x39, 0x83,
    0x7d, 0x93, 0x39, 0x99, 0x33, 0x3f, 0x3f, 0x9f, 0x39, 0xe7, 0xf9, 0x33, 0x9f, 0x11, 0x19, 0x39,
    0x45, 0x39, 0x39, 0x3f, 0x39, 0x3f, 0x3f, 0x3f, 0x39, 0xe7, 0xf9, 0x27, 0x9f, 0x01, 0x09, 0x39,
    0x55, 0x39, 0x03, 0x3f, 0x39, 0x03, 0x03, 0x31, 0x01, 0xe7, 0xf9, 0x0f, 0x9f, 0x01, 0x01, 0x39,
    0x41, 0x01, 0x39, 0x3f, 0x39, 0x3f, 0x3f, 0x39, 0x39, 0xe7, 0xf9, 0x07, 0x9f, 0x29, 0x21, 0x39,
    0x7f, 0x39, 0x39, 0x99, 0x33, 0x3f, 0x3f, 0x99, 0x39, 0xe7, 0x39, 0x23, 0x9f, 0x39, 0x31, 0x39,
    0x83, 0x39, 0x03, 0xc3, 0x07, 0x01, 0x3f, 0xc1, 0x39, 0x81, 0x83, 0x31, 0x81, 0x39, 0x39, 0x83,
    0xff, 0xff, 0xff, 0xff, 0xff, 0xff, 0xff, 0xff, 0xff, 0xff, 0xff, 0xff, 0xff, 0xff, 0xff, 0xff,
    0x03, 0x83, 0x03, 0x87, 0x81, 0x39, 0x39, 0x39, 0x39, 0x99, 0x01, 0xc3, 0x7f, 0x87, 0xc7, 0xff,
    0x39, 0x39, 0x39, 0x33, 0xe7, 0x39, 0x39, 0x39, 0x11, 0x99, 0xf1, 0xcf, 0xbf, 0xe7, 0x93, 0xff,
    0x39, 0x39, 0x39, 0x3f, 0xe7, 0x39, 0x39, 0x29, 0x83, 0x99, 0xe3, 0xcf, 0xdf, 0xe7, 0xff, 0xff,
    0x39, 0x39, 0x31, 0x83, 0xe7, 0x39, 0x11, 0x01, 0xc7, 0xc3, 0xc7, 0xcf, 0xef, 0xe7, 0xff, 0xff,
    0x03, 0x21, 0x07, 0xf9, 0xe7, 0x39, 0x83, 0x01, 0x83, 0xe7, 0x8f, 0xcf, 0xf7, 0xe7, 0xff, 0xff,
    0x3f, 0x33, 0x23, 0x39, 0xe7, 0x39, 0xc7, 0x11, 0x11, 0xe7, 0x1f, 0xcf, 0xfb, 0xe7, 0xff, 0xff,
    0x3f, 0x85, 0x31, 0x83, 0xe7, 0x83, 0xef, 0x39, 0x39, 0xe7, 0x01, 0xc3, 0xfd, 0x87, 0xff, 0xff,
    0xff, 0xff, 0xff, 0xff, 0xff, 0xff, 0xff, 0xff, 0xff, 0xff, 0xff, 0xff, 0xff, 0xff, 0xff, 0x01,
    0xef, 0xff, 0x3f, 0xff, 0xf9, 0xff, 0xf1, 0xff, 0x3f, 0xe7, 0xf3, 0x3f, 0xc7, 0xff, 0xff, 0xff,
    0xf7, 0xff, 0x3f, 0xff, 0xf9, 0xff, 0xe7, 0xff, 0x3f, 0xff, 0xff, 0x3f, 0xe7, 0xff, 0xff, 0xff,
    0xff, 0x83, 0x03, 0x81, 0x81, 0x83, 0x81, 0x81, 0x03, 0xc7, 0xe3, 0x31, 0xe7, 0x03, 0x03, 0x83,
    0xff, 0xf9, 0x39, 0x3f, 0x39, 0x39, 0xe7, 0x39, 0x39, 0xe7, 0xf3, 0x03, 0xe7, 0x49, 0x39, 0x39,
    0xff, 0x81, 0x39, 0x3f, 0x39, 0x01, 0xe7, 0x39, 0x39, 0xe7, 0xf3, 0x07, 0xe7, 0x49, 0x39, 0x39,
    0xff, 0x39, 0x39, 0x3f, 0x39, 0x3f, 0xe7, 0x81, 0x39, 0xe7, 0xf3, 0x23, 0xe7, 0x49, 0x39, 0x39,
    0xff, 0x81, 0x83, 0x81, 0x81, 0x83, 0xe7, 0xf9, 0x39, 0x81, 0xf3, 0x31, 0x81, 0x49, 0x39, 0x83,
    0xff, 0xff, 0xff, 0xff, 0xff, 0xff, 0xff, 0x83, 0xff, 0xff, 0x87, 0xff, 0xff, 0xff, 0xff, 0xff,
    0xff, 0xff, 0xff, 0xff, 0xe7, 0xff, 0xff, 0xff, 0xff, 0xff, 0xff, 0xf3, 0xe7, 0x9f, 0xff, 0xff,
    0xff, 0xff, 0xff, 0xff, 0xe7, 0xff, 0xff, 0xff, 0xff, 0xff, 0xff, 0xe7, 0xe7, 0xcf, 0xff, 0xff,
    0x03, 0x81, 0x91, 0x83, 0x81, 0x39, 0x99, 0x49, 0x39, 0x39, 0x01, 0xe7, 0xe7, 0xcf, 0x8f, 0xff,
    0x39, 0x39, 0x8f, 0x3f, 0xe7, 0x39, 0x99, 0x49, 0x01, 0x39, 0xe3, 0xcf, 0xe7, 0xe7, 0x45, 0xff,
    0x39, 0x39, 0x9f, 0x83, 0xe7, 0x39, 0x99, 0x49, 0xc7, 0x39, 0xc7, 0xe7, 0xe7, 0xcf, 0xe3, 0xff,
    0x03, 0x81, 0x9f, 0xf9, 0xe7, 0x39, 0xc3, 0x49, 0x01, 0x81, 0x8f, 0xe7, 0xe7, 0xcf, 0xff, 0x93,
    0x3f, 0xf9, 0x9f, 0x03, 0xe7, 0x81, 0xe7, 0x81, 0x39, 0xf9, 0x01, 0xf3, 0xe7, 0x9f, 0xff, 0x93,
    0x3f, 0xf9, 0xff, 0xff, 0xff, 0xff, 0xff, 0xff, 0xff, 0x83, 0xff, 0xff, 0xff, 0xff, 0xff, 0xff,
    0x83, 0x83, 0xff, 0xff, 0x83, 0x83, 0x83, 0x83, 0xff, 0xff, 0xff, 0xff, 0xff, 0xff, 0xff, 0xff,
    0x29, 0x39, 0xff, 0xff, 0x11, 0x11, 0x11, 0x11, 0xff, 0xff, 0xff, 0xff, 0xff, 0xff, 0xff, 0xff,
    0x29, 0x09, 0xff, 0xff, 0x21, 0x09, 0x39, 0x11, 0xff, 0xff, 0xff, 0xff, 0xff, 0xff, 0xff, 0xff,
    0x11, 0x11, 0xff, 0xff, 0x7d, 0x7d, 0x55, 0x55, 0xff, 0xff, 0xff, 0xff, 0xff, 0xff, 0xff, 0xff,
    0x29, 0x21, 0xff, 0xff, 0x21, 0x09, 0x11, 0x39, 0xff, 0xff, 0xff, 0xff, 0xff, 0xff, 0xff, 0xff,
    0x29, 0x39, 0xff, 0xff, 0x11, 0x11, 0x11, 0x11, 0xff, 0xff, 0xff, 0xff, 0xff, 0xff, 0xff, 0xff,
    0x83, 0x83, 0xff, 0xff, 0x83, 0x83, 0x83, 0x83, 0xff, 0xff, 0xff, 0xff, 0xff, 0xff, 0xff, 0xff,
    0xff, 0xff, 0xff, 0xff, 0xff, 0xff, 0xff, 0xff, 0xff, 0xff, 0xff, 0xff, 0xff, 0xff, 0xff, 0xff,
    0xff, 0xff, 0xff, 0xff, 0xff, 0xff, 0xff, 0xff, 0xff, 0xff, 0xff, 0xff, 0xff, 0xff, 0xff, 0xff,
    0xff, 0xff, 0xff, 0xff, 0xff, 0xff, 0xff, 0xff, 0xff, 0xff, 0xff, 0xff, 0xff, 0xff, 0xff, 0xff,
    0xff, 0xff, 0xff, 0xff, 0xff, 0xff, 0xff, 0xff, 0xff, 0xff, 0xff, 0xff, 0xff, 0xff, 0xff, 0xff,
    0xff, 0xff, 0xff, 0xff, 0xff, 0xff, 0xff, 0xff, 0xff, 0xff, 0xff, 0xff, 0xff, 0xff, 0xff, 0xff,
    0xff, 0xff, 0xff, 0xff, 0xff, 0xff, 0xff, 0xff, 0xff, 0xff, 0xff, 0xff, 0xff, 0xff, 0xff, 0xff,
    0xff, 0xff, 0xff, 0xff, 0xff, 0xff, 0xff, 0xff, 0xff, 0xff, 0xff, 0xff, 0xff, 0xff, 0xff, 0xff,
    0xff, 0xff, 0xff, 0xff, 0xff, 0xff, 0xff, 0xff, 0xff, 0xff, 0xff, 0xff, 0xff, 0xff, 0xff, 0xff,
    0xff, 0xff, 0xff, 0xff, 0xff, 0xff, 0xff, 0xff, 0xff, 0xff, 0xff, 0xff, 0xff, 0xff, 0xff, 0xff,
    0xff, 0xe7, 0xef, 0xc3, 0xff, 0x99, 0xe7, 0xc3, 0x93, 0xc3, 0x87, 0xff, 0xff, 0xff, 0xc3, 0x83,
    0xff, 0xff, 0x83, 0x99, 0xa5, 0x99, 0xe7, 0x99, 0xff, 0xbd, 0xc3, 0xc9, 0xff, 0xff, 0xbd, 0xff,
    0xff, 0xe7, 0x29, 0x9f, 0xdb, 0xc3, 0xe7, 0x87, 0xff, 0x66, 0x93, 0x93, 0x81, 0xff, 0x46, 0xff,
    0xff, 0xe7, 0x2f, 0x03, 0xdb, 0x81, 0xff, 0xdb, 0xff, 0x5e, 0xc3, 0x27, 0xf9, 0xff, 0x5a, 0xff,
    0xff, 0xc7, 0x29, 0x9f, 0xdb, 0xe7, 0xe7, 0xe1, 0xff, 0x5e, 0xff, 0x93, 0xf9, 0xff, 0x46, 0xff,
    0xff, 0xc7, 0x83, 0x9f, 0xa5, 0x81, 0xe7, 0x99, 0xff, 0x66, 0xff, 0xc9, 0xff, 0xff, 0x5a, 0xff,
    0xff, 0xc7, 0xef, 0x01, 0xff, 0xe7, 0xe7, 0xc3, 0xff, 0xbd, 0xff, 0xff, 0xff, 0xff, 0xbd, 0xff,
    0xff, 0xff, 0xff, 0xff, 0xff, 0xff, 0xff, 0xff, 0xff, 0xc3, 0xff, 0xff, 0xff, 0xff, 0xc3, 0xff,
    0xef, 0xe7, 0xc7, 0xc3, 0xf7, 0xff, 0xc1, 0xff, 0xff, 0xe7, 0xc7, 0xff, 0xbd, 0xbd, 0x1d, 0xc7,
    0xd7, 0xe7, 0xf3, 0xe7, 0xef, 0xff, 0x95, 0xff, 0xff, 0xc7, 0x93, 0x27, 0x3b, 0x3b, 0xbb, 0xff,
    0xef, 0x81, 0xe7, 0xf3, 0xff, 0x33, 0xb5, 0xff, 0xff, 0xe7, 0x93, 0x93, 0xb7, 0xb7, 0xd7, 0xc7,
    0xff, 0xe7, 0xc3, 0xc7, 0xff, 0x33, 0x95, 0xcf, 0xff, 0xc3, 0xc7, 0xc9, 0xad, 0xa9, 0x2d, 0x9f,
    0xff, 0xe7, 0xff, 0xff, 0xff, 0x33, 0xc1, 0xcf, 0xff, 0xff, 0xff, 0x93, 0xd9, 0xdd, 0xd9, 0x39,
    0xff, 0xff, 0xff, 0xff, 0xff, 0x33, 0xf5, 0xff, 0xff, 0xff, 0xff, 0x27, 0xb1, 0xbb, 0xb1, 0x01,
    0xff, 0x81, 0xff, 0xff, 0xff, 0x09, 0xf5, 0xff, 0xf7, 0xff, 0xff, 0xff, 0x7d, 0x71, 0x7d, 0x83,
    0xff, 0xff, 0xff, 0xff, 0xff, 0x3f, 0xff, 0xff, 0xcf, 0xff, 0xff, 0xff, 0xff, 0xff, 0xff, 0xff,
    0xdf, 0xf7, 0xc7, 0xcb, 0x93, 0xef, 0xc1, 0xc3, 0xdf, 0xf7, 0xc7, 0x93, 0xef, 0xf7, 0xe7, 0x99,
    0xef, 0xef, 0x93, 0xa7, 0xff, 0xd7, 0x87, 0x99, 0xef, 0xef, 0x93, 0xff, 0xf7, 0xef, 0xc3, 0xff,
    0xc7, 0xc7, 0xc7, 0xc7, 0xc7, 0xc7, 0x27, 0x3f, 0x01, 0x01, 0x01, 0x01, 0x81, 0x81, 0x81, 0x81,
    0x93, 0x93, 0x93, 0x93, 0x93, 0x93, 0x21, 0x3f, 0x3f, 0x3f, 0x3f, 0x3f, 0xe7, 0xe7, 0xe7, 0xe7,
    0x39, 0x39, 0x39, 0x39, 0x39, 0x39, 0x07, 0x99, 0x03, 0x03, 0x03, 0x03, 0xe7, 0xe7, 0xe7, 0xe7,
    0x01, 0x01, 0x01, 0x01, 0x01, 0x01, 0x27, 0xc3, 0x3f, 0x3f, 0x3f, 0x3f, 0xe7, 0xe7, 0xe7, 0xe7,
    0x39, 0x39, 0x39, 0x39, 0x39, 0x39, 0x21, 0xf7, 0x01, 0x01, 0x01, 0x01, 0x81, 0x81, 0x81, 0x81,
    0xff, 0xff, 0xff, 0xff, 0xff, 0xff, 0xff, 0xcf, 0xff, 0xff, 0xff, 0xff, 0xff, 0xff, 0xff, 0xff,
    0x87, 0xcb, 0xdf, 0xf7, 0xc7, 0xcb, 0x93, 0xff, 0x83, 0xdf, 0xf7, 0xc7, 0x93, 0xf7, 0x3f, 0xc3,
    0x93, 0xa7, 0xef, 0xef, 0x93, 0xa7, 0xff, 0xbb, 0x39, 0xef, 0xef, 0x93, 0xff, 0xef, 0x03, 0x99,
    0x99, 0x19, 0x83, 0x83, 0x83, 0x83, 0x83, 0xd7, 0x31, 0x39, 0x39, 0xff, 0x39, 0x99, 0x39, 0x99,
    0x09, 0x09, 0x39, 0x39, 0x39, 0x39, 0x39, 0xef, 0x29, 0x39, 0x39, 0x39, 0x39, 0x99, 0x39, 0x93,
    0x99, 0x01, 0x39, 0x39, 0x39, 0x39, 0x39, 0xd7, 0x19, 0x39, 0x39, 0x39, 0x39, 0xc3, 0x39, 0x99,
    0x93, 0x21, 0x39, 0x39, 0x39, 0x39, 0x39, 0xbb, 0x39, 0x39, 0x39, 0x39, 0x39, 0xe7, 0x03, 0x89,
    0x87, 0x31, 0x83, 0x83, 0x83, 0x83, 0x83, 0xff, 0x83, 0x83, 0x83, 0x83, 0x83, 0xe7, 0x3f, 0x93,
    0xff, 0xff, 0xff, 0xff, 0xff, 0xff, 0xff, 0xff, 0xff, 0xff, 0xff, 0xff, 0xff, 0xff, 0xff, 0xff,
    0xdf, 0xf7, 0xc7, 0xcb, 0x93, 0xef, 0xff, 0xff, 0xdf, 0xf7, 0xc7, 0x93, 0xdf, 0xf7, 0xc7, 0x93,
    0xef, 0xef, 0x93, 0xa7, 0xff, 0xd7, 0xff, 0xff, 0xef, 0xef, 0x93, 0xff, 0xef, 0xef, 0x93, 0xff,
    0x83, 0x83, 0x83, 0x83, 0x83, 0x83, 0x83, 0x81, 0x83, 0x83, 0x83, 0x83, 0xff, 0xff, 0xff, 0xc7,
    0xf9, 0xf9, 0xf9, 0xf9, 0xf9, 0xf9, 0xe9, 0x3f, 0x39, 0x39, 0x39, 0x39, 0xc7, 0xc7, 0xc7, 0xe7,
    0x81, 0x81, 0x81, 0x81, 0x81, 0x81, 0x81, 0x3f, 0x01, 0x01, 0x01, 0x01, 0xe7, 0xe7, 0xe7, 0xe7,
    0x39, 0x39, 0x39, 0x39, 0x39, 0x39, 0x2f, 0x81, 0x3f, 0x3f, 0x3f, 0x3f, 0xe7, 0xe7, 0xe7, 0xe7,
    0x81, 0x81, 0x81, 0x81, 0x81, 0x81, 0x83, 0xf7, 0x83, 0x83, 0x83, 0x83, 0x81, 0x81, 0x81, 0x81,
    0xff, 0xff, 0xff, 0xff, 0xff, 0xff, 0xff, 0xcf, 0xff, 0xff, 0xff, 0xff, 0xff, 0xff, 0xff, 0xff,
    0x9b, 0xcb, 0xdf, 0xf7, 0xc7, 0xcb, 0x93, 0xff, 0xff, 0xdf, 0xf7, 0xc7, 0x93, 0xf7, 0x3f, 0x93,
    0x87, 0xa7, 0xef, 0xef, 0x93, 0xa7, 0xff, 0xe7, 0xff, 0xef, 0xef, 0x93, 0xff, 0xef, 0x3f, 0xff,
    0x67, 0x03, 0x83, 0x83, 0x83, 0x83, 0x83, 0xff, 0x83, 0x39, 0x39, 0xff, 0x39, 0x39, 0x03, 0x39,
    0x83, 0x39, 0x39, 0x39, 0x39, 0x39, 0x39, 0x81, 0x31, 0x39, 0x39, 0x39, 0x39, 0x39, 0x39, 0x39,
    0x39, 0x39, 0x39, 0x39, 0x39, 0x39, 0x39, 0xff, 0x29, 0x39, 0x39, 0x39, 0x39, 0x39, 0x39, 0x39,
    0x39, 0x39, 0x39, 0x39, 0x39, 0x39, 0x39, 0xe7, 0x19, 0x39, 0x39, 0x39, 0x39, 0x81, 0x03, 0x81,
    0x83, 0x39, 0x83, 0x83, 0x83, 0x83, 0x83, 0xff, 0x83, 0x81, 0x81, 0x81, 0x81, 0xf9, 0x3f, 0xf9,
    0xff, 0xff, 0xff, 0xff, 0xff, 0xff, 0xff, 0xff, 0xff, 0xff, 0xff, 0xff, 0xff, 0x83, 0x3f, 0x83,
];

/// The font atlas as a sequence of bytes.
#[verifier::opaque]
pub open spec fn font_atlas() -> Seq<u8> {
    FONT@
}

/// Where the text continues after character `c`, written at `(tx, ty)` on a
/// text that started at column `x0`: a line feed goes back to `x0` one row of
/// glyphs lower, anything else moves one glyph right.
pub open spec fn next_pos(c: u16, x0: int, tx: int, ty: int) -> (int, int) {
    if c == 10 {
        (x0, ty + 8)
    } else {
        (tx + 8, ty)
    }
}

/// Where character `i` of `chars` is written.
pub open spec fn text_pos(chars: Seq<u16>, x0: int, y0: int, i: int) -> (int, int)
    decreases i,
{
    if i <= 0 {
        (x0, y0)
    } else {
        let (tx, ty) = text_pos(chars, x0, y0, i - 1);
        next_pos(chars[i - 1], x0, tx, ty)
    }
}

/// `v` fits in an `i32`.
pub open spec fn fits_i32(v: int) -> bool {
    -0x8000_0000 <= v < 0x8000_0000
}

/// What character `c` paints at `(tx, ty)`: characters 32 to 255 copy their
/// glyph from the font; others paint nothing. A glyph whose position does not
/// fit an `i32` lies far off the screen and paints nothing either.
pub open spec fn glyph(c: u16, tx: int, ty: int, draw_colors: u16) -> spec_fn(int, int) -> Option<u8> {
    if 32 <= c <= 255 && fits_i32(tx) && fits_i32(ty) {
        blit_shape(
            font_atlas(),
            BlitParams {
                x: tx as i32,
                y: ty as i32,
                width: 8,
                height: 8,
                src_x: (((c - 32) as u32 % 16) * 8) as u32,
                src_y: (((c - 32) as u32 / 16) * 8) as u32,
                stride: FONT_WIDTH,
                flags: 0,
                draw_colors,
            },
        )
    } else {
        blank()
    }
}

/// What the first `n` characters of `chars` paint, later glyphs over earlier ones.
pub open spec fn text_shape(chars: Seq<u16>, x0: int, y0: int, draw_colors: u16, n: int) -> spec_fn(
    int,
    int,
) -> Option<u8>
    decreases n,
{
    if n <= 0 {
        blank()
    } else {
        let (tx, ty) = text_pos(chars, x0, y0, n - 1);
        overlay_shape(text_shape(chars, x0, y0, draw_colors, n - 1), glyph(chars[n - 1], tx, ty, draw_colors))
    }
}

/// Pixel `(px, py)` lies in the 8×8 cell of character `i`, which is one that
/// copies a glyph (32 to 255).
pub open spec fn in_glyph_cell(chars: Seq<u16>, x0: int, y0: int, i: int, px: int, py: int) -> bool {
    let (cx, cy) = text_pos(chars, x0, y0, i);
    &&& 32 <= chars[i] <= 255
    &&& cx <= px < cx + 8
    &&& cy <= py < cy + 8
}

/// A glyph paints only inside its cell, and only in the color of draw-color
/// slot 0 or 1.
pub proof fn lemma_glyph_paint(c: u16, tx: int, ty: int, draw_colors: u16, px: int, py: int)
    ensures
        glyph(c, tx, ty, draw_colors)(px, py) matches Some(v) ==> {
            &&& 32 <= c <= 255
            &&& tx <= px < tx + 8
            &&& ty <= py < ty + 8
            &&& (draw_color(draw_colors, 0) == Some(v) || draw_color(draw_colors, 1) == Some(v))
        },
{
    if 32 <= c <= 255 && fits_i32(tx) && fits_i32(ty) {
        assert(0u32 & 8 == 0 && 0u32 & 2 == 0 && 0u32 & 1 == 0) by (bit_vector);
        let b = BlitParams {
            x: tx as i32,
            y: ty as i32,
            width: 8,
            height: 8,
            src_x: (((c - 32) as u32 % 16) * 8) as u32,
            src_y: (((c - 32) as u32 / 16) * 8) as u32,
            stride: FONT_WIDTH,
            flags: 0,
            draw_colors,
        };
        let (sx, sy) = source_of(b, px - tx, py - ty);
        let p = b.stride * sy + sx;
        if 0 <= p && p / 8 < font_atlas().len() {
            lemma_low_bits(font_atlas()[p / 8] >> ((7 - p % 8) as u8));
        }
    }
}

/// Text paints only inside the cells of its glyphs before the first 0, and
/// only in the colors of draw-color slots 0 and 1.
pub proof fn lemma_text_paint(chars: Seq<u16>, x0: int, y0: int, draw_colors: u16, n: int, px: int, py: int)
    requires
        n <= chars.len(),
    ensures
        text_shape(chars, x0, y0, draw_colors, n)(px, py) matches Some(v) ==> {
            &&& exists|i: int| 0 <= i < n && #[trigger] in_glyph_cell(chars, x0, y0, i, px, py)
            &&& (draw_color(draw_colors, 0) == Some(v) || draw_color(draw_colors, 1) == Some(v))
        },
    decreases n,
{
    if n > 0 {
        lemma_text_paint(chars, x0, y0, draw_colors, n - 1, px, py);
        let (tx, ty) = text_pos(chars, x0, y0, n - 1);
        lemma_glyph_paint(chars[n - 1], tx, ty, draw_colors, px, py);
        if glyph(chars[n - 1], tx, ty, draw_colors)(px, py) is Some {
            assert(in_glyph_cell(chars, x0, y0, n - 1, px, py));
        }
    }
}

/// The number of characters before the first 0 at or after `i`.
pub open spec fn text_end(chars: Seq<u16>, i: int) -> int
    decreases chars.len() - i,
{
    if i >= chars.len() || i < 0 {
        chars.len() as int
    } else if chars[i] == 0 {
        i
    } else {
        text_end(chars, i + 1)
    }
}

/// The text ends no later than the end of `chars`.
pub proof fn lemma_text_end_bound(chars: Seq<u16>, i: int)
    ensures
        text_end(chars, i) <= chars.len(),
        i >= 0 ==> text_end(chars, i) >= 0,
    decreases chars.len() - i,
{
    if !(i >= chars.len() || i < 0) && chars[i] != 0 {
        lemma_text_end_bound(chars, i + 1);
    }
}

/// Draws the glyph of character `c` at `(tx, ty)`.
fn draw_glyph(s: &mut ArrayScreen, font: &[u8], c: u16, tx: i64, ty: i64, draw_colors: u16)
    requires
        old(s).wf(),
        font@ == font_atlas(),
    ensures
        final(s).width == old(s).width,
        final(s).height == old(s).height,
        drawn(old(s).fb@, final(s).fb@, old(s).width, old(s).height, glyph(c, tx as int, ty as int, draw_colors)),
{
    if 32 <= c && c <= 255 && -0x8000_0000 <= tx && tx < 0x8000_0000 && -0x8000_0000 <= ty
        && ty < 0x8000_0000 {
        let b = BlitParams {
            x: tx as i32,
            y: ty as i32,
            width: 8,
            height: 8,
            src_x: (((c - 32) as u32 % 16) * 8) as u32,
            src_y: (((c - 32) as u32 / 16) * 8) as u32,
            stride: FONT_WIDTH,
            flags: 0,
            draw_colors,
        };
        blit_sub_impl(s, font, b);
    } else {
        proof {
            lemma_drawn_refl(s.fb@, s.width, s.height);
        }
    }
}

/// Draws `chars` at `(x, y)` in the built-in font; see [`text`].
#[verifier::rlimit(50)]
pub fn text_impl(s: &mut ArrayScreen, chars: &[u16], x: i32, y: i32, draw_colors: u16)
    requires
        old(s).wf(),
        chars@.len() <= 0x1_0000_0000,
    ensures
        final(s).width == old(s).width,
        final(s).height == old(s).height,
        drawn(
            old(s).fb@,
            final(s).fb@,
            old(s).width,
            old(s).height,
            text_shape(chars@, x as int, y as int, draw_colors, text_end(chars@, 0)),
        ),
{
    let ghost before = s.fb@;
    let w = s.width;
    let h = s.height;
    let font = FONT.as_slice();
    proof {
        reveal(font_atlas);
    }
    let mut tx: i64 = x as i64;
    let mut ty: i64 = y as i64;
    let mut i: usize = 0;
    proof {
        lemma_drawn_refl(before, w, h);
        lemma_drawn_ext(before, s.fb@, w, h, blank(), text_shape(chars@, x as int, y as int, draw_colors, 0));
    }
    while i < chars.len() && chars[i] != 0
        invariant
            s.wf(),
            s.width == w,
            s.height == h,
            w == old(s).width,
            h == old(s).height,
            font@ == font_atlas(),
            chars@.len() <= 0x1_0000_0000,
            i <= chars@.len(),
            (tx as int, ty as int) == text_pos(chars@, x as int, y as int, i as int),
            -0x8000_0000 - 8 * i <= tx <= 0x8000_0000 + 8 * i,
            -0x8000_0000 - 8 * i <= ty <= 0x8000_0000 + 8 * i,
            text_end(chars@, 0) == text_end(chars@, i as int),
            drawn(before, s.fb@, w, h, text_shape(chars@, x as int, y as int, draw_colors, i as int)),
        decreases chars@.len() - i,
    {
        let c = chars[i];
        let ghost mid = s.fb@;
        draw_glyph(s, font, c, tx, ty, draw_colors);
        proof {
            lemma_drawn_trans(before, mid, s.fb@, w, h, text_shape(chars@, x as int, y as int, draw_colors, i as int), glyph(c, tx as int, ty as int, draw_colors));
            assert(text_shape(chars@, x as int, y as int, draw_colors, i + 1) == overlay_shape(
                text_shape(chars@, x as int, y as int, draw_colors, i as int),
                glyph(c, tx as int, ty as int, draw_colors),
            ));
        }
        if c == 10 {
            ty = ty + 8;
            tx = x as i64;
        } else {
            tx = tx + 8;
        }
        i += 1;
    }
    assert(text_end(chars@, i as int) == i);
}

/// Draws `chars` at `(x, y)` of the console screen in the built-in font.
/// A 0 ends the text; a line feed (10) starts a new row of glyphs 8 pixels
/// lower at column `x`; characters 32 to 255 copy their 8×8 glyph through the
/// draw colors; any other character leaves an empty space.
pub fn text(fb: &mut Vec<u8>, chars: &[u16], x: i32, y: i32, draw_colors: u16)
    requires
        chars@.len() <= 0x1_0000_0000,
    ensures
        console_drawn(
            old(fb)@,
            final(fb)@,
            text_shape(chars@, x as int, y as int, draw_colors, text_end(chars@, 0)),
        ),
{
    let mut s = console_screen(fb);
    text_impl(&mut s, chars, x, y, draw_colors);
    *fb = s.fb;
}

} // verus!
