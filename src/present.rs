//! What the display and input side needs: default registers, turning the
//! framebuffer into colors, letterboxing, and mapping keys and the mouse.
use vstd::prelude::*;
use crate::pixel::slot_of;
use crate::screen::{FRAMEBUFFER_SIZE, SCREEN_SIZE};

verus! {

/// Gamepad button 1 (X key).
pub const BUTTON_1: u8 = 1;

/// Gamepad button 2 (Z key).
pub const BUTTON_2: u8 = 2;

/// Gamepad left.
pub const BUTTON_LEFT: u8 = 16;

/// Gamepad right.
pub const BUTTON_RIGHT: u8 = 32;

/// Gamepad up.
pub const BUTTON_UP: u8 = 64;

/// Gamepad down.
pub const BUTTON_DOWN: u8 = 128;

/// Left mouse button.
pub const MOUSE_LEFT: u8 = 1;

/// Right mouse button.
pub const MOUSE_RIGHT: u8 = 2;

/// Middle mouse button.
pub const MOUSE_MIDDLE: u8 = 4;

/// The default palette: four colors of 4 bytes each, blue, green, red, 0.
pub fn default_palette() -> (r: Vec<u8>)
    ensures
        r@ == seq![
            0xcfu8, 0xf8, 0xe0, 0x00, 0x6c, 0xc0, 0x86, 0x00,
            0x50, 0x68, 0x30, 0x00, 0x21, 0x18, 0x07, 0x00,
        ],
{
    vec![0xcf, 0xf8, 0xe0, 0x00, 0x6c, 0xc0, 0x86, 0x00, 0x50, 0x68, 0x30, 0x00, 0x21, 0x18, 0x07, 0x00]
}

/// The default draw colors, 0x1203, little-endian.
pub fn default_draw_colors() -> (r: Vec<u8>)
    ensures
        r@ == seq![0x03u8, 0x12],
{
    vec![0x03, 0x12]
}

/// An all-zero framebuffer.
pub fn default_framebuffer() -> (r: Vec<u8>)
    ensures
        r@ == Seq::new(FRAMEBUFFER_SIZE as nat, |i: int| 0u8),
{
    crate::console::zeros(FRAMEBUFFER_SIZE)
}

/// An all-zero framebuffer.
pub fn empty_framebuffer() -> (r: Vec<u8>)
    ensures
        r@ == Seq::new(FRAMEBUFFER_SIZE as nat, |i: int| 0u8),
{
    default_framebuffer()
}

/// Unpacks, in place, the packed pixels held in the first quarter of
/// `data` into one byte per pixel across all of it.
pub fn expand_fb_to_index8(data: &mut Vec<u8>)
    requires
        old(data)@.len() % 4 == 0,
    ensures
        final(data)@.len() == old(data)@.len(),
        forall|k: int|
            0 <= k < old(data)@.len() ==> #[trigger] final(data)@[k] == slot_of(old(data)@[k / 4], k % 4),
{
    let len = data.len();
    let mut n: usize = len / 4;
    while n > 0
        invariant
            len == data@.len(),
            len == old(data)@.len(),
            len % 4 == 0,
            n <= len / 4,
            forall|k: int| 0 <= k < 4 * n ==> #[trigger] data@[k] == old(data)@[k],
            forall|k: int|
                4 * n <= k < len ==> #[trigger] data@[k] == slot_of(old(data)@[k / 4], k % 4),
        decreases n,
    {
        n -= 1;
        let buf = data[n];
        assert(buf == old(data)@[n as int]);
        let m = 4 * n + 3;
        data.set(m, (buf >> 6u8) & 3);
        data.set(m - 1, (buf >> 4u8) & 3);
        data.set(m - 2, (buf >> 2u8) & 3);
        data.set(m - 3, buf & 3);
    }
}

/// Byte `k` of the 24-bit picture of `framebuffer`: red, green, blue of
/// each pixel in turn, each taken from its palette color.
pub open spec fn rgb_byte(framebuffer: Seq<u8>, palette: Seq<u8>, k: int) -> u8 {
    let p = k / 3;
    let c = slot_of(framebuffer[p / 4], p % 4) as int;
    palette[4 * c + 2 - k % 3]
}

/// Turns a framebuffer into 24-bit pixels, red, green, blue, through the
/// palette.
pub fn framebuffer_to_rgb24(framebuffer: &[u8], palette: &[u8]) -> (r: Vec<u8>)
    requires
        framebuffer@.len() == FRAMEBUFFER_SIZE,
        palette@.len() == 16,
    ensures
        r@ == Seq::new((12 * FRAMEBUFFER_SIZE) as nat, |k: int| rgb_byte(framebuffer@, palette@, k)),
{
    let mut r: Vec<u8> = Vec::new();
    let mut p: usize = 0;
    while p < 4 * FRAMEBUFFER_SIZE
        invariant
            framebuffer@.len() == FRAMEBUFFER_SIZE,
            palette@.len() == 16,
            p <= 4 * FRAMEBUFFER_SIZE,
            r@ == Seq::new((3 * p) as nat, |k: int| rgb_byte(framebuffer@, palette@, k)),
        decreases 4 * FRAMEBUFFER_SIZE - p,
    {
        let b = framebuffer[p / 4];
        let slot = p % 4;
        let c: u8 = if slot == 0 {
            b & 3
        } else if slot == 1 {
            (b >> 2u8) & 3
        } else if slot == 2 {
            (b >> 4u8) & 3
        } else {
            (b >> 6u8) & 3
        };
        assert(c < 4) by (bit_vector)
            requires
                c == b & 3 || c == (b >> 2u8) & 3 || c == (b >> 4u8) & 3 || c == (b >> 6u8) & 3,
        ;
        let ci = c as usize;
        r.push(palette[4 * ci + 2]);
        r.push(palette[4 * ci + 1]);
        r.push(palette[4 * ci]);
        proof {
            assert((3 * p) / 3 == p && (3 * p + 1) / 3 == p && (3 * p + 2) / 3 == p);
            assert((3 * p) % 3 == 0 && (3 * p + 1) % 3 == 1 && (3 * p + 2) % 3 == 2);
        }
        p += 1;
        assert(r@ =~= Seq::new((3 * p) as nat, |k: int| rgb_byte(framebuffer@, palette@, k)));
    }
    r
}

/// Where the game's square picture goes in a window: centered, as large
/// as the shorter side allows.
#[derive(Clone, Copy, PartialEq, Eq, Debug)]
pub struct Viewport {
    pub x: u32,
    pub y: u32,
    pub size: u32,
}

/// The largest centered square in a `width`×`height` window.
pub fn bounding_rect(width: u32, height: u32) -> (r: Viewport)
    ensures
        r.size == if width < height { width } else { height },
        r.x == (width - r.size) / 2,
        r.y == (height - r.size) / 2,
{
    let size = if width < height { width } else { height };
    Viewport { x: (width - size) / 2, y: (height - size) / 2, size }
}

/// A key the console listens to.
#[derive(Clone, Copy, PartialEq, Eq, Debug)]
pub enum Key {
    Left,
    Right,
    Up,
    Down,
    X,
    Z,
    Other,
}

/// The gamepad bit of a key.
pub fn key_mask(key: Key) -> (r: u8)
    ensures
        r == match key {
            Key::Left => BUTTON_LEFT,
            Key::Right => BUTTON_RIGHT,
            Key::Up => BUTTON_UP,
            Key::Down => BUTTON_DOWN,
            Key::X => BUTTON_1,
            Key::Z => BUTTON_2,
            Key::Other => 0u8,
        },
{
    match key {
        Key::Left => BUTTON_LEFT,
        Key::Right => BUTTON_RIGHT,
        Key::Up => BUTTON_UP,
        Key::Down => BUTTON_DOWN,
        Key::X => BUTTON_1,
        Key::Z => BUTTON_2,
        Key::Other => 0,
    }
}

/// A mouse button the console listens to.
#[derive(Clone, Copy, PartialEq, Eq, Debug)]
pub enum MouseButton {
    Left,
    Middle,
    Right,
    Other,
}

/// The mouse-buttons bit of a button.
pub fn mouse_mask(button: MouseButton) -> (r: u8)
    ensures
        r == match button {
            MouseButton::Left => MOUSE_LEFT,
            MouseButton::Middle => MOUSE_MIDDLE,
            MouseButton::Right => MOUSE_RIGHT,
            MouseButton::Other => 0u8,
        },
{
    match button {
        MouseButton::Left => MOUSE_LEFT,
        MouseButton::Middle => MOUSE_MIDDLE,
        MouseButton::Right => MOUSE_RIGHT,
        MouseButton::Other => 0,
    }
}

/// A button register after a press (`down`) or release of the buttons in `mask`.
pub fn press(register: u8, mask: u8, down: bool) -> (r: u8)
    ensures
        r == if down { register | mask } else { register & !mask },
{
    if down {
        register | mask
    } else {
        register & !mask
    }
}

/// The framebuffer pixel under window position `(x, y)` of a
/// `width`×`height` window, or `None` where it lies on the black bars
/// around the picture.
pub fn window_to_game(x: u32, y: u32, width: u32, height: u32) -> (r: Option<(i16, i16)>)
    ensures
        ({
            let v: int = if width < height { width as int } else { height as int };
            let bx: int = (width - v) / 2;
            let by: int = (height - v) / 2;
            if v > 0 && bx <= x <= width - bx && by <= y <= height - by {
                r == Some((((x - bx) * SCREEN_SIZE / v) as i16, ((y - by) * SCREEN_SIZE / v) as i16))
            } else {
                r is None
            }
        }),
{
    let v = bounding_rect(width, height);
    if v.size > 0 && v.x <= x && x <= width - v.x && v.y <= y && y <= height - v.y {
        let gx: u64 = ((x - v.x) as u64) * (SCREEN_SIZE as u64) / (v.size as u64);
        let gy: u64 = ((y - v.y) as u64) * (SCREEN_SIZE as u64) / (v.size as u64);
        proof {
            assert(((x - v.x) as int) * 160 / (v.size as int) <= 160 + 160 * 0x8000_0000) by (nonlinear_arith)
                requires
                    x - v.x <= v.size + 1 + v.x,
                    v.size > 0,
            ;
        }
        Some((gx as i16, gy as i16))
    } else {
        None
    }
}

} // verus!
