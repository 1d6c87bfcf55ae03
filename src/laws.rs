//! Properties that hold across the drawing primitives, the host calls and
//! the frame hand-off, stated over the contracts of those functions.
use vstd::prelude::*;
use crate::blit::{blit_shape, format_of_flags, sprite_pixel, BlitParams, BLIT_2BPP};
use crate::console::{
    blit_call, blit_sub_call, disk_image, disk_loaded, fb_of, frame_start, with_fb, DISK_SIZE,
    FRAMEBUFFER_ADDR, MEMORY_SIZE, SYSTEM_FLAGS_ADDR,
};
use crate::pixel::pixel_at;
use crate::screen::{
    blank, dot, draw_color, draw_color_nibble, drawn, lemma_pixel_index, valid_size,
    FRAMEBUFFER_SIZE,
};

verus! {

/// Drawing never changes a pixel past the last row of the screen: every
/// primitive's result is described by `drawn`, which paints only the
/// pixels `(x, y)` with `0 <= x < w` and `0 <= y < h`.
pub proof fn drawing_stays_on_screen(
    old: Seq<u8>,
    new: Seq<u8>,
    w: u32,
    h: u32,
    shape: spec_fn(int, int) -> Option<u8>,
)
    requires
        valid_size(w, h),
        drawn(old, new, w, h, shape),
    ensures
        new.len() == old.len(),
        forall|p: int| w * h <= p < 4 * old.len() ==> #[trigger] pixel_at(new, p) == pixel_at(old, p),
        forall|x: int, y: int|
            0 <= x < w && 0 <= y < h && w * y + x < 4 * old.len() && shape(x, y) is None
                ==> #[trigger] pixel_at(new, w * y + x) == pixel_at(old, w * y + x),
{
    assert forall|x: int, y: int|
        0 <= x < w && 0 <= y < h && w * y + x < 4 * old.len() && shape(x, y) is None
            implies #[trigger] pixel_at(new, w * y + x) == pixel_at(old, w * y + x) by {
        lemma_pixel_index(w as int, h as int, x, y);
    }
}

/// Writing a 2-bit pixel and reading it back gives the value written.
pub proof fn set_pixel_reads_back(old: Seq<u8>, new: Seq<u8>, w: u32, h: u32, x: int, y: int, color: u8)
    requires
        valid_size(w, h),
        0 <= x < w,
        0 <= y < h,
        w * y + x < 4 * old.len(),
        drawn(old, new, w, h, dot(x, y, color)),
    ensures
        pixel_at(new, w * y + x) == color,
{
    lemma_pixel_index(w as int, h as int, x, y);
    assert(pixel_at(new, w * y + x) == crate::pixel::after_paint(
        old,
        crate::pixel::on_screen(w as int, h as int, dot(x, y, color)),
        w * y + x,
    ));
}

/// Clearing, drawing anything, and clearing again leaves an all-zero
/// framebuffer of the same size.
pub proof fn clear_draw_clear(
    fb0: Seq<u8>,
    fb1: Seq<u8>,
    fb2: Seq<u8>,
    fb3: Seq<u8>,
    w: u32,
    h: u32,
    shape: spec_fn(int, int) -> Option<u8>,
)
    requires
        fb1 == Seq::new(fb0.len(), |i: int| 0u8),
        drawn(fb1, fb2, w, h, shape),
        fb3 == Seq::new(fb2.len(), |i: int| 0u8),
    ensures
        fb3 == Seq::new(fb0.len(), |i: int| 0u8),
{
}

/// A blit never paints a target pixel whose sprite pixel selects a draw
/// color slot that holds 0.
pub proof fn transparent_slot_not_blitted(sprite: Seq<u8>, b: BlitParams, tx: int, ty: int, k: int)
    requires
        0 <= k < 4,
        draw_color_nibble(b.draw_colors, k) == 0,
        ({
            let (wx, wy) = crate::blit::window_of(b, tx, ty);
            let (sx, sy) = crate::blit::source_of(b, wx, wy);
            sprite_pixel(sprite, format_of_flags(b.flags), b.stride * sy + sx) == Some(k as u8)
        }),
    ensures
        blit_shape(sprite, b)(tx, ty) is None,
{
}

/// A line, horizontal or vertical line drawn with a transparent first slot
/// paints nothing; a rectangle with a transparent first slot paints only
/// its outline, and with a transparent second slot only its inside.
pub proof fn transparent_slot_not_drawn(draw_colors: u16, x: int, y: int, width: int, height: int)
    ensures
        draw_color_nibble(draw_colors, 0) == 0 ==> draw_color(draw_colors, 0) is None,
        draw_color_nibble(draw_colors, 1) == 0 ==> draw_color(draw_colors, 1) is None,
        draw_color_nibble(draw_colors, 0) == 0 ==> crate::rect::rect_shape(draw_colors, x, y, width, height)
            == crate::screen::overlay_shape(blank(), match draw_color(draw_colors, 1) {
                Some(c) => crate::rect::outline(c, x, y, width, height),
                None => blank(),
            }),
        draw_color_nibble(draw_colors, 1) == 0 ==> crate::rect::rect_shape(draw_colors, x, y, width, height)
            == crate::screen::overlay_shape(match draw_color(draw_colors, 0) {
                Some(f) => crate::rect::box_rows(f, x, width, y, y + height),
                None => blank(),
            }, blank()),
{
}

/// An oval paints only in the colors of its slots that are not 0: its
/// outline only when slot 1 is not 0, its inside only when slot 0 is not 0.
/// With both slots 0 it paints nothing.
pub proof fn transparent_slot_not_oval(draw_colors: u16, x: int, y: int, width: int, height: int, px: int, py: int)
    ensures
        ({
            let f = draw_color_nibble(draw_colors, 0);
            let k = draw_color_nibble(draw_colors, 1);
            &&& crate::oval::oval_shape(draw_colors, x, y, width, height)(px, py) matches Some(v) ==> (
                (k != 0 && v == ((k + 3) % 4) as u8) || (f != 0 && v == ((f + 3) % 4) as u8))
            &&& k == 0 ==> (crate::oval::oval_shape(draw_colors, x, y, width, height)(px, py) matches Some(v)
                ==> v == ((f + 3) % 4) as u8)
            &&& f == 0 ==> (crate::oval::oval_shape(draw_colors, x, y, width, height)(px, py) matches Some(v)
                ==> v == ((k + 3) % 4) as u8)
            &&& (f == 0 && k == 0) ==> crate::oval::oval_shape(draw_colors, x, y, width, height)(px, py) is None
        }),
{
    let k = draw_color_nibble(draw_colors, 1);
    if !(k == 0xf || width > crate::pixel::MAX_SIDE || height > crate::pixel::MAX_SIDE) {
        let (c, w0) = crate::oval::oval_setup(draw_colors, x, y, width, height);
        let n = crate::oval::oval_count(c, w0, crate::oval::OVAL_STEP_LIMIT as nat);
        let wn = crate::oval::oval_walk(c, w0, n);
        crate::oval::lemma_outline_colors(c, w0, n, px, py);
        crate::oval::lemma_caps_colors(c, wn, crate::oval::cap_count(c, wn), px, py);
    }
}

/// Text paints only inside the 8×8 cells of the glyphs it draws before its
/// first 0, and only in the colors of draw-color slots 0 and 1; with both
/// of those slots 0 it paints nothing.
pub proof fn text_stays_in_glyph_cells(chars: Seq<u16>, x: int, y: int, draw_colors: u16, px: int, py: int)
    ensures
        ({
            let n = crate::text::text_end(chars, 0);
            let shape = crate::text::text_shape(chars, x, y, draw_colors, n);
            &&& shape(px, py) matches Some(v) ==> {
                &&& exists|i: int| 0 <= i < n && #[trigger] crate::text::in_glyph_cell(chars, x, y, i, px, py)
                &&& (draw_color(draw_colors, 0) == Some(v) || draw_color(draw_colors, 1) == Some(v))
            }
            &&& (draw_color_nibble(draw_colors, 0) == 0 && draw_color_nibble(draw_colors, 1) == 0)
                ==> shape(px, py) is None
        }),
{
    crate::text::lemma_text_end_bound(chars, 0);
    crate::text::lemma_text_paint(chars, x, y, draw_colors, crate::text::text_end(chars, 0), px, py);
}

/// A blit of a whole sprite (no flags but the pixel format, from `(0, 0)`,
/// with a stride of its width) through the identity draw colors 0x4321
/// puts each sprite pixel at the matching target pixel unchanged, a 1-bit
/// pixel becoming the 2-bit value 0 or 1.
pub proof fn blit_copies_sprite(sprite: Seq<u8>, b: BlitParams, wx: int, wy: int)
    requires
        b.flags == 0 || b.flags == BLIT_2BPP,
        b.src_x == 0,
        b.src_y == 0,
        b.stride == b.width,
        b.draw_colors == 0x4321,
        0 <= wx < b.width,
        0 <= wy < b.height,
        sprite_pixel(sprite, format_of_flags(b.flags), b.width * wy + wx) is Some,
    ensures
        blit_shape(sprite, b)(b.x + wx, b.y + wy) == sprite_pixel(
            sprite,
            format_of_flags(b.flags),
            b.width * wy + wx,
        ),
{
    let f = b.flags;
    assert(f & 8 == 0 && f & 2 == 0 && f & 4 == 0) by (bit_vector)
        requires
            f == 0 || f == 1,
    ;
    assert(draw_color_nibble(0x4321, 0) == 1 && draw_color_nibble(0x4321, 1) == 2
        && draw_color_nibble(0x4321, 2) == 3 && draw_color_nibble(0x4321, 3) == 4) by (bit_vector);
    let v = sprite_pixel(sprite, format_of_flags(b.flags), b.width * wy + wx).unwrap();
    assert(v < 4) by {
        let fmt = format_of_flags(b.flags);
        let p = b.width * wy + wx;
        if fmt == crate::blit::PixelFormat::Blit2BPP {
            let byte = sprite[p / 4];
            let sh = (6 - 2 * (p % 4)) as u8;
            assert((byte >> sh) & 3 < 4) by (bit_vector);
        } else {
            let byte = sprite[p / 8];
            let sh = (7 - p % 8) as u8;
            assert((byte >> sh) & 1 < 4) by (bit_vector);
        }
    }
}

/// `blit` of a whole sprite is `blitSub` of it from `(0, 0)` with a stride
/// of its width.
pub proof fn blit_is_blit_sub(m: Seq<u8>, ptr: u32, x: i32, y: i32, width: u32, height: u32, flags: u32)
    ensures
        blit_call(m, ptr, x, y, width, height, flags) == blit_sub_call(m, ptr, x, y, width, height, 0, 0, width, flags),
{
    assert(width * (height + 0) == width * height);
}

/// Reading the save disk back after writing it gives the bytes written:
/// `diskr(dst, n)` after `diskw(src, n)` copies the `min(n, 1024)` bytes
/// at `src` to `dst`, and the rest of the stored disk is zero.
pub proof fn disk_round_trip(m: Seq<u8>, src: int, dst: int, n: int)
    requires
        m.len() == MEMORY_SIZE,
        0 <= n <= DISK_SIZE,
        0 <= src,
        src + n <= MEMORY_SIZE,
        0 <= dst,
        dst + n <= MEMORY_SIZE,
    ensures
        ({
            let disk = disk_image(m, src, n);
            let back = disk_loaded(m, disk, dst, n);
            &&& back.subrange(dst, dst + n) == m.subrange(src, src + n)
            &&& forall|i: int| n <= i < DISK_SIZE ==> #[trigger] disk[i] == 0
        }),
{
    let disk = disk_image(m, src, n);
    let back = disk_loaded(m, disk, dst, n);
    assert(back.subrange(dst, dst + n) =~= m.subrange(src, src + n));
}

/// At the start of a frame the framebuffer is kept when the preserve flag
/// is set and cleared otherwise; nothing else in memory changes. So what
/// the cart's update then draws lands on the previous frame, or on a blank
/// screen.
pub proof fn frame_start_keeps_or_clears(m: Seq<u8>, end: Seq<u8>, shape: spec_fn(int, int) -> Option<u8>)
    requires
        m.len() == MEMORY_SIZE,
        drawn(fb_of(frame_start(m)), end, crate::screen::SCREEN_SIZE, crate::screen::SCREEN_SIZE, shape),
    ensures
        frame_start(m).len() == MEMORY_SIZE,
        forall|i: int|
            0 <= i < MEMORY_SIZE && !(FRAMEBUFFER_ADDR <= i < FRAMEBUFFER_ADDR + FRAMEBUFFER_SIZE)
                ==> #[trigger] frame_start(m)[i] == m[i],
        m[SYSTEM_FLAGS_ADDR as int] & 1 != 0 ==> drawn(fb_of(m), end, crate::screen::SCREEN_SIZE, crate::screen::SCREEN_SIZE, shape),
        m[SYSTEM_FLAGS_ADDR as int] & 1 == 0 ==> drawn(
            Seq::new(FRAMEBUFFER_SIZE as nat, |i: int| 0u8),
            end,
            crate::screen::SCREEN_SIZE,
            crate::screen::SCREEN_SIZE,
            shape,
        ),
{
    let z = Seq::new(FRAMEBUFFER_SIZE as nat, |i: int| 0u8);
    if m[SYSTEM_FLAGS_ADDR as int] & 1 == 0 {
        assert(fb_of(with_fb(m, z)) =~= z);
    }
}

} // verus!
