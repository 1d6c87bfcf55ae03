//! Filled and outlined rectangles.
use vstd::prelude::*;
use crate::line::{hline_impl, hline_shape, vline_impl, vline_shape};
use crate::screen::{
    blank, console_drawn, console_screen, draw_color, drawn, lemma_drawn_ext, lemma_drawn_refl,
    lemma_drawn_trans, overlay_shape, remap_draw_color, ArrayScreen,
};

verus! {

/// The pixels `x..x + width` of rows `y0..y1`.
pub open spec fn box_rows(color: u8, x: int, width: int, y0: int, y1: int) -> spec_fn(int, int) -> Option<u8> {
    |px: int, py: int|
        if x <= px < x + width && y0 <= py < y1 {
            Some(color)
        } else {
            None::<u8>
        }
}

/// The outline of a `width`×`height` rectangle at `(x, y)`: its top and
/// bottom rows, then its left and right columns.
pub open spec fn outline(color: u8, x: int, y: int, width: int, height: int) -> spec_fn(int, int) -> Option<u8> {
    overlay_shape(
        overlay_shape(
            overlay_shape(hline_shape(color, x, y, width), hline_shape(color, x, y + height - 1, width)),
            vline_shape(color, x, y, height),
        ),
        vline_shape(color, x + width - 1, y, height),
    )
}

/// What `rect` paints: the inside in the first draw color where that is
/// opaque, then the outline in the second draw color where that is opaque.
pub open spec fn rect_shape(draw_colors: u16, x: int, y: int, width: int, height: int) -> spec_fn(int, int) -> Option<u8> {
    let fill = match draw_color(draw_colors, 0) {
        Some(f) => box_rows(f, x, width, y, y + height),
        None => blank(),
    };
    let stroke = match draw_color(draw_colors, 1) {
        Some(c) => outline(c, x, y, width, height),
        None => blank(),
    };
    overlay_shape(fill, stroke)
}

/// Draws a horizontal line, or nothing where its row does not fit an `i32`
/// (it then lies off the screen).
fn hline_far(s: &mut ArrayScreen, stroke: u8, x: i32, y: i64, len: u32)
    requires
        old(s).wf(),
        stroke < 4,
    ensures
        final(s).width == old(s).width,
        final(s).height == old(s).height,
        drawn(old(s).fb@, final(s).fb@, old(s).width, old(s).height, hline_shape(stroke, x as int, y as int, len as int)),
{
    if -0x8000_0000 <= y && y < 0x8000_0000 {
        hline_impl(s, stroke, x, y as i32, len);
    } else {
        proof {
            lemma_drawn_refl(s.fb@, s.width, s.height);
            lemma_drawn_ext(s.fb@, s.fb@, s.width, s.height, blank(), hline_shape(stroke, x as int, y as int, len as int));
        }
    }
}

/// Draws a vertical line, or nothing where its column does not fit an
/// `i32` (it then lies off the screen).
fn vline_far(s: &mut ArrayScreen, stroke: u8, x: i64, y: i32, len: u32)
    requires
        old(s).wf(),
        stroke < 4,
    ensures
        final(s).width == old(s).width,
        final(s).height == old(s).height,
        drawn(old(s).fb@, final(s).fb@, old(s).width, old(s).height, vline_shape(stroke, x as int, y as int, len as int)),
{
    if -0x8000_0000 <= x && x < 0x8000_0000 {
        vline_impl(s, stroke, x as i32, y, len);
    } else {
        proof {
            lemma_drawn_refl(s.fb@, s.width, s.height);
            lemma_drawn_ext(s.fb@, s.fb@, s.width, s.height, blank(), vline_shape(stroke, x as int, y as int, len as int));
        }
    }
}

/// Draws a `width`×`height` rectangle at `(x, y)`: filled with the first
/// draw color and outlined with the second, each skipped where transparent.
pub fn rect_impl(s: &mut ArrayScreen, draw_colors: u16, x: i32, y: i32, width: u32, height: u32)
    requires
        old(s).wf(),
    ensures
        final(s).width == old(s).width,
        final(s).height == old(s).height,
        drawn(
            old(s).fb@,
            final(s).fb@,
            old(s).width,
            old(s).height,
            rect_shape(draw_colors, x as int, y as int, width as int, height as int),
        ),
{
    let ghost before = s.fb@;
    let w = s.width;
    let h = s.height;
    let ghost fill_shape = match draw_color(draw_colors, 0) {
        Some(f) => box_rows(f, x as int, width as int, y as int, y + height),
        None => blank(),
    };
    if let Some(fill) = remap_draw_color(0, draw_colors) {
        let lo: i64 = if y > 0 { y as i64 } else { 0 };
        let hi: i64 = if (y as i64) + (height as i64) < h as i64 { (y as i64) + (height as i64) } else { h as i64 };
        let mut fy: i64 = lo;
        proof {
            lemma_drawn_refl(before, w, h);
            lemma_drawn_ext(before, s.fb@, w, h, blank(), box_rows(fill, x as int, width as int, lo as int, lo as int));
        }
        while fy < hi
            invariant
                s.wf(),
                s.width == w,
                s.height == h,
                w == old(s).width,
                h == old(s).height,
                fill < 4,
                0 <= lo <= fy,
                hi <= h,
                fy <= hi || fy == lo,
                lo == if y > 0 { y as int } else { 0 },
                hi == if (y as int) + (height as int) < h { (y as int) + (height as int) } else { h as int },
                drawn(before, s.fb@, w, h, box_rows(fill, x as int, width as int, lo as int, fy as int)),
            decreases hi - fy,
        {
            let ghost mid = s.fb@;
            hline_impl(s, fill, x, fy as i32, width);
            proof {
                lemma_drawn_trans(before, mid, s.fb@, w, h, box_rows(fill, x as int, width as int, lo as int, fy as int), hline_shape(fill, x as int, fy as int, width as int));
                lemma_drawn_ext(before, s.fb@, w, h, overlay_shape(box_rows(fill, x as int, width as int, lo as int, fy as int), hline_shape(fill, x as int, fy as int, width as int)), box_rows(fill, x as int, width as int, lo as int, fy + 1));
            }
            fy += 1;
        }
        proof {
            lemma_drawn_ext(before, s.fb@, w, h, box_rows(fill, x as int, width as int, lo as int, fy as int), fill_shape);
        }
    } else {
        proof {
            lemma_drawn_refl(before, w, h);
        }
    }
    let ghost after_fill = s.fb@;
    if let Some(stroke) = remap_draw_color(1, draw_colors) {
        let ghost f1 = hline_shape(stroke, x as int, y as int, width as int);
        let ghost f2 = hline_shape(stroke, x as int, y + height - 1, width as int);
        let ghost f3 = vline_shape(stroke, x as int, y as int, height as int);
        let ghost f4 = vline_shape(stroke, x + width - 1, y as int, height as int);
        let ghost s0 = s.fb@;
        hline_impl(s, stroke, x, y, width);
        let ghost s1 = s.fb@;
        hline_far(s, stroke, x, (y as i64) + (height as i64) - 1, width);
        let ghost s2 = s.fb@;
        vline_impl(s, stroke, x, y, height);
        let ghost s3 = s.fb@;
        vline_far(s, stroke, (x as i64) + (width as i64) - 1, y, height);
        proof {
            lemma_drawn_trans(s0, s1, s2, w, h, f1, f2);
            lemma_drawn_trans(s0, s2, s3, w, h, overlay_shape(f1, f2), f3);
            lemma_drawn_trans(s0, s3, s.fb@, w, h, overlay_shape(overlay_shape(f1, f2), f3), f4);
            lemma_drawn_trans(before, s0, s.fb@, w, h, fill_shape, outline(stroke, x as int, y as int, width as int, height as int));
        }
    } else {
        proof {
            lemma_drawn_refl(after_fill, w, h);
            lemma_drawn_trans(before, after_fill, s.fb@, w, h, fill_shape, blank());
        }
    }
    proof {
        let stroke_shape = match draw_color(draw_colors, 1) {
            Some(c) => outline(c, x as int, y as int, width as int, height as int),
            None => blank(),
        };
        assert(rect_shape(draw_colors, x as int, y as int, width as int, height as int) == overlay_shape(fill_shape, stroke_shape));
    }
}

/// Draws a `width`×`height` rectangle at `(x, y)` of the console screen;
/// see [`rect_impl`].
pub fn rect(fb: &mut Vec<u8>, draw_colors: u16, x: i32, y: i32, width: u32, height: u32)
    ensures
        console_drawn(old(fb)@, final(fb)@, rect_shape(draw_colors, x as int, y as int, width as int, height as int)),
{
    let mut s = console_screen(fb);
    rect_impl(&mut s, draw_colors, x, y, width, height);
    *fb = s.fb;
}

} // verus!
