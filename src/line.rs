//! Horizontal, vertical and arbitrary lines.
use vstd::prelude::*;
use crate::pixel::{
    lemma_painted_ext, lemma_painted_trans, lemma_split, on_screen, overlay, painted, write_pixel,
    write_pixel_byte, MAX_SIDE,
};
use crate::screen::{
    blank, console_drawn, console_screen, dot, draw_color, drawn, lemma_drawn_ext,
    lemma_drawn_refl, lemma_drawn_trans, lemma_pixel_index, overlay_shape, remap_draw_color,
    set_pixel_impl, set_pixel_unclipped_impl, ArrayScreen,
};

verus! {

/// The pixels `(x, y)` to `(x + len - 1, y)`.
pub open spec fn hline_shape(stroke: u8, x: int, y: int, len: int) -> spec_fn(int, int) -> Option<
    u8,
> {
    |px: int, py: int|
        if py == y && x <= px < x + len {
            Some(stroke)
        } else {
            None::<u8>
        }
}

/// The pixels `(x, y)` to `(x, y + len - 1)`.
pub open spec fn vline_shape(stroke: u8, x: int, y: int, len: int) -> spec_fn(int, int) -> Option<
    u8,
> {
    |px: int, py: int|
        if px == x && y <= py < y + len {
            Some(stroke)
        } else {
            None::<u8>
        }
}

/// Pixel numbers `a` up to, not including, `b`.
pub open spec fn span(a: int, b: int, c: u8) -> spec_fn(int) -> Option<u8> {
    |q: int|
        if a <= q < b {
            Some(c)
        } else {
            None::<u8>
        }
}

proof fn lemma_span_pixel(old: Seq<u8>, mid: Seq<u8>, new: Seq<u8>, a: int, b: int, c: u8)
    requires
        a <= b,
        painted(old, mid, span(a, b, c)),
        painted(mid, new, |q: int| if q == b { Some(c) } else { None::<u8> }),
    ensures
        painted(old, new, span(a, b + 1, c)),
{
    let single = |q: int| if q == b { Some(c) } else { None::<u8> };
    lemma_painted_trans(old, mid, new, span(a, b, c), single);
    lemma_painted_ext(old, new, overlay(span(a, b, c), single), span(a, b + 1, c));
}

proof fn lemma_span_byte(old: Seq<u8>, mid: Seq<u8>, new: Seq<u8>, a: int, k: int, c: u8)
    requires
        a <= 4 * k,
        painted(old, mid, span(a, 4 * k, c)),
        painted(mid, new, |q: int| if q / 4 == k { Some(c) } else { None::<u8> }),
    ensures
        painted(old, new, span(a, 4 * k + 4, c)),
{
    let byte = |q: int| if q / 4 == k { Some(c) } else { None::<u8> };
    lemma_painted_trans(old, mid, new, span(a, 4 * k, c), byte);
    lemma_painted_ext(old, new, overlay(span(a, 4 * k, c), byte), span(a, 4 * k + 4, c));
}

/// The run of row `y` from column `start` to column `end` is what the
/// horizontal line paints on a `w`×`h` screen.
proof fn lemma_hline_span(
    len_fb: int,
    w: int,
    h: int,
    stroke: u8,
    x: int,
    y: int,
    len: int,
    start: int,
    end: int,
)
    requires
        w > 0,
        0 <= y < h,
        start == if x > 0 { x } else { 0 },
        end == if x + len < w { x + len } else { w },
    ensures
        forall|q: int|
            0 <= q < 4 * len_fb ==> #[trigger] span(w * y + start, w * y + end, stroke)(q)
                == on_screen(w, h, hline_shape(stroke, x, y, len))(q),
{
    assert forall|q: int| 0 <= q < 4 * len_fb implies #[trigger] span(
        w * y + start,
        w * y + end,
        stroke,
    )(q) == on_screen(w, h, hline_shape(stroke, x, y, len))(q) by {
        if w * y + start <= q < w * y + end {
            lemma_pixel_index(w, h, q - w * y, y);
        } else if 0 <= q < w * h {
            lemma_split(w, h, q);
        }
    }
}

/// Draws a horizontal line of the 2-bit color `stroke` from `(x, y)` to
/// `(x + len - 1, y)`, clipped to the screen. Whole bytes inside the run are
/// filled at once.
pub fn hline_impl(s: &mut ArrayScreen, stroke: u8, x: i32, y: i32, len: u32)
    requires
        old(s).wf(),
        stroke < 4,
    ensures
        final(s).width == old(s).width,
        final(s).height == old(s).height,
        drawn(
            old(s).fb@,
            final(s).fb@,
            old(s).width,
            old(s).height,
            hline_shape(stroke, x as int, y as int, len as int),
        ),
{
    let ghost before = s.fb@;
    let ghost target = on_screen(
        s.width as int,
        s.height as int,
        hline_shape(stroke, x as int, y as int, len as int),
    );
    let w = s.width as i64;
    if y < 0 || y as i64 >= s.height as i64 {
        proof {
            assert forall|q: int| 0 <= q < 4 * before.len() implies #[trigger] target(q) == None::<
                u8,
            > by {
                if 0 <= q < w * s.height {
                    lemma_split(w as int, s.height as int, q);
                }
            }
            lemma_painted_ext(before, s.fb@, |q: int| None::<u8>, target);
        }
        return ;
    }
    let start: i64 = if x > 0 { x as i64 } else { 0 };
    let end: i64 = if (x as i64) + (len as i64) < w { (x as i64) + (len as i64) } else { w };
    proof {
        assert(w * (y as int) + w <= MAX_SIDE * MAX_SIDE) by (nonlinear_arith)
            requires
                w <= MAX_SIDE,
                0 <= y < MAX_SIDE,
        ;
        lemma_hline_span(before.len() as int, w as int, s.height as int, stroke, x as int, y as int, len as int, start as int, end as int);
    }
    if start > end {
        proof {
            lemma_painted_ext(before, s.fb@, |q: int| None::<u8>, span(w * y + start, w * y + end, stroke));
            lemma_painted_ext(before, s.fb@, span(w * y + start, w * y + end, stroke), target);
        }
        return ;
    }
    let base: i64 = w * (y as i64);
    let mut px: i64 = start;
    proof {
        lemma_painted_ext(before, s.fb@, |q: int| None::<u8>, span(base + start, base + px, stroke));
    }
    let fill_end: i64 = end - end % 4;
    let round_up: i64 = (start + 3) / 4 * 4;
    let fill_start: i64 = if fill_end < round_up { fill_end } else { round_up };
    if fill_end - fill_start > 3 {
        while px < fill_start
            invariant
                0 <= start <= px <= fill_start <= end <= w,
                0 <= base,
                base + w <= MAX_SIDE * MAX_SIDE,
                stroke < 4,
                painted(before, s.fb@, span(base + start, base + px, stroke)),
                s.width == w,
                s.height == old(s).height,
            decreases fill_start - px,
        {
            let ghost mid = s.fb@;
            write_pixel(&mut s.fb, (base + px) as usize, stroke);
            proof {
                lemma_span_pixel(before, mid, s.fb@, base + start, base + px, stroke);
            }
            px += 1;
        }
        assert((w / 4) * (y as int) <= w * (y as int)) by (nonlinear_arith)
            requires
                w >= 0,
                y >= 0,
        ;
        let row_bytes: i64 = (w / 4) * (y as i64);
        assert(4 * row_bytes == base) by (nonlinear_arith)
            requires
                base == w * y,
                w == 4 * (w / 4),
                row_bytes == (w / 4) * y,
        ;
        let mut k: i64 = row_bytes + fill_start / 4;
        let k_end: i64 = row_bytes + fill_end / 4;
        while k < k_end
            invariant
                0 <= start <= fill_start <= fill_end <= end <= w,
                0 <= base,
                base + w <= MAX_SIDE * MAX_SIDE,
                stroke < 4,
                4 * k_end == base + fill_end,
                base + start <= 4 * k <= 4 * k_end,
                painted(before, s.fb@, span(base + start, 4 * k, stroke)),
                s.width == w,
                s.height == old(s).height,
            decreases k_end - k,
        {
            let ghost mid = s.fb@;
            let ghost byte = |q: int| if q / 4 == k { Some(stroke) } else { None::<u8> };
            if (k as usize) < s.fb.len() {
                write_pixel_byte(&mut s.fb, k as usize, stroke);
            } else {
                proof {
                    assert forall|q: int| 0 <= q < 4 * mid.len() implies #[trigger] byte(q)
                        == None::<u8> by {}
                    lemma_painted_ext(mid, s.fb@, |q: int| None::<u8>, byte);
                }
            }
            proof {
                lemma_span_byte(before, mid, s.fb@, base + start, k as int, stroke);
            }
            k += 1;
        }
        px = fill_end;
    }
    while px < end
        invariant
            0 <= start <= px <= end <= w,
            0 <= base,
            base + w <= MAX_SIDE * MAX_SIDE,
            stroke < 4,
            painted(before, s.fb@, span(base + start, base + px, stroke)),
            s.width == w,
            s.height == old(s).height,
        decreases end - px,
    {
        let ghost mid = s.fb@;
        write_pixel(&mut s.fb, (base + px) as usize, stroke);
        proof {
            lemma_span_pixel(before, mid, s.fb@, base + start, base + px, stroke);
        }
        px += 1;
    }
    proof {
        lemma_painted_ext(before, s.fb@, span(base + start, base + end, stroke), target);
    }
}

/// Draws a vertical line of the 2-bit color `stroke` from `(x, y)` to
/// `(x, y + len - 1)`, clipped to the screen.
pub fn vline_impl(s: &mut ArrayScreen, stroke: u8, x: i32, y: i32, len: u32)
    requires
        old(s).wf(),
        stroke < 4,
    ensures
        final(s).width == old(s).width,
        final(s).height == old(s).height,
        drawn(
            old(s).fb@,
            final(s).fb@,
            old(s).width,
            old(s).height,
            vline_shape(stroke, x as int, y as int, len as int),
        ),
{
    let ghost before = s.fb@;
    let w = s.width;
    let h = s.height;
    if (y as i64) + (len as i64) <= 0 || x < 0 || x as i64 >= w as i64 {
        proof {
            lemma_drawn_refl(before, w, h);
            lemma_drawn_ext(before, s.fb@, w, h, blank(), vline_shape(stroke, x as int, y as int, len as int));
        }
        return ;
    }
    let start_y: i64 = if y > 0 { y as i64 } else { 0 };
    let end_y: i64 = if (y as i64) + (len as i64) < h as i64 { (y as i64) + (len as i64) } else { h as i64 };
    let mut py: i64 = start_y;
    proof {
        lemma_drawn_refl(before, w, h);
        lemma_drawn_ext(before, s.fb@, w, h, blank(), vline_shape(stroke, x as int, start_y as int, 0));
    }
    while py < end_y
        invariant
            s.wf(),
            s.width == w,
            s.height == h,
            0 <= x < w,
            0 <= start_y <= py,
            end_y <= h,
            py <= end_y || py == start_y,
            end_y == if (y as int) + (len as int) < h { (y as int) + (len as int) } else { h as int },
            start_y == if y > 0 { y as int } else { 0 },
            stroke < 4,
            drawn(before, s.fb@, w, h, vline_shape(stroke, x as int, start_y as int, py - start_y)),
        decreases end_y - py,
    {
        let ghost mid = s.fb@;
        set_pixel_impl(s, x, py as i32, stroke);
        proof {
            let part = vline_shape(stroke, x as int, start_y as int, py - start_y);
            lemma_drawn_trans(before, mid, s.fb@, w, h, part, dot(x as int, py as int, stroke));
            lemma_drawn_ext(before, s.fb@, w, h, overlay_shape(part, dot(x as int, py as int, stroke)), vline_shape(stroke, x as int, start_y as int, py + 1 - start_y));
        }
        py += 1;
    }
    proof {
        lemma_drawn_ext(before, s.fb@, w, h, vline_shape(stroke, x as int, start_y as int, py - start_y), vline_shape(stroke, x as int, y as int, len as int));
    }
}

/// Draws a horizontal line from `(x, y)` to `(x + len - 1, y)` on the
/// console screen, in the color of the first draw-color slot; nothing when
/// that slot is transparent.
pub fn hline(fb: &mut Vec<u8>, draw_colors: u16, x: i32, y: i32, len: u32)
    ensures
        match draw_color(draw_colors, 0) {
            Some(c) => console_drawn(old(fb)@, final(fb)@, hline_shape(c, x as int, y as int, len as int)),
            None => final(fb)@ == old(fb)@,
        },
{
    if let Some(stroke) = remap_draw_color(0, draw_colors) {
        let mut s = console_screen(fb);
        hline_impl(&mut s, stroke, x, y, len);
        *fb = s.fb;
    }
}

/// Draws a vertical line from `(x, y)` to `(x, y + len - 1)` on the console
/// screen, in the color of the first draw-color slot; nothing when that slot
/// is transparent.
pub fn vline(fb: &mut Vec<u8>, draw_colors: u16, x: i32, y: i32, len: u32)
    ensures
        match draw_color(draw_colors, 0) {
            Some(c) => console_drawn(old(fb)@, final(fb)@, vline_shape(c, x as int, y as int, len as int)),
            None => final(fb)@ == old(fb)@,
        },
{
    if let Some(stroke) = remap_draw_color(0, draw_colors) {
        let mut s = console_screen(fb);
        vline_impl(&mut s, stroke, x, y, len);
        *fb = s.fb;
    }
}

/// The most pixels a line draws, a guard against a walk that would not end:
/// as many as the console's framebuffer has bytes.
pub const LINE_STEP_LIMIT: usize = 6400;

/// A line's endpoints ordered so that it runs downward: `(x1, y1, x2, y2)`
/// with `y1 <= y2`.
pub open spec fn line_ends(x1: int, y1: int, x2: int, y2: int) -> (int, int, int, int) {
    if y1 > y2 {
        (x2, y2, x1, y1)
    } else {
        (x1, y1, x2, y2)
    }
}

/// The walk along a line: where it is and its error term.
pub struct LineWalk {
    pub x: int,
    pub y: int,
    pub err: int,
}

/// The fixed quantities of a line from `(x1, y1)` down to `(x2, y2)`.
pub struct LineSetup {
    pub x2: int,
    pub y2: int,
    pub dx: int,
    pub dy: int,
    pub sx: int,
}

/// The setup and first position of the line between two points.
pub open spec fn line_setup(x1: int, y1: int, x2: int, y2: int) -> (LineSetup, LineWalk) {
    let (ax, ay, bx, by) = line_ends(x1, y1, x2, y2);
    let dx = if bx - ax >= 0 { bx - ax } else { ax - bx };
    let dy = by - ay;
    let sx = if ax < bx { 1int } else { -1int };
    let err = if dx > dy { dx / 2 } else { -(dy / 2) };
    (LineSetup { x2: bx, y2: by, dx, dy, sx }, LineWalk { x: ax, y: ay, err })
}

/// One step of the walk.
pub open spec fn line_step(c: LineSetup, w: LineWalk) -> LineWalk {
    let e2 = w.err;
    let (err1, x) = if e2 > -c.dx { (w.err - c.dy, w.x + c.sx) } else { (w.err, w.x) };
    let (err2, y) = if e2 < c.dy { (err1 + c.dx, w.y + 1) } else { (err1, w.y) };
    LineWalk { x, y, err: err2 }
}

/// The walk after `j` steps.
pub open spec fn line_walk(c: LineSetup, w0: LineWalk, j: nat) -> LineWalk
    decreases j,
{
    if j == 0 {
        w0
    } else {
        line_step(c, line_walk(c, w0, (j - 1) as nat))
    }
}

/// How many pixels the walk from `w` draws with at most `fuel` of them: it
/// stops after drawing the end point.
pub open spec fn line_count(c: LineSetup, w: LineWalk, fuel: nat) -> nat
    decreases fuel,
{
    if fuel == 0 {
        0
    } else if w.x == c.x2 && w.y == c.y2 {
        1
    } else {
        1 + line_count(c, line_step(c, w), (fuel - 1) as nat)
    }
}

/// The first `n` pixels of the walk, in `stroke`.
pub open spec fn line_drawn(c: LineSetup, w0: LineWalk, stroke: u8, n: nat) -> spec_fn(int, int) -> Option<u8>
    decreases n,
{
    if n == 0 {
        blank()
    } else {
        let w = line_walk(c, w0, (n - 1) as nat);
        overlay_shape(line_drawn(c, w0, stroke, (n - 1) as nat), dot(w.x, w.y, stroke))
    }
}

/// What a line between `(x1, y1)` and `(x2, y2)` paints.
pub open spec fn line_shape(stroke: u8, x1: int, y1: int, x2: int, y2: int) -> spec_fn(int, int) -> Option<u8> {
    let (c, w0) = line_setup(x1, y1, x2, y2);
    line_drawn(c, w0, stroke, line_count(c, w0, LINE_STEP_LIMIT as nat))
}

proof fn lemma_line_count_step(c: LineSetup, w: LineWalk, fuel: nat)
    requires
        fuel > 0,
        !(w.x == c.x2 && w.y == c.y2),
    ensures
        line_count(c, w, fuel) == 1 + line_count(c, line_step(c, w), (fuel - 1) as nat),
{
}

/// Draws a line of the 2-bit color `stroke` between `(x1, y1)` and
/// `(x2, y2)` with Bresenham's walk, clipped to the screen. The walk stops
/// at the end point, and after at most [`LINE_STEP_LIMIT`] pixels.
pub fn line_impl(s: &mut ArrayScreen, stroke: u8, x1: i32, y1: i32, x2: i32, y2: i32)
    requires
        old(s).wf(),
        stroke < 4,
    ensures
        final(s).width == old(s).width,
        final(s).height == old(s).height,
        drawn(
            old(s).fb@,
            final(s).fb@,
            old(s).width,
            old(s).height,
            line_shape(stroke, x1 as int, y1 as int, x2 as int, y2 as int),
        ),
{
    let ghost before = s.fb@;
    let w = s.width;
    let h = s.height;
    let (ax, ay, bx, by): (i64, i64, i64, i64) = if y1 > y2 {
        (x2 as i64, y2 as i64, x1 as i64, y1 as i64)
    } else {
        (x1 as i64, y1 as i64, x2 as i64, y2 as i64)
    };
    let dx: i64 = if bx - ax >= 0 { bx - ax } else { ax - bx };
    let dy: i64 = by - ay;
    let sx: i64 = if ax < bx { 1 } else { -1 };
    let mut err: i64 = if dx > dy { dx / 2 } else { -(dy / 2) };
    let mut x: i64 = ax;
    let mut y: i64 = ay;
    let ghost (c, w0) = line_setup(x1 as int, y1 as int, x2 as int, y2 as int);
    let mut i: usize = 0;
    let mut done = false;
    proof {
        lemma_drawn_refl(before, w, h);
    }
    while i < LINE_STEP_LIMIT && !done
        invariant
            s.wf(),
            s.width == w,
            s.height == h,
            w == old(s).width,
            h == old(s).height,
            stroke < 4,
            c == line_setup(x1 as int, y1 as int, x2 as int, y2 as int).0,
            w0 == line_setup(x1 as int, y1 as int, x2 as int, y2 as int).1,
            c.x2 == bx,
            c.y2 == by,
            c.dx == dx,
            c.dy == dy,
            c.sx == sx,
            0 <= dx <= 0x1_0000_0000,
            0 <= dy <= 0x1_0000_0000,
            sx == 1 || sx == -1,
            -0x8000_0000 <= ax < 0x8000_0000,
            -0x8000_0000 <= ay < 0x8000_0000,
            i <= LINE_STEP_LIMIT,
            ax - i <= x <= ax + i,
            ay <= y <= ay + i,
            -(dx + dy) <= err <= dx + dy,
            !done ==> line_walk(c, w0, i as nat) == (LineWalk { x: x as int, y: y as int, err: err as int }),
            done ==> line_count(c, w0, LINE_STEP_LIMIT as nat) == i,
            !done ==> line_count(c, w0, LINE_STEP_LIMIT as nat) == i + line_count(c, line_walk(c, w0, i as nat), (LINE_STEP_LIMIT - i) as nat),
            drawn(before, s.fb@, w, h, line_drawn(c, w0, stroke, i as nat)),
        decreases LINE_STEP_LIMIT - i,
    {
        let ghost mid = s.fb@;
        let ghost wi = line_walk(c, w0, i as nat);
        if -0x8000_0000 <= x && x < 0x8000_0000 && -0x8000_0000 <= y && y < 0x8000_0000 {
            set_pixel_unclipped_impl(s, x as i32, y as i32, stroke);
        } else {
            proof {
                lemma_drawn_refl(mid, w, h);
                lemma_drawn_ext(mid, s.fb@, w, h, blank(), dot(x as int, y as int, stroke));
            }
        }
        proof {
            lemma_drawn_trans(before, mid, s.fb@, w, h, line_drawn(c, w0, stroke, i as nat), dot(x as int, y as int, stroke));
            assert(line_drawn(c, w0, stroke, (i + 1) as nat) == overlay_shape(line_drawn(c, w0, stroke, i as nat), dot(x as int, y as int, stroke)));
        }
        if x == bx && y == by {
            done = true;
        } else {
            proof {
                lemma_line_count_step(c, wi, (LINE_STEP_LIMIT - i) as nat);
            }
            let e2 = err;
            if e2 > -dx {
                err = err - dy;
                x = x + sx;
            }
            if e2 < dy {
                err = err + dx;
                y = y + 1;
            }
        }
        i += 1;
    }
}

/// Draws a line between `(x1, y1)` and `(x2, y2)` on the console screen in
/// the color of the first draw-color slot; nothing when that slot is
/// transparent.
pub fn line(fb: &mut Vec<u8>, draw_colors: u16, x1: i32, y1: i32, x2: i32, y2: i32)
    ensures
        match draw_color(draw_colors, 0) {
            Some(c) => console_drawn(old(fb)@, final(fb)@, line_shape(c, x1 as int, y1 as int, x2 as int, y2 as int)),
            None => final(fb)@ == old(fb)@,
        },
{
    if let Some(stroke) = remap_draw_color(0, draw_colors) {
        let mut s = console_screen(fb);
        line_impl(&mut s, stroke, x1, y1, x2, y2);
        *fb = s.fb;
    }
}

} // verus!
