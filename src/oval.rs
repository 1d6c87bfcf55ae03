//! Axis-aligned ellipses by the integer midpoint walk.
use vstd::prelude::*;
use crate::line::{hline_impl, hline_shape};
use crate::pixel::MAX_SIDE;
use crate::screen::{
    blank, console_drawn, console_screen, dot, draw_color_nibble, drawn, lemma_drawn_ext,
    lemma_drawn_refl, lemma_drawn_trans, overlay_shape, set_pixel_unclipped_impl, ArrayScreen,
};

verus! {

/// The most steps the outline walk takes, a guard against a walk that would not end.
pub const OVAL_STEP_LIMIT: u64 = 0x10_0000;

/// The fixed quantities of an oval's walk.
pub struct OvalSetup {
    pub height: int,
    pub a8: int,
    pub b8: int,
    pub stroke: Option<u8>,
    pub fill: Option<u8>,
}

/// Where an oval's walk is: the rows and columns of its four outline
/// points, and its error terms.
pub struct OvalWalk {
    pub north: int,
    pub south: int,
    pub west: int,
    pub east: int,
    pub dx: int,
    pub dy: int,
    pub err: int,
}

/// A single pixel in `color`, or nothing where the color is transparent.
pub open spec fn mark(x: int, y: int, color: Option<u8>) -> spec_fn(int, int) -> Option<u8> {
    match color {
        Some(c) => dot(x, y, c),
        None => blank(),
    }
}

/// Rust's remainder of `b` by 2, which keeps the sign of `b`.
pub open spec fn rem2(b: int) -> int {
    if b < 0 {
        -((-b) % 2)
    } else {
        b % 2
    }
}

/// The setup and first position of the walk for a `width`×`height` oval
/// at `(x, y)`: slot 0 of the draw colors fills, slot 1 strokes.
pub open spec fn oval_setup(draw_colors: u16, x: int, y: int, width: int, height: int) -> (OvalSetup, OvalWalk) {
    let dc0 = draw_color_nibble(draw_colors, 0);
    let dc1 = draw_color_nibble(draw_colors, 1);
    let a = width - 1;
    let b = height - 1;
    let b1 = rem2(b);
    let north = y + height / 2;
    let a2 = a * a;
    let b2 = b * b;
    let dx = 4 * (1 - a) * b2;
    let dy = 4 * (b1 + 1) * a2;
    (
        OvalSetup {
            height,
            a8: 8 * a2,
            b8: 8 * b2,
            stroke: if dc1 == 0 { None } else { Some(((dc1 + 3) % 4) as u8) },
            fill: if dc0 == 0 { None } else { Some(((dc0 + 3) % 4) as u8) },
        },
        OvalWalk { north, south: north - b1, west: x, east: x + width - 1, dx, dy, err: dx + dy + b1 * a2 },
    )
}

/// One step of the outline walk.
pub open spec fn oval_step(c: OvalSetup, w: OvalWalk) -> OvalWalk {
    let e2 = 2 * w.err;
    let v = if e2 <= w.dy {
        OvalWalk { north: w.north + 1, south: w.south - 1, dy: w.dy + c.a8, err: w.err + w.dy + c.a8, ..w }
    } else {
        w
    };
    if e2 >= v.dx || e2 > v.dy {
        OvalWalk { west: v.west + 1, east: v.east - 1, dx: v.dx + c.b8, err: v.err + v.dx + c.b8, ..v }
    } else {
        v
    }
}

/// The walk after `j` steps.
pub open spec fn oval_walk(c: OvalSetup, w0: OvalWalk, j: nat) -> OvalWalk
    decreases j,
{
    if j == 0 {
        w0
    } else {
        oval_step(c, oval_walk(c, w0, (j - 1) as nat))
    }
}

/// How many steps the outline walk from `w` takes, at most `fuel`: it goes
/// on while its west column is not past its east column.
pub open spec fn oval_count(c: OvalSetup, w: OvalWalk, fuel: nat) -> nat
    decreases fuel,
{
    if fuel == 0 || w.west > w.east {
        0
    } else {
        1 + oval_count(c, oval_step(c, w), (fuel - 1) as nat)
    }
}

/// What one step of the outline walk paints: its four outline points, then
/// the fill between them on both rows, where there is a fill and room for it.
pub open spec fn oval_step_shape(c: OvalSetup, w: OvalWalk) -> spec_fn(int, int) -> Option<u8> {
    let points = overlay_shape(
        overlay_shape(
            overlay_shape(mark(w.east, w.north, c.stroke), mark(w.west, w.north, c.stroke)),
            mark(w.west, w.south, c.stroke),
        ),
        mark(w.east, w.south, c.stroke),
    );
    match c.fill {
        Some(f) => if w.east - (w.west + 1) > 0 {
            overlay_shape(
                overlay_shape(points, hline_shape(f, w.west + 1, w.north, w.east - w.west - 1)),
                hline_shape(f, w.west + 1, w.south, w.east - w.west - 1),
            )
        } else {
            points
        },
        None => points,
    }
}

/// What the first `n` steps of the outline walk paint.
pub open spec fn oval_outline(c: OvalSetup, w0: OvalWalk, n: nat) -> spec_fn(int, int) -> Option<u8>
    decreases n,
{
    if n == 0 {
        blank()
    } else {
        overlay_shape(oval_outline(c, w0, (n - 1) as nat), oval_step_shape(c, oval_walk(c, w0, (n - 1) as nat)))
    }
}

/// The cap walk `j` steps on from `w`: its north row `j` lower, its south
/// row `j` higher.
pub open spec fn cap_walk(w: OvalWalk, j: int) -> OvalWalk {
    OvalWalk { north: w.north + j, south: w.south - j, ..w }
}

/// What one step of the cap walk paints: the points beside the outline's
/// ends on its north and south rows.
pub open spec fn cap_step_shape(c: OvalSetup, w: OvalWalk) -> spec_fn(int, int) -> Option<u8> {
    overlay_shape(
        overlay_shape(
            overlay_shape(mark(w.west - 1, w.north, c.stroke), mark(w.east + 1, w.north, c.stroke)),
            mark(w.west - 1, w.south, c.stroke),
        ),
        mark(w.east + 1, w.south, c.stroke),
    )
}

/// How many steps the cap walk from `w` takes: it goes on while the oval
/// is not yet as tall as `height`.
pub open spec fn cap_count(c: OvalSetup, w: OvalWalk) -> nat {
    if w.north - w.south < c.height {
        ((c.height - (w.north - w.south) + 1) / 2) as nat
    } else {
        0
    }
}

/// What the first `n` steps of the cap walk from `w` paint.
pub open spec fn oval_caps(c: OvalSetup, w: OvalWalk, n: nat) -> spec_fn(int, int) -> Option<u8>
    decreases n,
{
    if n == 0 {
        blank()
    } else {
        overlay_shape(oval_caps(c, w, (n - 1) as nat), cap_step_shape(c, cap_walk(w, n - 1)))
    }
}

/// What `oval` paints: nothing when the stroke slot is 15 or a side is
/// longer than [`MAX_SIDE`]; otherwise the outline walk, then the caps.
pub open spec fn oval_shape(draw_colors: u16, x: int, y: int, width: int, height: int) -> spec_fn(int, int) -> Option<u8> {
    if draw_color_nibble(draw_colors, 1) == 0xf || width > MAX_SIDE || height > MAX_SIDE {
        blank()
    } else {
        let (c, w0) = oval_setup(draw_colors, x, y, width, height);
        let n = oval_count(c, w0, OVAL_STEP_LIMIT as nat);
        let wn = oval_walk(c, w0, n);
        overlay_shape(oval_outline(c, w0, n), oval_caps(c, wn, cap_count(c, wn)))
    }
}

/// Every color the outline walk paints is the stroke or the fill.
pub proof fn lemma_outline_colors(c: OvalSetup, w0: OvalWalk, n: nat, px: int, py: int)
    ensures
        oval_outline(c, w0, n)(px, py) matches Some(v) ==> (c.stroke == Some(v) || c.fill == Some(v)),
    decreases n,
{
    if n > 0 {
        lemma_outline_colors(c, w0, (n - 1) as nat, px, py);
    }
}

/// Every color the cap walk paints is the stroke.
pub proof fn lemma_caps_colors(c: OvalSetup, w: OvalWalk, n: nat, px: int, py: int)
    ensures
        oval_caps(c, w, n)(px, py) matches Some(v) ==> c.stroke == Some(v),
    decreases n,
{
    if n > 0 {
        lemma_caps_colors(c, w, (n - 1) as nat, px, py);
    }
}

proof fn lemma_nibbles(v: u16)
    by (bit_vector)
    ensures
        v & 0xf <= 0xf,
        (v >> 4u16) & 0xf <= 0xf,
{
}

/// Sets one pixel, or nothing where the color is transparent or the pixel
/// does not fit `i32` (it then lies off the screen).
fn dot_far(s: &mut ArrayScreen, x: i128, y: i128, color: Option<u8>)
    requires
        old(s).wf(),
        color matches Some(c) ==> c < 4,
    ensures
        final(s).width == old(s).width,
        final(s).height == old(s).height,
        drawn(old(s).fb@, final(s).fb@, old(s).width, old(s).height, mark(x as int, y as int, color)),
{
    match color {
        Some(c) => {
            if -0x8000_0000 <= x && x < 0x8000_0000 && -0x8000_0000 <= y && y < 0x8000_0000 {
                set_pixel_unclipped_impl(s, x as i32, y as i32, c);
            } else {
                proof {
                    lemma_drawn_refl(s.fb@, s.width, s.height);
                    lemma_drawn_ext(s.fb@, s.fb@, s.width, s.height, blank(), dot(x as int, y as int, c));
                }
            }
        },
        None => {
            proof {
                lemma_drawn_refl(s.fb@, s.width, s.height);
            }
        },
    }
}

/// Draws a horizontal run, or nothing where it does not fit the line's
/// argument types (it then lies off the screen).
fn run_far(s: &mut ArrayScreen, color: u8, x: i128, y: i128, len: i128)
    requires
        old(s).wf(),
        color < 4,
        0 < len < 0x1_0000_0000,
        -0x8000_0000 <= x,
    ensures
        final(s).width == old(s).width,
        final(s).height == old(s).height,
        drawn(old(s).fb@, final(s).fb@, old(s).width, old(s).height, hline_shape(color, x as int, y as int, len as int)),
{
    if x < 0x8000_0000 && -0x8000_0000 <= y && y < 0x8000_0000 {
        hline_impl(s, color, x as i32, y as i32, len as u32);
    } else {
        proof {
            lemma_drawn_refl(s.fb@, s.width, s.height);
            assert forall|px: int, py: int| 0 <= px < s.width && 0 <= py < s.height implies #[trigger] blank()(px, py)
                == hline_shape(color, x as int, y as int, len as int)(px, py) by {}
            lemma_drawn_ext(s.fb@, s.fb@, s.width, s.height, blank(), hline_shape(color, x as int, y as int, len as int));
        }
    }
}

/// Paints one step of the outline walk.
fn oval_step_draw(s: &mut ArrayScreen, c: Ghost<OvalSetup>, stroke: Option<u8>, fill: Option<u8>, north: i128, south: i128, west: i128, east: i128)
    requires
        old(s).wf(),
        stroke == c@.stroke,
        fill == c@.fill,
        stroke matches Some(k) ==> k < 4,
        fill matches Some(f) ==> f < 4,
        -0x8000_0000 <= west <= 0x1_0000_0000_0000,
        -0x1_0000_0000_0000 <= east <= 0x1_0000_0000_0000,
        east - west <= 0x1_0000,
    ensures
        final(s).width == old(s).width,
        final(s).height == old(s).height,
        forall|dx: int, dy: int, err: int| drawn(old(s).fb@, final(s).fb@, old(s).width, old(s).height,
            #[trigger] oval_step_shape(c@, OvalWalk { north: north as int, south: south as int, west: west as int, east: east as int, dx, dy, err })),
{
    let ghost s0 = s.fb@;
    let w = s.width;
    let h = s.height;
    dot_far(s, east, north, stroke);
    let ghost s1 = s.fb@;
    dot_far(s, west, north, stroke);
    let ghost s2 = s.fb@;
    dot_far(s, west, south, stroke);
    let ghost s3 = s.fb@;
    dot_far(s, east, south, stroke);
    let ghost s4 = s.fb@;
    let ghost d1 = mark(east as int, north as int, stroke);
    let ghost d2 = mark(west as int, north as int, stroke);
    let ghost d3 = mark(west as int, south as int, stroke);
    let ghost d4 = mark(east as int, south as int, stroke);
    proof {
        lemma_drawn_trans(s0, s1, s2, w, h, d1, d2);
        lemma_drawn_trans(s0, s2, s3, w, h, overlay_shape(d1, d2), d3);
        lemma_drawn_trans(s0, s3, s4, w, h, overlay_shape(overlay_shape(d1, d2), d3), d4);
    }
    let ghost points = overlay_shape(overlay_shape(overlay_shape(d1, d2), d3), d4);
    match fill {
        Some(f) => {
            if east - (west + 1) > 0 {
                let len = east - west - 1;
                run_far(s, f, west + 1, north, len);
                let ghost s5 = s.fb@;
                run_far(s, f, west + 1, south, len);
                proof {
                    let h1 = hline_shape(f, west + 1, north as int, len as int);
                    let h2 = hline_shape(f, west + 1, south as int, len as int);
                    lemma_drawn_trans(s0, s4, s5, w, h, points, h1);
                    lemma_drawn_trans(s0, s5, s.fb@, w, h, overlay_shape(points, h1), h2);
                }
            }
        },
        None => {},
    }
}

/// Draws a `width`×`height` oval whose bounding box starts at `(x, y)`:
/// the outline in slot 1's color unless slot 1 is 0, filled in slot 0's
/// color unless slot 0 is 0. Nothing is drawn when slot 1 is 15, nor when a
/// side is longer than [`MAX_SIDE`].
pub fn oval_impl(s: &mut ArrayScreen, draw_colors: u16, x: i32, y: i32, width: u32, height: u32)
    requires
        old(s).wf(),
    ensures
        final(s).width == old(s).width,
        final(s).height == old(s).height,
        drawn(
            old(s).fb@,
            final(s).fb@,
            old(s).width,
            old(s).height,
            oval_shape(draw_colors, x as int, y as int, width as int, height as int),
        ),
{
    let ghost before = s.fb@;
    let w = s.width;
    let h = s.height;
    let dc0 = draw_colors & 0xf;
    let dc1 = (draw_colors >> 4u16) & 0xf;
    proof {
        lemma_nibbles(draw_colors);
    }
    if dc1 == 0xf || width > MAX_SIDE || height > MAX_SIDE {
        proof {
            lemma_drawn_refl(before, w, h);
        }
        return ;
    }
    let stroke: Option<u8> = if dc1 == 0 { None } else { Some(((dc1 + 3) % 4) as u8) };
    let fill: Option<u8> = if dc0 == 0 { None } else { Some(((dc0 + 3) % 4) as u8) };
    let height_i: i128 = height as i128;
    let a: i128 = width as i128 - 1;
    let b: i128 = height as i128 - 1;
    let b1: i128 = if b < 0 { -((-b) % 2) } else { b % 2 };
    let mut north: i128 = y as i128 + height as i128 / 2;
    let mut west: i128 = x as i128;
    let mut east: i128 = x as i128 + width as i128 - 1;
    let mut south: i128 = north - b1;
    assert(0 <= a * a <= 0x1000_0000) by (nonlinear_arith)
        requires
            -1 <= a < 0x4000,
    ;
    assert(0 <= b * b <= 0x1000_0000) by (nonlinear_arith)
        requires
            -1 <= b < 0x4000,
    ;
    let a2: i128 = a * a;
    let b2: i128 = b * b;
    assert(-0x1000_0000_0000 <= (1 - a) * b2 <= 0x1000_0000_0000) by (nonlinear_arith)
        requires
            -1 <= a < 0x4000,
            0 <= b2 <= 0x1000_0000,
    ;
    assert(-0x4000_0000_0000 <= 4 * (1 - a) * b2 <= 0x4000_0000_0000) by (nonlinear_arith)
        requires
            -1 <= a < 0x4000,
            0 <= b2 <= 0x1000_0000,
    ;
    let mut dx: i128 = 4 * (1 - a) * b2;
    assert(0 <= 4 * (b1 + 1) * a2 <= 0x1_0000_0000) by (nonlinear_arith)
        requires
            -1 <= b1 <= 1,
            0 <= a2 <= 0x1000_0000,
    ;
    let mut dy: i128 = 4 * (b1 + 1) * a2;
    assert(-0x1000_0000 <= b1 * a2 <= 0x1000_0000) by (nonlinear_arith)
        requires
            -1 <= b1 <= 1,
            0 <= a2 <= 0x1000_0000,
    ;
    let mut err: i128 = dx + dy + b1 * a2;
    let a8: i128 = 8 * a2;
    let b8: i128 = 8 * b2;
    let ghost (c, w0) = oval_setup(draw_colors, x as int, y as int, width as int, height as int);
    assert(c.stroke == stroke && c.fill == fill && c.a8 == a8 && c.b8 == b8 && c.height == height);
    assert(w0 == OvalWalk { north: north as int, south: south as int, west: west as int, east: east as int, dx: dx as int, dy: dy as int, err: err as int });
    let mut i: u64 = 0;
    proof {
        lemma_drawn_refl(before, w, h);
    }
    while i < OVAL_STEP_LIMIT && west <= east
        invariant
            s.wf(),
            s.width == w,
            s.height == h,
            w == old(s).width,
            h == old(s).height,
            stroke == c.stroke,
            fill == c.fill,
            stroke matches Some(k) ==> k < 4,
            fill matches Some(f) ==> f < 4,
            c.a8 == a8,
            c.b8 == b8,
            c.height == height,
            0 <= a8 <= 0x8000_0000,
            0 <= b8 <= 0x8000_0000,
            i <= OVAL_STEP_LIMIT,
            -0x1_0000_0000 - i <= north <= 0x1_0000_0000 + i,
            -0x1_0000_0000 - i <= south <= 0x1_0000_0000 + i,
            -0x8000_0000 <= west <= 0x1_0000_0000 + i,
            -0x1_0000_0000 - i <= east <= 0x1_0000_0000,
            east - west <= width,
            width <= MAX_SIDE,
            north - south >= -1,
            -0x4000_0000_0000 - i * 0x8000_0000 <= dx <= 0x4000_0000_0000 + i * 0x8000_0000,
            -0x4000_0000_0000 - i * 0x8000_0000 <= dy <= 0x4000_0000_0000 + i * 0x8000_0000,
            -0x1_0000_0000_0000 - i * 0x40_0000_0000_0000 <= err <= 0x1_0000_0000_0000 + i * 0x40_0000_0000_0000,
            oval_walk(c, w0, i as nat) == (OvalWalk { north: north as int, south: south as int, west: west as int, east: east as int, dx: dx as int, dy: dy as int, err: err as int }),
            oval_count(c, w0, OVAL_STEP_LIMIT as nat) == i + oval_count(c, oval_walk(c, w0, i as nat), (OVAL_STEP_LIMIT - i) as nat),
            drawn(before, s.fb@, w, h, oval_outline(c, w0, i as nat)),
        decreases OVAL_STEP_LIMIT - i,
    {
        let ghost mid = s.fb@;
        let ghost wi = oval_walk(c, w0, i as nat);
        oval_step_draw(s, Ghost(c), stroke, fill, north, south, west, east);
        proof {
            assert(drawn(mid, s.fb@, w, h, oval_step_shape(c, wi)));
            lemma_drawn_trans(before, mid, s.fb@, w, h, oval_outline(c, w0, i as nat), oval_step_shape(c, wi));
        }
        let err2 = 2 * err;
        if err2 <= dy {
            north += 1;
            south -= 1;
            dy += a8;
            err += dy;
        }
        if err2 >= dx || err2 > dy {
            west += 1;
            east -= 1;
            dx += b8;
            err += dx;
        }
        i += 1;
    }
    let ghost n = i as nat;
    assert(oval_count(c, oval_walk(c, w0, n), (OVAL_STEP_LIMIT - i) as nat) == 0);
    let ghost after_outline = s.fb@;
    let ghost wn = oval_walk(c, w0, n);
    let mut j: u64 = 0;
    proof {
        lemma_drawn_refl(after_outline, w, h);
    }
    while north - south < height_i
        invariant
            s.wf(),
            s.width == w,
            s.height == h,
            w == old(s).width,
            h == old(s).height,
            stroke == c.stroke,
            stroke matches Some(k) ==> k < 4,
            c.height == height,
            height_i == height,
            0 <= height <= MAX_SIDE,
            -0x1_0000_0000_0000 <= west <= 0x1_0000_0000_0000,
            -0x1_0000_0000_0000 <= east <= 0x1_0000_0000_0000,
            west == wn.west,
            east == wn.east,
            north == wn.north + j,
            south == wn.south - j,
            -0x1_0000_0000_0000 <= wn.north <= 0x1_0000_0000_0000,
            -0x1_0000_0000_0000 <= wn.south <= 0x1_0000_0000_0000,
            wn.north - wn.south >= -1,
            j <= cap_count(c, wn),
            cap_count(c, wn) == j + cap_count(c, cap_walk(wn, j as int)),
            drawn(after_outline, s.fb@, w, h, oval_caps(c, wn, j as nat)),
        decreases cap_count(c, wn) - j,
    {
        let ghost mid = s.fb@;
        let ghost wj = cap_walk(wn, j as int);
        dot_far(s, west - 1, north, stroke);
        let ghost s1 = s.fb@;
        dot_far(s, east + 1, north, stroke);
        let ghost s2 = s.fb@;
        north += 1;
        dot_far(s, west - 1, south, stroke);
        let ghost s3 = s.fb@;
        dot_far(s, east + 1, south, stroke);
        south -= 1;
        proof {
            let d1 = mark(wj.west - 1, wj.north, stroke);
            let d2 = mark(wj.east + 1, wj.north, stroke);
            let d3 = mark(wj.west - 1, wj.south, stroke);
            let d4 = mark(wj.east + 1, wj.south, stroke);
            lemma_drawn_trans(mid, s1, s2, w, h, d1, d2);
            lemma_drawn_trans(mid, s2, s3, w, h, overlay_shape(d1, d2), d3);
            lemma_drawn_trans(mid, s3, s.fb@, w, h, overlay_shape(overlay_shape(d1, d2), d3), d4);
            lemma_drawn_trans(after_outline, mid, s.fb@, w, h, oval_caps(c, wn, j as nat), cap_step_shape(c, wj));
            assert(cap_walk(wj, 1) == cap_walk(wn, j + 1));
        }
        j += 1;
    }
    proof {
        lemma_drawn_trans(before, after_outline, s.fb@, w, h, oval_outline(c, w0, n), oval_caps(c, wn, cap_count(c, wn)));
    }
}

/// Draws an oval on the console screen; see [`oval_impl`].
pub fn oval(fb: &mut Vec<u8>, draw_colors: u16, x: i32, y: i32, width: u32, height: u32)
    ensures
        console_drawn(old(fb)@, final(fb)@, oval_shape(draw_colors, x as int, y as int, width as int, height as int)),
{
    let mut s = console_screen(fb);
    oval_impl(&mut s, draw_colors, x, y, width, height);
    *fb = s.fb;
}

} // verus!
