//! Screens, pixel writes, clearing and draw-color remapping.
use vstd::prelude::*;
use crate::pixel::{
    after_paint, lemma_coords, lemma_painted_ext, lemma_painted_trans, lemma_split, on_screen,
    overlay, painted, pixel_at, write_pixel, MAX_SIDE,
};

verus! {

/// Width and height of the console's screen, in pixels.
pub const SCREEN_SIZE: u32 = 160;

/// Size of the console's framebuffer in bytes: four pixels per byte.
pub const FRAMEBUFFER_SIZE: usize = 6400;

/// A framebuffer together with the dimensions it is drawn with.
///
/// The buffer need not cover the whole screen: a pixel whose byte lies past
/// its end is never written.
#[derive(PartialEq, Eq, Debug)]
pub struct ArrayScreen {
    pub fb: Vec<u8>,
    pub width: u32,
    pub height: u32,
}

/// `w`×`h` is a screen size the primitives accept: rows are whole bytes.
pub open spec fn valid_size(w: u32, h: u32) -> bool {
    &&& 0 < w <= MAX_SIDE
    &&& w % 4 == 0
    &&& h <= MAX_SIDE
}

/// `shape` drawn on a `w`×`h` screen turned `old` into `new`.
pub open spec fn drawn(
    old: Seq<u8>,
    new: Seq<u8>,
    w: u32,
    h: u32,
    shape: spec_fn(int, int) -> Option<u8>,
) -> bool {
    painted(old, new, on_screen(w as int, h as int, shape))
}

/// The shape of a single pixel.
pub open spec fn dot(x: int, y: int, color: u8) -> spec_fn(int, int) -> Option<u8> {
    |px: int, py: int|
        if px == x && py == y {
            Some(color)
        } else {
            None::<u8>
        }
}


/// Shape `g` drawn over shape `f`: where both paint, `g` wins.
pub open spec fn overlay_shape(
    f: spec_fn(int, int) -> Option<u8>,
    g: spec_fn(int, int) -> Option<u8>,
) -> spec_fn(int, int) -> Option<u8> {
    |px: int, py: int|
        match g(px, py) {
            Some(c) => Some(c),
            None => f(px, py),
        }
}

/// The shape that paints nothing.
pub open spec fn blank() -> spec_fn(int, int) -> Option<u8> {
    |px: int, py: int| None::<u8>
}

/// Two shapes that agree on every pixel of the screen draw the same thing.
pub proof fn lemma_drawn_ext(
    old: Seq<u8>,
    new: Seq<u8>,
    w: u32,
    h: u32,
    f: spec_fn(int, int) -> Option<u8>,
    g: spec_fn(int, int) -> Option<u8>,
)
    requires
        w > 0,
        drawn(old, new, w, h, f),
        forall|px: int, py: int| 0 <= px < w && 0 <= py < h ==> #[trigger] f(px, py) == g(px, py),
    ensures
        drawn(old, new, w, h, g),
{
    let pf = on_screen(w as int, h as int, f);
    let pg = on_screen(w as int, h as int, g);
    assert forall|q: int| 0 <= q < 4 * old.len() implies #[trigger] pf(q) == pg(q) by {
        if 0 <= q < w * h {
            lemma_split(w as int, h as int, q);
            assert(f(q % (w as int), q / (w as int)) == g(q % (w as int), q / (w as int)));
        }
    }
    lemma_painted_ext(old, new, pf, pg);
}

/// Drawing `f` and then `g` is drawing `g` over `f`.
pub proof fn lemma_drawn_trans(
    a: Seq<u8>,
    b: Seq<u8>,
    c: Seq<u8>,
    w: u32,
    h: u32,
    f: spec_fn(int, int) -> Option<u8>,
    g: spec_fn(int, int) -> Option<u8>,
)
    requires
        drawn(a, b, w, h, f),
        drawn(b, c, w, h, g),
    ensures
        drawn(a, c, w, h, overlay_shape(f, g)),
{
    let pf = on_screen(w as int, h as int, f);
    let pg = on_screen(w as int, h as int, g);
    lemma_painted_trans(a, b, c, pf, pg);
    lemma_painted_ext(a, c, overlay(pf, pg), on_screen(w as int, h as int, overlay_shape(f, g)));
}

/// Drawing nothing changes nothing.
pub proof fn lemma_drawn_refl(a: Seq<u8>, w: u32, h: u32)
    ensures
        drawn(a, a, w, h, blank()),
{
}

impl ArrayScreen {
    pub open spec fn wf(&self) -> bool {
        valid_size(self.width, self.height)
    }

    /// A blank screen of `n` bytes, `width` pixels wide.
    pub fn new(n: usize, width: u32) -> (r: ArrayScreen)
        requires
            0 < width <= MAX_SIDE,
            width % 4 == 0,
            n * 4 / (width as int) <= MAX_SIDE,
            n <= MAX_SIDE * MAX_SIDE,
        ensures
            r.wf(),
            r.width == width,
            r.height == n * 4 / (width as int),
            r.fb@ == Seq::new(n as nat, |i: int| 0u8),
    {
        let mut fb: Vec<u8> = Vec::new();
        let mut i: usize = 0;
        while i < n
            invariant
                i <= n,
                fb@ == Seq::new(i as nat, |k: int| 0u8),
            decreases n - i,
        {
            fb.push(0);
            i += 1;
            assert(fb@ =~= Seq::new(i as nat, |k: int| 0u8));
        }
        let height = ((n as u64 * 4) / width as u64) as u32;
        ArrayScreen { fb, width, height }
    }

    /// A screen of `n` bytes, `width` pixels wide, whose first rows are `lines`.
    pub fn new_with_fb_lines(n: usize, width: u32, lines: &Vec<Vec<u8>>) -> (r: ArrayScreen)
        requires
            0 < width <= MAX_SIDE,
            width % 4 == 0,
            n * 4 / (width as int) <= MAX_SIDE,
            n <= MAX_SIDE * MAX_SIDE,
            lines@.len() * (width / 4) <= n,
            forall|j: int| 0 <= j < lines@.len() ==> (#[trigger] lines@[j])@.len() == width / 4,
        ensures
            r.wf(),
            r.width == width,
            r.height == n * 4 / (width as int),
            r.fb@.len() == n,
            forall|k: int|
                0 <= k < n ==> #[trigger] r.fb@[k] == if k / ((width / 4) as int) < lines@.len() {
                    lines@[k / ((width / 4) as int)]@[k % ((width / 4) as int)]
                } else {
                    0u8
                },
    {
        let mut s = ArrayScreen::new(n, width);
        let row: usize = (width / 4) as usize;
        let mut j: usize = 0;
        while j < lines.len()
            invariant
                0 < row,
                row == width / 4,
                lines@.len() * row <= n,
                forall|j: int| 0 <= j < lines@.len() ==> (#[trigger] lines@[j])@.len() == row,
                j <= lines@.len(),
                s.fb@.len() == n,
                s.width == width,
                s.height == n * 4 / (width as int),
                s.wf(),
                forall|k: int|
                    0 <= k < n ==> #[trigger] s.fb@[k] == if k / (row as int) <= j as int - 1 {
                        lines@[k / (row as int)]@[k % (row as int)]
                    } else {
                        0u8
                    },
            decreases lines@.len() - j,
        {
            let line = &lines[j];
            let mut i: usize = 0;
            proof {
                assert(row * j + row <= n) by (nonlinear_arith)
                    requires
                        j < lines@.len(),
                        lines@.len() * row <= n,
                ;
            }
            while i < row
                invariant
                    0 < row,
                    row == width / 4,
                    j < lines@.len(),
                    row * j + row <= n,
                    line@.len() == row,
                    line == lines@[j as int],
                    i <= row,
                    s.fb@.len() == n,
                    s.width == width,
                    s.height == n * 4 / (width as int),
                    s.wf(),
                    forall|k: int|
                        0 <= k < n ==> #[trigger] s.fb@[k] == if k / (row as int) <= j as int - 1 {
                            lines@[k / (row as int)]@[k % (row as int)]
                        } else if k / (row as int) == j as int && k % (row as int) < i {
                            lines@[k / (row as int)]@[k % (row as int)]
                        } else {
                            0u8
                        },
                decreases row - i,
            {
                let k = row * j + i;
                s.fb.set(k, line[i]);
                proof {
                    lemma_coords(row as int, i as int, j as int);
                    assert forall|q: int| 0 <= q < n implies #[trigger] s.fb@[q] == if q / (
                    row as int) <= j as int - 1 {
                        lines@[q / (row as int)]@[q % (row as int)]
                    } else if q / (row as int) == j as int && q % (row as int) < i + 1 {
                        lines@[q / (row as int)]@[q % (row as int)]
                    } else {
                        0u8
                    } by {
                        lemma_fundamental_div_mod_of(q, row as int);
                        if q != k {
                            assert(q / (row as int) != j || q % (row as int) != i) by (nonlinear_arith)
                                requires
                                    q == row * (q / (row as int)) + q % (row as int),
                                    k == row * j + i,
                                    q != k,
                            ;
                        }
                    }
                }
                i += 1;
            }
            j += 1;
        }
        s
    }
}

/// A helper for index arithmetic: `q == row * (q / row) + q % row`.
pub proof fn lemma_fundamental_div_mod_of(q: int, row: int)
    requires
        row > 0,
    ensures
        q == row * (q / row) + q % row,
        0 <= q % row < row,
{
    vstd::arithmetic::div_mod::lemma_fundamental_div_mod(q, row);
}

/// Pixel `(x, y)` of a `w`×`h` screen is pixel number `w * y + x`, and that
/// number leads back to `(x, y)`.
pub proof fn lemma_pixel_index(w: int, h: int, x: int, y: int)
    requires
        w > 0,
        0 <= x < w,
        0 <= y < h,
    ensures
        0 <= w * y + x < w * h,
        (w * y + x) % w == x,
        (w * y + x) / w == y,
{
    lemma_coords(w, x, y);
    assert(0 <= w * y + x < w * h) by (nonlinear_arith)
        requires
            w > 0,
            0 <= x < w,
            0 <= y < h,
    ;
}

/// Sets pixel `(x, y)`, which must lie on the screen, to the 2-bit `color`.
pub fn set_pixel_impl(s: &mut ArrayScreen, x: i32, y: i32, color: u8)
    requires
        old(s).wf(),
        0 <= x < old(s).width,
        0 <= y < old(s).height,
        color < 4,
    ensures
        final(s).width == old(s).width,
        final(s).height == old(s).height,
        drawn(old(s).fb@, final(s).fb@, old(s).width, old(s).height, dot(x as int, y as int, color)),
{
    let w = s.width;
    let h = s.height;
    proof {
        assert((w as int) * (y as int) <= MAX_SIDE * MAX_SIDE) by (nonlinear_arith)
            requires
                w <= MAX_SIDE,
                0 <= y < MAX_SIDE,
        ;
    }
    let p: usize = (w as usize) * (y as usize) + (x as usize);
    proof {
        lemma_pixel_index(w as int, h as int, x as int, y as int);
    }
    let ghost before = s.fb@;
    let ghost single = |q: int| if q == p { Some(color) } else { None::<u8> };
    let ghost target = on_screen(w as int, h as int, dot(x as int, y as int, color));
    write_pixel(&mut s.fb, p, color);
    proof {
        assert forall|q: int| 0 <= q < 4 * before.len() implies #[trigger] single(q) == target(
            q,
        ) by {
            if 0 <= q < w * h {
                lemma_split(w as int, h as int, q);
            }
        }
        lemma_painted_ext(before, s.fb@, single, target);
    }
}

/// Sets pixel `(x, y)` to the 2-bit `color` if it lies on the screen, and
/// does nothing otherwise.
pub fn set_pixel_unclipped_impl(s: &mut ArrayScreen, x: i32, y: i32, color: u8)
    requires
        old(s).wf(),
        color < 4,
    ensures
        final(s).width == old(s).width,
        final(s).height == old(s).height,
        drawn(old(s).fb@, final(s).fb@, old(s).width, old(s).height, dot(x as int, y as int, color)),
{
    if x >= 0 && (x as u32) < s.width && y >= 0 && (y as u32) < s.height {
        set_pixel_impl(s, x, y, color);
    } else {
        let ghost w = s.width as int;
        let ghost h = s.height as int;
        proof {
            assert forall|q: int| 0 <= q < 4 * s.fb@.len() implies #[trigger] pixel_at(s.fb@, q)
                == after_paint(s.fb@, on_screen(w, h, dot(x as int, y as int, color)), q) by {
                if 0 <= q < w * h {
                    lemma_split(w, h, q);
                }
            }
        }
    }
}

/// `shape` drawn on the console's 160×160 screen turned `old` into `new`.
pub open spec fn console_drawn(
    old: Seq<u8>,
    new: Seq<u8>,
    shape: spec_fn(int, int) -> Option<u8>,
) -> bool {
    drawn(old, new, SCREEN_SIZE, SCREEN_SIZE, shape)
}

/// Moves a console framebuffer into a 160×160 screen.
pub fn console_screen(fb: &mut Vec<u8>) -> (s: ArrayScreen)
    ensures
        s.wf(),
        s.width == SCREEN_SIZE,
        s.height == SCREEN_SIZE,
        s.fb@ == old(fb)@,
{
    let mut s = ArrayScreen { fb: Vec::new(), width: SCREEN_SIZE, height: SCREEN_SIZE };
    std::mem::swap(fb, &mut s.fb);
    s
}

/// Sets pixel `(x, y)` of the console screen, which must lie on it, to the
/// 2-bit `color`.
pub fn set_pixel(fb: &mut Vec<u8>, x: i32, y: i32, color: u8)
    requires
        0 <= x < SCREEN_SIZE,
        0 <= y < SCREEN_SIZE,
        color < 4,
    ensures
        console_drawn(old(fb)@, final(fb)@, dot(x as int, y as int, color)),
{
    let mut s = console_screen(fb);
    set_pixel_impl(&mut s, x, y, color);
    *fb = s.fb;
}

/// Sets pixel `(x, y)` of the console screen to the 2-bit `color`, or does
/// nothing if it lies off the screen.
pub fn set_pixel_unclipped(fb: &mut Vec<u8>, x: i32, y: i32, color: u8)
    requires
        color < 4,
    ensures
        console_drawn(old(fb)@, final(fb)@, dot(x as int, y as int, color)),
{
    let mut s = console_screen(fb);
    set_pixel_unclipped_impl(&mut s, x, y, color);
    *fb = s.fb;
}

/// Clears the whole framebuffer to zero.
pub fn clear(fb: &mut Vec<u8>)
    ensures
        final(fb)@ == Seq::new(old(fb)@.len(), |i: int| 0u8),
{
    let n = fb.len();
    let mut i: usize = 0;
    while i < n
        invariant
            n == fb@.len(),
            i <= n,
            forall|k: int| 0 <= k < i ==> fb@[k] == 0u8,
        decreases n - i,
    {
        fb.set(i, 0);
        i += 1;
    }
    assert(fb@ =~= Seq::new(old(fb)@.len(), |i: int| 0u8));
}

/// The 4-bit entry for slot `i` of a draw-colors register.
pub open spec fn draw_color_nibble(draw_colors: u16, i: int) -> u16 {
    if i == 0 {
        draw_colors & 0xf
    } else if i == 1 {
        (draw_colors >> 4u16) & 0xf
    } else if i == 2 {
        (draw_colors >> 8u16) & 0xf
    } else {
        (draw_colors >> 12u16) & 0xf
    }
}

/// What slot `i` of `draw_colors` paints: `None` for a transparent slot, or
/// the palette index `(entry - 1) & 3`.
pub open spec fn draw_color(draw_colors: u16, i: int) -> Option<u8> {
    let n = draw_color_nibble(draw_colors, i);
    if n == 0 {
        None
    } else {
        Some(((n - 1) % 4) as u8)
    }
}

/// Looks up slot `idx` of `draw_colors`: `None` where it is transparent,
/// otherwise the palette index it paints with.
pub fn remap_draw_color(idx: u8, draw_colors: u16) -> (r: Option<u8>)
    requires
        idx < 4,
    ensures
        r == draw_color(draw_colors, idx as int),
        r matches Some(c) ==> c < 4,
{
    let n: u16 = if idx == 0 {
        draw_colors & 0xf
    } else if idx == 1 {
        (draw_colors >> 4u16) & 0xf
    } else if idx == 2 {
        (draw_colors >> 8u16) & 0xf
    } else {
        (draw_colors >> 12u16) & 0xf
    };
    if n == 0 {
        None
    } else {
        Some(((n - 1) % 4) as u8)
    }
}

} // verus!
