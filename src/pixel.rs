//! The packed 2-bit-per-pixel framebuffer model, and the single-pixel
//! operations every primitive is built from.
use vstd::prelude::*;
use vstd::arithmetic::div_mod::{lemma_fundamental_div_mod, lemma_fundamental_div_mod_converse};
use vstd::arithmetic::mul::lemma_mul_inequality;

verus! {

/// The largest width or height of a screen the primitives accept.
pub const MAX_SIDE: u32 = 0x4000;

/// The 2-bit value in slot `i` of a framebuffer byte: slot 0 is bits 0..1,
/// slot 3 is bits 6..7 (pixels are little-endian within a byte).
pub open spec fn slot_of(b: u8, i: int) -> u8 {
    if i == 0 {
        b & 3
    } else if i == 1 {
        (b >> 2u8) & 3
    } else if i == 2 {
        (b >> 4u8) & 3
    } else {
        (b >> 6u8) & 3
    }
}

/// The color of pixel number `p` of a packed framebuffer.
pub open spec fn pixel_at(fb: Seq<u8>, p: int) -> u8 {
    slot_of(fb[p / 4], p % 4)
}

/// The color pixel `p` has after applying `paint` to `old`.
pub open spec fn after_paint(old: Seq<u8>, paint: spec_fn(int) -> Option<u8>, p: int) -> u8 {
    match paint(p) {
        Some(c) => c,
        None => pixel_at(old, p),
    }
}

/// `new` is `old` with each pixel `p` for which `paint(p)` is `Some(c)` set
/// to `c`, and every other pixel left as it was.
pub open spec fn painted(old: Seq<u8>, new: Seq<u8>, paint: spec_fn(int) -> Option<u8>) -> bool {
    &&& new.len() == old.len()
    &&& forall|p: int|
        0 <= p < 4 * old.len() ==> #[trigger] pixel_at(new, p) == after_paint(old, paint, p)
}

/// A paint over a `w`×`h` screen, given as a function of pixel coordinates:
/// pixel `p` is at `(p % w, p / w)`, and pixels past the last row are never painted.
pub open spec fn on_screen(w: int, h: int, shape: spec_fn(int, int) -> Option<u8>) -> spec_fn(
    int,
) -> Option<u8> {
    |p: int|
        if 0 <= p < w * h {
            shape(p % w, p / w)
        } else {
            None::<u8>
        }
}

/// Paint `g` over paint `f`: where both paint, `g` wins.
pub open spec fn overlay(f: spec_fn(int) -> Option<u8>, g: spec_fn(int) -> Option<u8>) -> spec_fn(
    int,
) -> Option<u8> {
    |p: int|
        match g(p) {
            Some(c) => Some(c),
            None => f(p),
        }
}

/// Writing `c` into slot `s / 2` of `b` (for `s` in 0, 2, 4, 6) leaves
/// the other three slots alone.
pub proof fn lemma_put_slot(b: u8, s: u8, c: u8)
    by (bit_vector)
    requires
        s == 0 || s == 2 || s == 4 || s == 6,
        c < 4,
    ensures
        ({
            let r = (c << s) | (b & !(3u8 << s));
            &&& s == 0 ==> (r & 3 == c && (r >> 2u8) & 3 == (b >> 2u8) & 3 && (r >> 4u8) & 3 == (b
                >> 4u8) & 3 && (r >> 6u8) & 3 == (b >> 6u8) & 3)
            &&& s == 2 ==> (r & 3 == b & 3 && (r >> 2u8) & 3 == c && (r >> 4u8) & 3 == (b >> 4u8)
                & 3 && (r >> 6u8) & 3 == (b >> 6u8) & 3)
            &&& s == 4 ==> (r & 3 == b & 3 && (r >> 2u8) & 3 == (b >> 2u8) & 3 && (r >> 4u8) & 3
                == c && (r >> 6u8) & 3 == (b >> 6u8) & 3)
            &&& s == 6 ==> (r & 3 == b & 3 && (r >> 2u8) & 3 == (b >> 2u8) & 3 && (r >> 4u8) & 3
                == (b >> 4u8) & 3 && (r >> 6u8) & 3 == c)
        }),
{
}

/// A byte whose four slots all hold `c`.
pub proof fn lemma_broadcast_byte(c: u8)
    by (bit_vector)
    requires
        c < 4,
    ensures
        ({
            let r = (c * 0x55) as u8;
            &&& r & 3 == c
            &&& (r >> 2u8) & 3 == c
            &&& (r >> 4u8) & 3 == c
            &&& (r >> 6u8) & 3 == c
        }),
{
}

/// Pixel `w * y + x` of a screen `w` wide is at column `x` of row `y`.
pub proof fn lemma_coords(w: int, x: int, y: int)
    requires
        w > 0,
        0 <= x < w,
    ensures
        (w * y + x) % w == x,
        (w * y + x) / w == y,
{
    assert(w * y == y * w) by (nonlinear_arith);
    lemma_fundamental_div_mod_converse(w * y + x, w, y, x);
}

/// Every pixel of a `w`×`h` screen is `w * (p / w) + p % w`, and its row is below `h`.
pub proof fn lemma_split(w: int, h: int, p: int)
    requires
        w > 0,
        0 <= p < w * h,
    ensures
        p == w * (p / w) + p % w,
        0 <= p % w < w,
        0 <= p / w < h,
{
    lemma_fundamental_div_mod(p, w);
    if p / w >= h {
        lemma_mul_inequality(h, p / w, w);
        assert(w * (p / w) >= w * h) by (nonlinear_arith)
            requires
                p / w >= h,
                w > 0,
        ;
    }
    if p / w < 0 {
        assert(w * (p / w) < 0) by (nonlinear_arith)
            requires
                p / w < 0,
                w > 0,
        ;
    }
}

/// Two paints that agree on every pixel of the buffer describe the same result.
pub proof fn lemma_painted_ext(
    old: Seq<u8>,
    new: Seq<u8>,
    f: spec_fn(int) -> Option<u8>,
    g: spec_fn(int) -> Option<u8>,
)
    requires
        painted(old, new, f),
        forall|p: int| 0 <= p < 4 * old.len() ==> #[trigger] f(p) == g(p),
    ensures
        painted(old, new, g),
{
    assert forall|p: int| 0 <= p < 4 * old.len() implies #[trigger] pixel_at(new, p) == after_paint(
        old,
        g,
        p,
    ) by {
        assert(f(p) == g(p));
    }
}

/// Painting `f` and then `g` is painting `g` over `f`.
pub proof fn lemma_painted_trans(
    a: Seq<u8>,
    b: Seq<u8>,
    c: Seq<u8>,
    f: spec_fn(int) -> Option<u8>,
    g: spec_fn(int) -> Option<u8>,
)
    requires
        painted(a, b, f),
        painted(b, c, g),
    ensures
        painted(a, c, overlay(f, g)),
{
    assert forall|p: int| 0 <= p < 4 * a.len() implies #[trigger] pixel_at(c, p) == after_paint(
        a,
        overlay(f, g),
        p,
    ) by {
        assert(pixel_at(c, p) == after_paint(b, g, p));
        assert(pixel_at(b, p) == after_paint(a, f, p));
    }
}

/// Writes the 2-bit `color` to pixel number `p`; a pixel past the end of the
/// buffer is not written.
pub fn write_pixel(fb: &mut Vec<u8>, p: usize, color: u8)
    requires
        color < 4,
    ensures
        painted(old(fb)@, final(fb)@, |q: int| if q == p { Some(color) } else { None::<u8> }),
{
    let ghost paint = |q: int| if q == p { Some(color) } else { None::<u8> };
    let idx = p / 4;
    if idx < fb.len() {
        let b = fb[idx];
        let s: u8 = ((p % 4) * 2) as u8;
        let nb: u8 = (color << s) | (b & !(3u8 << s));
        proof {
            lemma_put_slot(b, s, color);
        }
        fb.set(idx, nb);
        assert forall|q: int| 0 <= q < 4 * old(fb)@.len() implies #[trigger] pixel_at(fb@, q)
            == after_paint(old(fb)@, paint, q) by {
            if q / 4 != idx as int {
                assert(fb@[q / 4] == old(fb)@[q / 4]);
            }
        }
    } else {
        assert forall|q: int| 0 <= q < 4 * old(fb)@.len() implies #[trigger] pixel_at(fb@, q)
            == after_paint(old(fb)@, paint, q) by {
            assert(q != p);
        }
    }
}

/// Writes byte `k` so that its four pixels all take the 2-bit `color`.
pub fn write_pixel_byte(fb: &mut Vec<u8>, k: usize, color: u8)
    requires
        color < 4,
        k < old(fb)@.len(),
    ensures
        painted(old(fb)@, final(fb)@, |q: int| if q / 4 == k { Some(color) } else { None::<u8> }),
{
    let ghost paint = |q: int| if q / 4 == k { Some(color) } else { None::<u8> };
    proof {
        lemma_broadcast_byte(color);
    }
    fb.set(k, color * 0x55);
    assert forall|q: int| 0 <= q < 4 * old(fb)@.len() implies #[trigger] pixel_at(fb@, q)
        == after_paint(old(fb)@, paint, q) by {
        if q / 4 != k as int {
            assert(fb@[q / 4] == old(fb)@[q / 4]);
        }
    }
}

} // verus!
