//! Copying 1- and 2-bit-per-pixel sprites onto a framebuffer.
use vstd::prelude::*;
use crate::pixel::{
    after_paint, lemma_put_slot, lemma_split, on_screen, pixel_at,
    slot_of, MAX_SIDE,
};
use crate::screen::{
    lemma_pixel_index, blank, console_drawn, console_screen, dot, draw_color, drawn, lemma_drawn_ext,
    lemma_drawn_refl, lemma_drawn_trans, overlay_shape, remap_draw_color,
    set_pixel_unclipped_impl, ArrayScreen,
};

verus! {

/// Blit flag: the sprite holds 2 bits per pixel instead of 1.
pub const BLIT_2BPP: u32 = 1;

/// Blit flag: mirror the sprite horizontally.
pub const BLIT_FLIP_X: u32 = 2;

/// Blit flag: mirror the sprite vertically.
pub const BLIT_FLIP_Y: u32 = 4;

/// Blit flag: rotate the sprite by 90 degrees.
pub const BLIT_ROTATE: u32 = 8;

/// How pixels are packed into bytes.
#[derive(Clone, Copy, PartialEq, Eq, Debug)]
pub enum PixelFormat {
    /// Sprite data, one bit per pixel, first pixel in the top bit.
    Blit1BPP,
    /// Sprite data, two bits per pixel, first pixel in the top two bits.
    Blit2BPP,
    /// Framebuffer data, two bits per pixel, first pixel in the low two bits.
    Framebuffer,
}

/// The sprite format that blit flags select.
pub open spec fn format_of_flags(flags: u32) -> PixelFormat {
    if flags & BLIT_2BPP != 0 {
        PixelFormat::Blit2BPP
    } else {
        PixelFormat::Blit1BPP
    }
}

impl PixelFormat {
    /// The sprite format that `flags` selects.
    pub fn from_blit_flags(flags: u32) -> (r: PixelFormat)
        ensures
            r == format_of_flags(flags),
    {
        if flags & BLIT_2BPP != 0 {
            PixelFormat::Blit2BPP
        } else {
            PixelFormat::Blit1BPP
        }
    }
}

/// The number of bits per sprite pixel that `flags` selects.
pub fn pixel_width_of_flags(flags: u32) -> (r: u32)
    ensures
        r == if flags & BLIT_2BPP != 0 { 2u32 } else { 1u32 },
{
    if flags & BLIT_2BPP != 0 {
        2
    } else {
        1
    }
}

/// The value of sprite pixel number `p`, or `None` where its byte lies past
/// the end of the sprite. Sprite pixels are big-endian within a byte.
pub open spec fn sprite_pixel(sprite: Seq<u8>, fmt: PixelFormat, p: int) -> Option<u8> {
    match fmt {
        PixelFormat::Blit2BPP => if 0 <= p && p / 4 < sprite.len() {
            Some((sprite[p / 4] >> ((6 - 2 * (p % 4)) as u8)) & 3)
        } else {
            None
        },
        _ => if 0 <= p && p / 8 < sprite.len() {
            Some((sprite[p / 8] >> ((7 - p % 8) as u8)) & 1)
        } else {
            None
        },
    }
}

pub proof fn lemma_low_bits(b: u8)
    by (bit_vector)
    ensures
        b & 3 < 4,
        b & 1 < 2,
{
}

/// Reads pixel `(x, y)` of a sprite `stride` pixels wide, or `None` where it
/// lies past the end of the sprite.
pub fn get_sprite_pixel_draw_color(
    sprite: &[u8],
    fmt: PixelFormat,
    x: u64,
    y: u64,
    stride: u32,
) -> (r: Option<u8>)
    requires
        fmt != PixelFormat::Framebuffer,
    ensures
        r == sprite_pixel(sprite@, fmt, stride * y + x),
        r matches Some(v) ==> v < 4,
{
    assert((stride as int) * (y as int) <= 0x1_0000_0000 * 0x1_0000_0000_0000_0000) by (nonlinear_arith)
        requires
            stride < 0x1_0000_0000,
            y < 0x1_0000_0000_0000_0000,
    ;
    let p: u128 = (stride as u128) * (y as u128) + (x as u128);
    match fmt {
        PixelFormat::Blit2BPP => {
            if p / 4 < sprite.len() as u128 {
                let b = sprite[(p / 4) as usize];
                let v = (b >> ((6 - 2 * (p % 4)) as u8)) & 3;
                proof {
                    lemma_low_bits(b >> ((6 - 2 * (p % 4)) as u8));
                }
                Some(v)
            } else {
                None
            }
        },
        _ => {
            if p / 8 < sprite.len() as u128 {
                let b = sprite[(p / 8) as usize];
                let v = (b >> ((7 - p % 8) as u8)) & 1;
                proof {
                    lemma_low_bits(b >> ((7 - p % 8) as u8));
                }
                Some(v)
            } else {
                None
            }
        },
    }
}

/// The part of `0..extent` that, placed at `coord`, falls inside `lo..hi`:
/// `max(lo, coord) - coord .. min(extent, hi - coord)`.
pub fn calculate_target_range(coord: i64, extent: i64, lo: i64, hi: i64) -> (r: (i64, i64))
    requires
        -0x1_0000_0000 <= coord <= 0x1_0000_0000,
        0 <= extent <= 0x1_0000_0000,
        0 <= lo <= hi <= 0x1_0000_0000,
    ensures
        r.0 == (if lo > coord { lo } else { coord }) - coord,
        r.1 == if extent < hi - coord { extent as int } else { hi - coord },
{
    let start = if lo > coord { lo } else { coord };
    let end = if extent < hi - coord { extent } else { hi - coord };
    (start - coord, end)
}

/// Where a blit reads from and writes to.
#[derive(Clone, Copy, PartialEq, Eq, Debug)]
pub struct BlitParams {
    pub x: i32,
    pub y: i32,
    pub width: u32,
    pub height: u32,
    pub src_x: u32,
    pub src_y: u32,
    pub stride: u32,
    pub flags: u32,
    pub draw_colors: u16,
}

/// The sprite-local position `(wx, wy)` that lands on target pixel `(tx, ty)`.
pub open spec fn window_of(b: BlitParams, tx: int, ty: int) -> (int, int) {
    if b.flags & BLIT_ROTATE != 0 {
        (ty - b.y, tx - b.x)
    } else {
        (tx - b.x, ty - b.y)
    }
}

/// The target pixel that sprite-local position `(wx, wy)` lands on.
pub open spec fn target_of(b: BlitParams, wx: int, wy: int) -> (int, int) {
    if b.flags & BLIT_ROTATE != 0 {
        (b.x + wy, b.y + wx)
    } else {
        (b.x + wx, b.y + wy)
    }
}

/// Whether the sprite is read right to left: flip-x, inverted by rotation.
pub open spec fn reads_flipped_x(b: BlitParams) -> bool {
    (b.flags & BLIT_FLIP_X != 0) != (b.flags & BLIT_ROTATE != 0)
}

/// The sprite pixel read for sprite-local position `(wx, wy)`.
pub open spec fn source_of(b: BlitParams, wx: int, wy: int) -> (int, int) {
    (
        b.src_x + if reads_flipped_x(b) {
            b.width - wx - 1
        } else {
            wx
        },
        b.src_y + if b.flags & BLIT_FLIP_Y != 0 {
            b.height - wy - 1
        } else {
            wy
        },
    )
}

/// The color written for sprite-local position `(wx, wy)`: the sprite pixel
/// remapped through the draw colors, or `None` where it is transparent or
/// lies past the end of the sprite.
pub open spec fn blit_color(sprite: Seq<u8>, b: BlitParams, wx: int, wy: int) -> Option<u8> {
    let (sx, sy) = source_of(b, wx, wy);
    match sprite_pixel(sprite, format_of_flags(b.flags), b.stride * sy + sx) {
        Some(v) => draw_color(b.draw_colors, v as int),
        None => None,
    }
}

/// What a blit paints where `done(wx, wy)` holds.
pub open spec fn blit_part(
    sprite: Seq<u8>,
    b: BlitParams,
    done: spec_fn(int, int) -> bool,
) -> spec_fn(int, int) -> Option<u8> {
    |tx: int, ty: int|
        {
            let (wx, wy) = window_of(b, tx, ty);
            if 0 <= wx < b.width && 0 <= wy < b.height && done(wx, wy) {
                blit_color(sprite, b, wx, wy)
            } else {
                None
            }
        }
}

/// What a blit paints: every sprite-local position of the `width`×`height`
/// window, at its target pixel, in its remapped color where that is opaque.
pub open spec fn blit_shape(sprite: Seq<u8>, b: BlitParams) -> spec_fn(int, int) -> Option<u8> {
    blit_part(sprite, b, |wx: int, wy: int| true)
}

/// Positions finished when the scan is at `(wx, wy)`, going row by row over
/// `wx_lo..wx_hi` from row `wy_lo`.
pub open spec fn scanned(wx_lo: int, wx_hi: int, wy_lo: int, wx: int, wy: int) -> spec_fn(
    int,
    int,
) -> bool {
    |a: int, c: int| (wy_lo <= c < wy && wx_lo <= a < wx_hi) || (c == wy && wx_lo <= a < wx)
}

/// Copies the sprite pixel for sprite-local position `(wx, wy)` to its
/// target pixel, which lies on the screen.
fn blit_one(s: &mut ArrayScreen, sprite: &[u8], b: BlitParams, fmt: PixelFormat, wx: i64, wy: i64)
    requires
        old(s).wf(),
        fmt == format_of_flags(b.flags),
        0 <= wx < b.width,
        0 <= wy < b.height,
        0 <= target_of(b, wx as int, wy as int).0 < old(s).width,
        0 <= target_of(b, wx as int, wy as int).1 < old(s).height,
    ensures
        final(s).width == old(s).width,
        final(s).height == old(s).height,
        drawn(
            old(s).fb@,
            final(s).fb@,
            old(s).width,
            old(s).height,
            blit_part(sprite@, b, |a: int, d: int| a == wx && d == wy),
        ),
{
    let ghost before = s.fb@;
    let ghost single = |a: int, d: int| a == wx && d == wy;
    let w = s.width;
    let h = s.height;
    let rotate = b.flags & BLIT_ROTATE != 0;
    let flip_x = (b.flags & BLIT_FLIP_X != 0) != rotate;
    let flip_y = b.flags & BLIT_FLIP_Y != 0;
    let tx: i64 = if rotate { b.x as i64 + wy } else { b.x as i64 + wx };
    let ty: i64 = if rotate { b.y as i64 + wx } else { b.y as i64 + wy };
    let sx: u64 = b.src_x as u64 + (if flip_x { b.width as i64 - wx - 1 } else { wx }) as u64;
    let sy: u64 = b.src_y as u64 + (if flip_y { b.height as i64 - wy - 1 } else { wy }) as u64;
    assert(window_of(b, tx as int, ty as int) == (wx as int, wy as int));
    assert(source_of(b, wx as int, wy as int) == (sx as int, sy as int));
    let mut color: Option<u8> = None;
    if let Some(v) = get_sprite_pixel_draw_color(sprite, fmt, sx, sy, b.stride) {
        color = remap_draw_color(v, b.draw_colors);
    }
    assert(color == blit_color(sprite@, b, wx as int, wy as int));
    match color {
        Some(c) => {
            set_pixel_unclipped_impl(s, tx as i32, ty as i32, c);
            proof {
                assert forall|px: int, py: int| 0 <= px < w && 0 <= py < h implies #[trigger] dot(
                    tx as int,
                    ty as int,
                    c,
                )(px, py) == blit_part(sprite@, b, single)(px, py) by {
                    if px != tx || py != ty {
                        let (a, d) = window_of(b, px, py);
                        assert(a != wx || d != wy);
                    }
                }
                lemma_drawn_ext(before, s.fb@, w, h, dot(tx as int, ty as int, c), blit_part(sprite@, b, single));
            }
        },
        None => {
            proof {
                lemma_drawn_refl(before, w, h);
                lemma_drawn_ext(before, s.fb@, w, h, blank(), blit_part(sprite@, b, single));
            }
        },
    }
}

/// Copies a `width`×`height` window of a sprite atlas `stride` pixels wide,
/// starting at sprite pixel `(src_x, src_y)`, to `(x, y)` of the screen.
/// Flags select 2-bit pixels, mirroring and rotation; pixels are remapped
/// through the draw colors and transparent ones are skipped, as are pixels
/// off the screen or past the end of the sprite.
pub fn blit_sub_impl(s: &mut ArrayScreen, sprite: &[u8], b: BlitParams)
    requires
        old(s).wf(),
    ensures
        final(s).width == old(s).width,
        final(s).height == old(s).height,
        drawn(old(s).fb@, final(s).fb@, old(s).width, old(s).height, blit_shape(sprite@, b)),
{
    let ghost before = s.fb@;
    let w = s.width;
    let h = s.height;
    let rotate = b.flags & BLIT_ROTATE != 0;
    let flip_x = (b.flags & BLIT_FLIP_X != 0) != rotate;
    let flip_y = b.flags & BLIT_FLIP_Y != 0;
    let fmt = PixelFormat::from_blit_flags(b.flags);
    let (wx_range, wy_range) = if rotate {
        (
            calculate_target_range(b.y as i64, b.width as i64, 0, h as i64),
            calculate_target_range(b.x as i64, b.height as i64, 0, w as i64),
        )
    } else {
        (
            calculate_target_range(b.x as i64, b.width as i64, 0, w as i64),
            calculate_target_range(b.y as i64, b.height as i64, 0, h as i64),
        )
    };
    let (wx_lo, wx_hi) = wx_range;
    let (wy_lo, wy_hi) = wy_range;
    let ghost ext = if rotate { h as int } else { w as int };
    let ghost eyt = if rotate { w as int } else { h as int };
    let ghost cx = if rotate { b.y as int } else { b.x as int };
    let ghost cy = if rotate { b.x as int } else { b.y as int };
    let mut wy = wy_lo;
    proof {
        lemma_drawn_refl(before, w, h);
        lemma_drawn_ext(
            before,
            s.fb@,
            w,
            h,
            blank(),
            blit_part(sprite@, b, scanned(wx_lo as int, wx_hi as int, wy_lo as int, wx_lo as int, wy as int)),
        );
    }
    while wy < wy_hi
        invariant
            s.wf(),
            s.width == w,
            s.height == h,
            w == old(s).width,
            h == old(s).height,
            rotate == (b.flags & BLIT_ROTATE != 0),
            flip_x == reads_flipped_x(b),
            flip_y == (b.flags & BLIT_FLIP_Y != 0),
            fmt == format_of_flags(b.flags),
            wx_lo == (if 0 > cx { 0 } else { cx }) - cx,
            wx_hi == if b.width < ext - cx { b.width as int } else { ext - cx },
            wy_lo == (if 0 > cy { 0 } else { cy }) - cy,
            wy_hi == if b.height < eyt - cy { b.height as int } else { eyt - cy },
            ext == if rotate { h as int } else { w as int },
            eyt == if rotate { w as int } else { h as int },
            cx == if rotate { b.y as int } else { b.x as int },
            cy == if rotate { b.x as int } else { b.y as int },
            wy_lo <= wy,
            wy <= wy_hi || wy == wy_lo,
            drawn(
                before,
                s.fb@,
                w,
                h,
                blit_part(sprite@, b, scanned(wx_lo as int, wx_hi as int, wy_lo as int, wx_lo as int, wy as int)),
            ),
        decreases wy_hi - wy,
    {
        let mut wx = wx_lo;
        while wx < wx_hi
            invariant
                s.wf(),
                s.width == w,
                s.height == h,
                w == old(s).width,
                h == old(s).height,
                rotate == (b.flags & BLIT_ROTATE != 0),
                flip_x == reads_flipped_x(b),
                flip_y == (b.flags & BLIT_FLIP_Y != 0),
                fmt == format_of_flags(b.flags),
                wx_lo == (if 0 > cx { 0 } else { cx }) - cx,
                wx_hi == if b.width < ext - cx { b.width as int } else { ext - cx },
                wy_lo == (if 0 > cy { 0 } else { cy }) - cy,
                wy_hi == if b.height < eyt - cy { b.height as int } else { eyt - cy },
                ext == if rotate { h as int } else { w as int },
                eyt == if rotate { w as int } else { h as int },
                cx == if rotate { b.y as int } else { b.x as int },
                cy == if rotate { b.x as int } else { b.y as int },
                wy_lo <= wy < wy_hi,
                wx_lo <= wx,
                wx <= wx_hi || wx == wx_lo,
                drawn(
                    before,
                    s.fb@,
                    w,
                    h,
                    blit_part(sprite@, b, scanned(wx_lo as int, wx_hi as int, wy_lo as int, wx as int, wy as int)),
                ),
            decreases wx_hi - wx,
        {
            let ghost mid = s.fb@;
            let ghost done = scanned(wx_lo as int, wx_hi as int, wy_lo as int, wx as int, wy as int);
            let ghost next = scanned(wx_lo as int, wx_hi as int, wy_lo as int, wx + 1, wy as int);
            let ghost single = |a: int, d: int| a == wx && d == wy;
            blit_one(s, sprite, b, fmt, wx, wy);
            proof {
                lemma_drawn_trans(before, mid, s.fb@, w, h, blit_part(sprite@, b, done), blit_part(sprite@, b, single));
                lemma_drawn_ext(before, s.fb@, w, h, overlay_shape(blit_part(sprite@, b, done), blit_part(sprite@, b, single)), blit_part(sprite@, b, next));
            }
            wx += 1;
        }
        proof {
            lemma_drawn_ext(
                before,
                s.fb@,
                w,
                h,
                blit_part(sprite@, b, scanned(wx_lo as int, wx_hi as int, wy_lo as int, wx as int, wy as int)),
                blit_part(sprite@, b, scanned(wx_lo as int, wx_hi as int, wy_lo as int, wx_lo as int, wy + 1)),
            );
        }
        wy += 1;
    }
    proof {
        assert forall|px: int, py: int| 0 <= px < w && 0 <= py < h implies #[trigger] blit_part(
            sprite@,
            b,
            scanned(wx_lo as int, wx_hi as int, wy_lo as int, wx_lo as int, wy as int),
        )(px, py) == blit_shape(sprite@, b)(px, py) by {
        }
        lemma_drawn_ext(
            before,
            s.fb@,
            w,
            h,
            blit_part(sprite@, b, scanned(wx_lo as int, wx_hi as int, wy_lo as int, wx_lo as int, wy as int)),
            blit_shape(sprite@, b),
        );
    }
}

/// Copies a `width`×`height` window of a sprite atlas `stride` pixels wide,
/// starting at sprite pixel `(src_x, src_y)`, to `(x, y)` of the console
/// screen held in `target`; see [`blit_sub_impl`].
pub fn blit_sub(
    target: &mut Vec<u8>,
    sprite: &[u8],
    x: i32,
    y: i32,
    width: u32,
    height: u32,
    src_x: u32,
    src_y: u32,
    stride: u32,
    flags: u32,
    draw_colors: u16,
)
    ensures
        console_drawn(
            old(target)@,
            final(target)@,
            blit_shape(
                sprite@,
                BlitParams { x, y, width, height, src_x, src_y, stride, flags, draw_colors },
            ),
        ),
{
    let b = BlitParams { x, y, width, height, src_x, src_y, stride, flags, draw_colors };
    let mut s = console_screen(target);
    blit_sub_impl(&mut s, sprite, b);
    *target = s.fb;
}

/// The color a blit writes at target column `tx` of target row `ty`.
pub open spec fn blit_color_at(sprite: Seq<u8>, b: BlitParams, tx: int, ty: int) -> Option<u8> {
    blit_color(sprite, b, tx - b.x, ty - b.y)
}

/// Copies the sprite pixels for target columns `t0..t1` of row `ty`, which
/// all lie in one framebuffer byte and inside the blit's window, reading and
/// writing that byte once.
fn blit_byte(s: &mut ArrayScreen, sprite: &[u8], b: BlitParams, fmt: PixelFormat, ty: i64, t0: i64, t1: i64)
    requires
        old(s).wf(),
        fmt == format_of_flags(b.flags),
        b.flags & BLIT_ROTATE == 0,
        b.flags & BLIT_FLIP_X == 0,
        b.flags & BLIT_FLIP_Y == 0,
        0 <= ty < old(s).height,
        0 <= ty - b.y < b.height,
        0 <= t0 < t1 <= old(s).width,
        t0 / 4 == (t1 - 1) / 4,
        b.x <= t0,
        t1 <= b.x + b.width,
    ensures
        final(s).width == old(s).width,
        final(s).height == old(s).height,
        drawn(
            old(s).fb@,
            final(s).fb@,
            old(s).width,
            old(s).height,
            blit_part(sprite@, b, |a: int, d: int| d == ty - b.y && t0 <= b.x + a < t1),
        ),
{
    let ghost before = s.fb@;
    let w = s.width;
    let h = s.height;
    let ghost cells = |a: int, d: int| d == ty - b.y && t0 <= b.x + a < t1;
    let ghost target = on_screen(w as int, h as int, blit_part(sprite@, b, cells));
    proof {
        assert((w as int) * (ty as int) + w <= MAX_SIDE * MAX_SIDE) by (nonlinear_arith)
            requires
                w <= MAX_SIDE,
                0 <= ty < MAX_SIDE,
        ;
        assert(4 * ((w / 4) * (ty as int)) == w * ty) by (nonlinear_arith)
            requires
                w == 4 * (w / 4),
        ;
    }
    let base: i64 = (w as i64) * ty;
    let k: i64 = (w as i64 / 4) * ty + t0 / 4;
    let ghost lo = 4 * (t0 / 4);
    assert(4 * k == base + lo);
    // Every pixel the blit paints here lies in byte `k`, at column `q - base`.
    assert forall|q: int| 0 <= q < 4 * before.len() && #[trigger] target(q) is Some implies q / 4 == k
        && base + t0 <= q < base + t1 && q % (w as int) == q - base && q / (w as int) == ty by {
        lemma_split(w as int, h as int, q);
        lemma_pixel_index(w as int, h as int, q - base, ty as int);
    }
    if (k as usize) < s.fb.len() {
        let orig = s.fb[k as usize];
        let mut byte = orig;
        let mut t = t0;
        while t < t1
            invariant
                t0 <= t <= t1,
                t0 / 4 == (t1 - 1) / 4,
                t0 >= 0,
                lo == 4 * (t0 / 4),
                fmt == format_of_flags(b.flags),
                b.flags & BLIT_ROTATE == 0,
                b.flags & BLIT_FLIP_X == 0,
                b.flags & BLIT_FLIP_Y == 0,
                0 <= ty - b.y < b.height,
                b.x <= t0,
                t1 <= b.x + b.width,
                forall|j: int|
                    0 <= j < 4 ==> #[trigger] slot_of(byte, j) == if t0 <= lo + j < t {
                        match blit_color_at(sprite@, b, lo + j, ty as int) {
                            Some(c) => c,
                            None => slot_of(orig, j),
                        }
                    } else {
                        slot_of(orig, j)
                    },
            decreases t1 - t,
        {
            let wx = t - b.x as i64;
            let wy = ty - b.y as i64;
            let sx: u64 = b.src_x as u64 + wx as u64;
            let sy: u64 = b.src_y as u64 + wy as u64;
            assert(source_of(b, wx as int, wy as int) == (sx as int, sy as int));
            let mut color: Option<u8> = None;
            if let Some(v) = get_sprite_pixel_draw_color(sprite, fmt, sx, sy, b.stride) {
                color = remap_draw_color(v, b.draw_colors);
            }
            assert(color == blit_color_at(sprite@, b, t as int, ty as int));
            assert(t / 4 == t0 / 4);
            assert(t == lo + t % 4);
            let ghost prev = byte;
            if let Some(c) = color {
                let sh: u8 = ((t % 4) * 2) as u8;
                proof {
                    lemma_put_slot(byte, sh, c);
                }
                byte = (c << sh) | (byte & !(3u8 << sh));
                assert forall|j: int| 0 <= j < 4 && j != t % 4 implies #[trigger] slot_of(byte, j)
                    == slot_of(prev, j) by {}
                assert(slot_of(byte, (t % 4) as int) == c);
            }
            t += 1;
        }
        s.fb.set(k as usize, byte);
        proof {
            assert forall|q: int| 0 <= q < 4 * before.len() implies #[trigger] pixel_at(s.fb@, q)
                == after_paint(before, target, q) by {
                if q / 4 == k {
                    let j = q % 4;
                    assert(lo + j == q - base);
                    if target(q) is Some {
                    } else if base + t0 <= q < base + t1 {
                        lemma_pixel_index(w as int, h as int, q - base, ty as int);
                    }
                } else {
                    assert(s.fb@[q / 4] == before[q / 4]);
                }
            }
        }
    } else {
        proof {
            assert forall|q: int| 0 <= q < 4 * before.len() implies #[trigger] pixel_at(s.fb@, q)
                == after_paint(before, target, q) by {}
        }
    }
}

/// Window positions finished when the byte-wise scan is at target column
/// `t` of sprite row `wy`, going row by row from row `wy_lo` over columns
/// `wx_lo..wx_hi`.
pub open spec fn bytes_done(b: BlitParams, wx_lo: int, wx_hi: int, wy_lo: int, wy: int, t: int) -> spec_fn(int, int) -> bool {
    |a: int, d: int| (wy_lo <= d < wy && wx_lo <= a < wx_hi) || (d == wy && wx_lo <= a && b.x + a < t)
}

/// The byte-wise blit of a sprite that is neither mirrored nor rotated.
fn blit_bytewise(s: &mut ArrayScreen, sprite: &[u8], b: BlitParams)
    requires
        old(s).wf(),
        b.flags & (BLIT_ROTATE | BLIT_FLIP_X | BLIT_FLIP_Y) == 0,
    ensures
        final(s).width == old(s).width,
        final(s).height == old(s).height,
        drawn(old(s).fb@, final(s).fb@, old(s).width, old(s).height, blit_shape(sprite@, b)),
{
    let ghost before = s.fb@;
    let w = s.width;
    let h = s.height;
    let f = b.flags;
    assert(f & BLIT_ROTATE == 0 && f & BLIT_FLIP_X == 0 && f & BLIT_FLIP_Y == 0) by (bit_vector)
        requires
            f & (BLIT_ROTATE | BLIT_FLIP_X | BLIT_FLIP_Y) == 0,
    ;
    let fmt = PixelFormat::from_blit_flags(b.flags);
    let (wx_lo, wx_hi) = calculate_target_range(b.x as i64, b.width as i64, 0, w as i64);
    let (wy_lo, wy_hi) = calculate_target_range(b.y as i64, b.height as i64, 0, h as i64);
    let tx_lo: i64 = b.x as i64 + wx_lo;
    let tx_hi: i64 = b.x as i64 + wx_hi;
    let mut wy = wy_lo;
    proof {
        lemma_drawn_refl(before, w, h);
        lemma_drawn_ext(before, s.fb@, w, h, blank(), blit_part(sprite@, b, bytes_done(b, wx_lo as int, wx_hi as int, wy_lo as int, wy as int, tx_lo as int)));
    }
    while wy < wy_hi
        invariant
            s.wf(),
            s.width == w,
            s.height == h,
            w == old(s).width,
            h == old(s).height,
            fmt == format_of_flags(b.flags),
            b.flags & BLIT_ROTATE == 0,
            b.flags & BLIT_FLIP_X == 0,
            b.flags & BLIT_FLIP_Y == 0,
            wx_lo == (if 0 > b.x { 0 } else { b.x as int }) - b.x,
            wx_hi == if b.width < w - b.x { b.width as int } else { w - b.x },
            wy_lo == (if 0 > b.y { 0 } else { b.y as int }) - b.y,
            wy_hi == if b.height < h - b.y { b.height as int } else { h - b.y },
            tx_lo == b.x + wx_lo,
            tx_hi == b.x + wx_hi,
            wy_lo <= wy,
            wy <= wy_hi || wy == wy_lo,
            drawn(before, s.fb@, w, h, blit_part(sprite@, b, bytes_done(b, wx_lo as int, wx_hi as int, wy_lo as int, wy as int, tx_lo as int))),
        decreases wy_hi - wy,
    {
        let ty: i64 = b.y as i64 + wy;
        let mut t = tx_lo;
        while t < tx_hi
            invariant
                s.wf(),
                s.width == w,
                s.height == h,
                w == old(s).width,
                h == old(s).height,
                fmt == format_of_flags(b.flags),
                b.flags & BLIT_ROTATE == 0,
                b.flags & BLIT_FLIP_X == 0,
                b.flags & BLIT_FLIP_Y == 0,
                wx_lo == (if 0 > b.x { 0 } else { b.x as int }) - b.x,
                wx_hi == if b.width < w - b.x { b.width as int } else { w - b.x },
                wy_lo == (if 0 > b.y { 0 } else { b.y as int }) - b.y,
                wy_hi == if b.height < h - b.y { b.height as int } else { h - b.y },
                tx_lo == b.x + wx_lo,
                tx_hi == b.x + wx_hi,
                wy_lo <= wy < wy_hi,
                ty == b.y + wy,
                tx_lo <= t,
                t <= tx_hi || t == tx_lo,
                drawn(before, s.fb@, w, h, blit_part(sprite@, b, bytes_done(b, wx_lo as int, wx_hi as int, wy_lo as int, wy as int, t as int))),
            decreases tx_hi - t,
        {
            let next_byte = (t / 4 + 1) * 4;
            let t1 = if next_byte < tx_hi { next_byte } else { tx_hi };
            let ghost mid = s.fb@;
            blit_byte(s, sprite, b, fmt, ty, t, t1);
            proof {
                let cells = |a: int, d: int| d == ty - b.y && t <= b.x + a < t1;
                let done = bytes_done(b, wx_lo as int, wx_hi as int, wy_lo as int, wy as int, t as int);
                let next = bytes_done(b, wx_lo as int, wx_hi as int, wy_lo as int, wy as int, t1 as int);
                lemma_drawn_trans(before, mid, s.fb@, w, h, blit_part(sprite@, b, done), blit_part(sprite@, b, cells));
                lemma_drawn_ext(before, s.fb@, w, h, overlay_shape(blit_part(sprite@, b, done), blit_part(sprite@, b, cells)), blit_part(sprite@, b, next));
            }
            t = t1;
        }
        proof {
            lemma_drawn_ext(
                before,
                s.fb@,
                w,
                h,
                blit_part(sprite@, b, bytes_done(b, wx_lo as int, wx_hi as int, wy_lo as int, wy as int, t as int)),
                blit_part(sprite@, b, bytes_done(b, wx_lo as int, wx_hi as int, wy_lo as int, wy + 1, tx_lo as int)),
            );
        }
        wy += 1;
    }
    proof {
        assert forall|px: int, py: int| 0 <= px < w && 0 <= py < h implies #[trigger] blit_part(
            sprite@,
            b,
            bytes_done(b, wx_lo as int, wx_hi as int, wy_lo as int, wy as int, tx_lo as int),
        )(px, py) == blit_shape(sprite@, b)(px, py) by {}
        lemma_drawn_ext(
            before,
            s.fb@,
            w,
            h,
            blit_part(sprite@, b, bytes_done(b, wx_lo as int, wx_hi as int, wy_lo as int, wy as int, tx_lo as int)),
            blit_shape(sprite@, b),
        );
    }
}

/// Copies a window of a sprite atlas like [`blit_sub`], a framebuffer byte
/// at a time where the sprite is neither mirrored nor rotated: each target
/// byte is read and written once for all its pixels. Mirrored or rotated
/// blits go pixel by pixel.
pub fn blit_sub_multipixel(
    target: &mut Vec<u8>,
    sprite: &[u8],
    x: i32,
    y: i32,
    width: u32,
    height: u32,
    src_x: u32,
    src_y: u32,
    stride: u32,
    flags: u32,
    draw_colors: u16,
)
    ensures
        console_drawn(
            old(target)@,
            final(target)@,
            blit_shape(
                sprite@,
                BlitParams { x, y, width, height, src_x, src_y, stride, flags, draw_colors },
            ),
        ),
{
    let b = BlitParams { x, y, width, height, src_x, src_y, stride, flags, draw_colors };
    let mut s = console_screen(target);
    if flags & (BLIT_ROTATE | BLIT_FLIP_X | BLIT_FLIP_Y) == 0 {
        blit_bytewise(&mut s, sprite, b);
    } else {
        blit_sub_impl(&mut s, sprite, b);
    }
    *target = s.fb;
}

} // verus!
