//! Converting between packed pixel formats.
use vstd::prelude::*;
use vstd::string::StringExecFns;
use crate::blit::PixelFormat;
use crate::screen::{draw_color, remap_draw_color};

verus! {

/// The 2-bit slot `i` of a word of framebuffer pixels.
pub open spec fn slot32(w: u32, i: u32) -> u32 {
    (w >> ((2 * i) as u32)) & 3
}

/// The slots of `w` from `n` on are all 0.
pub open spec fn clear_from(w: u32, n: u32) -> bool {
    n >= 16 || w >> ((2 * n) as u32) == 0
}

proof fn lemma_or_slot(s: u32, v: u32, n: u32, k: u32)
    by (bit_vector)
    requires
        n < 16,
        k < 16,
        v < 4,
        clear_from(s, n),
    ensures
        slot32(s | (v << ((2 * n) as u32)), k) == if k == n { v } else { slot32(s, k) },
        clear_from(s | (v << ((2 * n) as u32)), (n + 1) as u32),
        s | (0u32 << ((2 * n) as u32)) == s,
{
}

proof fn lemma_slot_facts(w: u32, k: u32)
    by (bit_vector)
    ensures
        slot32(w, k) < 4,
        clear_from(0, 0),
        1u32 << 0u32 == 1,
        k < 8 ==> ((w & (1u32 << k)) << k) == ((w >> k) & 1) << ((2 * k) as u32),
        k < 8 ==> ((w >> k) & 1) < 4,
        k < 8 ==> (1u32 << k) << 1u32 == 1u32 << ((k + 1) as u32),
{
}

/// Spreads the 8 one-bit pixels of `b` into 2-bit pixels with values 0
/// and 1, bit `i` becoming slot `i`.
pub fn conv_1bpp_to_2bpp(b: u8) -> (r: u32)
    ensures
        forall|i: u32| i < 8 ==> #[trigger] slot32(r, i) == ((b as u32) >> i) & 1,
        r >> 16u32 == 0,
{
    let pixbuf = b as u32;
    let mut mask: u32 = 1;
    let mut tgt: u32 = 0;
    let mut shift: u32 = 0;
    proof {
        lemma_slot_facts(pixbuf, 0);
    }
    while shift < 8
        invariant
            shift <= 8,
            mask == 1u32 << shift,
            pixbuf == b as u32,
            forall|i: u32| i < shift ==> #[trigger] slot32(tgt, i) == (pixbuf >> i) & 1,
            clear_from(tgt, shift),
        decreases 8 - shift,
    {
        proof {
            lemma_slot_facts(pixbuf, shift);
        }
        let bit = (pixbuf & mask) << shift;
        let ghost old_tgt = tgt;
        tgt |= bit;
        proof {
            assert forall|i: u32| i < shift + 1 implies #[trigger] slot32(tgt, i) == (pixbuf >> i)
                & 1 by {
                lemma_or_slot(old_tgt, (pixbuf >> shift) & 1, shift, i);
            }
            lemma_or_slot(old_tgt, (pixbuf >> shift) & 1, shift, 0);
        }
        mask <<= 1;
        shift += 1;
    }
    proof {
        assert(tgt >> 16u32 == 0);
    }
    tgt
}

/// Remaps the first `pixels` 2-bit pixels of `sprite_word` through the
/// draw colors. Returns the remapped pixels, 0 where transparent, and a
/// mask with 3 in each transparent pixel's slot; slots from `pixels` on are
/// 0 in both.
pub fn remap_draw_colors(sprite_word: u32, pixels: i32, draw_colors: u16) -> (r: (u32, u32))
    requires
        0 <= pixels <= 15,
    ensures
        forall|n: u32|
            n < pixels ==> #[trigger] slot32(r.0, n) == match draw_color(
                draw_colors,
                slot32(sprite_word, n) as int,
            ) {
                Some(c) => c as u32,
                None => 0,
            },
        forall|n: u32|
            n < pixels ==> #[trigger] slot32(r.1, n) == match draw_color(
                draw_colors,
                slot32(sprite_word, n) as int,
            ) {
                Some(c) => 0u32,
                None => 3u32,
            },
        clear_from(r.0, pixels as u32),
        clear_from(r.1, pixels as u32),
{
    let mut s: u32 = 0;
    let mut m: u32 = 0;
    let mut n: u32 = 0;
    proof {
        lemma_slot_facts(sprite_word, 0);
    }
    while n < pixels as u32
        invariant
            0 <= pixels <= 15,
            n <= pixels,
            forall|k: u32|
                k < n ==> #[trigger] slot32(s, k) == match draw_color(
                    draw_colors,
                    slot32(sprite_word, k) as int,
                ) {
                    Some(c) => c as u32,
                    None => 0,
                },
            forall|k: u32|
                k < n ==> #[trigger] slot32(m, k) == match draw_color(
                    draw_colors,
                    slot32(sprite_word, k) as int,
                ) {
                    Some(c) => 0u32,
                    None => 3u32,
                },
            clear_from(s, n),
            clear_from(m, n),
        decreases pixels - n,
    {
        let shift = 2 * n;
        let idx = (sprite_word >> shift) & 3;
        let ghost s0 = s;
        let ghost m0 = m;
        proof {
            lemma_slot_facts(sprite_word, n);
        }
        match remap_draw_color(idx as u8, draw_colors) {
            Some(c) => {
                s |= (c as u32) << shift;
                proof {
                    assert forall|k: u32| k < n + 1 implies #[trigger] slot32(s, k) == match draw_color(
                        draw_colors,
                        slot32(sprite_word, k) as int,
                    ) {
                        Some(c) => c as u32,
                        None => 0,
                    } by {
                        lemma_or_slot(s0, c as u32, n, k);
                    }
                    assert forall|k: u32| k < n + 1 implies #[trigger] slot32(m, k) == match draw_color(
                        draw_colors,
                        slot32(sprite_word, k) as int,
                    ) {
                        Some(c) => 0u32,
                        None => 3u32,
                    } by {
                        lemma_or_slot(m0, 0, n, k);
                    }
                    lemma_or_slot(s0, c as u32, n, 0);
                    lemma_or_slot(m0, 0, n, 0);
                }
            },
            None => {
                m |= 3u32 << shift;
                proof {
                    assert forall|k: u32| k < n + 1 implies #[trigger] slot32(m, k) == match draw_color(
                        draw_colors,
                        slot32(sprite_word, k) as int,
                    ) {
                        Some(c) => 0u32,
                        None => 3u32,
                    } by {
                        lemma_or_slot(m0, 3, n, k);
                    }
                    assert forall|k: u32| k < n + 1 implies #[trigger] slot32(s, k) == match draw_color(
                        draw_colors,
                        slot32(sprite_word, k) as int,
                    ) {
                        Some(c) => c as u32,
                        None => 0,
                    } by {
                        lemma_or_slot(s0, 0, n, k);
                    }
                    lemma_or_slot(m0, 3, n, 0);
                    lemma_or_slot(s0, 0, n, 0);
                }
            },
        }
        n += 1;
    }
    (s, m)
}

/// `b` with the order of its four 2-bit pixels reversed.
pub open spec fn reverse_pairs(b: u8) -> u8 {
    (((b & 3) << 6u8) | (((b >> 2u8) & 3) << 4u8) | (((b >> 4u8) & 3) << 2u8) | ((b >> 6u8) & 3)) as u8
}

/// Byte `i` (0 the lowest) of `n`, in the packing of `fmt`: sprite bytes
/// as they are, framebuffer bytes with their pixel order reversed, so that
/// the pixels read left to right in both.
pub open spec fn pix_byte(n: u128, i: int, fmt: PixelFormat) -> u8 {
    let b = ((n >> ((8 * i) as u128)) & 0xff) as u8;
    match fmt {
        PixelFormat::Framebuffer => reverse_pairs(b),
        _ => b,
    }
}

/// The `size` lowest bytes of `n` as pixel data, most significant byte
/// first, so that an integer literal reads as its pixels left to right.
pub fn as_pix_vec(n: u128, size: usize, fmt: PixelFormat) -> (r: Vec<u8>)
    requires
        size <= 16,
    ensures
        r@ == Seq::new(size as nat, |k: int| pix_byte(n, size - 1 - k, fmt)),
{
    let mut v: Vec<u8> = Vec::new();
    let mut k: usize = 0;
    while k < size
        invariant
            size <= 16,
            k <= size,
            v@ == Seq::new(k as nat, |j: int| pix_byte(n, size - 1 - j, fmt)),
        decreases size - k,
    {
        let i = size - 1 - k;
        let b = ((n >> ((8 * i) as u128)) & 0xff) as u8;
        let byte = match fmt {
            PixelFormat::Framebuffer => (((b & 3) << 6u8) | (((b >> 2u8) & 3) << 4u8) | (((b >> 4u8) & 3) << 2u8) | ((b >> 6u8) & 3)) as u8,
            _ => b,
        };
        v.push(byte);
        k += 1;
        assert(v@ =~= Seq::new(k as nat, |j: int| pix_byte(n, size - 1 - j, fmt)));
    }
    v
}

/// The `size` lowest bytes of `n` as framebuffer pixels; see [`as_pix_vec`].
pub fn as_fb_vec(n: u128, size: usize) -> (r: Vec<u8>)
    requires
        size <= 16,
    ensures
        r@ == Seq::new(size as nat, |k: int| pix_byte(n, size - 1 - k, PixelFormat::Framebuffer)),
{
    as_pix_vec(n, size, PixelFormat::Framebuffer)
}

/// The `size` lowest bytes of `n` as 1-bit sprite pixels; see [`as_pix_vec`].
pub fn as_b1_vec(n: u128, size: usize) -> (r: Vec<u8>)
    requires
        size <= 16,
    ensures
        r@ == Seq::new(size as nat, |k: int| pix_byte(n, size - 1 - k, PixelFormat::Blit1BPP)),
{
    as_pix_vec(n, size, PixelFormat::Blit1BPP)
}

/// The `size` lowest bytes of `n` as 2-bit sprite pixels; see [`as_pix_vec`].
pub fn as_b2_vec(n: u128, size: usize) -> (r: Vec<u8>)
    requires
        size <= 16,
    ensures
        r@ == Seq::new(size as nat, |k: int| pix_byte(n, size - 1 - k, PixelFormat::Blit2BPP)),
{
    as_pix_vec(n, size, PixelFormat::Blit2BPP)
}

/// The character for bit `k` of `b`.
pub open spec fn bit_char(b: u8, k: u8) -> char {
    if (b >> k) & 1 == 1 {
        '1'
    } else {
        '0'
    }
}

/// Byte `b` written as its four framebuffer pixels, first pixel first,
/// each as `_` and its two bits, high bit first.
pub open spec fn byte_line(b: u8) -> Seq<char> {
    Seq::new(
        12,
        |k: int|
            if k % 3 == 0 {
                '_'
            } else if k % 3 == 1 {
                bit_char(b, (2 * (k / 3) + 1) as u8)
            } else {
                bit_char(b, (2 * (k / 3)) as u8)
            },
    )
}

/// Bytes `i` on of `v`, each written as by [`byte_line`].
pub open spec fn fb_line_from(v: Seq<u8>, i: int) -> Seq<char>
    decreases v.len() - i,
{
    if i < 0 || i >= v.len() {
        seq![]
    } else {
        byte_line(v[i]) + fb_line_from(v, i + 1)
    }
}

/// Appends the character for bit `k` of `b`.
fn push_bit(s: &mut String, b: u8, k: u8)
    requires
        k < 8,
    ensures
        final(s)@ == old(s)@ + seq![bit_char(b, k)],
{
    if (b >> k) & 1 == 1 {
        s.append("1");
        proof {
            reveal_strlit("1");
        }
    } else {
        s.append("0");
        proof {
            reveal_strlit("0");
        }
    }
}

/// Framebuffer bytes written as their pixels, `0b` then `_` and two bits per
/// pixel, so that a line can be compared with an integer literal.
pub fn as_fb_line(v: &[u8]) -> (r: String)
    ensures
        r@ == seq!['0', 'b'] + fb_line_from(v@, 0),
{
    let mut s = String::from_str("0b");
    proof {
        reveal_strlit("0b");
        reveal_strlit("_");
    }
    let mut i: usize = 0;
    while i < v.len()
        invariant
            i <= v@.len(),
            s@ + fb_line_from(v@, i as int) == seq!['0', 'b'] + fb_line_from(v@, 0),
        decreases v@.len() - i,
    {
        let b = v[i];
        let ghost before = s@;
        let mut n: u8 = 0;
        while n < 4
            invariant
                n <= 4,
                s@ == before + byte_line(b).subrange(0, 3 * n as int),
            decreases 4 - n,
        {
            s.append("_");
            push_bit(&mut s, b, 2 * n + 1);
            push_bit(&mut s, b, 2 * n);
            proof {
                reveal_strlit("_");
                let k = 3 * n as int;
                assert(k % 3 == 0 && (k + 1) % 3 == 1 && (k + 2) % 3 == 2);
                assert(k / 3 == n && (k + 1) / 3 == n && (k + 2) / 3 == n);
                assert(s@ =~= before + byte_line(b).subrange(0, 3 * (n + 1) as int));
            }
            n += 1;
        }
        assert(byte_line(b).subrange(0, 12) =~= byte_line(b));
        i += 1;
        assert(s@ + fb_line_from(v@, i as int) =~= before + fb_line_from(v@, (i - 1) as int));
    }
    assert(s@ =~= s@ + fb_line_from(v@, i as int));
    s
}

} // verus!
