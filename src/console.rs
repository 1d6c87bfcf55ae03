//! The cart's linear memory, the host calls a cart makes, and the hand-off
//! around each frame.
use vstd::prelude::*;
use crate::audio::{enqueue_tone, ToneCommand, TONE_QUEUE_CAPACITY};
use crate::blit::{blit_shape, blit_sub, BlitParams};
use crate::line::{hline, hline_shape, line, line_shape, vline, vline_shape};
use crate::oval::{oval, oval_shape};
use crate::rect::{rect, rect_shape};
use crate::screen::{console_drawn, draw_color, FRAMEBUFFER_SIZE};
use crate::text::{text, text_end, text_shape};
use crate::trace::{trace_from, tracef_at, TracePiece};

verus! {

/// Size of a cart's linear memory in bytes.
pub const MEMORY_SIZE: usize = 65536;

/// Address of the palette: four colors of 4 bytes, blue, green, red, 0.
pub const PALETTE_ADDR: usize = 0x04;

/// Address of the 16-bit draw-colors register.
pub const DRAW_COLORS_ADDR: usize = 0x14;

/// Address of the four 8-bit gamepad registers.
pub const GAMEPADS_ADDR: usize = 0x16;

/// Address of the signed 16-bit mouse x register.
pub const MOUSE_X_ADDR: usize = 0x1a;

/// Address of the signed 16-bit mouse y register.
pub const MOUSE_Y_ADDR: usize = 0x1c;

/// Address of the mouse-buttons register.
pub const MOUSE_BUTTONS_ADDR: usize = 0x1e;

/// Address of the system-flags register.
pub const SYSTEM_FLAGS_ADDR: usize = 0x1f;

/// Address of the framebuffer.
pub const FRAMEBUFFER_ADDR: usize = 0xa0;

/// System flag: keep the framebuffer from one frame to the next.
pub const SYSTEM_PRESERVE_FRAMEBUFFER: u8 = 1;

/// System flag: hide the gamepad overlay.
pub const SYSTEM_HIDE_GAMEPAD_OVERLAY: u8 = 2;

/// Size of the save disk in bytes.
pub const DISK_SIZE: usize = 1024;

/// The framebuffer region of memory `m`.
pub open spec fn fb_of(m: Seq<u8>) -> Seq<u8> {
    m.subrange(FRAMEBUFFER_ADDR as int, FRAMEBUFFER_ADDR + FRAMEBUFFER_SIZE)
}

/// Memory `m` with its framebuffer region replaced by `fb`.
pub open spec fn with_fb(m: Seq<u8>, fb: Seq<u8>) -> Seq<u8> {
    m.subrange(0, FRAMEBUFFER_ADDR as int) + fb + m.subrange(
        FRAMEBUFFER_ADDR + FRAMEBUFFER_SIZE,
        m.len() as int,
    )
}

/// The little-endian 16-bit value at `a`.
pub open spec fn le16(m: Seq<u8>, a: int) -> u16 {
    (m[a] + 256 * m[a + 1]) as u16
}

/// The draw-colors register of memory `m`.
pub open spec fn draw_colors_of(m: Seq<u8>) -> u16 {
    le16(m, DRAW_COLORS_ADDR as int)
}

/// Bytes `a` up to `b` of `m`, with both ends clamped to the memory.
pub open spec fn clamped(m: Seq<u8>, a: int, b: int) -> Seq<u8> {
    let lo = if a < m.len() { a } else { m.len() as int };
    let hi = if b < m.len() { b } else { m.len() as int };
    if lo <= hi {
        m.subrange(lo, hi)
    } else {
        Seq::empty()
    }
}

/// The bytes from `a` up to the first 0 or the end of `m`.
pub open spec fn c_bytes(m: Seq<u8>, a: int) -> Seq<u8>
    decreases m.len() - a,
{
    if a < 0 || a >= m.len() || m[a] == 0 {
        Seq::empty()
    } else {
        seq![m[a]] + c_bytes(m, a + 1)
    }
}

/// Each byte widened to 16 bits.
pub open spec fn widen(s: Seq<u8>) -> Seq<u16> {
    Seq::new(s.len(), |i: int| s[i] as u16)
}

/// Little-endian byte pairs read as 16-bit units.
pub open spec fn utf16_units(s: Seq<u8>) -> Seq<u16> {
    Seq::new(s.len() / 2, |i: int| (s[2 * i] + 256 * s[2 * i + 1]) as u16)
}

/// How many sprite bytes a blit may read: enough for `stride` pixels on
/// each of the first `height + src_y` rows.
pub open spec fn sprite_len(height: u32, src_y: u32, stride: u32, flags: u32) -> int {
    let bits = stride * (height + src_y) * (if flags & 1 != 0 { 2int } else { 1int });
    (bits + 7) / 8
}

/// The sprite a blit from address `ptr` reads.
pub open spec fn sprite_at(m: Seq<u8>, ptr: u32, height: u32, src_y: u32, stride: u32, flags: u32) -> Seq<u8> {
    clamped(m, ptr as int, ptr + sprite_len(height, src_y, stride, flags))
}

/// What `blitSub` from address `ptr` paints, with the memory's draw colors.
pub open spec fn blit_sub_call(m: Seq<u8>, ptr: u32, x: i32, y: i32, width: u32, height: u32, src_x: u32, src_y: u32, stride: u32, flags: u32) -> spec_fn(int, int) -> Option<u8> {
    blit_shape(
        sprite_at(m, ptr, height, src_y, stride, flags),
        blit_params(m, x, y, width, height, src_x, src_y, stride, flags),
    )
}

/// What `blit` of a whole `width`×`height` sprite at `ptr` paints: its
/// `width * height` pixels read from `ptr`, with the memory's draw colors.
pub open spec fn blit_call(m: Seq<u8>, ptr: u32, x: i32, y: i32, width: u32, height: u32, flags: u32) -> spec_fn(int, int) -> Option<u8> {
    let bits = width * height * (if flags & 1 != 0 { 2int } else { 1int });
    blit_shape(
        clamped(m, ptr as int, ptr + (bits + 7) / 8),
        blit_params(m, x, y, width, height, 0, 0, width, flags),
    )
}

/// The save data `diskw` stores: the first `min(size, 1024)` bytes at
/// `src`, padded with zeros to 1024 bytes.
pub open spec fn disk_image(m: Seq<u8>, src: int, n: int) -> Seq<u8> {
    Seq::new(DISK_SIZE as nat, |i: int| if i < n { m[src + i] } else { 0u8 })
}

/// The number of bytes a disk call moves: `size`, at most 1024.
pub open spec fn disk_count(size: u32) -> int {
    if size < DISK_SIZE { size as int } else { DISK_SIZE as int }
}

/// The initial memory: the default palette and draw colors, all else zero.
pub open spec fn initial_memory() -> Seq<u8> {
    Seq::new(
        MEMORY_SIZE as nat,
        |i: int|
            if i == 0x04 { 0xcfu8 } else if i == 0x05 { 0xf8u8 } else if i == 0x06 { 0xe0u8 }
            else if i == 0x08 { 0x6cu8 } else if i == 0x09 { 0xc0u8 } else if i == 0x0a { 0x86u8 }
            else if i == 0x0c { 0x50u8 } else if i == 0x0d { 0x68u8 } else if i == 0x0e { 0x30u8 }
            else if i == 0x10 { 0x21u8 } else if i == 0x11 { 0x18u8 } else if i == 0x12 { 0x07u8 }
            else if i == 0x14 { 0x03u8 } else if i == 0x15 { 0x12u8 } else { 0u8 },
    )
}

/// A cart's host side: its linear memory, its save disk and the tones
/// waiting for the sound device.
pub struct Runtime {
    /// The cart's linear memory.
    pub memory: Vec<u8>,
    /// The save disk as the cart last wrote or loaded it.
    pub save_cache: Vec<u8>,
    /// Whether the cart wrote the save disk since it was last flushed.
    pub needs_write: bool,
    /// Tone commands not yet handed to the sound device.
    pub tones: Vec<ToneCommand>,
}

impl Runtime {
    pub open spec fn wf(&self) -> bool {
        &&& self.memory@.len() == MEMORY_SIZE
        &&& self.save_cache@.len() == DISK_SIZE
        &&& self.tones@.len() <= TONE_QUEUE_CAPACITY
    }

    /// A fresh runtime: initial memory, an empty save disk, no tones.
    pub fn new() -> (r: Runtime)
        ensures
            r.wf(),
            r.memory@ == initial_memory(),
            r.save_cache@ == Seq::new(DISK_SIZE as nat, |i: int| 0u8),
            !r.needs_write,
            r.tones@.len() == 0,
    {
        let mut memory: Vec<u8> = Vec::new();
        let mut i: usize = 0;
        while i < MEMORY_SIZE
            invariant
                i <= MEMORY_SIZE,
                memory@.len() == i,
                forall|k: int| 0 <= k < i ==> memory@[k] == initial_memory()[k],
            decreases MEMORY_SIZE - i,
        {
            let b: u8 = if i == 0x04 { 0xcf } else if i == 0x05 { 0xf8 } else if i == 0x06 { 0xe0 }
                else if i == 0x08 { 0x6c } else if i == 0x09 { 0xc0 } else if i == 0x0a { 0x86 }
                else if i == 0x0c { 0x50 } else if i == 0x0d { 0x68 } else if i == 0x0e { 0x30 }
                else if i == 0x10 { 0x21 } else if i == 0x11 { 0x18 } else if i == 0x12 { 0x07 }
                else if i == 0x14 { 0x03 } else if i == 0x15 { 0x12 } else { 0 };
            memory.push(b);
            i += 1;
        }
        assert(memory@ =~= initial_memory());
        let save_cache = zeros(DISK_SIZE);
        Runtime { memory, save_cache, needs_write: false, tones: Vec::new() }
    }

    /// The byte at `addr`, or `None` past the end of memory.
    pub fn item_at(&self, addr: usize) -> (r: Option<u8>)
        requires
            self.wf(),
        ensures
            r == if addr < MEMORY_SIZE { Some(self.memory@[addr as int]) } else { None },
    {
        if addr < self.memory.len() {
            Some(self.memory[addr])
        } else {
            None
        }
    }

    /// Writes `v` at `addr`; nothing past the end of memory.
    pub fn set_item_at(&mut self, addr: usize, v: u8)
        requires
            old(self).wf(),
        ensures
            final(self).wf(),
            final(self).memory@ == if addr < MEMORY_SIZE {
                old(self).memory@.update(addr as int, v)
            } else {
                old(self).memory@
            },
            final(self).save_cache == old(self).save_cache,
            final(self).needs_write == old(self).needs_write,
            final(self).tones == old(self).tones,
    {
        if addr < self.memory.len() {
            self.memory.set(addr, v);
        }
    }

    /// A copy of the `n` bytes at `addr`, or `None` where they run past the
    /// end of memory.
    pub fn items_at(&self, addr: usize, n: usize) -> (r: Option<Vec<u8>>)
        requires
            self.wf(),
        ensures
            match r {
                Some(v) => addr + n <= MEMORY_SIZE && v@ == self.memory@.subrange(addr as int, addr + n),
                None => addr + n > MEMORY_SIZE,
            },
    {
        if addr > self.memory.len() || self.memory.len() - addr < n {
            return None;
        }
        Some(copy_range(&self.memory, addr, n))
    }

    /// The draw-colors register.
    pub fn draw_colors(&self) -> (r: u16)
        requires
            self.wf(),
        ensures
            r == draw_colors_of(self.memory@),
    {
        (self.memory[DRAW_COLORS_ADDR] as u16) + 256 * (self.memory[DRAW_COLORS_ADDR + 1] as u16)
    }

    /// The system-flags register.
    pub fn read_system_flags(&self) -> (r: u8)
        requires
            self.wf(),
        ensures
            r == self.memory@[SYSTEM_FLAGS_ADDR as int],
    {
        self.memory[SYSTEM_FLAGS_ADDR]
    }

    /// A copy of the framebuffer.
    pub fn framebuffer(&self) -> (r: Vec<u8>)
        requires
            self.wf(),
        ensures
            r@ == fb_of(self.memory@),
    {
        copy_range(&self.memory, FRAMEBUFFER_ADDR, FRAMEBUFFER_SIZE)
    }

    /// A copy of the palette.
    pub fn palette(&self) -> (r: Vec<u8>)
        requires
            self.wf(),
        ensures
            r@ == self.memory@.subrange(PALETTE_ADDR as int, PALETTE_ADDR + 16),
    {
        copy_range(&self.memory, PALETTE_ADDR, 16)
    }

    /// Replaces the framebuffer region with `fb`.
    fn store_framebuffer(&mut self, fb: &Vec<u8>)
        requires
            old(self).wf(),
            fb@.len() == FRAMEBUFFER_SIZE,
        ensures
            final(self).wf(),
            final(self).memory@ == with_fb(old(self).memory@, fb@),
            final(self).save_cache == old(self).save_cache,
            final(self).needs_write == old(self).needs_write,
            final(self).tones == old(self).tones,
    {
        let mut i: usize = 0;
        while i < FRAMEBUFFER_SIZE
            invariant
                self.wf(),
                i <= FRAMEBUFFER_SIZE,
                fb@.len() == FRAMEBUFFER_SIZE,
                self.save_cache == old(self).save_cache,
                self.needs_write == old(self).needs_write,
                self.tones == old(self).tones,
                forall|k: int|
                    0 <= k < MEMORY_SIZE ==> #[trigger] self.memory@[k] == if FRAMEBUFFER_ADDR <= k
                        < FRAMEBUFFER_ADDR + i {
                        fb@[k - FRAMEBUFFER_ADDR]
                    } else {
                        old(self).memory@[k]
                    },
            decreases FRAMEBUFFER_SIZE - i,
        {
            self.memory.set(FRAMEBUFFER_ADDR + i, fb[i]);
            i += 1;
        }
        assert(self.memory@ =~= with_fb(old(self).memory@, fb@));
    }

    /// Writes the gamepad registers, player 1 in the low byte.
    pub fn set_gamepad(&mut self, gamepad: u32)
        requires
            old(self).wf(),
        ensures
            final(self).wf(),
            final(self).memory@ == old(self).memory@.update(GAMEPADS_ADDR as int, (gamepad & 0xff) as u8)
                .update(GAMEPADS_ADDR + 1, ((gamepad >> 8u32) & 0xff) as u8)
                .update(GAMEPADS_ADDR + 2, ((gamepad >> 16u32) & 0xff) as u8)
                .update(GAMEPADS_ADDR + 3, ((gamepad >> 24u32) & 0xff) as u8),
            final(self).save_cache == old(self).save_cache,
            final(self).needs_write == old(self).needs_write,
            final(self).tones == old(self).tones,
    {
        proof {
            lemma_u32_bytes(gamepad);
        }
        self.memory.set(GAMEPADS_ADDR, (gamepad & 0xff) as u8);
        self.memory.set(GAMEPADS_ADDR + 1, ((gamepad >> 8) & 0xff) as u8);
        self.memory.set(GAMEPADS_ADDR + 2, ((gamepad >> 16) & 0xff) as u8);
        self.memory.set(GAMEPADS_ADDR + 3, ((gamepad >> 24) & 0xff) as u8);
    }

    /// Writes the mouse registers.
    pub fn set_mouse(&mut self, x: i16, y: i16, buttons: u8)
        requires
            old(self).wf(),
        ensures
            final(self).wf(),
            final(self).memory@ == old(self).memory@.update(MOUSE_X_ADDR as int, low_byte(x))
                .update(MOUSE_X_ADDR + 1, high_byte(x))
                .update(MOUSE_Y_ADDR as int, low_byte(y))
                .update(MOUSE_Y_ADDR + 1, high_byte(y))
                .update(MOUSE_BUTTONS_ADDR as int, buttons),
            final(self).save_cache == old(self).save_cache,
            final(self).needs_write == old(self).needs_write,
            final(self).tones == old(self).tones,
    {
        let ux: u16 = if x < 0 { (x as i32 + 0x1_0000) as u16 } else { x as u16 };
        let uy: u16 = if y < 0 { (y as i32 + 0x1_0000) as u16 } else { y as u16 };
        self.memory.set(MOUSE_X_ADDR, (ux % 256) as u8);
        self.memory.set(MOUSE_X_ADDR + 1, (ux / 256) as u8);
        self.memory.set(MOUSE_Y_ADDR, (uy % 256) as u8);
        self.memory.set(MOUSE_Y_ADDR + 1, (uy / 256) as u8);
        self.memory.set(MOUSE_BUTTONS_ADDR, buttons);
    }

    /// Loads the save disk, as it was stored before the cart started.
    pub fn set_save(&mut self, data: &Vec<u8>)
        requires
            old(self).wf(),
            data@.len() == DISK_SIZE,
        ensures
            final(self).wf(),
            final(self).save_cache@ == data@,
            final(self).memory == old(self).memory,
            final(self).needs_write == old(self).needs_write,
            final(self).tones == old(self).tones,
    {
        self.save_cache = copy_range(data, 0, DISK_SIZE);
    }

    /// Hands out the save disk if the cart wrote it since the last call,
    /// and clears that mark.
    pub fn write_save(&mut self) -> (r: Option<Vec<u8>>)
        requires
            old(self).wf(),
        ensures
            final(self).wf(),
            match r {
                Some(data) => old(self).needs_write && data@ == old(self).save_cache@,
                None => !old(self).needs_write,
            },
            !final(self).needs_write,
            final(self).save_cache == old(self).save_cache,
            final(self).memory == old(self).memory,
            final(self).tones == old(self).tones,
    {
        if self.needs_write {
            self.needs_write = false;
            Some(self.save_cache.clone())
        } else {
            None
        }
    }

    /// Hands out the tone commands that wait for the sound device, oldest
    /// first, and empties the queue.
    pub fn take_tones(&mut self) -> (r: Vec<ToneCommand>)
        requires
            old(self).wf(),
        ensures
            final(self).wf(),
            r@ == old(self).tones@,
            final(self).tones@.len() == 0,
            final(self).memory == old(self).memory,
            final(self).save_cache == old(self).save_cache,
            final(self).needs_write == old(self).needs_write,
    {
        let mut r: Vec<ToneCommand> = Vec::new();
        std::mem::swap(&mut r, &mut self.tones);
        r
    }
}

/// `new` is `old` after drawing `shape` on the framebuffer; nothing else
/// changed.
pub open spec fn drew(old: Runtime, new: Runtime, shape: spec_fn(int, int) -> Option<u8>) -> bool {
    &&& new.wf()
    &&& new.memory@ == with_fb(old.memory@, fb_of(new.memory@))
    &&& console_drawn(fb_of(old.memory@), fb_of(new.memory@), shape)
    &&& new.save_cache == old.save_cache
    &&& new.needs_write == old.needs_write
    &&& new.tones == old.tones
}

/// What drawing with the first draw-color slot paints: `shape` in that
/// color, or nothing when the slot is transparent.
pub open spec fn stroked(draw_colors: u16, shape: spec_fn(u8) -> spec_fn(int, int) -> Option<u8>) -> spec_fn(int, int) -> Option<u8> {
    match draw_color(draw_colors, 0) {
        Some(c) => shape(c),
        None => crate::screen::blank(),
    }
}

/// The parameters of a blit with the memory's draw colors.
pub open spec fn blit_params(m: Seq<u8>, x: i32, y: i32, width: u32, height: u32, src_x: u32, src_y: u32, stride: u32, flags: u32) -> BlitParams {
    BlitParams { x, y, width, height, src_x, src_y, stride, flags, draw_colors: draw_colors_of(m) }
}

impl Runtime {
    /// Storing a drawn copy of the framebuffer leaves that copy as the
    /// framebuffer and the rest of memory as it was.
    proof fn lemma_store(old: Runtime, new: Runtime, fb: Seq<u8>)
        requires
            old.wf(),
            fb.len() == FRAMEBUFFER_SIZE,
            new.memory@ == with_fb(old.memory@, fb),
        ensures
            fb_of(new.memory@) == fb,
            new.memory@ == with_fb(old.memory@, fb_of(new.memory@)),
    {
        assert(fb_of(new.memory@) =~= fb);
    }

    /// Copies a window of the sprite atlas at `ptr` onto the framebuffer;
    /// see [`crate::blit::blit_sub`]. The sprite is read from memory before
    /// anything is drawn, clamped to the end of memory.
    pub fn blit_sub(
        &mut self,
        ptr: u32,
        x: i32,
        y: i32,
        width: u32,
        height: u32,
        src_x: u32,
        src_y: u32,
        stride: u32,
        flags: u32,
    )
        requires
            old(self).wf(),
        ensures
            drew(
                *old(self),
                *final(self),
                blit_sub_call(old(self).memory@, ptr, x, y, width, height, src_x, src_y, stride, flags),
            ),
    {
        let dc = self.draw_colors();
        let pw: u128 = if flags & 1 != 0 { 2 } else { 1 };
        assert((stride as int) * ((height as int) + (src_y as int)) * (pw as int) <= 0x1_0000_0000 * 0x2_0000_0000 * 2) by (nonlinear_arith)
            requires
                stride < 0x1_0000_0000,
                (height as int) + (src_y as int) < 0x2_0000_0000,
                pw <= 2,
        ;
        let len: u128 = ((stride as u128) * ((height as u128) + (src_y as u128)) * pw + 7) / 8;
        let m: u128 = MEMORY_SIZE as u128;
        let lo: u128 = if (ptr as u128) < m { ptr as u128 } else { m };
        let hi: u128 = if (ptr as u128) + len < m { (ptr as u128) + len } else { m };
        let sprite = copy_range(&self.memory, lo as usize, (hi - lo) as usize);
        assert(sprite@ =~= sprite_at(old(self).memory@, ptr, height, src_y, stride, flags));
        let mut fb = self.framebuffer();
        blit_sub(&mut fb, sprite.as_slice(), x, y, width, height, src_x, src_y, stride, flags, dc);
        self.store_framebuffer(&fb);
        proof {
            Self::lemma_store(*old(self), *self, fb@);
        }
    }

    /// Copies a whole `width`×`height` sprite at `ptr` to `(x, y)`: a
    /// [`Runtime::blit_sub`] from `(0, 0)` with a stride of `width`.
    pub fn blit(&mut self, ptr: u32, x: i32, y: i32, width: u32, height: u32, flags: u32)
        requires
            old(self).wf(),
        ensures
            drew(*old(self), *final(self), blit_call(old(self).memory@, ptr, x, y, width, height, flags)),
    {
        proof {
            crate::laws::blit_is_blit_sub(self.memory@, ptr, x, y, width, height, flags);
        }
        self.blit_sub(ptr, x, y, width, height, 0, 0, width, flags)
    }

    /// Draws a horizontal line in the first draw color.
    pub fn hline(&mut self, x: i32, y: i32, len: u32)
        requires
            old(self).wf(),
        ensures
            drew(
                *old(self),
                *final(self),
                stroked(draw_colors_of(old(self).memory@), |c: u8| hline_shape(c, x as int, y as int, len as int)),
            ),
    {
        let dc = self.draw_colors();
        let mut fb = self.framebuffer();
        hline(&mut fb, dc, x, y, len);
        self.store_framebuffer(&fb);
        proof {
            Self::lemma_store(*old(self), *self, fb@);
        }
    }

    /// Draws a vertical line in the first draw color.
    pub fn vline(&mut self, x: i32, y: i32, len: u32)
        requires
            old(self).wf(),
        ensures
            drew(
                *old(self),
                *final(self),
                stroked(draw_colors_of(old(self).memory@), |c: u8| vline_shape(c, x as int, y as int, len as int)),
            ),
    {
        let dc = self.draw_colors();
        let mut fb = self.framebuffer();
        vline(&mut fb, dc, x, y, len);
        self.store_framebuffer(&fb);
        proof {
            Self::lemma_store(*old(self), *self, fb@);
        }
    }

    /// Draws a line between two points in the first draw color.
    pub fn line(&mut self, x1: i32, y1: i32, x2: i32, y2: i32)
        requires
            old(self).wf(),
        ensures
            drew(
                *old(self),
                *final(self),
                stroked(draw_colors_of(old(self).memory@), |c: u8| line_shape(c, x1 as int, y1 as int, x2 as int, y2 as int)),
            ),
    {
        let dc = self.draw_colors();
        let mut fb = self.framebuffer();
        line(&mut fb, dc, x1, y1, x2, y2);
        self.store_framebuffer(&fb);
        proof {
            Self::lemma_store(*old(self), *self, fb@);
        }
    }

    /// Draws a rectangle: filled in the first draw color, outlined in the second.
    pub fn rect(&mut self, x: i32, y: i32, width: u32, height: u32)
        requires
            old(self).wf(),
        ensures
            drew(
                *old(self),
                *final(self),
                rect_shape(draw_colors_of(old(self).memory@), x as int, y as int, width as int, height as int),
            ),
    {
        let dc = self.draw_colors();
        let mut fb = self.framebuffer();
        rect(&mut fb, dc, x, y, width, height);
        self.store_framebuffer(&fb);
        proof {
            Self::lemma_store(*old(self), *self, fb@);
        }
    }

    /// Draws an oval; see [`crate::oval::oval_impl`].
    pub fn oval(&mut self, x: i32, y: i32, width: u32, height: u32)
        requires
            old(self).wf(),
        ensures
            drew(
                *old(self),
                *final(self),
                oval_shape(draw_colors_of(old(self).memory@), x as int, y as int, width as int, height as int),
            ),
    {
        let dc = self.draw_colors();
        let mut fb = self.framebuffer();
        oval(&mut fb, dc, x, y, width, height);
        self.store_framebuffer(&fb);
        proof {
            Self::lemma_store(*old(self), *self, fb@);
        }
    }

    /// The zero-terminated string at `ptr`, up to the end of memory.
    pub fn read_c_string(&self, ptr: u32) -> (r: Vec<u8>)
        requires
            self.wf(),
        ensures
            r@ == c_bytes(self.memory@, ptr as int),
    {
        let mut out: Vec<u8> = Vec::new();
        let mut p: usize = ptr as usize;
        assert(out@ + c_bytes(self.memory@, p as int) == c_bytes(self.memory@, ptr as int));
        while p < self.memory.len() && self.memory[p] != 0
            invariant
                self.wf(),
                p >= ptr,
                out@ + c_bytes(self.memory@, p as int) == c_bytes(self.memory@, ptr as int),
            decreases MEMORY_SIZE - p,
        {
            out.push(self.memory[p]);
            p += 1;
            assert(out@ + c_bytes(self.memory@, p as int) =~= c_bytes(self.memory@, ptr as int));
        }
        assert(out@ =~= out@ + c_bytes(self.memory@, p as int));
        out
    }

    /// Draws `chars` with the built-in font; see [`crate::text::text`].
    #[verifier::spinoff_prover]
    fn draw_text(&mut self, chars: &Vec<u16>, x: i32, y: i32)
        requires
            old(self).wf(),
            chars@.len() <= MEMORY_SIZE,
        ensures
            drew(
                *old(self),
                *final(self),
                text_shape(chars@, x as int, y as int, draw_colors_of(old(self).memory@), text_end(chars@, 0)),
            ),
    {
        let dc = self.draw_colors();
        let mut fb = self.framebuffer();
        text(&mut fb, chars.as_slice(), x, y, dc);
        self.store_framebuffer(&fb);
        proof {
            Self::lemma_store(*old(self), *self, fb@);
        }
    }

    /// Draws the zero-terminated string at `ptr`, one glyph per byte.
    #[verifier::spinoff_prover]
    pub fn text(&mut self, ptr: u32, x: i32, y: i32)
        requires
            old(self).wf(),
        ensures
            ({
                let chars = widen(c_bytes(old(self).memory@, ptr as int));
                drew(
                    *old(self),
                    *final(self),
                    text_shape(chars, x as int, y as int, draw_colors_of(old(self).memory@), text_end(chars, 0)),
                )
            }),
    {
        let bytes = self.read_c_string(ptr);
        proof {
            lemma_c_bytes_len(self.memory@, ptr as int);
        }
        let chars = widen_bytes(&bytes);
        self.draw_text(&chars, x, y);
    }

    /// Draws the `len` bytes at `ptr`, one glyph per byte; nothing where
    /// they run past the end of memory.
    #[verifier::spinoff_prover]
    pub fn text_utf8(&mut self, ptr: u32, len: u32, x: i32, y: i32)
        requires
            old(self).wf(),
        ensures
            if ptr + len <= MEMORY_SIZE {
                let chars = widen(old(self).memory@.subrange(ptr as int, ptr + len));
                drew(
                    *old(self),
                    *final(self),
                    text_shape(chars, x as int, y as int, draw_colors_of(old(self).memory@), text_end(chars, 0)),
                )
            } else {
                *final(self) == *old(self)
            },
    {
        if let Some(bytes) = self.items_at(ptr as usize, len as usize) {
            let chars = widen_bytes(&bytes);
            self.draw_text(&chars, x, y);
        }
    }

    /// Draws the `len` bytes at `ptr` read as little-endian 16-bit units,
    /// one glyph per unit; nothing where they run past the end of memory or
    /// `len` is odd.
    #[verifier::spinoff_prover]
    pub fn text_utf16(&mut self, ptr: u32, len: u32, x: i32, y: i32)
        requires
            old(self).wf(),
        ensures
            if ptr + len <= MEMORY_SIZE && len % 2 == 0 {
                let chars = utf16_units(old(self).memory@.subrange(ptr as int, ptr + len));
                drew(
                    *old(self),
                    *final(self),
                    text_shape(chars, x as int, y as int, draw_colors_of(old(self).memory@), text_end(chars, 0)),
                )
            } else {
                *final(self) == *old(self)
            },
    {
        if len % 2 != 0 {
            return ;
        }
        if let Some(bytes) = self.items_at(ptr as usize, len as usize) {
            let chars = bytes_to_units(&bytes);
            self.draw_text(&chars, x, y);
        }
    }

    /// The zero-terminated string at `ptr`, for printing.
    pub fn trace(&self, ptr: u32) -> (r: Vec<u8>)
        requires
            self.wf(),
        ensures
            r@ == c_bytes(self.memory@, ptr as int),
    {
        self.read_c_string(ptr)
    }

    /// The `len` bytes at `ptr`, for printing as UTF-8; `None` where they
    /// run past the end of memory.
    pub fn trace_utf8(&self, ptr: u32, len: u32) -> (r: Option<Vec<u8>>)
        requires
            self.wf(),
        ensures
            match r {
                Some(v) => ptr + len <= MEMORY_SIZE && v@ == self.memory@.subrange(ptr as int, ptr + len),
                None => ptr + len > MEMORY_SIZE,
            },
    {
        self.items_at(ptr as usize, len as usize)
    }

    /// The `len` bytes at `ptr` as little-endian 16-bit units, for printing
    /// as UTF-16; `None` where they run past the end of memory. A last odd
    /// byte is left out.
    pub fn trace_utf16(&self, ptr: u32, len: u32) -> (r: Option<Vec<u16>>)
        requires
            self.wf(),
        ensures
            match r {
                Some(v) => ptr + len <= MEMORY_SIZE && v@ == utf16_units(self.memory@.subrange(ptr as int, ptr + len)),
                None => ptr + len > MEMORY_SIZE,
            },
    {
        match self.items_at(ptr as usize, len as usize) {
            Some(bytes) => Some(bytes_to_units(&bytes)),
            None => None,
        }
    }

    /// Formats the format string at `fmt` with the arguments packed at
    /// `args`; see [`crate::trace::tracef`].
    pub fn tracef(&self, fmt: u32, args: u32) -> (r: Vec<TracePiece>)
        requires
            self.wf(),
        ensures
            r@ == trace_from(self.memory@, self.memory@, self.memory@, fmt as int, args as int),
    {
        let m = self.memory.as_slice();
        tracef_at(m, fmt as usize, m, args as usize, m)
    }

    /// Queues a tone for the sound device; it is dropped when the queue is
    /// full. Returns whether it was queued.
    pub fn tone(&mut self, frequency: u32, duration: u32, volume: u32, flags: u32) -> (r: bool)
        requires
            old(self).wf(),
        ensures
            final(self).wf(),
            r == (old(self).tones@.len() < TONE_QUEUE_CAPACITY),
            final(self).tones@ == if r {
                old(self).tones@.push(ToneCommand { frequency, duration, volume, flags })
            } else {
                old(self).tones@
            },
            final(self).memory == old(self).memory,
            final(self).save_cache == old(self).save_cache,
            final(self).needs_write == old(self).needs_write,
    {
        enqueue_tone(&mut self.tones, ToneCommand { frequency, duration, volume, flags })
    }

    /// Copies the first `min(size, 1024)` bytes of the save disk to `dest`
    /// and returns their number; returns 0 and copies nothing where they
    /// would run past the end of memory.
    pub fn diskr(&mut self, dest: u32, size: u32) -> (r: u32)
        requires
            old(self).wf(),
        ensures
            final(self).wf(),
            final(self).save_cache == old(self).save_cache,
            final(self).needs_write == old(self).needs_write,
            final(self).tones == old(self).tones,
            if dest + disk_count(size) <= MEMORY_SIZE {
                &&& r == disk_count(size)
                &&& final(self).memory@ == disk_loaded(old(self).memory@, old(self).save_cache@, dest as int, r as int)
            } else {
                r == 0 && final(self).memory == old(self).memory
            },
    {
        let n: usize = if size < DISK_SIZE as u32 { size as usize } else { DISK_SIZE };
        let d = dest as usize;
        if d > MEMORY_SIZE || MEMORY_SIZE - d < n {
            return 0;
        }
        let mut i: usize = 0;
        while i < n
            invariant
                self.wf(),
                n <= DISK_SIZE,
                d + n <= MEMORY_SIZE,
                d == dest,
                i <= n,
                self.save_cache == old(self).save_cache,
                self.needs_write == old(self).needs_write,
                self.tones == old(self).tones,
                self.memory@ == disk_loaded(old(self).memory@, old(self).save_cache@, d as int, i as int),
            decreases n - i,
        {
            self.memory.set(d + i, self.save_cache[i]);
            i += 1;
            assert(self.memory@ =~= disk_loaded(old(self).memory@, old(self).save_cache@, d as int, i as int));
        }
        n as u32
    }

    /// Stores the first `min(size, 1024)` bytes at `src`, padded with
    /// zeros, as the save disk, marks it to be written out, and returns
    /// their number; returns 0 and changes nothing where they would run
    /// past the end of memory.
    pub fn diskw(&mut self, src: u32, size: u32) -> (r: u32)
        requires
            old(self).wf(),
        ensures
            final(self).wf(),
            final(self).memory == old(self).memory,
            final(self).tones == old(self).tones,
            if src + disk_count(size) <= MEMORY_SIZE {
                &&& r == disk_count(size)
                &&& final(self).save_cache@ == disk_image(old(self).memory@, src as int, r as int)
                &&& final(self).needs_write
            } else {
                &&& r == 0
                &&& final(self).save_cache == old(self).save_cache
                &&& final(self).needs_write == old(self).needs_write
            },
    {
        let n: usize = if size < DISK_SIZE as u32 { size as usize } else { DISK_SIZE };
        let s = src as usize;
        if s > MEMORY_SIZE || MEMORY_SIZE - s < n {
            return 0;
        }
        let mut buf: Vec<u8> = Vec::new();
        let mut i: usize = 0;
        while i < DISK_SIZE
            invariant
                self.wf(),
                n <= DISK_SIZE,
                s + n <= MEMORY_SIZE,
                i <= DISK_SIZE,
                buf@ =~= disk_image(self.memory@, s as int, n as int).subrange(0, i as int),
            decreases DISK_SIZE - i,
        {
            if i < n {
                buf.push(self.memory[s + i]);
            } else {
                buf.push(0);
            }
            i += 1;
            assert(buf@ =~= disk_image(self.memory@, s as int, n as int).subrange(0, i as int));
        }
        assert(buf@ =~= disk_image(self.memory@, s as int, n as int));
        self.save_cache = buf;
        self.needs_write = true;
        n as u32
    }

    /// Starts a frame: clears the framebuffer unless the cart set the
    /// preserve-framebuffer system flag.
    pub fn begin_frame(&mut self)
        requires
            old(self).wf(),
        ensures
            final(self).wf(),
            final(self).memory@ == frame_start(old(self).memory@),
            final(self).save_cache == old(self).save_cache,
            final(self).needs_write == old(self).needs_write,
            final(self).tones == old(self).tones,
    {
        if self.memory[SYSTEM_FLAGS_ADDR] & SYSTEM_PRESERVE_FRAMEBUFFER == 0 {
            let fb = zeros(FRAMEBUFFER_SIZE);
            self.store_framebuffer(&fb);
        }
    }
}

/// Memory `m` at the start of a frame: the framebuffer cleared unless the
/// preserve-framebuffer flag is set.
pub open spec fn frame_start(m: Seq<u8>) -> Seq<u8> {
    if m[SYSTEM_FLAGS_ADDR as int] & SYSTEM_PRESERVE_FRAMEBUFFER == 0 {
        with_fb(m, Seq::new(FRAMEBUFFER_SIZE as nat, |i: int| 0u8))
    } else {
        m
    }
}

/// Memory `m` with the first `n` bytes of the save disk `cache` copied to `dest`.
pub open spec fn disk_loaded(m: Seq<u8>, cache: Seq<u8>, dest: int, n: int) -> Seq<u8> {
    Seq::new(m.len(), |k: int| if dest <= k < dest + n { cache[k - dest] } else { m[k] })
}

proof fn lemma_c_bytes_len(m: Seq<u8>, a: int)
    ensures
        c_bytes(m, a).len() <= m.len(),
        a >= 0 ==> c_bytes(m, a).len() <= if a <= m.len() { m.len() - a } else { 0 },
    decreases m.len() - a,
{
    if !(a < 0 || a >= m.len() || m[a] == 0) {
        lemma_c_bytes_len(m, a + 1);
    }
}

/// Each byte widened to 16 bits.
pub fn widen_bytes(s: &Vec<u8>) -> (r: Vec<u16>)
    ensures
        r@ == widen(s@),
{
    let mut r: Vec<u16> = Vec::new();
    let mut i: usize = 0;
    while i < s.len()
        invariant
            i <= s@.len(),
            r@ == widen(s@).subrange(0, i as int),
        decreases s@.len() - i,
    {
        r.push(s[i] as u16);
        i += 1;
        assert(r@ =~= widen(s@).subrange(0, i as int));
    }
    assert(r@ =~= widen(s@));
    r
}

/// Little-endian byte pairs read as 16-bit units; a last odd byte is left out.
pub fn bytes_to_units(s: &Vec<u8>) -> (r: Vec<u16>)
    ensures
        r@ == utf16_units(s@),
{
    let mut r: Vec<u16> = Vec::new();
    let mut i: usize = 0;
    let n = s.len() / 2;
    while i < n
        invariant
            n == s@.len() / 2,
            2 * n <= s@.len(),
            s@.len() <= usize::MAX,
            i <= n,
            r@ == utf16_units(s@).subrange(0, i as int),
        decreases n - i,
    {
        r.push((s[2 * i] as u16) + 256 * (s[2 * i + 1] as u16));
        i += 1;
        assert(r@ =~= utf16_units(s@).subrange(0, i as int));
    }
    assert(r@ =~= utf16_units(s@));
    r
}

/// The low byte of `v` as two's complement.
pub open spec fn low_byte(v: i16) -> u8 {
    ((if v < 0 { v + 0x1_0000 } else { v as int }) % 256) as u8
}

/// The high byte of `v` as two's complement.
pub open spec fn high_byte(v: i16) -> u8 {
    ((if v < 0 { v + 0x1_0000 } else { v as int }) / 256) as u8
}

proof fn lemma_u32_bytes(v: u32)
    by (bit_vector)
    ensures
        v & 0xff <= 0xff,
        (v >> 8u32) & 0xff <= 0xff,
        (v >> 16u32) & 0xff <= 0xff,
        (v >> 24u32) & 0xff <= 0xff,
{
}

/// `n` zero bytes.
pub fn zeros(n: usize) -> (r: Vec<u8>)
    ensures
        r@ == Seq::new(n as nat, |i: int| 0u8),
{
    let mut v: Vec<u8> = Vec::new();
    let mut i: usize = 0;
    while i < n
        invariant
            i <= n,
            v@ == Seq::new(i as nat, |k: int| 0u8),
        decreases n - i,
    {
        v.push(0);
        i += 1;
        assert(v@ =~= Seq::new(i as nat, |k: int| 0u8));
    }
    v
}

/// A copy of the `n` bytes of `s` at `a`.
pub fn copy_range(s: &[u8], a: usize, n: usize) -> (r: Vec<u8>)
    requires
        a + n <= s@.len(),
    ensures
        r@ == s@.subrange(a as int, a + n),
{
    let len = s.len();
    let mut v: Vec<u8> = Vec::new();
    let mut i: usize = 0;
    while i < n
        invariant
            i <= n,
            len == s@.len(),
            a + n <= s@.len(),
            v@ == s@.subrange(a as int, a + i),
        decreases n - i,
    {
        v.push(s[a + i]);
        i += 1;
        assert(v@ =~= s@.subrange(a as int, a + i));
    }
    v
}

} // verus!
