//! Tone commands: what a cart asks the sound device to play.
use vstd::prelude::*;

verus! {

/// The most tone commands that wait for the sound device; later ones are dropped.
pub const TONE_QUEUE_CAPACITY: usize = 64;

/// The four words a cart passes to `tone`.
#[derive(Clone, Copy, PartialEq, Eq, Debug)]
pub struct ToneCommand {
    /// Start frequency in the low 16 bits, end frequency in the high 16 bits.
    pub frequency: u32,
    /// Envelope lengths in frames: sustain in byte 0, release in byte 1,
    /// decay in byte 2, attack in byte 3.
    pub duration: u32,
    /// Sustain volume in byte 0, peak volume in byte 1.
    pub volume: u32,
    /// Channel in bits 0..1, duty-cycle mode in bits 2..3, pan in bits 4..5.
    pub flags: u32,
}

/// The duty cycle of a pulse channel.
#[derive(Clone, Copy, PartialEq, Eq, Debug)]
pub enum Mode {
    Mode1_12,
    Mode2_25,
    Mode3_50,
    Mode4_75,
}

/// Which speaker a tone plays on.
#[derive(Clone, Copy, PartialEq, Eq, Debug)]
pub enum Pan {
    Center,
    Left,
    Right,
}

/// The boundaries of a tone's envelope, in frames from its start.
#[derive(Clone, Copy, PartialEq, Eq, Debug)]
pub struct Envelope {
    pub attack_end: u32,
    pub decay_end: u32,
    pub sustain_end: u32,
    pub release_end: u32,
}

/// Byte `i` (0 the lowest) of `v`.
pub open spec fn byte_of(v: u32, i: int) -> u32 {
    if i == 0 {
        v & 0xff
    } else if i == 1 {
        (v >> 8u32) & 0xff
    } else if i == 2 {
        (v >> 16u32) & 0xff
    } else {
        (v >> 24u32) & 0xff
    }
}

proof fn lemma_byte_bound(v: u32)
    by (bit_vector)
    ensures
        v & 0xff <= 0xff,
        (v >> 8u32) & 0xff <= 0xff,
        (v >> 16u32) & 0xff <= 0xff,
        (v >> 24u32) & 0xff <= 0xff,
{
}

impl ToneCommand {
    /// The channel the tone plays on: 0 and 1 pulse, 2 triangle, 3 noise.
    pub fn channel(&self) -> (r: u32)
        ensures
            r == self.flags & 3,
    {
        self.flags & 3
    }

    /// The duty-cycle mode selected by bits 2..3 of the flags.
    pub fn mode(&self) -> (r: Mode)
        ensures
            r == match self.flags & 0xc {
                0 => Mode::Mode1_12,
                4 => Mode::Mode2_25,
                8 => Mode::Mode3_50,
                _ => Mode::Mode4_75,
            },
    {
        let m = self.flags & 0xc;
        if m == 0 {
            Mode::Mode1_12
        } else if m == 4 {
            Mode::Mode2_25
        } else if m == 8 {
            Mode::Mode3_50
        } else {
            Mode::Mode4_75
        }
    }

    /// The pan selected by bits 4..5 of the flags: 16 left, 32 right,
    /// anything else center.
    pub fn pan(&self) -> (r: Pan)
        ensures
            r == match self.flags & 0x30 {
                0x10 => Pan::Left,
                0x20 => Pan::Right,
                _ => Pan::Center,
            },
    {
        let p = self.flags & 0x30;
        if p == 0x10 {
            Pan::Left
        } else if p == 0x20 {
            Pan::Right
        } else {
            Pan::Center
        }
    }

    /// The start and end frequencies.
    pub fn frequencies(&self) -> (r: (u32, u32))
        ensures
            r == (self.frequency & 0xffff, self.frequency >> 16u32),
    {
        (self.frequency & 0xffff, self.frequency >> 16)
    }

    /// The peak and sustain volumes.
    pub fn volumes(&self) -> (r: (u32, u32))
        ensures
            r == (byte_of(self.volume, 1), byte_of(self.volume, 0)),
    {
        ((self.volume >> 8) & 0xff, self.volume & 0xff)
    }

    /// The envelope: attack, then decay, then sustain, then release, each
    /// as long as its byte of the duration says.
    pub fn envelope(&self) -> (r: Envelope)
        ensures
            r.attack_end == byte_of(self.duration, 3),
            r.decay_end == r.attack_end + byte_of(self.duration, 2),
            r.sustain_end == r.decay_end + byte_of(self.duration, 0),
            r.release_end == r.sustain_end + byte_of(self.duration, 1),
    {
        proof {
            lemma_byte_bound(self.duration);
        }
        let attack_end = (self.duration >> 24) & 0xff;
        let decay_end = attack_end + ((self.duration >> 16) & 0xff);
        let sustain_end = decay_end + (self.duration & 0xff);
        let release_end = sustain_end + ((self.duration >> 8) & 0xff);
        Envelope { attack_end, decay_end, sustain_end, release_end }
    }
}

/// Appends `cmd` to `queue` unless the queue is full, in which case the
/// command is dropped. Returns whether it was queued.
pub fn enqueue_tone(queue: &mut Vec<ToneCommand>, cmd: ToneCommand) -> (r: bool)
    ensures
        r == (old(queue)@.len() < TONE_QUEUE_CAPACITY),
        final(queue)@ == if r { old(queue)@.push(cmd) } else { old(queue)@ },
{
    if queue.len() < TONE_QUEUE_CAPACITY {
        queue.push(cmd);
        true
    } else {
        false
    }
}

} // verus!
