use wasmstation::audio::{Mode, Pan, ToneCommand, TONE_QUEUE_CAPACITY};
use wasmstation::console::{Runtime, DRAW_COLORS_ADDR, FRAMEBUFFER_ADDR, SYSTEM_FLAGS_ADDR};
use wasmstation::present::{
    bounding_rect, default_draw_colors, default_framebuffer, default_palette, empty_framebuffer,
    framebuffer_to_rgb24, key_mask, press, window_to_game, Key, BUTTON_LEFT,
};
use wasmstation::screen::FRAMEBUFFER_SIZE;

#[test]
fn new_runtime_has_default_registers() {
    let rt = Runtime::new();
    assert_eq!(rt.memory.len(), 65536);
    assert_eq!(rt.memory[4..20].to_vec(), default_palette());
    assert_eq!(rt.memory[0x14..0x16].to_vec(), default_draw_colors());
    assert_eq!(rt.draw_colors(), 0x1203);
    assert_eq!(rt.framebuffer(), default_framebuffer());
    assert_eq!(empty_framebuffer().len(), FRAMEBUFFER_SIZE);
    assert!(!rt.needs_write);
}

#[test]
fn disk_round_trip_clamps_to_1024() {
    let mut rt = Runtime::new();
    for i in 0..1024 {
        rt.memory[0x2000 + i] = 0xab;
    }
    assert_eq!(rt.diskw(0x2000, 2000), 1024);
    assert!(rt.needs_write);
    assert_eq!(rt.diskr(0x8000, 2000), 1024);
    assert!(rt.memory[0x8000..0x8000 + 1024].iter().all(|b| *b == 0xab));
}

#[test]
fn disk_write_pads_with_zeros_and_latches_once() {
    let mut rt = Runtime::new();
    rt.memory[0x3000] = 7;
    rt.memory[0x3001] = 9;
    assert_eq!(rt.diskw(0x3000, 2), 2);
    let saved = rt.write_save().unwrap();
    assert_eq!(saved.len(), 1024);
    assert_eq!(&saved[0..3], &[7, 9, 0]);
    assert!(saved[2..].iter().all(|b| *b == 0));
    assert_eq!(rt.write_save(), None);
}

#[test]
fn disk_calls_past_memory_return_zero() {
    let mut rt = Runtime::new();
    assert_eq!(rt.diskw(65535, 10), 0);
    assert!(!rt.needs_write);
    assert_eq!(rt.diskr(65530, 10), 0);
}

#[test]
fn frame_start_clears_unless_preserved() {
    let mut rt = Runtime::new();
    rt.memory[FRAMEBUFFER_ADDR] = 0x55;
    rt.begin_frame();
    assert_eq!(rt.memory[FRAMEBUFFER_ADDR], 0);

    rt.memory[FRAMEBUFFER_ADDR] = 0x55;
    rt.memory[SYSTEM_FLAGS_ADDR] = 1;
    rt.begin_frame();
    assert_eq!(rt.memory[FRAMEBUFFER_ADDR], 0x55);
}

#[test]
fn blit_matches_blit_sub_from_origin() {
    let mut a = Runtime::new();
    a.memory[0x4000] = 0b1010_0101;
    a.memory[0x4001] = 0b1111_0000;
    a.memory[DRAW_COLORS_ADDR] = 0x20;
    a.memory[DRAW_COLORS_ADDR + 1] = 0;
    let mut b = Runtime::new();
    b.memory = a.memory.clone();
    a.blit(0x4000, 3, 5, 8, 2, 0);
    b.blit_sub(0x4000, 3, 5, 8, 2, 0, 0, 8, 0);
    assert_eq!(a.memory, b.memory);
    assert_ne!(a.framebuffer(), default_framebuffer());
}

#[test]
fn host_text_reads_until_zero() {
    let mut rt = Runtime::new();
    rt.memory[0x5000] = b'A';
    rt.memory[0x5001] = 0;
    rt.memory[0x5002] = b'B';
    rt.text(0x5000, 0, 0);
    let fb = rt.framebuffer();
    assert!(fb[0..2].iter().any(|b| *b != 0));
    assert!((0..8).all(|r| fb[r * 40 + 2] == 0 && fb[r * 40 + 3] == 0));
}

#[test]
fn host_text_utf16_ignores_odd_lengths() {
    let mut rt = Runtime::new();
    rt.memory[0x5000] = b'A';
    let before = rt.memory.clone();
    rt.text_utf16(0x5000, 3, 0, 0);
    assert_eq!(rt.memory, before);
    rt.text_utf16(0x5000, 2, 0, 0);
    assert_ne!(rt.memory, before);
}

#[test]
fn trace_calls_read_memory() {
    let mut rt = Runtime::new();
    rt.memory[0x6000..0x6004].copy_from_slice(&[b'h', 0, b'i', 0]);
    assert_eq!(rt.trace(0x6000), vec![b'h']);
    assert_eq!(rt.trace_utf8(0x6000, 3), Some(vec![b'h', 0, b'i']));
    assert_eq!(rt.trace_utf16(0x6000, 4), Some(vec![0x68, 0x69]));
    assert_eq!(rt.trace_utf8(65535, 2), None);
}

#[test]
fn tones_queue_and_drop_when_full() {
    let mut rt = Runtime::new();
    for i in 0..TONE_QUEUE_CAPACITY as u32 {
        assert!(rt.tone(i, 0, 0, 0));
    }
    assert!(!rt.tone(999, 0, 0, 0));
    let tones = rt.take_tones();
    assert_eq!(tones.len(), TONE_QUEUE_CAPACITY);
    assert_eq!(tones[3].frequency, 3);
    assert!(rt.take_tones().is_empty());
}

#[test]
fn tone_fields_decode() {
    let t = ToneCommand { frequency: 0x0200_0100, duration: 0x0403_0201, volume: 0x0000_6432, flags: 0b10_01_11 };
    assert_eq!(t.frequencies(), (0x100, 0x200));
    assert_eq!(t.volumes(), (0x64, 0x32));
    assert_eq!(t.channel(), 3);
    assert_eq!(t.mode(), Mode::Mode2_25);
    assert_eq!(t.pan(), Pan::Right);
    let e = t.envelope();
    assert_eq!((e.attack_end, e.decay_end, e.sustain_end, e.release_end), (4, 7, 8, 10));
}

#[test]
fn set_input_registers() {
    let mut rt = Runtime::new();
    rt.set_gamepad(0x0403_0201);
    assert_eq!(&rt.memory[0x16..0x1a], &[1, 2, 3, 4]);
    rt.set_mouse(-2, 300, 5);
    assert_eq!(&rt.memory[0x1a..0x1f], &[0xfe, 0xff, 0x2c, 0x01, 5]);
    assert_eq!(rt.read_system_flags(), 0);
}

#[test]
fn rgb_conversion_uses_palette() {
    let mut fb = vec![0u8; 6400];
    fb[0] = 0b11_10_01_00;
    let rgb = framebuffer_to_rgb24(&fb, &default_palette());
    assert_eq!(rgb.len(), 76800);
    assert_eq!(&rgb[0..12], &[0xe0, 0xf8, 0xcf, 0x86, 0xc0, 0x6c, 0x30, 0x68, 0x50, 0x07, 0x18, 0x21]);
}

#[test]
fn letterbox_and_mouse_scaling() {
    let v = bounding_rect(640, 480);
    assert_eq!((v.x, v.y, v.size), (80, 0, 480));
    assert_eq!(window_to_game(80, 0, 640, 480), Some((0, 0)));
    assert_eq!(window_to_game(320, 240, 640, 480), Some((80, 80)));
    assert_eq!(window_to_game(10, 10, 640, 480), None);
}

#[test]
fn keys_press_and_release() {
    let g = press(0, key_mask(Key::Left), true);
    assert_eq!(g, BUTTON_LEFT);
    assert_eq!(press(g, key_mask(Key::Left), false), 0);
    assert_eq!(key_mask(Key::Other), 0);
}
