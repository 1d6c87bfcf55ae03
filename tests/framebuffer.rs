use wasmstation::blit::{blit_sub, BLIT_2BPP};
use wasmstation::line::{hline_impl, line_impl, vline_impl};
use wasmstation::oval::oval_impl;
use wasmstation::pack::{
    as_b1_vec, as_b2_vec, as_fb_line, as_fb_vec, conv_1bpp_to_2bpp, remap_draw_colors,
};
use wasmstation::present::expand_fb_to_index8;
use wasmstation::rect::rect_impl;
use wasmstation::screen::{clear, remap_draw_color, set_pixel, ArrayScreen};
use wasmstation::text::text_impl;

#[test]
fn tests_test_as_fb_vec() {
    assert_eq!(vec![0b_10_01_01_10_u8], as_fb_vec(0b_10_01_01_10, 1));
    assert_eq!(
        vec![0b_11_00_01_11_u8, 0b_10_01_01_10_u8],
        as_fb_vec(0b_11_01_00_11__10_01_01_10, 2)
    );
}

#[test]
fn tests_test_as_b1_vec() {
    assert_eq!(
        vec![0b__0__0__0__0__1__1__1__0_u8],
        as_b1_vec(0b__0__0__0__0__1__1__1__0, 1)
    )
}

#[test]
fn tests_test_as_b2_vec() {
    assert_eq!(
        vec![0b_11_01_00_11_u8, 0b_10_01_01_10_u8],
        as_b1_vec(0b_11_01_00_11__10_01_01_10, 2)
    )
}

#[test]
fn fb_test_as_fb_vec() {
    assert_eq!(vec![0b_10_01_01_10_u8], as_fb_vec(0b_10_01_01_10, 1));
    assert_eq!(
        vec![0b_11_00_01_11_u8, 0b_10_01_01_10_u8],
        as_fb_vec(0b_11_01_00_11__10_01_01_10, 2)
    );
}

#[test]
fn fb_test_as_b1_vec() {
    assert_eq!(
        vec![0b__0__0__0__0__1__1__1__0_u8],
        as_b1_vec(0b__0__0__0__0__1__1__1__0, 1)
    )
}

#[test]
fn fb_test_as_b2_vec() {
    assert_eq!(
        vec![0b_11_01_00_11_u8, 0b_10_01_01_10_u8],
        as_b2_vec(0b_11_01_00_11__10_01_01_10, 2)
    )
}

#[test]
fn mod_test_as_fb_vec() {
    assert_eq!(vec![0b_10_01_01_10_u8], as_fb_vec(0b_10_01_01_10, 1));
    assert_eq!(
        vec![0b_11_00_01_11_u8, 0b_10_01_01_10_u8],
        as_fb_vec(0b_11_01_00_11__10_01_01_10, 2)
    );
}

#[test]
fn mod_test_as_b1_vec() {
    assert_eq!(
        vec![0b__0__0__0__0__1__1__1__0_u8],
        as_b1_vec(0b__0__0__0__0__1__1__1__0, 1)
    )
}

#[test]
fn mod_test_as_b2_vec() {
    assert_eq!(
        vec![0b_11_01_00_11_u8, 0b_10_01_01_10_u8],
        as_b1_vec(0b_11_01_00_11__10_01_01_10, 2)
    )
}

fn check_blit_sub_impl_1byte() {
    let draw_colors = 0x4320;

    let sprite = as_b1_vec(0b__0__0__0__0__1__1__1__0, 1);
    let mut fb = as_fb_vec(0b_00_00_00_00_00_00_00_00, 2);
    let expected_fb = as_fb_vec(0b_00_00_00_00_01_01_01_00, 2);

    blit_sub(&mut fb, &sprite, 0, 0, 8, 1, 0, 0, 8, 0, draw_colors);
    assert_eq!(expected_fb, fb);

    let sprite = as_b1_vec(0b__0__0__0__0__1__1__1__0, 1);
    let mut fb = as_fb_vec(0b_00_10_10_00_11_11_11_11, 2);
    let expected_fb = as_fb_vec(0b_00_10_10_00_01_01_01_11, 2);

    blit_sub(&mut fb, &sprite, 0, 0, 8, 1, 0, 0, 8, 0, draw_colors);
    assert_eq!(fb, expected_fb);
}

#[test]
fn tests_test_blit_sub_impl_1byte() {
    check_blit_sub_impl_1byte();
}

#[test]
fn fb_test_blit_sub_impl_1byte() {
    check_blit_sub_impl_1byte();
}

#[test]
fn blit_test_blit_sub_impl_1byte() {
    check_blit_sub_impl_1byte();
}

fn check_blit_sub_impl_1byte_misaligned() {
    let draw_colors = 0x4320;
    let sprite = as_b2_vec(0b_10_11_11_10, 1);
    let mut fb = as_fb_vec(0b_00_00_00_00_00_00_00_00, 2);
    let expected_fb = as_fb_vec(0b_00_00_10_11_11_10_00_00, 2);

    blit_sub(&mut fb, &sprite, 2, 0, 4, 1, 0, 0, 8, BLIT_2BPP, draw_colors);

    assert_eq!(fb, expected_fb)
}

#[test]
fn tests_test_blit_sub_impl_1byte_misaligned() {
    check_blit_sub_impl_1byte_misaligned();
}

#[test]
fn fb_test_blit_sub_impl_1byte_misaligned() {
    check_blit_sub_impl_1byte_misaligned();
}

#[test]
fn blit_test_blit_sub_impl_1byte_misaligned() {
    check_blit_sub_impl_1byte_misaligned();
}

fn check_blit_sub_atlas() {
    let draw_colors = 0x4321;

    let src_x = 3;
    let src_end_x = 8;
    let src_y = 0;
    let width = src_end_x - src_x;
    let height = 1;
    let sprite = as_b2_vec(0b_00_00_00_01_10_11_01_10_00_00_00_00_00_00_00_00, 4);
    let stride = (sprite.len() * 4) as u32;

    let mut fb = as_fb_vec(0b_00_00_00_00_00_00_00_00_00_00_00_00_00_00_00_00, 4);
    let expected_fb = as_fb_vec(0b_00_00_00_01_10_11_01_10_00_00_00_00_00_00_00_00, 4);
    blit_sub(&mut fb, &sprite, 3, 0, width, height, src_x, src_y, stride, BLIT_2BPP, draw_colors);
    assert_eq!(expected_fb, fb);

    let mut fb = as_fb_vec(0b_10_10_10_10_10_10_10_10_10_10_10_10_10_10_10_10, 4);
    let expected_fb = as_fb_vec(0b_10_10_10_01_10_11_01_10_10_10_10_10_10_10_10_10, 4);
    blit_sub(&mut fb, &sprite, 3, 0, width, height, src_x, src_y, stride, BLIT_2BPP, draw_colors);
    assert_eq!(expected_fb, fb);
}

#[test]
fn tests_test_blit_sub_atlas() {
    check_blit_sub_atlas();
}

#[test]
fn fb_test_blit_sub_atlas() {
    check_blit_sub_atlas();
}

#[test]
fn blit_test_blit_sub_atlas() {
    check_blit_sub_atlas();
}

fn check_conv_1bpp_to_2bpp() {
    assert_eq!(0b01_01_01_01_01_01_01_01, conv_1bpp_to_2bpp(0b0000000011111111));
    assert_eq!(0b01_01_01_01_00_00_00_00, conv_1bpp_to_2bpp(0b0000000011110000));
}

#[test]
fn tests_test_conv_1bpp_to_2bpp() {
    check_conv_1bpp_to_2bpp();
}

#[test]
fn fb_test_conv_1bpp_to_2bpp() {
    check_conv_1bpp_to_2bpp();
}

#[test]
fn blit_test_conv_1bpp_to_2bpp() {
    check_conv_1bpp_to_2bpp();
}

#[test]
fn fb_test_remap_draw_colors() {
    assert_eq!(
        (0b01_00_10_00, 0b00_11_00_00),
        remap_draw_colors(0b11100001, 4, 0x2013)
    );
}

#[test]
fn mod_test_remap_draw_colors() {
    assert_eq!(
        (0b01_00_10_00, 0b00_11_00_00),
        remap_draw_colors(0b11100001, 4, 0x2013)
    );
}

#[test]
fn test_expand_fb_to_index8() {
    let mut testfb = vec![0b11100100, 0b01100011, 0, 0, 0, 0, 0, 0];
    expand_fb_to_index8(&mut testfb);

    assert!(testfb == [0b00, 0b01, 0b10, 0b11, 0b11, 0b00, 0b10, 0b01]);
}

fn lines(n: usize, width: u32, rows: &[Vec<u8>]) -> ArrayScreen {
    ArrayScreen::new_with_fb_lines(n, width, &rows.to_vec())
}

fn check_hline() {
    let mut screen = ArrayScreen::new(4, 8);
    let expected = lines(
        4,
        8,
        &[
            as_fb_vec(0b_00_11_11_11_11_11_11_00, 2),
            as_fb_vec(0b_11_11_11_11_11_11_00_00, 2),
        ],
    );

    hline_impl(&mut screen, 3, 1, 0, 6);
    hline_impl(&mut screen, 3, -1, 1, 7);

    assert_eq!(screen, expected);
}

#[test]
fn tests_test_hline() {
    check_hline();
}

#[test]
fn line_test_hline() {
    check_hline();
}

fn check_vline() {
    let mut screen = ArrayScreen::new(7, 4);
    let expected = lines(
        7,
        4,
        &[
            as_fb_vec(0b_00_00_00_00, 1),
            as_fb_vec(0b_11_00_11_00, 1),
            as_fb_vec(0b_11_00_11_00, 1),
            as_fb_vec(0b_11_00_11_00, 1),
            as_fb_vec(0b_00_00_11_00, 1),
            as_fb_vec(0b_11_00_11_00, 1),
            as_fb_vec(0b_00_00_11_00, 1),
        ],
    );

    vline_impl(&mut screen, 3, 2, 1, 6);
    vline_impl(&mut screen, 3, 0, 1, 3);
    vline_impl(&mut screen, 3, 0, 5, 1);

    assert_eq!(screen, expected);
}

#[test]
fn tests_test_vline() {
    check_vline();
}

#[test]
fn line_test_vline() {
    check_vline();
}

fn check_line() {
    let mut screen = ArrayScreen::new(18, 8);
    let expected = lines(
        18,
        8,
        &[
            as_fb_vec(0b_11_00_00_00_00_00_00_00, 2),
            as_fb_vec(0b_00_11_00_00_00_00_11_00, 2),
            as_fb_vec(0b_00_00_11_00_00_00_11_00, 2),
            as_fb_vec(0b_00_00_00_11_00_00_11_00, 2),
            as_fb_vec(0b_00_00_00_00_00_00_00_11, 2),
            as_fb_vec(0b_00_11_00_00_00_00_00_11, 2),
            as_fb_vec(0b_00_11_00_00_00_00_00_11, 2),
            as_fb_vec(0b_11_00_00_00_11_11_11_00, 2),
            as_fb_vec(0b_11_00_00_00_00_00_00_00, 2),
        ],
    );

    line_impl(&mut screen, 3, -1, -1, 3, 3);
    line_impl(&mut screen, 3, 0, 8, 1, 5);
    line_impl(&mut screen, 3, 6, 1, 7, 6);
    line_impl(&mut screen, 3, 4, 7, 6, 7);

    assert_eq!(screen, expected);
}

#[test]
fn tests_test_line() {
    check_line();
}

#[test]
fn line_test_line() {
    check_line();
}

fn check_oval_small_circular() {
    let mut screen = ArrayScreen::new(10, 8);
    oval_impl(&mut screen, 0x40, 0, 0, 5, 5);

    let expected = lines(
        10,
        8,
        &[
            as_fb_vec(0b_00_11_11_11_00_00_00_00, 2),
            as_fb_vec(0b_11_00_00_00_11_00_00_00, 2),
            as_fb_vec(0b_11_00_00_00_11_00_00_00, 2),
            as_fb_vec(0b_11_00_00_00_11_00_00_00, 2),
            as_fb_vec(0b_00_11_11_11_00_00_00_00, 2),
        ],
    );

    assert_eq!(screen, expected);
}

#[test]
fn tests_test_oval_small_circular() {
    check_oval_small_circular();
}

#[test]
fn fb_test_oval_small_circular() {
    check_oval_small_circular();
}

#[test]
fn oval_test_oval_small_circular() {
    check_oval_small_circular();
}

fn check_oval_slim_horizontal() {
    let mut screen = ArrayScreen::new(6, 8);
    oval_impl(&mut screen, 0x40, 0, 0, 8, 3);

    let expected = lines(
        6,
        8,
        &[
            as_fb_vec(0b_00_00_11_11_11_11_00_00, 2),
            as_fb_vec(0b_11_11_00_00_00_00_11_11, 2),
            as_fb_vec(0b_00_00_11_11_11_11_00_00, 2),
        ],
    );

    assert_eq!(screen, expected);
}

#[test]
fn tests_test_oval_slim_horizontal() {
    check_oval_slim_horizontal();
}

#[test]
fn fb_test_oval_slim_horizontal() {
    check_oval_slim_horizontal();
}

#[test]
fn oval_test_oval_slim_horizontal() {
    check_oval_slim_horizontal();
}

#[test]
fn hline_skips_when_first_slot_is_transparent() {
    let mut fb = vec![0u8; 6400];
    wasmstation::line::hline(&mut fb, 0x4320, 0, 0, 8);
    assert!(fb.iter().all(|b| *b == 0));
    wasmstation::line::hline(&mut fb, 0x0004, 0, 0, 8);
    assert_eq!(&fb[0..3], &[0xff, 0xff, 0x00]);
}

#[test]
fn hline_fills_whole_bytes_inside_the_run() {
    let mut screen = ArrayScreen::new(4, 16);
    hline_impl(&mut screen, 2, 1, 0, 14);
    assert_eq!(screen.fb, vec![0b10_10_10_00, 0b10_10_10_10, 0b10_10_10_10, 0b00_10_10_10]);
}

#[test]
fn set_pixel_reads_back_the_value() {
    let mut fb = vec![0u8; 6400];
    for color in 0..4u8 {
        set_pixel(&mut fb, 5, 2, color);
        let byte = fb[(160 * 2 + 5) / 4];
        assert_eq!((byte >> 2) & 3, color);
    }
    assert!(fb.iter().enumerate().all(|(i, b)| i == 81 || *b == 0));
}

#[test]
fn clear_zeroes_everything() {
    let mut fb = vec![0xffu8; 6400];
    clear(&mut fb);
    assert!(fb.iter().all(|b| *b == 0));
}

#[test]
fn draw_color_slots_remap() {
    assert_eq!(remap_draw_color(0, 0x4320), None);
    assert_eq!(remap_draw_color(1, 0x4320), Some(1));
    assert_eq!(remap_draw_color(2, 0x4320), Some(2));
    assert_eq!(remap_draw_color(3, 0x4320), Some(3));
    assert_eq!(remap_draw_color(0, 0x000f), Some(2));
}

#[test]
fn blit_clips_at_the_left_edge() {
    let mut fb = vec![0u8; 4];
    let sprite = as_b1_vec(0b1111_1111, 1);
    blit_sub(&mut fb, &sprite, -4, 0, 8, 1, 0, 0, 8, 0, 0x0020);
    assert_eq!(fb, vec![0b01_01_01_01, 0, 0, 0]);
}

#[test]
fn blit_flips_horizontally() {
    let mut fb = vec![0u8; 4];
    let sprite = as_b2_vec(0b_01_10_11_00, 1);
    blit_sub(&mut fb, &sprite, 0, 0, 4, 1, 0, 0, 4, BLIT_2BPP | 2, 0x4321);
    assert_eq!(fb, as_fb_vec(0b_00_11_10_01_00_00_00_00_00_00_00_00_00_00_00_00, 4));
}

#[test]
fn blit_rotates() {
    let mut screen_fb = vec![0u8; 6400];
    let sprite = as_b2_vec(0b_01_10_00_00, 1);
    blit_sub(&mut screen_fb, &sprite, 0, 0, 2, 1, 0, 0, 2, BLIT_2BPP | 8, 0x4321);
    assert_eq!(screen_fb[0] & 3, 0b10);
    assert_eq!(screen_fb[40] & 3, 0b01);
}

#[test]
fn rect_fills_and_outlines() {
    let mut screen = ArrayScreen::new(8, 8);
    rect_impl(&mut screen, 0x0021, 0, 0, 4, 4);
    let expected = lines(
        8,
        8,
        &[
            as_fb_vec(0b_01_01_01_01_00_00_00_00, 2),
            as_fb_vec(0b_01_00_00_01_00_00_00_00, 2),
            as_fb_vec(0b_01_00_00_01_00_00_00_00, 2),
            as_fb_vec(0b_01_01_01_01_00_00_00_00, 2),
        ],
    );
    assert_eq!(screen, expected);
}

#[test]
fn text_draws_a_glyph_and_breaks_lines() {
    let mut screen = ArrayScreen::new(64, 16);
    text_impl(&mut screen, &[b'!' as u16, 10, b'!' as u16, 0, b'!' as u16], 0, 0, 0x0020);
    for r in 0..8 {
        assert_eq!(screen.fb[r * 4..r * 4 + 2], screen.fb[(8 + r) * 4..(8 + r) * 4 + 2]);
    }
    for r in 0..16 {
        assert_eq!(screen.fb[r * 4 + 2..r * 4 + 4], [0, 0]);
    }
    assert!(screen.fb[0..32].iter().any(|b| *b != 0));
}

fn check_as_fb_line() {
    let fb_vec = as_fb_vec(0b_10_10_10_10_11_00_11_11_11_10_11_10_10_10_10_10, 4);
    assert_eq!(
        "0b_10_10_10_10_11_00_11_11_11_10_11_10_10_10_10_10",
        as_fb_line(&fb_vec)
    );
}

#[test]
fn tests_test_as_fb_line() {
    check_as_fb_line();
}

#[test]
fn fb_test_as_fb_line() {
    check_as_fb_line();
}

#[test]
fn mod_test_as_fb_line() {
    check_as_fb_line();
}

#[test]
fn drawing_never_touches_bytes_past_the_screen() {
    let mut screen = ArrayScreen::new(4, 8);
    screen.fb.extend_from_slice(&[0x5a, 0xa5]);
    hline_impl(&mut screen, 3, -4, 1, 100);
    vline_impl(&mut screen, 3, 7, -3, 100);
    line_impl(&mut screen, 3, -5, -5, 20, 20);
    rect_impl(&mut screen, 0x0034, -2, -2, 30, 30);
    oval_impl(&mut screen, 0x0034, -3, -3, 20, 20);
    assert_eq!(&screen.fb[4..6], &[0x5a, 0xa5]);
    assert!(screen.fb[0..4].iter().all(|b| *b != 0));
}

#[test]
fn clear_draw_clear_is_blank() {
    let mut fb = vec![0x33u8; 6400];
    clear(&mut fb);
    wasmstation::rect::rect(&mut fb, 0x0043, 10, 10, 50, 30);
    assert!(fb.iter().any(|b| *b != 0));
    clear(&mut fb);
    assert!(fb.iter().all(|b| *b == 0));
}

#[test]
fn aligned_blit_copies_sprite_bytes() {
    let sprite = vec![0b00_01_10_11u8, 0b11_10_01_00, 0b01_01_10_10, 0b00_00_11_11];
    let mut fb = vec![0u8; 6400];
    blit_sub(&mut fb, &sprite, 4, 0, 8, 2, 0, 0, 8, BLIT_2BPP, 0x4321);
    let row0 = as_fb_vec(0b_00_01_10_11_11_10_01_00, 2);
    let row1 = as_fb_vec(0b_01_01_10_10_00_00_11_11, 2);
    assert_eq!(&fb[1..3], &row0[..]);
    assert_eq!(&fb[41..43], &row1[..]);

    let mut fb = vec![0u8; 6400];
    blit_sub(&mut fb, &[0b1010_0000u8], 0, 0, 4, 1, 0, 0, 4, 0, 0x4321);
    assert_eq!(fb[0], 0b00_01_00_01);
}

#[test]
fn multipixel_blit_matches_blit_sub() {
    let sprites = [
        (as_b1_vec(0b0000_1110, 1), 0u32),
        (as_b2_vec(0b_10_11_11_10, 1), BLIT_2BPP),
        (as_b2_vec(0b_00_00_00_01_10_11_01_10_00_00_00_00_00_00_00_00, 4), BLIT_2BPP),
    ];
    for (sprite, fmt) in sprites.iter() {
        for flags in [0u32, 2, 4, 8] {
            for x in [-3i32, 0, 2, 5, 158] {
                let mut a = vec![0b_10_01_00_11u8; 6400];
                let mut b = a.clone();
                blit_sub(&mut a, sprite, x, 1, 7, 2, 1, 0, 8, fmt | flags, 0x4320);
                wasmstation::blit::blit_sub_multipixel(&mut b, sprite, x, 1, 7, 2, 1, 0, 8, fmt | flags, 0x4320);
                assert_eq!(a, b);
            }
        }
    }
}

#[test]
fn multipixel_blit_1byte_misaligned() {
    let sprite = as_b2_vec(0b_10_11_11_10, 1);
    let mut fb = as_fb_vec(0, 2);
    wasmstation::blit::blit_sub_multipixel(&mut fb, &sprite, 2, 0, 4, 1, 0, 0, 8, BLIT_2BPP, 0x4320);
    assert_eq!(fb, as_fb_vec(0b_00_00_10_11_11_10_00_00, 2));
}

#[test]
fn oval_with_transparent_stroke_draws_only_fill() {
    let mut screen = ArrayScreen::new(10, 8);
    oval_impl(&mut screen, 0x0000, 0, 0, 5, 5);
    assert!(screen.fb.iter().all(|b| *b == 0));
    let mut screen = ArrayScreen::new(10, 8);
    oval_impl(&mut screen, 0x0002, 0, 0, 5, 5);
    let values: Vec<u8> = screen.fb.iter().flat_map(|b| (0..4).map(move |i| (b >> (2 * i)) & 3)).collect();
    assert!(values.iter().all(|v| *v == 0 || *v == 1));
    assert!(values.iter().any(|v| *v == 1));
}

#[test]
fn huge_oval_draws_nothing() {
    let mut fb = vec![0u8; 6400];
    wasmstation::oval::oval(&mut fb, 0x0043, -100000, -100000, 300000, 300000);
    assert!(fb.iter().all(|b| *b == 0));
}
