use kernel::font::Glyph;
use kernel::screen::{FrameBufferInfo, FrameError, PixelFormat, ScreenWriter};

fn info(width: usize, height: usize, bpp: usize, format: PixelFormat) -> FrameBufferInfo {
    FrameBufferInfo {
        byte_len: width * height * bpp,
        width,
        height,
        pixel_format: format,
        bytes_per_pixel: bpp,
        stride: width,
    }
}

fn surface(width: usize, height: usize, bpp: usize, format: PixelFormat) -> ScreenWriter {
    let i = info(width, height, bpp, format);
    ScreenWriter::new(vec![7u8; i.byte_len], i).unwrap()
}

fn span(w: &ScreenWriter, x: usize, y: usize) -> Vec<u8> {
    let i = w.info();
    let o = (y * i.stride + x) * i.bytes_per_pixel;
    w.framebuffer()[o..o + i.bytes_per_pixel].to_vec()
}

#[test]
fn new_clears_buffer_and_cursor() {
    let w = surface(4, 3, 4, PixelFormat::Rgb);
    assert!(w.framebuffer().iter().all(|b| *b == 0));
    assert_eq!(w.framebuffer().len(), 48);
    assert_eq!(w.cursor(), (0, 0));
}

#[test]
fn unsupported_formats_are_refused() {
    let i = info(4, 3, 1, PixelFormat::U8);
    assert!(matches!(ScreenWriter::new(vec![0u8; 12], i), Err(FrameError::UnsupportedPixelFormat)));
    let j = info(
        4,
        3,
        4,
        PixelFormat::Unknown { red_position: 0, green_position: 8, blue_position: 16 },
    );
    assert!(matches!(ScreenWriter::new(vec![0u8; 48], j), Err(FrameError::UnsupportedPixelFormat)));
}

#[test]
fn malformed_geometry_is_refused() {
    let i = info(4, 3, 4, PixelFormat::Rgb);
    assert!(matches!(ScreenWriter::new(vec![0u8; 40], i), Err(FrameError::MalformedDescriptor)));
    let mut j = info(4, 3, 4, PixelFormat::Bgr);
    j.stride = 3;
    j.byte_len = 36;
    assert!(matches!(ScreenWriter::new(vec![0u8; 36], j), Err(FrameError::MalformedDescriptor)));
    let mut k = info(4, 3, 4, PixelFormat::Rgb);
    k.bytes_per_pixel = 0;
    assert!(matches!(ScreenWriter::new(vec![0u8; 48], k), Err(FrameError::MalformedDescriptor)));
}

#[test]
fn draw_pixel_rgb_order() {
    let mut w = surface(4, 3, 4, PixelFormat::Rgb);
    w.draw_pixel(2, 1, 10, 20, 30);
    assert_eq!(span(&w, 2, 1), vec![10, 20, 30, 0]);
    assert_eq!(span(&w, 1, 1), vec![0, 0, 0, 0]);
    assert_eq!(span(&w, 3, 1), vec![0, 0, 0, 0]);
}

#[test]
fn draw_pixel_bgr_order() {
    let mut w = surface(4, 3, 4, PixelFormat::Bgr);
    w.draw_pixel(3, 2, 10, 20, 30);
    assert_eq!(span(&w, 3, 2), vec![30, 20, 10, 0]);
}

#[test]
fn draw_pixel_three_bytes_per_pixel() {
    let mut w = surface(5, 2, 3, PixelFormat::Rgb);
    w.draw_pixel(4, 1, 1, 2, 3);
    assert_eq!(span(&w, 4, 1), vec![1, 2, 3]);
    assert_eq!(w.framebuffer()[27..30].to_vec(), vec![1, 2, 3]);
}

#[test]
fn draw_pixel_pads_wide_pixels_with_zeros() {
    let i = info(2, 2, 6, PixelFormat::Rgb);
    let mut w = ScreenWriter::new(vec![0u8; i.byte_len], i).unwrap();
    w.draw_pixel(1, 1, 9, 8, 7);
    assert_eq!(span(&w, 1, 1), vec![9, 8, 7, 0, 0, 0]);
}

#[test]
fn write_pixel_scales_grey_per_channel() {
    let mut w = surface(4, 3, 4, PixelFormat::Rgb);
    w.write_pixel(0, 0, 200);
    assert_eq!(span(&w, 0, 0), vec![50, 200, 100, 0]);
    let mut v = surface(4, 3, 4, PixelFormat::Bgr);
    v.write_pixel(0, 0, 200);
    assert_eq!(span(&v, 0, 0), vec![100, 200, 50, 0]);
}

#[test]
fn stride_wider_than_width() {
    let i = FrameBufferInfo {
        byte_len: 8 * 2 * 4,
        width: 5,
        height: 2,
        pixel_format: PixelFormat::Rgb,
        bytes_per_pixel: 4,
        stride: 8,
    };
    let mut w = ScreenWriter::new(vec![0u8; 64], i).unwrap();
    w.draw_pixel(1, 1, 1, 2, 3);
    assert_eq!(w.framebuffer()[36..40].to_vec(), vec![1, 2, 3, 0]);
}

#[test]
fn clear_zeroes_everything() {
    let mut w = surface(4, 3, 4, PixelFormat::Rgb);
    w.draw_pixel(1, 1, 5, 5, 5);
    w.write_str("A");
    w.clear();
    assert!(w.framebuffer().iter().all(|b| *b == 0));
    assert_eq!(w.cursor(), (0, 0));
}

#[test]
fn fill_rect_is_clipped() {
    let mut w = surface(4, 4, 4, PixelFormat::Rgb);
    w.fill_rect(-1, 2, 3, 10, (1, 2, 3));
    assert_eq!(span(&w, 0, 2), vec![1, 2, 3, 0]);
    assert_eq!(span(&w, 1, 3), vec![1, 2, 3, 0]);
    assert_eq!(span(&w, 2, 2), vec![0, 0, 0, 0]);
    assert_eq!(span(&w, 0, 1), vec![0, 0, 0, 0]);
}

#[test]
fn plot_pixel_off_screen_does_nothing() {
    let mut w = surface(4, 4, 4, PixelFormat::Rgb);
    w.plot_pixel(-1, 0, (1, 1, 1));
    w.plot_pixel(4, 0, (1, 1, 1));
    w.plot_pixel(0, 4, (1, 1, 1));
    assert!(w.framebuffer().iter().all(|b| *b == 0));
    w.plot_pixel(3, 3, (1, 1, 1));
    assert_eq!(span(&w, 3, 3), vec![1, 1, 1, 0]);
}

#[test]
fn newline_and_carriage_return_move_cursor() {
    let mut w = surface(100, 100, 4, PixelFormat::Rgb);
    w.write_str("\n");
    assert_eq!(w.cursor(), (0, 16));
    w.write_str("AB");
    assert_eq!(w.cursor(), (18, 16));
    w.write_str("\r");
    assert_eq!(w.cursor(), (0, 16));
}

#[test]
fn glyph_is_rasterised_at_cursor() {
    let mut w = surface(100, 40, 4, PixelFormat::Rgb);
    w.write_char('H');
    assert_eq!(w.cursor(), (9, 0));
    let lit = (0..16).any(|y| (0..9).any(|x| span(&w, x, y)[1] != 0));
    assert!(lit);
    let outside = (0..40).any(|y| (9..100).any(|x| span(&w, x, y)[1] != 0));
    assert!(!outside);
}

#[test]
fn space_draws_nothing_but_advances() {
    let mut w = surface(100, 40, 4, PixelFormat::Rgb);
    w.write_char(' ');
    assert_eq!(w.cursor(), (9, 0));
    assert!(w.framebuffer().iter().all(|b| *b == 0));
}

#[test]
fn character_without_glyph_is_skipped() {
    let mut w = surface(100, 40, 4, PixelFormat::Rgb);
    w.write_char('\u{263A}');
    assert_eq!(w.cursor(), (0, 0));
    assert!(w.framebuffer().iter().all(|b| *b == 0));
}

#[test]
fn glyph_past_right_edge_wraps() {
    let mut w = surface(20, 40, 4, PixelFormat::Rgb);
    w.write_str("ABC");
    assert_eq!(w.cursor(), (9, 16));
}

#[test]
fn glyph_past_bottom_edge_clears() {
    let mut w = surface(100, 20, 4, PixelFormat::Rgb);
    w.draw_pixel(99, 19, 1, 1, 1);
    w.write_str("\nA");
    assert_eq!(w.cursor(), (9, 0));
    assert_eq!(span(&w, 99, 19), vec![0, 0, 0, 0]);
}

#[test]
fn write_chars_matches_write_str() {
    let mut a = surface(60, 40, 4, PixelFormat::Bgr);
    let mut b = surface(60, 40, 4, PixelFormat::Bgr);
    a.write_str("Hi\nyo");
    b.write_chars(&['H', 'i', '\n', 'y', 'o']);
    assert_eq!(a.framebuffer(), b.framebuffer());
    assert_eq!(a.cursor(), b.cursor());
    assert_eq!(a.cursor(), (18, 16));
}

#[test]
fn write_glyph_draws_its_raster_in_grey() {
    let mut w = surface(10, 10, 4, PixelFormat::Rgb);
    w.write_str("\r");
    let g = Glyph { width: 2, height: 2, rows: vec![vec![200, 0], vec![0, 100]] };
    w.write_glyph(&g);
    assert_eq!(span(&w, 0, 0), vec![50, 200, 100, 0]);
    assert_eq!(span(&w, 1, 0), vec![0, 0, 0, 0]);
    assert_eq!(span(&w, 1, 1), vec![25, 100, 50, 0]);
    assert_eq!(w.cursor(), (2, 0));
}

#[test]
fn write_glyph_is_clipped_at_the_edges() {
    let mut w = surface(3, 3, 4, PixelFormat::Bgr);
    let g = Glyph { width: 3, height: 2, rows: vec![vec![4, 8, 12, 16], vec![4, 8, 12, 16], vec![4, 4, 4, 4]] };
    w.write_glyph(&g);
    assert_eq!(span(&w, 2, 0), vec![6, 12, 3, 0]);
    assert_eq!(span(&w, 0, 2), vec![2, 4, 1, 0]);
    assert_eq!(w.cursor(), (3, 0));
}

#[test]
fn write_glyph_wraps_then_clears() {
    let mut w = surface(4, 4, 4, PixelFormat::Rgb);
    let g = Glyph { width: 3, height: 2, rows: vec![vec![255, 255, 255], vec![255, 255, 255]] };
    w.write_glyph(&g);
    assert_eq!(w.cursor(), (3, 0));
    w.write_glyph(&g);
    // wrapping moves 16 rows down, past the bottom, so the surface is cleared
    assert_eq!(w.cursor(), (3, 0));
    assert_eq!(span(&w, 3, 0), vec![0, 0, 0, 0]);
    assert_eq!(span(&w, 0, 0), vec![63, 255, 127, 0]);
}
