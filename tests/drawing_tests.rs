use nsf_presenter::drawing::{blend_rect, blit, char, hex, rect, text, Color, Font, SimpleBuffer};
use nsf_presenter::debug_views::{
    cpu_register_color, cpu_register_label, draw_2x_tile, draw_color_box, draw_tile, generate_chr_pattern, longest,
};

fn px(buf: &SimpleBuffer, x: u32, y: u32) -> [u8; 4] {
    buf.get_pixel(x, y).data
}

fn solid_font() -> Font {
    let mut glyphs = Vec::new();
    for i in 0..96u32 {
        let mut g = SimpleBuffer::new(2, 2);
        // each glyph lights its top-left pixel with its own code as red
        g.put_pixel(0, 0, Color::rgba((i + 32) as u8, 0, 0, 255));
        glyphs.push(g);
    }
    Font { glyph_width: 2, glyphs }
}

#[test]
fn colors() {
    let c = Color::rgb(1, 2, 3);
    assert_eq!(c.data, [1, 2, 3, 255]);
    let c = Color::from_raw(0x80112233);
    assert_eq!((c.r(), c.g(), c.b(), c.alpha()), (0x11, 0x22, 0x33, 0x80));
    let mut c = Color::from_slice(&[9, 8, 7, 6, 5]);
    assert_eq!(c.data, [9, 8, 7, 6]);
    c.set_alpha(1);
    assert_eq!(c.data, [9, 8, 7, 1]);
    assert_eq!(Color::rgba(1, 2, 3, 4).data, [1, 2, 3, 4]);
}

#[test]
fn css_colors() {
    assert_eq!(Color::from_string("#FF8000").unwrap().data, [255, 128, 0, 255]);
    assert_eq!(Color::from_string("red").unwrap().data, [255, 0, 0, 255]);
    assert!(Color::from_string("not a color").is_err());
}

#[test]
fn pixels() {
    let mut b = SimpleBuffer::new(3, 2);
    assert_eq!(b.buffer.len(), 24);
    b.put_pixel(2, 1, Color::rgba(1, 2, 3, 4));
    assert_eq!(px(&b, 2, 1), [1, 2, 3, 4]);
    assert_eq!(&b.buffer[20..24], &[1, 2, 3, 4]);
    assert_eq!(px(&b, 1, 1), [0, 0, 0, 0]);
}

#[test]
fn old_blend_mixes_by_alpha() {
    let mut b = SimpleBuffer::new(1, 1);
    b.put_pixel(0, 0, Color::rgba(200, 100, 0, 255));
    b.blend_pixel_old(0, 0, Color::rgba(0, 255, 255, 51));
    // 200 * 204 / 255 + 0 = 160; 100 * 204 / 255 + 255 * 51 / 255 = 80 + 51
    assert_eq!(px(&b, 0, 0), [160, 131, 51, 255]);
}

#[test]
fn blend_over_opaque_and_transparent() {
    let mut b = SimpleBuffer::new(2, 1);
    b.put_pixel(0, 0, Color::rgba(100, 100, 100, 255));
    b.blend_pixel(0, 0, Color::rgba(200, 0, 50, 255));
    assert_eq!(px(&b, 0, 0), [200, 0, 50, 255]);
    b.blend_pixel(0, 0, Color::rgba(0, 0, 0, 0));
    assert_eq!(px(&b, 0, 0), [200, 0, 50, 255]);
    b.blend_pixel(1, 0, Color::rgba(10, 20, 30, 128));
    assert_eq!(px(&b, 1, 0), [10, 20, 30, 128]);
}

#[test]
fn rectangles() {
    let mut b = SimpleBuffer::new(4, 4);
    rect(&mut b, 1, 1, 2, 3, Color::rgb(9, 9, 9));
    assert_eq!(px(&b, 0, 0), [0, 0, 0, 0]);
    assert_eq!(px(&b, 1, 1), [9, 9, 9, 255]);
    assert_eq!(px(&b, 2, 3), [9, 9, 9, 255]);
    assert_eq!(px(&b, 3, 3), [0, 0, 0, 0]);
    blend_rect(&mut b, 0, 0, 4, 1, Color::rgba(50, 60, 70, 255));
    assert_eq!(px(&b, 3, 0), [50, 60, 70, 255]);
    assert_eq!(px(&b, 1, 1), [9, 9, 9, 255]);
}

#[test]
fn blitting_tints_and_composites() {
    let mut src = SimpleBuffer::new(1, 1);
    src.put_pixel(0, 0, Color::rgba(255, 255, 255, 255));
    let mut dst = SimpleBuffer::new(3, 3);
    dst.put_pixel(1, 1, Color::rgba(10, 10, 10, 255));
    blit(&mut dst, &src, 1, 1, Color::rgba(100, 150, 200, 255));
    assert_eq!(px(&dst, 1, 1), [100, 150, 200, 255]);
    assert_eq!(px(&dst, 0, 0), [0, 0, 0, 0]);
    let mut clear = SimpleBuffer::new(1, 1);
    clear.put_pixel(0, 0, Color::rgba(255, 255, 255, 0));
    blit(&mut dst, &clear, 2, 2, Color::rgb(255, 255, 255));
    assert_eq!(px(&dst, 2, 2), [0, 0, 0, 255]);
}

#[test]
fn characters_and_text() {
    let font = solid_font();
    let mut b = SimpleBuffer::new(8, 2);
    char(&mut b, &font, 0, 0, 'A', Color::rgb(255, 255, 255));
    assert_eq!(px(&b, 0, 0), [65, 0, 0, 255]);
    let mut c = SimpleBuffer::new(8, 2);
    char(&mut c, &font, 0, 0, '\u{7}', Color::rgb(255, 255, 255));
    assert_eq!(px(&c, 0, 0), [0, 0, 0, 0]);
    let mut t = SimpleBuffer::new(8, 2);
    text(&mut t, &font, 0, 0, "abc", Color::rgb(255, 255, 255));
    assert_eq!(px(&t, 0, 0)[0], b'a');
    assert_eq!(px(&t, 2, 0)[0], b'b');
    assert_eq!(px(&t, 4, 0)[0], b'c');
    assert_eq!(px(&t, 6, 0), [0, 0, 0, 0]);
}

#[test]
fn hex_digits() {
    let font = solid_font();
    let mut b = SimpleBuffer::new(8, 2);
    hex(&mut b, &font, 0, 0, 0x1AF, 3, Color::rgb(255, 255, 255));
    assert_eq!(px(&b, 0, 0)[0], b'1');
    assert_eq!(px(&b, 2, 0)[0], b'A');
    assert_eq!(px(&b, 4, 0)[0], b'F');
}

#[test]
fn canvas_from_rgba() {
    let data: Vec<u8> = (0..24).collect();
    let b = SimpleBuffer::from_rgba(&data, 3, 2);
    assert_eq!(px(&b, 1, 1), [16, 17, 18, 19]);
}

#[test]
fn register_labels_and_colors() {
    assert_eq!(cpu_register_label(0x2002), "PPUSTATUS");
    assert_eq!(cpu_register_label(0x4014), "OAMDMA");
    assert_eq!(cpu_register_label(0x1234), "");
    assert_eq!(cpu_register_color(0x2000).data, [255, 94, 94, 255]);
    assert_eq!(cpu_register_color(0x4010).data, [255, 192, 0, 255]);
    assert_eq!(cpu_register_color(0x4017).data, [255, 0, 255, 255]);
    assert_eq!(cpu_register_color(0x4016).data, [192, 192, 192, 255]);
}

#[test]
fn color_box() {
    let mut b = SimpleBuffer::new(20, 20);
    draw_color_box(&mut b, 2, 2, Color::rgb(1, 2, 3));
    assert_eq!(px(&b, 2, 2), [255, 255, 255, 255]);
    assert_eq!(px(&b, 17, 17), [255, 255, 255, 255]);
    assert_eq!(px(&b, 3, 3), [1, 2, 3, 255]);
    assert_eq!(px(&b, 16, 16), [1, 2, 3, 255]);
    assert_eq!(px(&b, 18, 18), [0, 0, 0, 0]);
}

#[test]
fn pattern_tiles() {
    let palette: [u8; 16] = [0, 0, 0, 255, 10, 10, 10, 255, 20, 20, 20, 255, 30, 30, 30, 255];
    let mut tile = [0u8; 16];
    tile[0] = 0b1000_0001;
    tile[8] = 0b1100_0000;
    let mut b = SimpleBuffer::new(8, 8);
    draw_tile(&tile, &mut b, 0, 0, &palette);
    assert_eq!(px(&b, 0, 0), [30, 30, 30, 255]);
    assert_eq!(px(&b, 1, 0), [20, 20, 20, 255]);
    assert_eq!(px(&b, 7, 0), [10, 10, 10, 255]);
    assert_eq!(px(&b, 3, 3), [0, 0, 0, 255]);

    let mut pattern = vec![0u8; 4096];
    // tile 17 (second row, second column): every pixel of its first row is color 1
    pattern[17 * 16] = 0xFF;
    let mut canvas = SimpleBuffer::new(128, 128);
    generate_chr_pattern(&pattern, &mut canvas, 0, 0);
    assert_eq!(px(&canvas, 8, 8), [192, 192, 192, 255]);
    assert_eq!(px(&canvas, 15, 8), [192, 192, 192, 255]);
    assert_eq!(px(&canvas, 8, 9), [255, 255, 255, 255]);
    assert_eq!(px(&canvas, 0, 0), [255, 255, 255, 255]);
}

#[test]
fn doubled_tile() {
    let palette: [u8; 16] = [0, 0, 0, 255, 10, 10, 10, 255, 20, 20, 20, 255, 30, 30, 30, 255];
    let mut tile = [0u8; 16];
    tile[1] = 0b0100_0000;
    let mut b = SimpleBuffer::new(16, 16);
    draw_2x_tile(&tile, &mut b, 0, 0, &palette);
    assert_eq!(px(&b, 2, 2), [10, 10, 10, 255]);
    assert_eq!(px(&b, 3, 3), [10, 10, 10, 255]);
    assert_eq!(px(&b, 1, 2), [0, 0, 0, 255]);
    assert_eq!(px(&b, 2, 1), [0, 0, 0, 255]);
}

#[test]
fn longest_string() {
    assert_eq!(longest(&vec![]), 0);
    assert_eq!(longest(&vec!["ab".to_string(), "\u{e9}\u{e9}".to_string(), "c".to_string()]), 4);
}
