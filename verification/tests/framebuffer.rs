use vibekeys::framebuffer::{new_lcd_text_buffer, Color, Pixel, Point, SSD1306Framebuffer128x32};

#[test]
fn new_buffer_is_dark() {
    let fb = new_lcd_text_buffer();
    assert_eq!(fb.data().len(), 512);
    assert!(fb.data().iter().all(|b| *b == 0));
    assert_eq!(fb.size(), (128, 32));
    assert_eq!(SSD1306Framebuffer128x32::new().data(), fb.data());
}

#[test]
fn clear_fills_every_byte() {
    let mut fb = new_lcd_text_buffer();
    fb.clear(Color::On);
    assert!(fb.data().iter().all(|b| *b == 0xff));
    fb.clear(Color::Off);
    assert!(fb.data().iter().all(|b| *b == 0));
}

#[test]
fn set_pixel_uses_the_page_layout() {
    let mut fb = new_lcd_text_buffer();
    fb.set_pixel(Point { x: 0, y: 0 }, Color::On);
    assert_eq!(fb.data()[0], 0x01);
    fb.set_pixel(Point { x: 0, y: 7 }, Color::On);
    assert_eq!(fb.data()[0], 0x81);
    fb.set_pixel(Point { x: 5, y: 8 }, Color::On);
    assert_eq!(fb.data()[128 + 5], 0x01);
    fb.set_pixel(Point { x: 127, y: 31 }, Color::On);
    assert_eq!(fb.data()[511], 0x80);
    fb.set_pixel(Point { x: 3, y: 18 }, Color::On);
    assert_eq!(fb.data()[2 * 128 + 3], 0x04);
    fb.set_pixel(Point { x: 0, y: 0 }, Color::Off);
    assert_eq!(fb.data()[0], 0x80);
    let lit: u32 = fb.data().iter().map(|b| b.count_ones()).sum();
    assert_eq!(lit, 4);
}

#[test]
fn set_pixel_off_the_display_changes_nothing() {
    let mut fb = new_lcd_text_buffer();
    fb.clear(Color::On);
    for p in [
        Point { x: -1, y: 0 },
        Point { x: 128, y: 0 },
        Point { x: 0, y: -1 },
        Point { x: 0, y: 32 },
        Point { x: i32::MIN, y: i32::MAX },
    ] {
        fb.set_pixel(p, Color::Off);
    }
    assert!(fb.data().iter().all(|b| *b == 0xff));
}

#[test]
fn draw_iter_sets_pixels_in_order() {
    let mut fb = new_lcd_text_buffer();
    let pixels = vec![
        Pixel(Point { x: 1, y: 1 }, Color::On),
        Pixel(Point { x: 2, y: 9 }, Color::On),
        Pixel(Point { x: 200, y: 9 }, Color::On),
        Pixel(Point { x: 1, y: 1 }, Color::Off),
        Pixel(Point { x: 1, y: 2 }, Color::On),
    ];
    fb.draw_iter(&pixels);
    assert_eq!(fb.data()[1], 0x04);
    assert_eq!(fb.data()[128 + 2], 0x02);
    let lit: u32 = fb.data().iter().map(|b| b.count_ones()).sum();
    assert_eq!(lit, 2);
}
