use wireframe::color::{Color, Palette};
use wireframe::framebuffer::{Framebuffer, DEPTH_CLEAR};

fn assert_cleared(fb: &Framebuffer, c: Color) {
    for y in 0..fb.height() {
        for x in 0..fb.width() {
            assert_eq!(fb.pixel(x, y), c);
            assert_eq!(fb.depth_at(x, y), DEPTH_CLEAR);
        }
    }
}

#[test]
fn new_then_clear_fills_both_buffers() {
    let mut fb = Framebuffer::new(5, 3);
    assert_eq!(fb.width(), 5);
    assert_eq!(fb.height(), 3);
    assert_cleared(&fb, Color(0, 0, 0));
    fb.clear(Color(1, 2, 3));
    assert_cleared(&fb, Color(1, 2, 3));
    assert_eq!(fb.as_slice().len(), 5 * 3 * 3);
}

#[test]
fn resize_then_clear_fills_both_buffers() {
    let mut fb = Framebuffer::new(2, 2);
    fb.set_pixel(1, 1, Color(9, 9, 9));
    fb.resize(4, 7);
    assert_eq!(fb.width(), 4);
    assert_eq!(fb.height(), 7);
    assert_cleared(&fb, Color(0, 0, 0));
    fb.clear(Color(200, 100, 50));
    assert_cleared(&fb, Color(200, 100, 50));
    assert_eq!(fb.as_slice().len(), 4 * 7 * 3);
}

#[test]
fn resize_does_not_keep_old_contents() {
    let mut fb = Framebuffer::new(3, 3);
    fb.set_pixel(0, 0, Color(5, 5, 5));
    fb.resize(3, 3);
    assert_eq!(fb.pixel(0, 0), Color(0, 0, 0));
}

#[test]
fn empty_framebuffer() {
    let mut fb = Framebuffer::new(0, 4);
    fb.clear(Color(1, 1, 1));
    assert!(fb.as_slice().is_empty());
}

#[test]
fn pixels_are_indexed_row_major_and_distinct() {
    let mut fb = Framebuffer::new(3, 2);
    for y in 0..2 {
        for x in 0..3 {
            fb.set_pixel(x, y, Color(x as u8, y as u8, 7));
        }
    }
    for y in 0..2 {
        for x in 0..3 {
            assert_eq!(fb.pixel(x, y), Color(x as u8, y as u8, 7));
        }
    }
    let bytes = fb.as_slice();
    assert_eq!(
        bytes,
        vec![0, 0, 7, 1, 0, 7, 2, 0, 7, 0, 1, 7, 1, 1, 7, 2, 1, 7]
    );
}

#[test]
fn as_slice_is_three_bytes_per_pixel() {
    let mut fb = Framebuffer::new(2, 1);
    fb.clear(Color(10, 20, 30));
    fb.set_pixel(1, 0, Color(40, 50, 60));
    assert_eq!(fb.as_slice(), vec![10, 20, 30, 40, 50, 60]);
}

#[test]
fn put_pixel_respects_bounds_range_and_depth() {
    let mut fb = Framebuffer::new(2, 2);
    fb.put_pixel_if_possible(1, 1, 100, Color(1, 0, 0));
    assert_eq!(fb.pixel(1, 1), Color(1, 0, 0));
    assert_eq!(fb.depth_at(1, 1), 100);
    fb.put_pixel_if_possible(1, 1, 200, Color(2, 0, 0));
    assert_eq!(fb.pixel(1, 1), Color(1, 0, 0));
    fb.put_pixel_if_possible(1, 1, 100, Color(3, 0, 0));
    assert_eq!(fb.pixel(1, 1), Color(3, 0, 0));
    fb.put_pixel_if_possible(2, 0, 0, Color(4, 0, 0));
    fb.put_pixel_if_possible(-1, 0, 0, Color(4, 0, 0));
    fb.put_pixel_if_possible(0, 0, -1, Color(4, 0, 0));
    fb.put_pixel_if_possible(0, 0, 65537, Color(4, 0, 0));
    assert_eq!(fb.pixel(0, 0), Color(0, 0, 0));
    fb.put_pixel_if_possible(0, 0, 65536, Color(5, 0, 0));
    assert_eq!(fb.pixel(0, 0), Color(5, 0, 0));
}

#[test]
fn palette_presets() {
    assert_eq!(Color::named(Palette::Cyan), Color(0, 255, 255));
    assert_eq!(Color::named(Palette::Magenta), Color(255, 0, 255));
    assert_eq!(Palette::Gainsboro.to_color(), Color(220, 220, 220));
    assert_eq!(Color::default(), Color(0, 0, 0));
}

#[test]
fn calculate_index_is_row_major() {
    let fb = Framebuffer::new(4, 3);
    assert_eq!(fb.calculate_index(0, 0), 0);
    assert_eq!(fb.calculate_index(3, 0), 3);
    assert_eq!(fb.calculate_index(0, 1), 4);
    assert_eq!(fb.calculate_index(3, 2), 11);
    let mut seen = std::collections::HashSet::new();
    for y in 0..3 {
        for x in 0..4 {
            assert!(seen.insert(fb.calculate_index(x, y)));
        }
    }
}
