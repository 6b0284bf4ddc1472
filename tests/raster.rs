use wireframe::color::Color;
use wireframe::fixed::{floor_div, UNIT};
use wireframe::framebuffer::Framebuffer;
use wireframe::raster::{draw_line, ScreenPoint};

const RED: Color = Color(255, 0, 0);
const GREEN: Color = Color(0, 255, 0);
const CLEAR: Color = Color(0, 0, 0);

fn lit(fb: &Framebuffer) -> Vec<(usize, usize)> {
    let mut r = Vec::new();
    for y in 0..fb.height() {
        for x in 0..fb.width() {
            if fb.pixel(x, y) != CLEAR {
                r.push((x, y));
            }
        }
    }
    r
}

fn p(x: i32, y: i32, z: i64) -> ScreenPoint {
    ScreenPoint { x, y, z }
}

#[test]
fn floor_division_rounds_down() {
    assert_eq!(floor_div(7, 2), 3);
    assert_eq!(floor_div(-7, 2), -4);
    assert_eq!(floor_div(-8, 2), -4);
    assert_eq!(floor_div(0, 5), 0);
}

#[test]
fn shallow_line_steps_along_x_with_rounding() {
    let mut fb = Framebuffer::new(8, 4);
    draw_line(&mut fb, p(0, 0, 0), p(4, 1, 0), RED);
    // y offset after k steps is k/4 rounded half up: 0, 0, 1, 1, 1
    assert_eq!(lit(&fb), vec![(0, 0), (1, 0), (2, 1), (3, 1), (4, 1)]);
}

#[test]
fn shallow_line_drawn_backwards_starts_at_smaller_x() {
    let mut fb = Framebuffer::new(8, 4);
    draw_line(&mut fb, p(4, 1, 0), p(0, 0, 0), RED);
    // walk from (0, 0) toward (4, 1): same pixels
    assert_eq!(lit(&fb), vec![(0, 0), (1, 0), (2, 1), (3, 1), (4, 1)]);
}

#[test]
fn steep_line_steps_along_y() {
    let mut fb = Framebuffer::new(4, 8);
    draw_line(&mut fb, p(3, 0, 0), p(1, 4, 0), RED);
    let mut got = lit(&fb);
    got.sort_by_key(|&(x, y)| (y, x));
    // x offset after k steps is -(2k/4 rounded half up): 0, -1, -1, -2, -2
    assert_eq!(got, vec![(3, 0), (2, 1), (2, 2), (1, 3), (1, 4)]);
}

#[test]
fn vertical_line_covers_every_row() {
    let mut fb = Framebuffer::new(3, 5);
    draw_line(&mut fb, p(1, 4, 0), p(1, 0, 0), RED);
    let mut got = lit(&fb);
    got.sort();
    assert_eq!(got, vec![(1, 0), (1, 1), (1, 2), (1, 3), (1, 4)]);
}

#[test]
fn zero_length_segment_draws_nothing() {
    let mut fb = Framebuffer::new(3, 3);
    draw_line(&mut fb, p(1, 1, 0), p(1, 1, 0), RED);
    assert!(lit(&fb).is_empty());
}

#[test]
fn depth_is_interpolated_per_major_step() {
    let mut fb = Framebuffer::new(5, 1);
    draw_line(&mut fb, p(0, 0, 0), p(4, 0, 4000), RED);
    assert_eq!(fb.depth_at(0, 0), 0);
    assert_eq!(fb.depth_at(1, 0), 1000);
    assert_eq!(fb.depth_at(2, 0), 2000);
    assert_eq!(fb.depth_at(4, 0), 4000);
    let mut fb = Framebuffer::new(4, 1);
    draw_line(&mut fb, p(0, 0, 10), p(3, 0, 0), RED);
    // 10 + floor(k * -10 / 3)
    assert_eq!(fb.depth_at(1, 0), 6);
    assert_eq!(fb.depth_at(2, 0), 3);
    assert_eq!(fb.depth_at(3, 0), 0);
}

#[test]
fn pixels_outside_depth_range_are_skipped() {
    let mut fb = Framebuffer::new(4, 1);
    draw_line(&mut fb, p(0, 0, -2 * UNIT), p(3, 0, UNIT), RED);
    // depths -2U, -U, 0, U: only the last two are in range
    assert_eq!(lit(&fb), vec![(2, 0), (3, 0)]);
}

#[test]
fn nearer_segment_wins_in_either_order() {
    let za = UNIT / 5;
    let zb = UNIT * 4 / 5;
    let mut fb = Framebuffer::new(4, 1);
    draw_line(&mut fb, p(0, 0, za), p(3, 0, za), RED);
    draw_line(&mut fb, p(0, 0, zb), p(3, 0, zb), GREEN);
    assert_eq!(fb.pixel(1, 0), RED);
    let mut fb = Framebuffer::new(4, 1);
    draw_line(&mut fb, p(0, 0, zb), p(3, 0, zb), GREEN);
    draw_line(&mut fb, p(0, 0, za), p(3, 0, za), RED);
    assert_eq!(fb.pixel(1, 0), RED);
}

#[test]
fn equal_depth_later_draw_wins() {
    let z = UNIT / 2;
    let mut fb = Framebuffer::new(4, 1);
    draw_line(&mut fb, p(0, 0, z), p(3, 0, z), RED);
    draw_line(&mut fb, p(0, 0, z), p(3, 0, z), GREEN);
    assert_eq!(fb.pixel(2, 0), GREEN);
}

#[test]
fn nearer_segment_wins_where_two_segments_cross() {
    let za = UNIT / 5;
    let zb = UNIT * 4 / 5;
    // a horizontal and a vertical segment crossing at (2, 2)
    let mut fb = Framebuffer::new(5, 5);
    draw_line(&mut fb, p(0, 2, za), p(4, 2, za), RED);
    draw_line(&mut fb, p(2, 0, zb), p(2, 4, zb), GREEN);
    assert_eq!(fb.pixel(2, 2), RED);
    assert_eq!(fb.depth_at(2, 2), za);
    assert_eq!(fb.pixel(2, 0), GREEN);
    let mut fb = Framebuffer::new(5, 5);
    draw_line(&mut fb, p(2, 0, zb), p(2, 4, zb), GREEN);
    draw_line(&mut fb, p(0, 2, za), p(4, 2, za), RED);
    assert_eq!(fb.pixel(2, 2), RED);
    assert_eq!(fb.depth_at(2, 2), za);
}
