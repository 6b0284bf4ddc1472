use wireframe::color::Color;
use wireframe::fixed::UNIT;
use wireframe::framebuffer::Framebuffer;
use wireframe::geometry::{
    is_rejected, perspective_divide, transform_vertex, viewport_transform, Mat4, Ndc, Vec3, Vec4,
};
use wireframe::pipeline::{
    clip_lines, draw_line_list, draw_line_list_indexed, draw_line_strip, draw_segment,
    transform_data,
};
use wireframe::raster::ScreenPoint;
use wireframe::transform::identity;

const U: i32 = UNIT as i32;
const WHITE: Color = Color(255, 255, 255);
const CLEAR: Color = Color(0, 0, 0);

fn v(x: i32, y: i32, z: i32) -> Vec3 {
    Vec3 { x, y, z }
}

fn c(x: i64, y: i64, z: i64, w: i64) -> Vec4 {
    Vec4 { x, y, z, w }
}

fn lit(fb: &Framebuffer) -> Vec<(usize, usize)> {
    let mut r = Vec::new();
    for y in 0..fb.height() {
        for x in 0..fb.width() {
            if fb.pixel(x, y) != CLEAR {
                r.push((x, y));
            }
        }
    }
    r
}

#[test]
fn identity_maps_vertex_to_homogeneous_point() {
    let m = identity();
    assert_eq!(transform_vertex(&m, v(3, -4, 5)), c(3, -4, 5, UNIT as i64));
}

#[test]
fn transform_applies_translation_and_scale() {
    let mut m = identity();
    m.m[0] = 2 * U; // x scaled by 2
    m.m[3] = U; // then moved by 1
    m.m[11] = -U / 2; // z moved by -0.5
    let r = transform_vertex(&m, v(U / 4, U, 0));
    assert_eq!(r, c((U + U / 2) as i64, U as i64, -(U as i64) / 2, U as i64));
    let all = transform_data(&vec![v(0, 0, 0), v(U, 0, 0)], &m);
    assert_eq!(all, vec![c(U as i64, 0, -(U as i64) / 2, U as i64), c(3 * U as i64, 0, -(U as i64) / 2, U as i64)]);
}

#[test]
fn transform_rounds_down() {
    let mut m = identity();
    m.m[0] = U / 2;
    assert_eq!(transform_vertex(&m, v(-3, 0, 0)).x, -2);
    assert_eq!(transform_vertex(&m, v(3, 0, 0)).x, 1);
}

#[test]
fn both_endpoints_beyond_one_plane_are_rejected() {
    let w = 100;
    assert!(is_rejected(&c(150, 0, 0, w), &c(101, 0, 0, w)));
    assert!(is_rejected(&c(-150, 0, 0, w), &c(-101, 0, 0, w)));
    assert!(is_rejected(&c(0, 200, 0, w), &c(0, 300, 0, w)));
    assert!(is_rejected(&c(0, 0, -200, w), &c(0, 0, -300, w)));
    // beyond opposite planes: kept whole
    assert!(!is_rejected(&c(150, 0, 0, w), &c(-150, 0, 0, w)));
    // one endpoint inside: kept
    assert!(!is_rejected(&c(150, 0, 0, w), &c(50, 0, 0, w)));
}

#[test]
fn segments_inside_the_frustum_survive_unchanged() {
    let w = 100;
    let verts = vec![c(-100, 100, 0, w), c(100, -100, 50, w), c(300, 0, 0, w), c(400, 0, 0, w)];
    assert!(!is_rejected(&verts[0], &verts[1]));
    let kept = clip_lines(&verts, &vec![0, 1, 2, 3, 1, 0, 3]);
    assert_eq!(kept, vec![(0, 1), (1, 0)]);
}

#[test]
fn perspective_divide_by_w() {
    let n = perspective_divide(&c(50, -25, 10, 100)).unwrap();
    assert_eq!(n, Ndc { x: UNIT / 2, y: -UNIT / 4, z: UNIT / 10 });
    assert_eq!(perspective_divide(&c(1, 2, 3, 0)), None);
    // rounded toward zero
    let n = perspective_divide(&c(-1, 1, 0, 3)).unwrap();
    assert_eq!(n.x, -(UNIT / 3));
    assert_eq!(n.y, UNIT / 3);
}

#[test]
fn viewport_maps_ndc_corners_to_screen_edges() {
    let s = viewport_transform(&Ndc { x: -UNIT, y: -UNIT, z: 7 }, 4, 6);
    assert_eq!(s, ScreenPoint { x: 0, y: 0, z: 7 });
    let s = viewport_transform(&Ndc { x: UNIT, y: UNIT, z: 0 }, 4, 6);
    assert_eq!(s, ScreenPoint { x: 4, y: 6, z: 0 });
    let s = viewport_transform(&Ndc { x: 0, y: UNIT / 2, z: 0 }, 4, 6);
    assert_eq!(s, ScreenPoint { x: 2, y: 4, z: 0 });
}

#[test]
fn end_to_end_diagonal_on_four_by_four() {
    let mut fb = Framebuffer::new(4, 4);
    fb.clear(CLEAR);
    let data = vec![v(-U, -U, 0), v(U, U, 0)];
    draw_line_list(&mut fb, &data, &identity(), WHITE);
    assert_eq!(lit(&fb), vec![(0, 0), (1, 1), (2, 2), (3, 3)]);
    for i in 0..4 {
        assert_eq!(fb.pixel(i, i), WHITE);
        assert_eq!(fb.depth_at(i, i), 0);
    }
}

#[test]
fn line_list_ignores_odd_last_vertex() {
    let mut fb = Framebuffer::new(4, 4);
    let data = vec![v(-U, -U, 0), v(U, U, 0), v(0, 0, 0)];
    draw_line_list(&mut fb, &data, &identity(), WHITE);
    assert_eq!(lit(&fb), vec![(0, 0), (1, 1), (2, 2), (3, 3)]);
}

#[test]
fn line_strip_connects_consecutive_vertices() {
    let mut fb = Framebuffer::new(4, 4);
    // screen (0,0) -> (3,0) -> (3,3)
    let x3 = U / 2;
    let data = vec![v(-U, -U, 0), v(x3, -U, 0), v(x3, x3, 0)];
    draw_line_strip(&mut fb, &data, &identity(), WHITE);
    let mut got = lit(&fb);
    got.sort();
    assert_eq!(got, vec![(0, 0), (1, 0), (2, 0), (3, 0), (3, 1), (3, 2), (3, 3)]);
}

#[test]
fn indexed_list_draws_named_edges_only() {
    let mut fb = Framebuffer::new(4, 4);
    let x3 = U / 2;
    let verts = vec![v(-U, -U, 0), v(x3, -U, 0), v(x3, x3, 0), v(-U, x3, 0)];
    draw_line_list_indexed(&mut fb, &verts, &vec![0, 1, 2, 3], &identity(), WHITE);
    let mut got = lit(&fb);
    got.sort();
    assert_eq!(
        got,
        vec![(0, 0), (0, 3), (1, 0), (1, 3), (2, 0), (2, 3), (3, 0), (3, 3)]
    );
}

#[test]
fn rejected_or_undividable_segment_draws_nothing() {
    let mut fb = Framebuffer::new(4, 4);
    let w = UNIT;
    draw_segment(&mut fb, &c(2 * w, 0, 0, w), &c(3 * w, w / 2, 0, w), WHITE);
    draw_segment(&mut fb, &c(0, 0, 0, 0), &c(w / 2, w / 2, 0, w), WHITE);
    assert!(lit(&fb).is_empty());
}

#[test]
fn far_coordinates_saturate_on_screen() {
    let s = viewport_transform(&Ndc { x: i64::MAX, y: i64::MIN, z: 0 }, 4, 4);
    assert_eq!((s.x, s.y), (i32::MAX, i32::MIN));
    let s = viewport_transform(&Ndc { x: i64::MAX, y: -3 * UNIT, z: 0 }, 0, 4);
    assert_eq!((s.x, s.y), (0, -4));
}

#[test]
fn trailing_unpaired_index_is_never_read() {
    let w = 100;
    let verts = vec![c(-50, 0, 0, w), c(50, 0, 0, w)];
    assert_eq!(clip_lines(&verts, &vec![0, 1, 99]), vec![(0, 1)]);
    let mut fb = Framebuffer::new(4, 4);
    let data = vec![v(-U, -U, 0), v(U, U, 0)];
    draw_line_list_indexed(&mut fb, &data, &vec![0, 1, 7], &identity(), WHITE);
    assert_eq!(lit(&fb), vec![(0, 0), (1, 1), (2, 2), (3, 3)]);
}
