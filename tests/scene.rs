use wireframe::asset::{
    fixed_from_f32_bits, read_indices, read_positions, BufferView, ComponentType, NodeDesc,
    PrimitiveDesc,
};
use wireframe::color::Color;
use wireframe::fixed::UNIT;
use wireframe::framebuffer::Framebuffer;
use wireframe::geometry::Vec3;
use wireframe::mesh::triangles_to_lines_index;
use wireframe::model::{LoadError, Mesh, Model};
use wireframe::transform::{identity, local_transform, multiply, Quat};

const U: i32 = UNIT as i32;
const NO_TURN: Quat = Quat { x: 0, y: 0, z: 0, w: U };
const ONES: Vec3 = Vec3 { x: U, y: U, z: U };
const ZERO: Vec3 = Vec3 { x: 0, y: 0, z: 0 };

fn pairs(flat: &[u32]) -> Vec<(u32, u32)> {
    flat.chunks(2).map(|p| (p[0], p[1])).collect()
}

#[test]
fn tetrahedron_has_six_edges() {
    let tris = vec![0, 1, 2, 0, 1, 3, 0, 2, 3, 1, 2, 3];
    let lines = triangles_to_lines_index(&tris);
    assert_eq!(lines.len(), 12);
    let mut got = pairs(&lines);
    got.sort();
    assert_eq!(got, vec![(0, 1), (0, 2), (0, 3), (1, 2), (1, 3), (2, 3)]);
}

#[test]
fn edges_are_ordered_and_kept_in_first_seen_order() {
    let lines = triangles_to_lines_index(&vec![5, 2, 9, 9, 2, 7, 1]);
    assert_eq!(pairs(&lines), vec![(2, 5), (5, 9), (2, 9), (2, 7), (7, 9)]);
    assert!(triangles_to_lines_index(&vec![]).is_empty());
    assert!(triangles_to_lines_index(&vec![1, 2]).is_empty());
}

#[test]
fn indices_of_each_width_are_widened() {
    let buffer = vec![9, 1, 2, 3, 4, 0xff, 0xfe, 0, 0];
    let view = BufferView { offset: 1, length: 4 };
    assert_eq!(read_indices(&buffer, &view, ComponentType::U8), Ok(vec![1, 2, 3, 4]));
    let view = BufferView { offset: 2, length: 4 };
    assert_eq!(read_indices(&buffer, &view, ComponentType::U16), Ok(vec![0x0302, 0xff04]));
    let view = BufferView { offset: 4, length: 4 };
    assert_eq!(read_indices(&buffer, &view, ComponentType::U32), Ok(vec![0x00feff04]));
}

#[test]
fn unreadable_index_views_are_errors() {
    let buffer = vec![0u8; 8];
    let view = BufferView { offset: 0, length: 4 };
    assert_eq!(read_indices(&buffer, &view, ComponentType::F32), Err(LoadError::UnsupportedIndexType));
    assert_eq!(read_indices(&buffer, &view, ComponentType::I16), Err(LoadError::UnsupportedIndexType));
    let view = BufferView { offset: 6, length: 4 };
    assert_eq!(read_indices(&buffer, &view, ComponentType::U8), Err(LoadError::ViewOutOfBounds));
    let view = BufferView { offset: 1, length: 4 };
    assert_eq!(read_indices(&buffer, &view, ComponentType::U16), Err(LoadError::MisalignedView));
    let view = BufferView { offset: 0, length: 6 };
    assert_eq!(read_indices(&buffer, &view, ComponentType::U32), Err(LoadError::MisalignedView));
    let view = BufferView { offset: 2, length: 3 };
    assert_eq!(view.look(&buffer), Ok(vec![0, 0, 0]));
}

fn square() -> Vec<Vec3> {
    let h = U / 2;
    vec![
        Vec3 { x: -U, y: -U, z: 0 },
        Vec3 { x: h, y: -U, z: 0 },
        Vec3 { x: h, y: h, z: 0 },
        Vec3 { x: -U, y: h, z: 0 },
    ]
}

fn node(name: &str, mesh: Option<Vec<PrimitiveDesc>>, children: Vec<NodeDesc>) -> NodeDesc {
    NodeDesc {
        name: name.to_string(),
        translation: ZERO,
        rotation: NO_TURN,
        scale: ONES,
        mesh,
        children,
    }
}

/// The square's positions as `f32` triples, then its two triangles as bytes.
fn square_buffer() -> Vec<u8> {
    let mut b = Vec::new();
    for (x, y) in [(-1.0f32, -1.0f32), (0.5, -1.0), (0.5, 0.5), (-1.0, 0.5)] {
        b.extend_from_slice(&x.to_le_bytes());
        b.extend_from_slice(&y.to_le_bytes());
        b.extend_from_slice(&0.0f32.to_le_bytes());
    }
    b.extend_from_slice(&[0, 1, 2, 0, 2, 3]);
    b
}

fn square_primitive() -> PrimitiveDesc {
    PrimitiveDesc {
        positions: Some(BufferView { offset: 0, length: 48 }),
        indices: BufferView { offset: 48, length: 6 },
        index_type: ComponentType::U8,
    }
}

#[test]
fn positions_are_read_from_f32_triples() {
    assert_eq!(read_positions(&square_buffer(), &BufferView { offset: 0, length: 48 }), Ok(square()));
    let b = square_buffer();
    assert_eq!(read_positions(&b, &BufferView { offset: 12, length: 12 }), Ok(vec![square()[1]]));
    assert_eq!(read_positions(&b, &BufferView { offset: 2, length: 12 }), Err(LoadError::MisalignedView));
    assert_eq!(read_positions(&b, &BufferView { offset: 0, length: 13 }), Err(LoadError::MisalignedView));
    assert_eq!(read_positions(&b, &BufferView { offset: 48, length: 12 }), Err(LoadError::ViewOutOfBounds));
}

#[test]
fn f32_bits_become_fixed_point_like_a_saturating_cast() {
    assert_eq!(fixed_from_f32_bits(1.0f32.to_bits()), U);
    assert_eq!(fixed_from_f32_bits((-2.5f32).to_bits()), -5 * U / 2);
    assert_eq!(fixed_from_f32_bits(1e-6f32.to_bits()), 0);
    assert_eq!(fixed_from_f32_bits(f32::NAN.to_bits()), 0);
    assert_eq!(fixed_from_f32_bits(f32::INFINITY.to_bits()), i32::MAX);
    assert_eq!(fixed_from_f32_bits(f32::NEG_INFINITY.to_bits()), i32::MIN);
    assert_eq!(fixed_from_f32_bits(1e10f32.to_bits()), i32::MAX);
    assert_eq!(fixed_from_f32_bits((-32768.0f32).to_bits()), i32::MIN);
    let mut b: u64 = 0;
    while b <= u32::MAX as u64 {
        let bits = b as u32;
        assert_eq!(fixed_from_f32_bits(bits), (f32::from_bits(bits) * 65536.0) as i32, "bits {:#x}", bits);
        b += 65521;
    }
}

#[test]
fn mesh_rejects_out_of_range_triangles() {
    assert!(matches!(Mesh::from_triangles(square(), &vec![0, 1, 4]), Err(LoadError::IndexOutOfRange)));
    assert!(Mesh::from_triangles(square(), &vec![0, 1, 2, 9]).is_ok());
}

#[test]
fn loading_reports_construction_errors() {
    let buffer = square_buffer();
    let two = node("a", Some(vec![square_primitive(), square_primitive()]), vec![]);
    assert_eq!(Model::from_node(&two, &buffer, Color(1, 1, 1)).err(), Some(LoadError::MultiplePrimitives));
    let mut p = square_primitive();
    p.positions = None;
    let missing = node("a", Some(vec![p]), vec![]);
    assert_eq!(Model::from_node(&missing, &buffer, Color(1, 1, 1)).err(), Some(LoadError::MissingPositions));
    let mut p = square_primitive();
    p.index_type = ComponentType::F32;
    let bad_type = node("root", None, vec![node("a", Some(vec![p]), vec![])]);
    assert_eq!(Model::from_node(&bad_type, &buffer, Color(1, 1, 1)).err(), Some(LoadError::UnsupportedIndexType));
    let mut p = square_primitive();
    p.positions = Some(BufferView { offset: 0, length: 60 });
    let bad_view = node("a", Some(vec![p]), vec![]);
    assert_eq!(Model::from_node(&bad_view, &buffer, Color(1, 1, 1)).err(), Some(LoadError::ViewOutOfBounds));
    let mut p = square_primitive();
    p.positions = Some(BufferView { offset: 0, length: 36 });
    let three_vertices = node("a", Some(vec![p]), vec![]);
    assert_eq!(Model::from_node(&three_vertices, &buffer, Color(1, 1, 1)).err(), Some(LoadError::IndexOutOfRange));
}

#[test]
fn loaded_tree_draws_each_mesh_under_its_world_transform() {
    let buffer = square_buffer();
    let mut child = node("child", Some(vec![square_primitive()]), vec![]);
    // the child sits one unit further down the screen's y axis: off screen
    child.translation = Vec3 { x: 0, y: 4 * U, z: 0 };
    let root = node("root", Some(vec![square_primitive()]), vec![child]);
    let model = Model::from_node(&root, &buffer, Color(0, 0, 255)).unwrap();
    assert_eq!(model.name(), "root");
    assert_eq!(model.children().len(), 1);
    let mut fb = Framebuffer::new(4, 4);
    model.draw(&mut fb, &identity(), &identity());
    let mut lit = Vec::new();
    for y in 0..4 {
        for x in 0..4 {
            if fb.pixel(x, y) != Color(0, 0, 0) {
                lit.push((x, y));
            }
        }
    }
    // outline of the square from (0,0) to (3,3), the diagonal from edge (0, 2)
    assert_eq!(
        lit,
        vec![(0, 0), (1, 0), (2, 0), (3, 0), (0, 1), (1, 1), (3, 1), (0, 2), (2, 2), (3, 2), (0, 3), (1, 3), (2, 3), (3, 3)]
    );
}

#[test]
fn set_child_color_recolors_matching_nodes_only() {
    let tree = node("a", None, vec![node("b", None, vec![node("a", None, vec![])]), node("c", None, vec![])]);
    let mut model = Model::from_node(&tree, &vec![], Color(1, 1, 1)).unwrap();
    model.set_child_color("a", Color(9, 9, 9));
    assert_eq!(model.color(), Color(9, 9, 9));
    assert_eq!(model.children()[0].color(), Color(1, 1, 1));
    assert_eq!(model.children()[0].children()[0].color(), Color(9, 9, 9));
    assert_eq!(model.children()[1].color(), Color(1, 1, 1));
    model.set_color(Color(2, 2, 2));
    assert_eq!(model.color(), Color(2, 2, 2));
}

#[test]
fn setters_replace_local_transform_parts() {
    let mut model = Model::from_node(&node("n", None, vec![]), &vec![], Color(1, 1, 1)).unwrap();
    model.set_translation(Vec3 { x: 1, y: 2, z: 3 });
    model.set_rotation(Quat { x: 0, y: 0, z: U, w: 0 });
    model.set_scale(Vec3 { x: 2 * U, y: U, z: U });
    assert_eq!(model.translation(), Vec3 { x: 1, y: 2, z: 3 });
    assert_eq!(model.rotation(), Quat { x: 0, y: 0, z: U, w: 0 });
    assert_eq!(model.scale(), Vec3 { x: 2 * U, y: U, z: U });
    // half a turn about z, x scaled by 2, then translated
    let m = model.model_matrix();
    assert_eq!(m.m, [-2 * U, 0, 0, 1, 0, -U, 0, 2, 0, 0, U, 3, 0, 0, 0, U]);
}

#[test]
fn matrix_product_composes_transforms() {
    let t = local_transform(&Vec3 { x: U, y: 0, z: 0 }, &NO_TURN, &ONES);
    let s = local_transform(&ZERO, &NO_TURN, &Vec3 { x: 2 * U, y: 2 * U, z: 2 * U });
    let ts = multiply(&t, &s);
    assert_eq!(ts.m, [2 * U, 0, 0, U, 0, 2 * U, 0, 0, 0, 0, 2 * U, 0, 0, 0, 0, U]);
    let st = multiply(&s, &t);
    assert_eq!(st.m, [2 * U, 0, 0, 2 * U, 0, 2 * U, 0, 0, 0, 0, 2 * U, 0, 0, 0, 0, U]);
    assert_eq!(multiply(&identity(), &st).m, st.m);
}
