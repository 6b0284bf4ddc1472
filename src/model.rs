//! The scene graph: a tree of nodes, each with a local transform, an optional
//! wireframe mesh and the children it owns.
use vstd::prelude::*;

use crate::asset::{
    decoded_indices, decoded_positions, index_view_error, position_view_error, read_indices,
    read_positions, view_bytes, NodeDesc, PrimitiveDesc,
};
use crate::color::Color;
use crate::framebuffer::{lemma_plot_all_wf, FrameView, Framebuffer};
use crate::geometry::{Mat4, Vec3};
use crate::mesh::{mesh_edges, triangles_to_lines_index};
use crate::pipeline::{
    clip_all, draw_line_list_indexed, draw_segments, index_pairs, lemma_draw_segments_wf,
    pair_segments,
};
use crate::transform::{local_matrix, local_transform, mat_mul, multiply, Quat};

verus! {

/// Why a scene could not be built from an asset.
#[derive(Clone, Copy, Debug, PartialEq, Eq, Structural)]
pub enum LoadError {
    /// The mesh has no position attribute.
    MissingPositions,
    /// The mesh has other than exactly one primitive.
    MultiplePrimitives,
    /// The index buffer's element type is not an unsigned 8, 16 or 32-bit
    /// integer.
    UnsupportedIndexType,
    /// A view reaches past the end of its buffer.
    ViewOutOfBounds,
    /// A view does not start on a whole element, or does not hold a whole
    /// number of them.
    MisalignedView,
    /// A triangle names a vertex that the position buffer does not hold.
    IndexOutOfRange,
}

/// A wireframe mesh: vertex positions and a deduplicated edge buffer whose
/// entries `2i` and `2i + 1` name the two ends of edge `i`.
pub struct Mesh {
    positions: Vec<Vec3>,
    edges: Vec<u32>,
}

/// Every index of the complete triangles of `tris` names one of `n` vertices.
pub open spec fn triangles_in_range(tris: Seq<u32>, n: int) -> bool {
    forall|i: int| 0 <= i < 3 * (tris.len() / 3) ==> tris[i] < n
}

impl Mesh {
    #[verifier::type_invariant]
    spec fn inv(&self) -> bool {
        forall|i: int| 0 <= i < self.edges@.len() ==> self.edges@[i] < self.positions@.len()
    }

    pub closed spec fn positions(&self) -> Seq<Vec3> {
        self.positions@
    }

    pub closed spec fn edges(&self) -> Seq<u32> {
        self.edges@
    }

    /// Builds the wireframe of an indexed triangle list: its deduplicated
    /// edges over the given positions. Fails when a triangle names a vertex
    /// outside `positions`.
    pub fn from_triangles(positions: Vec<Vec3>, triangles: &Vec<u32>) -> (r: Result<
        Mesh,
        LoadError,
    >)
        ensures
            r is Ok <==> triangles_in_range(triangles@, positions@.len() as int),
            !(r is Ok) ==> r == Err::<Mesh, LoadError>(LoadError::IndexOutOfRange),
            r matches Ok(m) ==> {
                &&& m.positions() == positions@
                &&& m.edges().len() % 2 == 0
                &&& index_pairs(m.edges()).no_duplicates()
                &&& index_pairs(m.edges()).to_set() == mesh_edges(triangles@)
                &&& forall|i: int|
                    0 <= i < index_pairs(m.edges()).len() ==> #[trigger] index_pairs(
                        m.edges(),
                    )[i].0 <= index_pairs(m.edges())[i].1
            },
    {
        let len: usize = triangles.len();
        let n: usize = 3 * (len / 3);
        let mut i: usize = 0;
        while i < n
            invariant
                len == triangles@.len(),
                n == 3 * (len / 3),
                i <= n,
                forall|j: int| 0 <= j < i ==> triangles@[j] < positions@.len(),
            decreases n - i,
        {
            if triangles[i] as usize >= positions.len() {
                return Err(LoadError::IndexOutOfRange);
            }
            i = i + 1;
        }
        let edges = triangles_to_lines_index(triangles);
        proof {
            assert forall|k: int| 0 <= k < edges@.len() implies edges@[k] < positions@.len() by {
                lemma_edges_in_range(triangles@, positions@.len() as int, edges@, k);
            }
        }
        Ok(Mesh { positions, edges })
    }
}

/// Why the mesh part of a node description cannot be built, if it cannot:
/// other than one primitive, no positions, an unreadable position view, an
/// unreadable index view, or a triangle naming a vertex that is not there,
/// checked in this order.
pub open spec fn mesh_error(mesh: Option<Vec<PrimitiveDesc>>, buffer: Seq<u8>) -> Option<LoadError> {
    match mesh {
        None => None,
        Some(ps) => if ps@.len() != 1 {
            Some(LoadError::MultiplePrimitives)
        } else {
            let p = ps@[0];
            match p.positions {
                None => Some(LoadError::MissingPositions),
                Some(pv) => match position_view_error(buffer, pv) {
                    Some(e) => Some(e),
                    None => match index_view_error(buffer, p.indices, p.index_type) {
                        Some(e) => Some(e),
                        None => if triangles_in_range(
                            decoded_indices(view_bytes(buffer, p.indices), p.index_type),
                            decoded_positions(view_bytes(buffer, pv)).len() as int,
                        ) {
                            None
                        } else {
                            Some(LoadError::IndexOutOfRange)
                        },
                    },
                },
            }
        },
    }
}

/// The first error met when building the subtree of a node description
/// top-down, children in order, if any.
pub open spec fn node_error(desc: NodeDesc, buffer: Seq<u8>) -> Option<LoadError>
    decreases desc, 0int,
{
    match mesh_error(desc.mesh, buffer) {
        Some(e) => Some(e),
        None => children_error(desc.children, desc.children@.len() as int, buffer),
    }
}

/// The first error met when building the first `k` of `kids`, if any.
pub open spec fn children_error(kids: Vec<NodeDesc>, k: int, buffer: Seq<u8>) -> Option<LoadError>
    decreases kids, k,
{
    if k <= 0 || k > kids@.len() {
        None
    } else {
        match children_error(kids, k - 1, buffer) {
            Some(e) => Some(e),
            None => node_error(kids[k - 1], buffer),
        }
    }
}

/// `mesh` is the wireframe of the one primitive of `ps`: its positions and
/// the deduplicated edges of its triangles.
pub open spec fn mesh_loaded(ps: Vec<PrimitiveDesc>, mesh: Mesh, buffer: Seq<u8>) -> bool {
    let p = ps@[0];
    &&& p.positions matches Some(pv) && mesh.positions() == decoded_positions(view_bytes(buffer, pv))
    &&& mesh.edges().len() % 2 == 0
    &&& index_pairs(mesh.edges()).no_duplicates()
    &&& index_pairs(mesh.edges()).to_set() == mesh_edges(
        decoded_indices(view_bytes(buffer, p.indices), p.index_type),
    )
}

/// `m` is the scene node built from `desc` in color `c`: same name and
/// local transform, the wireframe of its mesh, and children built from its
/// children, in order.
pub open spec fn loaded(desc: NodeDesc, m: Model, buffer: Seq<u8>, c: Color) -> bool
    decreases desc, 0int,
{
    &&& m@.name == desc.name@
    &&& m@.color == c
    &&& m@.translation == desc.translation
    &&& m@.rotation == desc.rotation
    &&& m@.scale == desc.scale
    &&& match desc.mesh {
        None => m@.mesh is None,
        Some(ps) => m@.mesh matches Some(mesh) && mesh_loaded(ps, mesh, buffer),
    }
    &&& m@.children@.len() == desc.children@.len()
    &&& children_loaded(desc.children, m@.children@, desc.children@.len() as int, buffer, c)
}

/// The first `k` of `models` are built from the first `k` of `kids`.
pub open spec fn children_loaded(
    kids: Vec<NodeDesc>,
    models: Seq<Model>,
    k: int,
    buffer: Seq<u8>,
    c: Color,
) -> bool
    decreases kids, k,
{
    if k <= 0 || k > kids@.len() {
        true
    } else {
        &&& children_loaded(kids, models, k - 1, buffer, c)
        &&& loaded(kids[k - 1], models[k - 1], buffer, c)
    }
}

/// Once the children built so far have failed, building more of them
/// keeps the same first error.
proof fn lemma_children_error_stays(kids: Vec<NodeDesc>, k: int, k2: int, buffer: Seq<u8>)
    requires
        0 <= k <= k2 <= kids@.len(),
        children_error(kids, k, buffer) is Some,
    ensures
        children_error(kids, k2, buffer) == children_error(kids, k, buffer),
    decreases k2,
{
    if k2 > k {
        lemma_children_error_stays(kids, k, k2 - 1, buffer);
    }
}

/// Whether the first `k` children are built depends on the first `k`
/// models only.
proof fn lemma_children_loaded_prefix(
    kids: Vec<NodeDesc>,
    models: Seq<Model>,
    models2: Seq<Model>,
    k: int,
    buffer: Seq<u8>,
    c: Color,
)
    requires
        0 <= k <= models.len(),
        k <= models2.len(),
        forall|j: int| 0 <= j < k ==> models[j] == models2[j],
        children_loaded(kids, models, k, buffer, c),
    ensures
        children_loaded(kids, models2, k, buffer, c),
    decreases k,
{
    if k > 0 && k <= kids@.len() {
        lemma_children_loaded_prefix(kids, models, models2, k - 1, buffer, c);
    }
}

/// What a scene node holds, children as they are.
pub struct ModelView {
    pub name: Seq<char>,
    pub color: Color,
    pub mesh: Option<Mesh>,
    pub translation: Vec3,
    pub rotation: Quat,
    pub scale: Vec3,
    pub children: Vec<Model>,
}

/// A scene node: a name, a color, a local translation, rotation and scale, an
/// optional wireframe mesh, and the child nodes it owns.
pub struct Model {
    name: String,
    color: Color,
    mesh: Option<Mesh>,
    translation: Vec3,
    rotation: Quat,
    scale: Vec3,
    children: Vec<Model>,
}

impl View for Model {
    type V = ModelView;

    closed spec fn view(&self) -> ModelView {
        ModelView {
            name: self.name@,
            color: self.color,
            mesh: self.mesh,
            translation: self.translation,
            rotation: self.rotation,
            scale: self.scale,
            children: self.children,
        }
    }
}

/// The framebuffer after drawing a mesh's edges in color `c` under the
/// combined transform `m`.
pub open spec fn mesh_drawn(v: FrameView, mesh: Mesh, m: Seq<i32>, c: Color) -> FrameView {
    draw_segments(v, pair_segments(clip_all(m, mesh.positions()), index_pairs(mesh.edges())), c)
}

impl Model {
    /// Builds the scene node of a node description and, recursively, of its
    /// children, all in color `color`, reading index buffers out of `buffer`.
    /// Fails with the first error met, top-down.
    pub fn from_node(node: &NodeDesc, buffer: &Vec<u8>, color: Color) -> (r: Result<Model, LoadError>)
        ensures
            node_error(*node, buffer@) matches Some(e) ==> r == Err::<Model, LoadError>(e),
            node_error(*node, buffer@) is None ==> (r matches Ok(m) && loaded(*node, m, buffer@, color)),
        decreases node,
    {
        let mesh: Option<Mesh> = match &node.mesh {
            None => None,
            Some(ps) => {
                if ps.len() != 1 {
                    return Err(LoadError::MultiplePrimitives);
                }
                let p = &ps[0];
                let positions = match &p.positions {
                    None => {
                        return Err(LoadError::MissingPositions);
                    },
                    Some(pv) => match read_positions(buffer, pv) {
                        Ok(v) => v,
                        Err(e) => {
                            return Err(e);
                        },
                    },
                };
                let tris = match read_indices(buffer, &p.indices, p.index_type) {
                    Ok(t) => t,
                    Err(e) => {
                        return Err(e);
                    },
                };
                match Mesh::from_triangles(positions, &tris) {
                    Ok(m) => Some(m),
                    Err(e) => {
                        return Err(e);
                    },
                }
            },
        };
        let n: usize = node.children.len();
        let mut children: Vec<Model> = Vec::with_capacity(n);
        let mut i: usize = 0;
        while i < n
            invariant
                n == node.children@.len(),
                i <= n,
                mesh_error(node.mesh, buffer@) is None,
                children_error(node.children, i as int, buffer@) is None,
                children@.len() == i,
                children_loaded(node.children, children@, i as int, buffer@, color),
            decreases n - i,
        {
            let child = match Model::from_node(&node.children[i], buffer, color) {
                Ok(m) => m,
                Err(e) => {
                    proof {
                        lemma_children_error_stays(node.children, i + 1, n as int, buffer@);
                    }
                    return Err(e);
                },
            };
            let ghost before = children@;
            children.push(child);
            proof {
                lemma_children_loaded_prefix(node.children, before, children@, i as int, buffer@, color);
            }
            i = i + 1;
        }
        Ok(Model {
            name: node.name.clone(),
            color,
            mesh,
            translation: node.translation,
            rotation: node.rotation,
            scale: node.scale,
            children,
        })
    }

    /// The world transform of this node under a parent's world transform:
    /// `parent * translate(T) * rotate(R) * scale(S)`.
    pub open spec fn world(&self, parent: Seq<i32>) -> Seq<i32> {
        mat_mul(parent, local_matrix(self@.translation, self@.rotation, self@.scale))
    }

    /// The framebuffer after drawing this node's own mesh, if it has one,
    /// under `camera * world`.
    pub open spec fn own_drawn(&self, v: FrameView, camera: Seq<i32>, parent: Seq<i32>) -> FrameView {
        match self@.mesh {
            Some(mesh) => mesh_drawn(v, mesh, mat_mul(camera, self.world(parent)), self@.color),
            None => v,
        }
    }

    /// The framebuffer after drawing the subtree of this node, top-down: the
    /// node's own mesh, then each child's subtree in order, each under this
    /// node's world transform.
    pub open spec fn drawn(&self, v: FrameView, camera: Seq<i32>, parent: Seq<i32>) -> FrameView
        decreases self, 0int,
    {
        Model::children_drawn(
            self@.children,
            self@.children@.len() as int,
            self.own_drawn(v, camera, parent),
            camera,
            self.world(parent),
        )
    }

    /// The framebuffer after drawing the subtrees of the first `k` of `kids`,
    /// in order, under the parent world transform `parent`.
    pub open spec fn children_drawn(
        kids: Vec<Model>,
        k: int,
        v: FrameView,
        camera: Seq<i32>,
        parent: Seq<i32>,
    ) -> FrameView
        decreases kids, k,
    {
        if k <= 0 || k > kids@.len() {
            v
        } else {
            kids[k - 1].drawn(Model::children_drawn(kids, k - 1, v, camera, parent), camera, parent)
        }
    }

    pub proof fn lemma_drawn_wf(&self, v: FrameView, camera: Seq<i32>, parent: Seq<i32>)
        requires
            v.wf(),
        ensures
            self.drawn(v, camera, parent).wf(),
            self.drawn(v, camera, parent).width == v.width,
            self.drawn(v, camera, parent).height == v.height,
        decreases self, 0int,
    {
        if let Some(mesh) = self@.mesh {
            lemma_draw_segments_wf(
                v,
                pair_segments(
                    clip_all(mat_mul(camera, self.world(parent)), mesh.positions()),
                    index_pairs(mesh.edges()),
                ),
                self@.color,
            );
        }
        Model::lemma_children_drawn_wf(
            self.children,
            self.children@.len() as int,
            self.own_drawn(v, camera, parent),
            camera,
            self.world(parent),
        );
    }

    pub proof fn lemma_children_drawn_wf(
        kids: Vec<Model>,
        k: int,
        v: FrameView,
        camera: Seq<i32>,
        parent: Seq<i32>,
    )
        requires
            v.wf(),
        ensures
            Model::children_drawn(kids, k, v, camera, parent).wf(),
            Model::children_drawn(kids, k, v, camera, parent).width == v.width,
            Model::children_drawn(kids, k, v, camera, parent).height == v.height,
        decreases kids, k,
    {
        if 0 < k <= kids@.len() {
            Model::lemma_children_drawn_wf(kids, k - 1, v, camera, parent);
            kids[k - 1].lemma_drawn_wf(
                Model::children_drawn(kids, k - 1, v, camera, parent),
                camera,
                parent,
            );
        }
    }

    /// Draws the subtree of this node under the parent world transform
    /// `parent`: first this node's mesh under `camera * world`, then each
    /// child's subtree under `world`, where
    /// `world = parent * translate(T) * rotate(R) * scale(S)`.
    pub fn draw(&self, fb: &mut Framebuffer, camera: &Mat4, parent: &Mat4)
        requires
            old(fb).wf(),
        ensures
            final(fb).wf(),
            final(fb)@ == self.drawn(old(fb)@, camera@, parent@),
        decreases self,
    {
        let local = local_transform(&self.translation, &self.rotation, &self.scale);
        let world = multiply(parent, &local);
        match &self.mesh {
            Some(mesh) => {
                proof {
                    use_type_invariant(mesh);
                }
                let transform = multiply(camera, &world);
                draw_line_list_indexed(fb, &mesh.positions, &mesh.edges, &transform, self.color);
            },
            None => {},
        }
        let ghost start = fb@;
        assert(start == self.own_drawn(old(fb)@, camera@, parent@));
        let mut i: usize = 0;
        while i < self.children.len()
            invariant
                fb.wf(),
                start.wf(),
                i <= self.children@.len(),
                fb@ == Model::children_drawn(self.children, i as int, start, camera@, world@),
            decreases self.children@.len() - i,
        {
            proof {
                Model::lemma_children_drawn_wf(self.children, i as int, start, camera@, world@);
            }
            self.children[i].draw(fb, camera, &world);
            i = i + 1;
        }
        assert(fb@ == self.drawn(old(fb)@, camera@, parent@));
    }

    /// `after` is `before` with every node of the subtree whose name is
    /// `name` recolored to `c`, and nothing else changed.
    pub open spec fn recolored(before: Model, after: Model, name: Seq<char>, c: Color) -> bool
        decreases before, 0int,
    {
        &&& after@.name == before@.name
        &&& after@.mesh == before@.mesh
        &&& after@.translation == before@.translation
        &&& after@.rotation == before@.rotation
        &&& after@.scale == before@.scale
        &&& after@.color == if before@.name == name {
            c
        } else {
            before@.color
        }
        &&& after@.children@.len() == before@.children@.len()
        &&& Model::children_recolored(
            before@.children,
            after@.children,
            before@.children@.len() as int,
            name,
            c,
        )
    }

    /// The first `k` subtrees of `after` are those of `before`, recolored.
    pub open spec fn children_recolored(
        before: Vec<Model>,
        after: Vec<Model>,
        k: int,
        name: Seq<char>,
        c: Color,
    ) -> bool
        decreases before, k,
    {
        if k <= 0 || k > before@.len() {
            true
        } else {
            &&& Model::children_recolored(before, after, k - 1, name, c)
            &&& Model::recolored(before[k - 1], after[k - 1], name, c)
        }
    }

    proof fn lemma_children_recolored(
        before: Vec<Model>,
        after: Vec<Model>,
        k: int,
        name: Seq<char>,
        c: Color,
    )
        requires
            0 <= k <= before@.len(),
            forall|j: int|
                0 <= j < k ==> #[trigger] Model::recolored(before[j], after[j], name, c),
        ensures
            Model::children_recolored(before, after, k, name, c),
        decreases k,
    {
        if k > 0 {
            Model::lemma_children_recolored(before, after, k - 1, name, c);
            assert(Model::recolored(before[k - 1], after[k - 1], name, c));
        }
    }

    /// Sets this node's color.
    pub fn set_color(&mut self, color: Color)
        ensures
            final(self)@ == (ModelView { color, ..old(self)@ }),
    {
        self.color = color;
    }

    /// Sets the color of every node of this subtree, this node included,
    /// whose name is `name`.
    pub fn set_child_color(&mut self, name: &str, color: Color)
        ensures
            Model::recolored(*old(self), *final(self), name@, color),
    {
        let target = name.to_owned();
        self.recolor(&target, color);
    }

    fn recolor(&mut self, name: &String, color: Color)
        ensures
            Model::recolored(*old(self), *final(self), name@, color),
        decreases *old(self),
    {
        if self.name == *name {
            self.color = color;
        }
        let n: usize = self.children.len();
        let mut i: usize = 0;
        while i < n
            invariant
                n == self.children@.len(),
                n == old(self).children@.len(),
                i <= n,
                self.name == old(self).name,
                self.mesh == old(self).mesh,
                self.translation == old(self).translation,
                self.rotation == old(self).rotation,
                self.scale == old(self).scale,
                self.color == if old(self).name@ == name@ {
                    color
                } else {
                    old(self).color
                },
                forall|j: int|
                    0 <= j < i ==> #[trigger] Model::recolored(
                        old(self).children[j],
                        self.children[j],
                        name@,
                        color,
                    ),
                forall|j: int| i <= j < n ==> self.children[j] == old(self).children[j],
            decreases n - i,
        {
            self.children[i].recolor(name, color);
            i = i + 1;
        }
        assert(self.children@.len() == old(self).children@.len());
        proof {
            Model::lemma_children_recolored(old(self).children, self.children, n as int, name@, color);
        }
    }

    /// Sets this node's local translation.
    pub fn set_translation(&mut self, translation: Vec3)
        ensures
            final(self)@ == (ModelView { translation, ..old(self)@ }),
    {
        self.translation = translation;
    }

    /// Sets this node's local rotation.
    pub fn set_rotation(&mut self, rotation: Quat)
        ensures
            final(self)@ == (ModelView { rotation, ..old(self)@ }),
    {
        self.rotation = rotation;
    }

    /// Sets this node's local scale.
    pub fn set_scale(&mut self, scale: Vec3)
        ensures
            final(self)@ == (ModelView { scale, ..old(self)@ }),
    {
        self.scale = scale;
    }

    pub fn translation(&self) -> (r: Vec3)
        ensures
            r == self@.translation,
    {
        self.translation
    }

    pub fn rotation(&self) -> (r: Quat)
        ensures
            r == self@.rotation,
    {
        self.rotation
    }

    pub fn scale(&self) -> (r: Vec3)
        ensures
            r == self@.scale,
    {
        self.scale
    }

    pub fn color(&self) -> (r: Color)
        ensures
            r == self@.color,
    {
        self.color
    }

    pub fn name(&self) -> (r: &str)
        ensures
            r@ == self@.name,
    {
        self.name.as_str()
    }

    /// The children of this node, in order.
    pub fn children(&self) -> (r: &Vec<Model>)
        ensures
            *r == self@.children,
    {
        &self.children
    }

    /// This node's local transform `translate(T) * rotate(R) * scale(S)`.
    pub fn model_matrix(&self) -> (r: Mat4)
        ensures
            r@ == local_matrix(self@.translation, self@.rotation, self@.scale),
    {
        local_transform(&self.translation, &self.rotation, &self.scale)
    }
}

/// Each entry of an edge buffer is an end of an edge of some complete
/// triangle, so it is in range when those are.
proof fn lemma_edges_in_range(tris: Seq<u32>, n: int, edges: Seq<u32>, k: int)
    requires
        triangles_in_range(tris, n),
        edges.len() % 2 == 0,
        index_pairs(edges).to_set() == mesh_edges(tris),
        0 <= k < edges.len(),
    ensures
        edges[k] < n,
{
    let p = index_pairs(edges)[k / 2];
    assert(index_pairs(edges).contains(p));
    assert(mesh_edges(tris).contains(p));
    lemma_edge_ends_in_range(tris, n, (tris.len() / 3) as int, p);
}

proof fn lemma_edge_ends_in_range(tris: Seq<u32>, n: int, t: int, p: (u32, u32))
    requires
        triangles_in_range(tris, n),
        0 <= t <= tris.len() / 3,
        crate::mesh::edges_of_first(tris, t).contains(p),
    ensures
        p.0 < n,
        p.1 < n,
    decreases t,
{
    if t > 0 && !crate::mesh::edges_of_first(tris, t - 1).contains(p) {
        assert(tris[3 * (t - 1)] < n);
        assert(tris[3 * (t - 1) + 1] < n);
        assert(tris[3 * (t - 1) + 2] < n);
    } else if t > 0 {
        lemma_edge_ends_in_range(tris, n, t - 1, p);
    }
}

} // verus!
