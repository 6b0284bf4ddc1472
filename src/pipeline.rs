//! The per-frame pipeline: model-space vertices through the geometry stages
//! into depth-tested segments on a framebuffer.
use vstd::prelude::*;

use crate::color::Color;
use crate::framebuffer::{lemma_plot_all_wf, FrameView, Framebuffer};
use crate::geometry::{
    clip_of, is_rejected, ndc_of, perspective_divide, rejected, screen_of, transform_vertex,
    viewport_transform, Mat4, Vec3, Vec4,
};
use crate::raster::{draw_line, line_points};

verus! {

/// Clip-space images of all vertices, in order.
pub open spec fn clip_all(m: Seq<i32>, data: Seq<Vec3>) -> Seq<Vec4> {
    Seq::new(data.len(), |i: int| clip_of(m, data[i]))
}

/// Candidate pixels that the segment between clip-space points `a` and `b`
/// contributes on a `width` by `height` screen: none if it is rejected or if
/// an endpoint has no perspective divide, else those of its screen-space
/// image.
pub open spec fn segment_points(a: Vec4, b: Vec4, width: int, height: int) -> Seq<(int, int, int)> {
    if rejected(a, b) || a.w == 0 || b.w == 0 {
        Seq::empty()
    } else {
        line_points(screen_of(ndc_of(a), width, height), screen_of(ndc_of(b), width, height))
    }
}

/// The framebuffer after drawing each segment of `segs` in order.
pub open spec fn draw_segments(v: FrameView, segs: Seq<(Vec4, Vec4)>, c: Color) -> FrameView
    decreases segs.len(),
{
    if segs.len() == 0 {
        v
    } else {
        let s = segs.last();
        draw_segments(v, segs.drop_last(), c).plot_all(
            segment_points(s.0, s.1, v.width, v.height),
            c,
        )
    }
}

/// Drawing segments keeps the size of a framebuffer and of its buffers.
pub proof fn lemma_draw_segments_wf(v: FrameView, segs: Seq<(Vec4, Vec4)>, c: Color)
    requires
        v.wf(),
    ensures
        draw_segments(v, segs, c).wf(),
        draw_segments(v, segs, c).width == v.width,
        draw_segments(v, segs, c).height == v.height,
    decreases segs.len(),
{
    if segs.len() > 0 {
        let s = segs.last();
        lemma_draw_segments_wf(v, segs.drop_last(), c);
        lemma_plot_all_wf(
            draw_segments(v, segs.drop_last(), c),
            segment_points(s.0, s.1, v.width, v.height),
            c,
        );
    }
}

/// Disjoint segments: vertices `2i` and `2i + 1`; an odd last vertex is
/// left out.
pub open spec fn list_segments(clip: Seq<Vec4>) -> Seq<(Vec4, Vec4)> {
    Seq::new(clip.len() / 2, |i: int| (clip[2 * i], clip[2 * i + 1]))
}

/// A polyline: vertices `i` and `i + 1`.
pub open spec fn strip_segments(clip: Seq<Vec4>) -> Seq<(Vec4, Vec4)> {
    if clip.len() == 0 {
        Seq::empty()
    } else {
        Seq::new((clip.len() - 1) as nat, |i: int| (clip[i], clip[i + 1]))
    }
}

/// Consecutive entries of an index buffer taken two by two; an odd last entry
/// is left out.
pub open spec fn index_pairs(idx: Seq<u32>) -> Seq<(u32, u32)> {
    Seq::new(idx.len() / 2, |i: int| (idx[2 * i], idx[2 * i + 1]))
}

/// The segments that index pairs name in a vertex array.
pub open spec fn pair_segments(clip: Seq<Vec4>, pairs: Seq<(u32, u32)>) -> Seq<(Vec4, Vec4)> {
    Seq::new(pairs.len(), |i: int| (clip[pairs[i].0 as int], clip[pairs[i].1 as int]))
}

/// The index pairs whose segments survive trivial rejection, in order.
pub open spec fn kept_pairs(clip: Seq<Vec4>, pairs: Seq<(u32, u32)>) -> Seq<(u32, u32)>
    decreases pairs.len(),
{
    if pairs.len() == 0 {
        Seq::empty()
    } else {
        let p = pairs.last();
        let rest = kept_pairs(clip, pairs.drop_last());
        if rejected(clip[p.0 as int], clip[p.1 as int]) {
            rest
        } else {
            rest.push(p)
        }
    }
}

/// Transform stage: the clip-space image of every vertex, index for index.
pub fn transform_data(data: &Vec<Vec3>, transform: &Mat4) -> (r: Vec<Vec4>)
    ensures
        r@ == clip_all(transform@, data@),
{
    let mut r: Vec<Vec4> = Vec::with_capacity(data.len());
    let mut i: usize = 0;
    while i < data.len()
        invariant
            i <= data@.len(),
            r@ =~= clip_all(transform@, data@.take(i as int)),
        decreases data@.len() - i,
    {
        r.push(transform_vertex(transform, data[i]));
        i = i + 1;
        assert(r@ =~= clip_all(transform@, data@.take(i as int)));
    }
    assert(data@.take(i as int) =~= data@);
    r
}

/// Trivial rejection stage: the index pairs whose segments survive, in order
/// and unchanged.
pub fn clip_lines(vertices: &Vec<Vec4>, indexes: &Vec<u32>) -> (r: Vec<(u32, u32)>)
    requires
        forall|i: int| 0 <= i < 2 * (indexes@.len() / 2) ==> indexes@[i] < vertices@.len(),
    ensures
        r@ == kept_pairs(vertices@, index_pairs(indexes@)),
{
    let ghost pairs = index_pairs(indexes@);
    let mut r: Vec<(u32, u32)> = Vec::new();
    let len: usize = indexes.len();
    let n: usize = len / 2;
    let mut i: usize = 0;
    while i < n
        invariant
            len == indexes@.len(),
            n == indexes@.len() / 2,
            pairs == index_pairs(indexes@),
            forall|j: int| 0 <= j < 2 * (indexes@.len() / 2) ==> indexes@[j] < vertices@.len(),
            i <= n,
            r@ == kept_pairs(vertices@, pairs.take(i as int)),
        decreases n - i,
    {
        assert(2 * i + 1 < indexes@.len());
        let a = indexes[2 * i];
        let b = indexes[2 * i + 1];
        assert(pairs.take(i + 1).drop_last() =~= pairs.take(i as int));
        if !is_rejected(&vertices[a as usize], &vertices[b as usize]) {
            r.push((a, b));
        }
        i = i + 1;
    }
    assert(pairs.take(n as int) =~= pairs);
    r
}

/// Draws the segment between two clip-space points: trivial rejection,
/// perspective divide, viewport transform, then the depth-tested line.
pub fn draw_segment(fb: &mut Framebuffer, a: &Vec4, b: &Vec4, color: Color)
    requires
        old(fb).wf(),
    ensures
        final(fb).wf(),
        final(fb)@ == old(fb)@.plot_all(
            segment_points(*a, *b, old(fb)@.width, old(fb)@.height),
            color,
        ),
{
    if is_rejected(a, b) {
        return ;
    }
    match (perspective_divide(a), perspective_divide(b)) {
        (Some(na), Some(nb)) => {
            let w = fb.width();
            let h = fb.height();
            let from = viewport_transform(&na, w, h);
            let to = viewport_transform(&nb, w, h);
            draw_line(fb, from, to, color);
        },
        _ => {},
    }
}

/// Draws each segment of `segs` with `draw_segment`, in order.
fn draw_all(fb: &mut Framebuffer, segs: &Vec<(Vec4, Vec4)>, color: Color)
    requires
        old(fb).wf(),
    ensures
        final(fb).wf(),
        final(fb)@ == draw_segments(old(fb)@, segs@, color),
{
    let mut i: usize = 0;
    while i < segs.len()
        invariant
            fb.wf(),
            i <= segs@.len(),
            fb@.width == old(fb)@.width,
            fb@.height == old(fb)@.height,
            fb@ == draw_segments(old(fb)@, segs@.take(i as int), color),
        decreases segs@.len() - i,
    {
        let (a, b) = segs[i];
        assert(segs@.take(i + 1).drop_last() =~= segs@.take(i as int));
        proof {
            lemma_plot_all_wf(fb@, segment_points(a, b, fb@.width, fb@.height), color);
        }
        draw_segment(fb, &a, &b, color);
        i = i + 1;
    }
    assert(segs@.take(i as int) =~= segs@);
}

/// Rejected pairs draw nothing, so drawing only the kept pairs draws the same
/// as drawing them all.
proof fn lemma_kept_pairs_draw_same(
    v: FrameView,
    clip: Seq<Vec4>,
    pairs: Seq<(u32, u32)>,
    c: Color,
)
    requires
        forall|i: int|
            0 <= i < pairs.len() ==> pairs[i].0 < clip.len() && pairs[i].1 < clip.len(),
    ensures
        draw_segments(v, pair_segments(clip, kept_pairs(clip, pairs)), c) == draw_segments(
            v,
            pair_segments(clip, pairs),
            c,
        ),
        forall|i: int|
            0 <= i < kept_pairs(clip, pairs).len() ==> kept_pairs(clip, pairs)[i].0 < clip.len()
                && kept_pairs(clip, pairs)[i].1 < clip.len(),
    decreases pairs.len(),
{
    if pairs.len() > 0 {
        let rest = pairs.drop_last();
        let p = pairs.last();
        lemma_kept_pairs_draw_same(v, clip, rest, c);
        let k = kept_pairs(clip, rest);
        assert(pair_segments(clip, pairs).drop_last() =~= pair_segments(clip, rest));
        if rejected(clip[p.0 as int], clip[p.1 as int]) {
            assert(segment_points(clip[p.0 as int], clip[p.1 as int], v.width, v.height)
                =~= Seq::empty());
        } else {
            assert(pair_segments(clip, k.push(p)).drop_last() =~= pair_segments(clip, k));
        }
    }
}

/// Draws disjoint segments: vertices `2i` and `2i + 1` of `data`, under
/// `transform`.
pub fn draw_line_list(fb: &mut Framebuffer, data: &Vec<Vec3>, transform: &Mat4, color: Color)
    requires
        old(fb).wf(),
    ensures
        final(fb).wf(),
        final(fb)@ == draw_segments(old(fb)@, list_segments(clip_all(transform@, data@)), color),
{
    let clip = transform_data(data, transform);
    let len: usize = clip.len();
    let n: usize = len / 2;
    let mut segs: Vec<(Vec4, Vec4)> = Vec::with_capacity(n);
    let mut i: usize = 0;
    while i < n
        invariant
            len == clip@.len(),
            n == len / 2,
            i <= n,
            segs@ =~= list_segments(clip@).take(i as int),
        decreases n - i,
    {
        segs.push((clip[2 * i], clip[2 * i + 1]));
        i = i + 1;
    }
    assert(segs@ =~= list_segments(clip@));
    draw_all(fb, &segs, color);
}

/// Draws a polyline through the vertices of `data`, under `transform`.
pub fn draw_line_strip(fb: &mut Framebuffer, data: &Vec<Vec3>, transform: &Mat4, color: Color)
    requires
        old(fb).wf(),
    ensures
        final(fb).wf(),
        final(fb)@ == draw_segments(old(fb)@, strip_segments(clip_all(transform@, data@)), color),
{
    let clip = transform_data(data, transform);
    let len: usize = clip.len();
    let mut segs: Vec<(Vec4, Vec4)> = Vec::new();
    if len > 0 {
        let mut i: usize = 0;
        while i + 1 < len
            invariant
                len == clip@.len(),
                len > 0,
                i + 1 <= len,
                segs@ =~= strip_segments(clip@).take(i as int),
            decreases len - i,
        {
            segs.push((clip[i], clip[i + 1]));
            i = i + 1;
        }
    }
    assert(segs@ =~= strip_segments(clip@));
    draw_all(fb, &segs, color);
}

/// Draws the segments that consecutive pairs of `indexes` name in `vertexes`,
/// under `transform`: the wireframe of a mesh whose edge buffer references a
/// shared vertex array.
pub fn draw_line_list_indexed(
    fb: &mut Framebuffer,
    vertexes: &Vec<Vec3>,
    indexes: &Vec<u32>,
    transform: &Mat4,
    color: Color,
)
    requires
        old(fb).wf(),
        forall|i: int| 0 <= i < 2 * (indexes@.len() / 2) ==> indexes@[i] < vertexes@.len(),
    ensures
        final(fb).wf(),
        final(fb)@ == draw_segments(
            old(fb)@,
            pair_segments(clip_all(transform@, vertexes@), index_pairs(indexes@)),
            color,
        ),
{
    let clip = transform_data(vertexes, transform);
    let kept = clip_lines(&clip, indexes);
    proof {
        assert forall|i: int| 0 <= i < index_pairs(indexes@).len() implies index_pairs(
            indexes@,
        )[i].0 < clip@.len() && index_pairs(indexes@)[i].1 < clip@.len() by {
            assert(indexes@[2 * i] < vertexes@.len());
            assert(indexes@[2 * i + 1] < vertexes@.len());
        }
        lemma_kept_pairs_draw_same(fb@, clip@, index_pairs(indexes@), color);
    }
    let mut segs: Vec<(Vec4, Vec4)> = Vec::with_capacity(kept.len());
    let mut i: usize = 0;
    while i < kept.len()
        invariant
            i <= kept@.len(),
            forall|j: int|
                0 <= j < kept@.len() ==> kept@[j].0 < clip@.len() && kept@[j].1 < clip@.len(),
            segs@ =~= pair_segments(clip@, kept@).take(i as int),
        decreases kept@.len() - i,
    {
        let (a, b) = kept[i];
        segs.push((clip[a as usize], clip[b as usize]));
        i = i + 1;
    }
    assert(segs@ =~= pair_segments(clip@, kept@));
    draw_all(fb, &segs, color);
}

/// Trivial rejection drops a segment whose endpoints both lie beyond the
/// same frustum plane, on any axis and either side: it draws nothing. A
/// segment whose endpoints both lie within `[-w, w]` on every axis survives,
/// and goes on unchanged to the perspective divide and the viewport.
pub proof fn lemma_trivial_rejection(a: Vec4, b: Vec4, width: int, height: int)
    ensures
        (a.x > a.w && b.x > b.w) ==> rejected(a, b),
        (-a.x > a.w && -b.x > b.w) ==> rejected(a, b),
        (a.y > a.w && b.y > b.w) ==> rejected(a, b),
        (-a.y > a.w && -b.y > b.w) ==> rejected(a, b),
        (a.z > a.w && b.z > b.w) ==> rejected(a, b),
        (-a.z > a.w && -b.z > b.w) ==> rejected(a, b),
        rejected(a, b) ==> segment_points(a, b, width, height) == Seq::<(int, int, int)>::empty(),
        (within_frustum(a) && within_frustum(b)) ==> !rejected(a, b),
        (within_frustum(a) && within_frustum(b) && a.w != 0 && b.w != 0) ==> segment_points(
            a,
            b,
            width,
            height,
        ) == line_points(screen_of(ndc_of(a), width, height), screen_of(ndc_of(b), width, height)),
{
}

/// Every coordinate lies within `[-w, w]`.
pub open spec fn within_frustum(c: Vec4) -> bool {
    &&& -c.w <= c.x <= c.w
    &&& -c.w <= c.y <= c.w
    &&& -c.w <= c.z <= c.w
}

} // verus!
