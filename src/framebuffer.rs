use vstd::prelude::*;

use crate::color::Color;
use crate::fixed::UNIT;

verus! {

/// Depth of a pixel that nothing has been drawn on yet: the largest
/// representable depth, so that anything drawn there is nearer.
pub const DEPTH_CLEAR: i64 = i64::MAX;

/// The mathematical content of a framebuffer: its size and its two row-major
/// buffers.
pub struct FrameView {
    pub width: int,
    pub height: int,
    pub color: Seq<Color>,
    pub depth: Seq<i64>,
}

impl FrameView {
    /// Both buffers hold exactly one cell per pixel, and the number of
    /// pixels fits `usize`.
    pub open spec fn wf(self) -> bool {
        &&& self.width >= 0
        &&& self.height >= 0
        &&& self.width * self.height <= usize::MAX
        &&& self.color.len() == self.width * self.height
        &&& self.depth.len() == self.width * self.height
    }

    /// Row-major position of pixel `(x, y)`.
    pub open spec fn index(self, x: int, y: int) -> int {
        y * self.width + x
    }

    /// Whether a candidate pixel passes the write rule: inside the grid, its
    /// depth in the normalized range `[0, UNIT]`, and not behind what is
    /// already there (a tie passes, so the later draw wins).
    pub open spec fn passes(self, x: int, y: int, z: int) -> bool {
        &&& 0 <= x < self.width
        &&& 0 <= y < self.height
        &&& 0 <= z <= UNIT
        &&& z <= self.depth[self.index(x, y)]
    }

    /// The framebuffer after offering it the candidate pixel `(x, y)` at depth
    /// `z` in color `c`: written, depth and color, if it passes the write
    /// rule, else unchanged.
    pub open spec fn plot(self, x: int, y: int, z: int, c: Color) -> FrameView {
        if self.passes(x, y, z) {
            FrameView {
                color: self.color.update(self.index(x, y), c),
                depth: self.depth.update(self.index(x, y), z as i64),
                ..self
            }
        } else {
            self
        }
    }

    /// The framebuffer after offering it each candidate pixel of `pts` in
    /// order.
    pub open spec fn plot_all(self, pts: Seq<(int, int, int)>, c: Color) -> FrameView
        decreases pts.len(),
    {
        if pts.len() == 0 {
            self
        } else {
            let p = pts.last();
            self.plot_all(pts.drop_last(), c).plot(p.0, p.1, p.2, c)
        }
    }

    /// A framebuffer of the given size holding the default color and the
    /// clear depth everywhere.
    pub open spec fn fresh(width: int, height: int) -> FrameView {
        FrameView {
            width,
            height,
            color: Seq::new((width * height) as nat, |i: int| Color(0, 0, 0)),
            depth: Seq::new((width * height) as nat, |i: int| DEPTH_CLEAR),
        }
    }

    /// The same framebuffer with every pixel set to `c` and every depth reset.
    pub open spec fn cleared(self, c: Color) -> FrameView {
        FrameView {
            width: self.width,
            height: self.height,
            color: Seq::new(self.color.len(), |i: int| c),
            depth: Seq::new(self.depth.len(), |i: int| DEPTH_CLEAR),
        }
    }
}

/// Size of a framebuffer as a number of pixels: `width * height`.
pub open spec fn area(width: usize, height: usize) -> int {
    width as int * height as int
}

/// A color buffer and a depth buffer of `width * height` cells each, indexed
/// row-major.
pub struct Framebuffer {
    color: Vec<Color>,
    depth: Vec<i64>,
    width: usize,
    height: usize,
}

impl View for Framebuffer {
    type V = FrameView;

    closed spec fn view(&self) -> FrameView {
        FrameView {
            width: self.width as int,
            height: self.height as int,
            color: self.color@,
            depth: self.depth@,
        }
    }
}

/// The three bytes of each color, one pixel after the other.
pub open spec fn color_bytes(colors: Seq<Color>) -> Seq<u8> {
    Seq::new(
        3 * colors.len(),
        |i: int|
            if i % 3 == 0 {
                colors[i / 3].0
            } else if i % 3 == 1 {
                colors[i / 3].1
            } else {
                colors[i / 3].2
            },
    )
}

impl Framebuffer {
    pub open spec fn wf(&self) -> bool {
        self@.wf()
    }

    /// Allocates a framebuffer of the default color with no depth drawn.
    pub fn new(width: usize, height: usize) -> (r: Framebuffer)
        requires
            area(width, height) <= usize::MAX,
        ensures
            r.wf(),
            r@ == FrameView::fresh(width as int, height as int),
    {
        let size: usize = width * height;
        let mut color: Vec<Color> = Vec::with_capacity(size);
        let mut depth: Vec<i64> = Vec::with_capacity(size);
        let mut i: usize = 0;
        while i < size
            invariant
                i <= size,
                color@.len() == i,
                depth@.len() == i,
                forall|j: int| 0 <= j < i ==> color@[j] == Color(0, 0, 0),
                forall|j: int| 0 <= j < i ==> depth@[j] == DEPTH_CLEAR,
            decreases size - i,
        {
            color.push(Color::default());
            depth.push(DEPTH_CLEAR);
            i = i + 1;
        }
        let r = Framebuffer { color, depth, width, height };
        assert(r@.color =~= FrameView::fresh(width as int, height as int).color);
        assert(r@.depth =~= FrameView::fresh(width as int, height as int).depth);
        r
    }

    /// Reallocates both buffers for a new size; the old contents are not
    /// kept.
    pub fn resize(&mut self, width: usize, height: usize)
        requires
            area(width, height) <= usize::MAX,
        ensures
            final(self).wf(),
            final(self)@ == FrameView::fresh(width as int, height as int),
    {
        *self = Framebuffer::new(width, height);
    }

    /// Sets every pixel to `color` and every depth back to the clear depth.
    pub fn clear(&mut self, color: Color)
        requires
            old(self).wf(),
        ensures
            final(self).wf(),
            final(self)@ == old(self)@.cleared(color),
    {
        let n: usize = self.color.len();
        let mut i: usize = 0;
        while i < n
            invariant
                self.width == old(self).width,
                self.height == old(self).height,
                n == self.color@.len(),
                self.color@.len() == old(self).color@.len(),
                self.depth@.len() == old(self).depth@.len(),
                old(self).wf(),
                i <= n,
                forall|j: int| 0 <= j < i ==> self.color@[j] == color,
                forall|j: int| 0 <= j < i ==> self.depth@[j] == DEPTH_CLEAR,
            decreases n - i,
        {
            self.color.set(i, color);
            self.depth.set(i, DEPTH_CLEAR);
            i = i + 1;
        }
        assert(self@.color =~= old(self)@.cleared(color).color);
        assert(self@.depth =~= old(self)@.cleared(color).depth);
    }

    /// The color buffer as bytes, three per pixel, row-major: what a
    /// presentation surface uploads.
    pub fn as_slice(&self) -> (r: Vec<u8>)
        requires
            self.wf(),
        ensures
            r@ == color_bytes(self@.color),
    {
        let n: usize = self.color.len();
        let mut r: Vec<u8> = Vec::new();
        let mut i: usize = 0;
        while i < n
            invariant
                n == self.color@.len(),
                self.wf(),
                i <= n,
                r@ =~= color_bytes(self.color@.take(i as int)),
            decreases n - i,
        {
            let c = self.color[i];
            r.push(c.0);
            r.push(c.1);
            r.push(c.2);
            i = i + 1;
            assert(r@ =~= color_bytes(self.color@.take(i as int)));
        }
        assert(self.color@.take(n as int) =~= self.color@);
        r
    }

    pub fn width(&self) -> (r: usize)
        ensures
            r == self@.width,
    {
        self.width
    }

    pub fn height(&self) -> (r: usize)
        ensures
            r == self@.height,
    {
        self.height
    }

    /// Row-major position of pixel `(x, y)` in both buffers: `y * width + x`,
    /// always inside them.
    pub fn calculate_index(&self, x: usize, y: usize) -> (r: usize)
        requires
            self.wf(),
            x < self@.width,
            y < self@.height,
        ensures
            r == self@.index(x as int, y as int),
            r < self@.width * self@.height,
            r < self@.color.len(),
            r < self@.depth.len(),
    {
        proof {
            lemma_index_in_bounds(self.width as int, self.height as int, x as int, y as int);
        }
        y * self.width + x
    }

    /// Color of pixel `(x, y)`.
    pub fn pixel(&self, x: usize, y: usize) -> (r: Color)
        requires
            self.wf(),
            x < self@.width,
            y < self@.height,
        ensures
            r == self@.color[self@.index(x as int, y as int)],
    {
        let i = self.calculate_index(x, y);
        self.color[i]
    }

    /// Depth stored at pixel `(x, y)`.
    pub fn depth_at(&self, x: usize, y: usize) -> (r: i64)
        requires
            self.wf(),
            x < self@.width,
            y < self@.height,
        ensures
            r == self@.depth[self@.index(x as int, y as int)],
    {
        let i = self.calculate_index(x, y);
        self.depth[i]
    }

    /// Offers the candidate pixel `(x, y)` at depth `z`: written, depth and
    /// color, if it passes the write rule.
    pub fn put_pixel_if_possible(&mut self, x: i64, y: i64, z: i64, color: Color)
        requires
            old(self).wf(),
        ensures
            final(self).wf(),
            final(self)@ == old(self)@.plot(x as int, y as int, z as int, color),
    {
        if 0 <= x && (x as u64) < (self.width as u64) && 0 <= y && (y as u64) < (self.height as u64)
            && 0 <= z && z <= UNIT {
            let i = self.calculate_index(x as usize, y as usize);
            if z <= self.depth[i] {
                self.depth.set(i, z);
                self.color.set(i, color);
            }
        }
    }

    /// Overwrites the color of pixel `(x, y)`; its depth is left as it is.
    pub fn set_pixel(&mut self, x: usize, y: usize, color: Color)
        requires
            old(self).wf(),
            x < old(self)@.width,
            y < old(self)@.height,
        ensures
            final(self).wf(),
            final(self)@ == (FrameView {
                color: old(self)@.color.update(old(self)@.index(x as int, y as int), color),
                ..old(self)@
            }),
    {
        let i = self.calculate_index(x, y);
        self.color.set(i, color);
    }
}

/// Every pixel of a `width` by `height` grid has its index inside the
/// buffers.
pub proof fn lemma_index_in_bounds(width: int, height: int, x: int, y: int)
    requires
        0 <= x < width,
        0 <= y < height,
    ensures
        0 <= y * width + x < width * height,
{
    assert(y * width + x < width * height) by (nonlinear_arith)
        requires
            0 <= x < width,
            0 <= y < height,
    ;
    assert(0 <= y * width) by (nonlinear_arith)
        requires
            0 <= x < width,
            0 <= y,
    ;
}

/// Row-major indexing sends distinct pixels of a grid to distinct cells.
pub proof fn lemma_index_injective(width: int, height: int, x1: int, y1: int, x2: int, y2: int)
    requires
        0 <= x1 < width,
        0 <= y1 < height,
        0 <= x2 < width,
        0 <= y2 < height,
        y1 * width + x1 == y2 * width + x2,
    ensures
        x1 == x2,
        y1 == y2,
{
    if y1 < y2 {
        assert(y1 * width + x1 < y2 * width + x2) by (nonlinear_arith)
            requires
                y1 < y2,
                0 <= x1 < width,
                0 <= x2,
        ;
    } else if y2 < y1 {
        assert(y2 * width + x2 < y1 * width + x1) by (nonlinear_arith)
            requires
                y2 < y1,
                0 <= x2 < width,
                0 <= x1,
        ;
    }
}

/// Offering pixels keeps the size of a framebuffer and of its buffers.
pub proof fn lemma_plot_all_wf(v: FrameView, pts: Seq<(int, int, int)>, c: Color)
    requires
        v.wf(),
    ensures
        v.plot_all(pts, c).wf(),
        v.plot_all(pts, c).width == v.width,
        v.plot_all(pts, c).height == v.height,
    decreases pts.len(),
{
    if pts.len() > 0 {
        lemma_plot_all_wf(v, pts.drop_last(), c);
        let w = v.plot_all(pts.drop_last(), c);
        let p = pts.last();
        if w.passes(p.0, p.1, p.2) {
            lemma_index_in_bounds(w.width, w.height, p.0, p.1);
        }
    }
}

/// At one pixel where nothing nearer has been drawn, the nearer of two
/// depth-tested writes leaves its color whichever is drawn first; at equal
/// depth the later write wins.
pub proof fn lemma_nearer_wins(
    v: FrameView,
    x: int,
    y: int,
    za: int,
    zb: int,
    ca: Color,
    cb: Color,
)
    requires
        v.wf(),
        0 <= x < v.width,
        0 <= y < v.height,
        0 <= za <= UNIT,
        0 <= zb <= UNIT,
        za <= v.depth[v.index(x, y)],
        zb <= v.depth[v.index(x, y)],
    ensures
        za < zb ==> v.plot(x, y, za, ca).plot(x, y, zb, cb).color[v.index(x, y)] == ca,
        za < zb ==> v.plot(x, y, zb, cb).plot(x, y, za, ca).color[v.index(x, y)] == ca,
        za == zb ==> v.plot(x, y, za, ca).plot(x, y, zb, cb).color[v.index(x, y)] == cb,
{
    lemma_index_in_bounds(v.width, v.height, x, y);
}

/// Some candidate pixel of `pts` is `(x, y)`.
pub open spec fn hits(pts: Seq<(int, int, int)>, x: int, y: int) -> bool {
    exists|i: int| 0 <= i < pts.len() && pts[i].0 == x && pts[i].1 == y
}

/// Every candidate pixel of `pts` has depth `z`.
pub open spec fn at_depth(pts: Seq<(int, int, int)>, z: int) -> bool {
    forall|i: int| 0 <= i < pts.len() ==> #[trigger] pts[i].2 == z
}

/// A write at another pixel leaves pixel `(x, y)` as it is.
proof fn lemma_plot_elsewhere(v: FrameView, x: int, y: int, q: (int, int, int), c: Color)
    requires
        v.wf(),
        0 <= x < v.width,
        0 <= y < v.height,
        !(q.0 == x && q.1 == y),
    ensures
        v.plot(q.0, q.1, q.2, c).color[v.index(x, y)] == v.color[v.index(x, y)],
        v.plot(q.0, q.1, q.2, c).depth[v.index(x, y)] == v.depth[v.index(x, y)],
{
    if v.passes(q.0, q.1, q.2) {
        lemma_index_in_bounds(v.width, v.height, x, y);
        lemma_index_in_bounds(v.width, v.height, q.0, q.1);
        if v.index(q.0, q.1) == v.index(x, y) {
            lemma_index_injective(v.width, v.height, q.0, q.1, x, y);
        }
    }
}

/// Pixels all drawn at a depth behind what pixel `(x, y)` holds leave it as
/// it is.
pub proof fn lemma_plot_all_behind(
    v: FrameView,
    pts: Seq<(int, int, int)>,
    c: Color,
    x: int,
    y: int,
    z: int,
)
    requires
        v.wf(),
        0 <= x < v.width,
        0 <= y < v.height,
        at_depth(pts, z),
        z > v.depth[v.index(x, y)],
    ensures
        v.plot_all(pts, c).color[v.index(x, y)] == v.color[v.index(x, y)],
        v.plot_all(pts, c).depth[v.index(x, y)] == v.depth[v.index(x, y)],
    decreases pts.len(),
{
    if pts.len() > 0 {
        let rest = pts.drop_last();
        let q = pts.last();
        assert(at_depth(rest, z)) by {
            assert forall|i: int| 0 <= i < rest.len() implies #[trigger] rest[i].2 == z by {
                assert(rest[i] == pts[i]);
            }
        }
        lemma_plot_all_behind(v, rest, c, x, y, z);
        lemma_plot_all_wf(v, rest, c);
        let w = v.plot_all(rest, c);
        assert(q.2 == pts[pts.len() - 1].2);
        if q.0 == x && q.1 == y {
            assert(!w.passes(q.0, q.1, q.2));
        } else {
            lemma_plot_elsewhere(w, x, y, q, c);
        }
    }
}

/// Pixels all drawn at one depth `z` never leave pixel `(x, y)` further than
/// `z` when it was not.
proof fn lemma_plot_all_depth_bound(
    v: FrameView,
    pts: Seq<(int, int, int)>,
    c: Color,
    x: int,
    y: int,
    z: int,
)
    requires
        v.wf(),
        0 <= x < v.width,
        0 <= y < v.height,
        at_depth(pts, z),
        z <= v.depth[v.index(x, y)],
    ensures
        z <= v.plot_all(pts, c).depth[v.index(x, y)],
    decreases pts.len(),
{
    if pts.len() > 0 {
        let rest = pts.drop_last();
        let q = pts.last();
        assert(at_depth(rest, z)) by {
            assert forall|i: int| 0 <= i < rest.len() implies #[trigger] rest[i].2 == z by {
                assert(rest[i] == pts[i]);
            }
        }
        lemma_plot_all_depth_bound(v, rest, c, x, y, z);
        lemma_plot_all_wf(v, rest, c);
        let w = v.plot_all(rest, c);
        assert(q.2 == pts[pts.len() - 1].2);
        lemma_index_in_bounds(w.width, w.height, x, y);
        if q.0 == x && q.1 == y {
        } else {
            lemma_plot_elsewhere(w, x, y, q, c);
        }
    }
}

/// Pixels all drawn at one depth `z` in range, one of them at `(x, y)`, where
/// nothing nearer than `z` was drawn, leave that pixel in their color at
/// depth `z`.
pub proof fn lemma_plot_all_hits(
    v: FrameView,
    pts: Seq<(int, int, int)>,
    c: Color,
    x: int,
    y: int,
    z: int,
)
    requires
        v.wf(),
        0 <= x < v.width,
        0 <= y < v.height,
        at_depth(pts, z),
        0 <= z <= UNIT,
        z <= v.depth[v.index(x, y)],
        hits(pts, x, y),
    ensures
        v.plot_all(pts, c).color[v.index(x, y)] == c,
        v.plot_all(pts, c).depth[v.index(x, y)] == z,
    decreases pts.len(),
{
    let rest = pts.drop_last();
    let q = pts.last();
    assert(at_depth(rest, z)) by {
        assert forall|i: int| 0 <= i < rest.len() implies #[trigger] rest[i].2 == z by {
            assert(rest[i] == pts[i]);
        }
    }
    lemma_plot_all_wf(v, rest, c);
    let w = v.plot_all(rest, c);
    assert(q.2 == pts[pts.len() - 1].2);
    lemma_index_in_bounds(w.width, w.height, x, y);
    if q.0 == x && q.1 == y {
        lemma_plot_all_depth_bound(v, rest, c, x, y, z);
    } else {
        let i = choose|i: int| 0 <= i < pts.len() && pts[i].0 == x && pts[i].1 == y;
        assert(i < pts.len() - 1);
        assert(rest[i] == pts[i]);
        lemma_plot_all_hits(v, rest, c, x, y, z);
        lemma_plot_elsewhere(w, x, y, q, c);
    }
}

/// After a fresh allocation (by `new` or `resize`) and a clear with `c`, both
/// buffers hold `width * height` cells, every color is `c` and every depth is
/// the clear depth.
pub proof fn lemma_clear_after_fresh(width: usize, height: usize, c: Color)
    requires
        area(width, height) <= usize::MAX,
    ensures
        FrameView::fresh(width as int, height as int).cleared(c).wf(),
        FrameView::fresh(width as int, height as int).cleared(c).color.len() == area(width, height),
        FrameView::fresh(width as int, height as int).cleared(c).depth.len() == area(width, height),
        forall|i: int|
            0 <= i < area(width, height) ==> FrameView::fresh(width as int, height as int).cleared(
                c,
            ).color[i] == c,
        forall|i: int|
            0 <= i < area(width, height) ==> FrameView::fresh(width as int, height as int).cleared(
                c,
            ).depth[i] == DEPTH_CLEAR,
{
    assert(0 <= width as int * height as int) by (nonlinear_arith);
}

} // verus!
