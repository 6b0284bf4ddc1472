//! Depth-tested line rasterization into a framebuffer.
use vstd::prelude::*;

use crate::color::Color;
use crate::fixed::{floor_div, lemma_div_between};
use crate::fixed::UNIT;
use crate::framebuffer::{
    at_depth, hits, lemma_plot_all_behind, lemma_plot_all_hits, lemma_plot_all_wf, FrameView,
    Framebuffer,
};

verus! {

/// A vertex in screen space: pixel coordinates and a fixed-point depth.
#[derive(Clone, Copy, Debug, PartialEq, Eq, Structural)]
pub struct ScreenPoint {
    pub x: i32,
    pub y: i32,
    pub z: i64,
}

pub open spec fn abs(v: int) -> int {
    if v < 0 {
        -v
    } else {
        v
    }
}

/// Offset along the minor axis after `k` steps along the major axis, on a
/// line that moves `r` minor units over `n` major units: `k * r / n` rounded
/// to the nearest integer, halves rounded up.
pub open spec fn minor_offset(k: int, r: int, n: int) -> int {
    (2 * k * r + n) / (2 * n)
}

/// Depth after `k` of `n` steps from depth `z0` to depth `z1`: linear in the
/// step, rounded down.
pub open spec fn depth_step(z0: int, z1: int, k: int, n: int) -> int {
    z0 + (k * (z1 - z0)) / n
}

/// The `k`-th candidate pixel of a walk from `s` toward `e` that takes `n`
/// unit steps along the major axis (x when `x_major`, else y) and `r` units
/// along the other one, in direction `adjust`.
pub open spec fn walk_point(
    s: ScreenPoint,
    e: ScreenPoint,
    n: int,
    r: int,
    adjust: int,
    x_major: bool,
    k: int,
) -> (int, int, int) {
    if x_major {
        (s.x + k, s.y + adjust * minor_offset(k, r, n), depth_step(s.z as int, e.z as int, k, n))
    } else {
        (s.x + adjust * minor_offset(k, r, n), s.y + k, depth_step(s.z as int, e.z as int, k, n))
    }
}

/// All `n + 1` candidate pixels of such a walk, from `s` to `e`.
pub open spec fn walk_points(
    s: ScreenPoint,
    e: ScreenPoint,
    n: int,
    r: int,
    adjust: int,
    x_major: bool,
) -> Seq<(int, int, int)> {
    Seq::new((n + 1) as nat, |k: int| walk_point(s, e, n, r, adjust, x_major, k))
}

/// The candidate pixels of the segment from `a` to `b`, in the order in which
/// they are offered to the framebuffer. A segment of length zero has none.
/// Otherwise the walk steps along x when the slope is strictly between -1 and
/// 1, else along y, always from the endpoint with the smaller coordinate on
/// that axis; the other coordinate follows the line to the nearest pixel.
pub open spec fn line_points(a: ScreenPoint, b: ScreenPoint) -> Seq<(int, int, int)> {
    let run = b.x - a.x;
    let rise = b.y - a.y;
    let adjust: int = if (rise < 0) == (run < 0) {
        1
    } else {
        -1
    };
    if run == 0 && rise == 0 {
        Seq::empty()
    } else if abs(rise) < abs(run) {
        if a.x <= b.x {
            walk_points(a, b, abs(run), abs(rise), adjust, true)
        } else {
            walk_points(b, a, abs(run), abs(rise), adjust, true)
        }
    } else {
        if a.y <= b.y {
            walk_points(a, b, abs(rise), abs(run), adjust, false)
        } else {
            walk_points(b, a, abs(rise), abs(run), adjust, false)
        }
    }
}

/// One step of the error accumulator: the minor offset advances exactly when
/// the accumulated error reaches the current threshold.
proof fn lemma_minor_step(k: int, r: int, n: int, j: int)
    requires
        n > 0,
        0 <= r <= n,
        k >= 0,
        j == minor_offset(k, r, n),
    ensures
        minor_offset(k + 1, r, n) == if (k + 1) * (2 * r) >= n * (2 * j + 1) {
            j + 1
        } else {
            j
        },
        0 <= j <= k,
{
    let x = 2 * k * r + n;
    vstd::arithmetic::div_mod::lemma_fundamental_div_mod(x, 2 * n);
    let m = x % (2 * n);
    assert(2 * (k + 1) * r + n == x + 2 * r) by (nonlinear_arith)
        requires
            x == 2 * k * r + n,
    ;
    assert((k + 1) * (2 * r) == 2 * k * r + 2 * r) by (nonlinear_arith);
    assert(n * (2 * j + 1) == 2 * n * j + n) by (nonlinear_arith);
    assert((2 * n) * (j + 1) == 2 * n * j + 2 * n) by (nonlinear_arith);
    assert((2 * n) * (j + 2) == 2 * n * j + 4 * n) by (nonlinear_arith);
    if (k + 1) * (2 * r) >= n * (2 * j + 1) {
        lemma_div_between(x + 2 * r, 2 * n, j + 1);
    } else {
        lemma_div_between(x + 2 * r, 2 * n, j);
    }
    assert(0 <= x) by (nonlinear_arith)
        requires
            k >= 0,
            r >= 0,
            n > 0,
            x == 2 * k * r + n,
    ;
    assert(x < 2 * n * (k + 1)) by (nonlinear_arith)
        requires
            n > 0,
            k >= 0,
            0 <= r <= n,
            x == 2 * k * r + n,
    ;
    vstd::arithmetic::div_mod::lemma_div_pos_is_pos(x, 2 * n);
    if j > k {
        assert(2 * n * j >= 2 * n * (k + 1)) by (nonlinear_arith)
            requires
                j >= k + 1,
                n > 0,
        ;
    }
}

/// A depth interpolated at step `k` of `n` lies between the two end depths.
proof fn lemma_depth_step_bounds(z0: int, z1: int, k: int, n: int)
    requires
        n > 0,
        0 <= k <= n,
    ensures
        z0 <= z1 ==> z0 <= depth_step(z0, z1, k, n) <= z1,
        z1 < z0 ==> z1 <= depth_step(z0, z1, k, n) <= z0,
{
    let d = z1 - z0;
    if d >= 0 {
        assert(0 <= k * d <= n * d) by (nonlinear_arith)
            requires
                0 <= k <= n,
                d >= 0,
        ;
        vstd::arithmetic::div_mod::lemma_div_is_ordered(0, k * d, n);
        vstd::arithmetic::div_mod::lemma_div_is_ordered(k * d, n * d, n);
        vstd::arithmetic::div_mod::lemma_div_multiples_vanish(d, n);
    } else {
        assert(n * d <= k * d <= 0) by (nonlinear_arith)
            requires
                0 <= k <= n,
                d < 0,
        ;
        vstd::arithmetic::div_mod::lemma_div_is_ordered(k * d, 0, n);
        vstd::arithmetic::div_mod::lemma_div_is_ordered(n * d, k * d, n);
        vstd::arithmetic::div_mod::lemma_div_multiples_vanish(d, n);
    }
}

/// Offers the candidate pixels of a walk to the framebuffer, deciding each
/// minor-axis step with an integer error accumulator.
fn walk(
    fb: &mut Framebuffer,
    s: ScreenPoint,
    e: ScreenPoint,
    n: i64,
    r: i64,
    adjust: i64,
    x_major: bool,
    color: Color,
)
    requires
        old(fb).wf(),
        0 < n <= 0x1_0000_0000,
        0 <= r <= n,
        adjust == 1 || adjust == -1,
    ensures
        final(fb).wf(),
        final(fb)@ == old(fb)@.plot_all(walk_points(s, e, n as int, r as int, adjust as int, x_major), color),
{
    let ghost pts = walk_points(s, e, n as int, r as int, adjust as int, x_major);
    let delta: i128 = 2 * r as i128;
    let threshold_inc: i128 = 2 * n as i128;
    let dz: i128 = e.z as i128 - s.z as i128;
    let mut threshold: i128 = n as i128;
    let mut offset: i128 = 0;
    let mut j: i64 = 0;
    let mut k: i64 = 0;
    assert(pts.take(0) =~= Seq::<(int, int, int)>::empty());
    assert(pts.len() == n + 1);
    proof {
        lemma_div_between(n as int, 2 * n, 0);
        assert(2 * 0 * r + n == n) by (nonlinear_arith);
    }
    while k <= n
        invariant
            fb.wf(),
            pts == walk_points(s, e, n as int, r as int, adjust as int, x_major),
            0 < n <= 0x1_0000_0000,
            0 <= r <= n,
            adjust == 1 || adjust == -1,
            delta == 2 * r,
            threshold_inc == 2 * n,
            dz == e.z - s.z,
            0 <= k <= n + 1,
            offset == k * delta,
            threshold == n * (2 * j + 1),
            j == minor_offset(k as int, r as int, n as int),
            0 <= j <= k,
            fb@ == old(fb)@.plot_all(pts.take(k as int), color),
        decreases n + 1 - k,
    {
        proof {
            lemma_minor_step(k as int, r as int, n as int, j as int);
            lemma_depth_step_bounds(s.z as int, e.z as int, k as int, n as int);
            assert(k * dz <= 0x1_0000_0000 * 0x1_0000_0000_0000_0000) by (nonlinear_arith)
                requires
                    0 <= k <= 0x1_0000_0000,
                    -0x1_0000_0000_0000_0000 <= dz <= 0x1_0000_0000_0000_0000,
            ;
            assert(k * dz >= -0x1_0000_0000 * 0x1_0000_0000_0000_0000) by (nonlinear_arith)
                requires
                    0 <= k <= 0x1_0000_0000,
                    -0x1_0000_0000_0000_0000 <= dz <= 0x1_0000_0000_0000_0000,
            ;
            assert((k + 1) * delta == offset + delta) by (nonlinear_arith)
                requires
                    offset == k * delta,
            ;
            assert(offset + delta <= 0x1_0000_0002 * 0x2_0000_0000) by (nonlinear_arith)
                requires
                    offset == k * delta,
                    0 <= k <= 0x1_0000_0001,
                    0 <= delta <= 0x2_0000_0000,
            ;
            assert(n * (2 * (j + 1) + 1) == threshold + threshold_inc) by (nonlinear_arith)
                requires
                    threshold == n * (2 * j + 1),
                    threshold_inc == 2 * n,
            ;
            assert(threshold <= 0x1_0000_0000 * 0x2_0000_0003) by (nonlinear_arith)
                requires
                    threshold == n * (2 * j + 1),
                    0 < n <= 0x1_0000_0000,
                    0 <= j <= 0x1_0000_0001,
            ;
        }
        let z_off: i128 = floor_div(k as i128 * dz, n as i128);
        let z: i64 = (s.z as i128 + z_off) as i64;
        let minor: i64 = adjust * j;
        let x: i64;
        let y: i64;
        if x_major {
            x = s.x as i64 + k;
            y = s.y as i64 + minor;
        } else {
            x = s.x as i64 + minor;
            y = s.y as i64 + k;
        }
        assert(z == depth_step(s.z as int, e.z as int, k as int, n as int));
        assert(minor == adjust * minor_offset(k as int, r as int, n as int));
        assert(pts[k as int] == walk_point(s, e, n as int, r as int, adjust as int, x_major, k as int));
        assert((x as int, y as int, z as int) == pts[k as int]);
        fb.put_pixel_if_possible(x, y, z, color);
        assert(pts.take(k + 1).drop_last() =~= pts.take(k as int));
        offset = offset + delta;
        if offset >= threshold {
            j = j + 1;
            threshold = threshold + threshold_inc;
        }
        k = k + 1;
    }
    assert(pts.take(k as int) =~= pts);
}

/// Draws the segment from `from` to `to`: offers each of its candidate pixels
/// to the framebuffer in order, each written only where it passes the write
/// rule. A segment of length zero draws nothing.
pub fn draw_line(fb: &mut Framebuffer, from: ScreenPoint, to: ScreenPoint, color: Color)
    requires
        old(fb).wf(),
    ensures
        final(fb).wf(),
        final(fb)@ == old(fb)@.plot_all(line_points(from, to), color),
{
    let run: i64 = to.x as i64 - from.x as i64;
    let rise: i64 = to.y as i64 - from.y as i64;
    if run == 0 && rise == 0 {
        assert(line_points(from, to) =~= Seq::<(int, int, int)>::empty());
        return ;
    }
    let adjust: i64 = if (rise < 0) == (run < 0) {
        1
    } else {
        -1
    };
    let abs_run: i64 = if run < 0 {
        -run
    } else {
        run
    };
    let abs_rise: i64 = if rise < 0 {
        -rise
    } else {
        rise
    };
    if abs_rise < abs_run {
        if from.x <= to.x {
            walk(fb, from, to, abs_run, abs_rise, adjust, true, color);
        } else {
            walk(fb, to, from, abs_run, abs_rise, adjust, true, color);
        }
    } else {
        if from.y <= to.y {
            walk(fb, from, to, abs_rise, abs_run, adjust, false, color);
        } else {
            walk(fb, to, from, abs_rise, abs_run, adjust, false, color);
        }
    }
}

/// A segment whose two ends have the same depth has that depth at every
/// candidate pixel.
pub proof fn lemma_flat_segment_depth(a: ScreenPoint, b: ScreenPoint)
    requires
        a.z == b.z,
    ensures
        at_depth(line_points(a, b), a.z as int),
{
    let pts = line_points(a, b);
    assert forall|i: int| 0 <= i < pts.len() implies #[trigger] pts[i].2 == a.z as int by {
        assert(i * (b.z - a.z) == 0) by (nonlinear_arith)
            requires
                a.z == b.z,
        ;
    }
}

/// Two segments of constant depths that both pass over pixel `(x, y)`, where
/// nothing nearer than either was drawn: the nearer one leaves its color and
/// depth there whichever is drawn first; at equal depth the later one wins.
pub proof fn lemma_nearer_segment_wins(
    v: FrameView,
    a0: ScreenPoint,
    a1: ScreenPoint,
    b0: ScreenPoint,
    b1: ScreenPoint,
    ca: Color,
    cb: Color,
    x: int,
    y: int,
)
    requires
        v.wf(),
        0 <= x < v.width,
        0 <= y < v.height,
        a0.z == a1.z,
        b0.z == b1.z,
        0 <= a0.z <= b0.z <= UNIT,
        b0.z <= v.depth[v.index(x, y)],
        hits(line_points(a0, a1), x, y),
        hits(line_points(b0, b1), x, y),
    ensures
        a0.z < b0.z ==> v.plot_all(line_points(a0, a1), ca).plot_all(
            line_points(b0, b1),
            cb,
        ).color[v.index(x, y)] == ca,
        a0.z < b0.z ==> v.plot_all(line_points(a0, a1), ca).plot_all(
            line_points(b0, b1),
            cb,
        ).depth[v.index(x, y)] == a0.z,
        a0.z < b0.z ==> v.plot_all(line_points(b0, b1), cb).plot_all(
            line_points(a0, a1),
            ca,
        ).color[v.index(x, y)] == ca,
        a0.z < b0.z ==> v.plot_all(line_points(b0, b1), cb).plot_all(
            line_points(a0, a1),
            ca,
        ).depth[v.index(x, y)] == a0.z,
        a0.z == b0.z ==> v.plot_all(line_points(a0, a1), ca).plot_all(
            line_points(b0, b1),
            cb,
        ).color[v.index(x, y)] == cb,
{
    let pa = line_points(a0, a1);
    let pb = line_points(b0, b1);
    let (za, zb) = (a0.z as int, b0.z as int);
    lemma_flat_segment_depth(a0, a1);
    lemma_flat_segment_depth(b0, b1);
    lemma_plot_all_wf(v, pa, ca);
    lemma_plot_all_wf(v, pb, cb);
    lemma_plot_all_hits(v, pa, ca, x, y, za);
    lemma_plot_all_hits(v, pb, cb, x, y, zb);
    let after_a = v.plot_all(pa, ca);
    let after_b = v.plot_all(pb, cb);
    if za < zb {
        lemma_plot_all_behind(after_a, pb, cb, x, y, zb);
    } else {
        lemma_plot_all_hits(after_a, pb, cb, x, y, zb);
    }
    lemma_plot_all_hits(after_b, pa, ca, x, y, za);
}

} // verus!
