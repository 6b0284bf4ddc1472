//! The geometry stages, in fixed point: transform to clip space, trivial
//! rejection of segments, perspective divide, viewport mapping.
use vstd::prelude::*;

use crate::fixed::UNIT;
use crate::raster::ScreenPoint;

verus! {

/// A point or vector in model space, each coordinate in fixed point.
#[derive(Clone, Copy, Debug, PartialEq, Eq, Structural)]
pub struct Vec3 {
    pub x: i32,
    pub y: i32,
    pub z: i32,
}

/// A homogeneous point in clip space, in fixed point.
#[derive(Clone, Copy, Debug, PartialEq, Eq, Structural)]
pub struct Vec4 {
    pub x: i64,
    pub y: i64,
    pub z: i64,
    pub w: i64,
}

/// A point in normalized device coordinates, in fixed point.
#[derive(Clone, Copy, Debug, PartialEq, Eq, Structural)]
pub struct Ndc {
    pub x: i64,
    pub y: i64,
    pub z: i64,
}

/// A 4x4 matrix in fixed point, row-major: entry `(i, j)` is `m[4 * i + j]`.
#[derive(Clone, Copy, Debug)]
pub struct Mat4 {
    pub m: [i32; 16],
}

/// Largest magnitude of a normalized device coordinate; larger quotients are
/// clamped to it. Past it every coordinate maps off any screen.
pub const NDC_LIMIT: i64 = 0x1_0000_0000_0000;

impl View for Mat4 {
    type V = Seq<i32>;

    /// The sixteen entries, row-major.
    open spec fn view(&self) -> Seq<i32> {
        self.m@
    }
}

/// Entry `(i, j)` of a matrix given by its sixteen entries, row-major.
pub open spec fn entry(m: Seq<i32>, i: int, j: int) -> int {
    m[4 * i + j] as int
}

/// Row `i` of `m` applied to the homogeneous point `(v, 1)`, scaled by `UNIT`
/// twice.
pub open spec fn row_dot(m: Seq<i32>, i: int, v: Vec3) -> int {
    entry(m, i, 0) * v.x + entry(m, i, 1) * v.y + entry(m, i, 2) * v.z + entry(m, i, 3) * UNIT
}

/// Clip-space image of a model-space vertex: `m * (v, 1)`, rounded down.
pub open spec fn clip_of(m: Seq<i32>, v: Vec3) -> Vec4 {
    Vec4 {
        x: (row_dot(m, 0, v) / (UNIT as int)) as i64,
        y: (row_dot(m, 1, v) / (UNIT as int)) as i64,
        z: (row_dot(m, 2, v) / (UNIT as int)) as i64,
        w: (row_dot(m, 3, v) / (UNIT as int)) as i64,
    }
}

/// Both endpoints of a segment lie beyond one and the same frustum plane,
/// each measured against its own `w`.
pub open spec fn rejected(a: Vec4, b: Vec4) -> bool {
    ||| (a.x > a.w && b.x > b.w)
    ||| (-a.x > a.w && -b.x > b.w)
    ||| (a.y > a.w && b.y > b.w)
    ||| (-a.y > a.w && -b.y > b.w)
    ||| (a.z > a.w && b.z > b.w)
    ||| (-a.z > a.w && -b.z > b.w)
}

/// `a / d` rounded toward zero.
pub open spec fn trunc_div(a: int, d: int) -> int {
    let q = crate::raster::abs(a) / crate::raster::abs(d);
    if (a < 0) != (d < 0) {
        -q
    } else {
        q
    }
}

pub open spec fn clamp(v: int, lo: int, hi: int) -> int {
    if v < lo {
        lo
    } else if v > hi {
        hi
    } else {
        v
    }
}

/// One coordinate divided by `w`, in fixed point, rounded toward zero and
/// clamped to `NDC_LIMIT`.
pub open spec fn ndc_coord(c: int, w: int) -> int {
    clamp(trunc_div(c * UNIT, w), -NDC_LIMIT as int, NDC_LIMIT as int)
}

/// Perspective divide of a clip-space point whose `w` is not zero.
pub open spec fn ndc_of(c: Vec4) -> Ndc {
    Ndc {
        x: ndc_coord(c.x as int, c.w as int) as i64,
        y: ndc_coord(c.y as int, c.w as int) as i64,
        z: ndc_coord(c.z as int, c.w as int) as i64,
    }
}

/// Screen coordinate of a normalized coordinate on an axis of `size` pixels:
/// `(ndc + 1) * size / 2`, rounded toward zero and saturated to the range of
/// `i32`.
pub open spec fn screen_coord(ndc: int, size: int) -> int {
    clamp(trunc_div((ndc + UNIT) * size, 2 * UNIT), i32::MIN as int, i32::MAX as int)
}

/// Viewport image of a normalized point on a `width` by `height` screen; the
/// depth is kept as it is.
pub open spec fn screen_of(n: Ndc, width: int, height: int) -> ScreenPoint {
    ScreenPoint {
        x: screen_coord(n.x as int, width) as i32,
        y: screen_coord(n.y as int, height) as i32,
        z: n.z,
    }
}

/// `a / d` rounded toward zero, for `d != 0`.
fn div_toward_zero(a: i128, d: i128) -> (r: i128)
    requires
        d != 0,
        a > i128::MIN,
        d > i128::MIN,
    ensures
        r == trunc_div(a as int, d as int),
{
    let ma: i128 = if a < 0 {
        -a
    } else {
        a
    };
    let md: i128 = if d < 0 {
        -d
    } else {
        d
    };
    let q = ma / md;
    proof {
        vstd::arithmetic::div_mod::lemma_div_pos_is_pos(ma as int, md as int);
        vstd::arithmetic::div_mod::lemma_div_is_ordered_by_denominator(ma as int, 1, md as int);
    }
    if (a < 0) != (d < 0) {
        -q
    } else {
        q
    }
}

fn clamp_i128(v: i128, lo: i128, hi: i128) -> (r: i128)
    requires
        lo <= hi,
    ensures
        r == clamp(v as int, lo as int, hi as int),
{
    if v < lo {
        lo
    } else if v > hi {
        hi
    } else {
        v
    }
}

proof fn lemma_row_dot_bounds(m: Seq<i32>, i: int, v: Vec3)
    requires
        0 <= i < 4,
        m.len() == 16,
    ensures
        -0x4_0000_0000_0000_0000 < row_dot(m, i, v) < 0x4_0000_0000_0000_0000,
        -0x4_0000_0000_0000 <= row_dot(m, i, v) / (UNIT as int) <= 0x4_0000_0000_0000,
{
    let a = entry(m, i, 0);
    let b = entry(m, i, 1);
    let c = entry(m, i, 2);
    let d = entry(m, i, 3);
    assert(-0x8000_0000 <= a < 0x8000_0000);
    assert(-0x8000_0000 <= b < 0x8000_0000);
    assert(-0x8000_0000 <= c < 0x8000_0000);
    assert(-0x8000_0000 <= d < 0x8000_0000);
    let s = row_dot(m, i, v);
    assert(-0x4_0000_0000_0000_0000 < s < 0x4_0000_0000_0000_0000) by (nonlinear_arith)
        requires
            -0x8000_0000 <= a < 0x8000_0000,
            -0x8000_0000 <= b < 0x8000_0000,
            -0x8000_0000 <= c < 0x8000_0000,
            -0x8000_0000 <= d < 0x8000_0000,
            -0x8000_0000 <= v.x < 0x8000_0000,
            -0x8000_0000 <= v.y < 0x8000_0000,
            -0x8000_0000 <= v.z < 0x8000_0000,
            s == a * v.x + b * v.y + c * v.z + d * 65536,
    ;
    vstd::arithmetic::div_mod::lemma_div_is_ordered(s, 0x4_0000_0000_0000_0000, 65536);
    vstd::arithmetic::div_mod::lemma_div_is_ordered(-0x4_0000_0000_0000_0000, s, 65536);
}

/// Clip-space image of one vertex under `transform`.
pub fn transform_vertex(transform: &Mat4, v: Vec3) -> (r: Vec4)
    ensures
        r == clip_of(transform@, v),
{
    let m = &transform.m;
    let x = v.x as i128;
    let y = v.y as i128;
    let z = v.z as i128;
    let u = UNIT as i128;
    proof {
        lemma_row_dot_bounds(transform@, 0, v);
        lemma_row_dot_bounds(transform@, 1, v);
        lemma_row_dot_bounds(transform@, 2, v);
        lemma_row_dot_bounds(transform@, 3, v);
    }
    let r0 = floor_row(m[0], m[1], m[2], m[3], x, y, z, u);
    let r1 = floor_row(m[4], m[5], m[6], m[7], x, y, z, u);
    let r2 = floor_row(m[8], m[9], m[10], m[11], x, y, z, u);
    let r3 = floor_row(m[12], m[13], m[14], m[15], x, y, z, u);
    Vec4 { x: r0, y: r1, z: r2, w: r3 }
}

/// `(a * x + b * y + c * z + d * u) / UNIT`, rounded down.
fn floor_row(a: i32, b: i32, c: i32, d: i32, x: i128, y: i128, z: i128, u: i128) -> (r: i64)
    requires
        -0x8000_0000 <= x < 0x8000_0000,
        -0x8000_0000 <= y < 0x8000_0000,
        -0x8000_0000 <= z < 0x8000_0000,
        u == UNIT,
    ensures
        r == (a * x + b * y + c * z + d * u) / (UNIT as int),
{
    proof {
        assert(-0x4_0000_0000_0000_0000 < a * x + b * y + c * z + d * u < 0x4_0000_0000_0000_0000)
            by (nonlinear_arith)
            requires
                -0x8000_0000 <= a < 0x8000_0000,
                -0x8000_0000 <= b < 0x8000_0000,
                -0x8000_0000 <= c < 0x8000_0000,
                -0x8000_0000 <= d < 0x8000_0000,
                -0x8000_0000 <= x < 0x8000_0000,
                -0x8000_0000 <= y < 0x8000_0000,
                -0x8000_0000 <= z < 0x8000_0000,
                u == 65536,
        ;
        assert(-0x4000_0000_0000_0000 <= a * x <= 0x4000_0000_0000_0000) by (nonlinear_arith)
            requires
                -0x8000_0000 <= a < 0x8000_0000,
                -0x8000_0000 <= x < 0x8000_0000,
        ;
        assert(-0x4000_0000_0000_0000 <= b * y <= 0x4000_0000_0000_0000) by (nonlinear_arith)
            requires
                -0x8000_0000 <= b < 0x8000_0000,
                -0x8000_0000 <= y < 0x8000_0000,
        ;
        assert(-0x4000_0000_0000_0000 <= c * z <= 0x4000_0000_0000_0000) by (nonlinear_arith)
            requires
                -0x8000_0000 <= c < 0x8000_0000,
                -0x8000_0000 <= z < 0x8000_0000,
        ;
        assert(-0x800_0000_0000_0000 <= d * u <= 0x800_0000_0000_0000) by (nonlinear_arith)
            requires
                -0x8000_0000 <= d < 0x8000_0000,
                u == 65536,
        ;
    }
    let s: i128 = a as i128 * x + b as i128 * y + c as i128 * z + d as i128 * u;
    let q = crate::fixed::floor_div(s, u);
    proof {
        vstd::arithmetic::div_mod::lemma_div_is_ordered(s as int, 0x4_0000_0000_0000_0000, 65536);
        vstd::arithmetic::div_mod::lemma_div_is_ordered(-0x4_0000_0000_0000_0000, s as int, 65536);
    }
    q as i64
}

/// Whether the segment from `a` to `b` is dropped by trivial rejection.
pub fn is_rejected(a: &Vec4, b: &Vec4) -> (r: bool)
    ensures
        r == rejected(*a, *b),
{
    let (ax, ay, az, aw) = (a.x as i128, a.y as i128, a.z as i128, a.w as i128);
    let (bx, by, bz, bw) = (b.x as i128, b.y as i128, b.z as i128, b.w as i128);
    (ax > aw && bx > bw) || (-ax > aw && -bx > bw) || (ay > aw && by > bw) || (-ay > aw && -by
        > bw) || (az > aw && bz > bw) || (-az > aw && -bz > bw)
}

/// Perspective divide: `None` where `w` is zero and the quotient does not
/// exist.
pub fn perspective_divide(c: &Vec4) -> (r: Option<Ndc>)
    ensures
        c.w == 0 ==> r is None,
        c.w != 0 ==> r == Some(ndc_of(*c)),
{
    if c.w == 0 {
        return None;
    }
    let w = c.w as i128;
    let u = UNIT as i128;
    let x = ndc_part(c.x as i128 * u, w);
    let y = ndc_part(c.y as i128 * u, w);
    let z = ndc_part(c.z as i128 * u, w);
    Some(Ndc { x, y, z })
}

fn ndc_part(a: i128, w: i128) -> (r: i64)
    requires
        w != 0,
        -0x8000_0000_0000_0000 * 65536 <= a <= 0x8000_0000_0000_0000 * 65536,
        -0x8000_0000_0000_0000 <= w < 0x8000_0000_0000_0000,
    ensures
        r == clamp(trunc_div(a as int, w as int), -NDC_LIMIT as int, NDC_LIMIT as int),
{
    let q = div_toward_zero(a, w);
    clamp_i128(q, -(NDC_LIMIT as i128), NDC_LIMIT as i128) as i64
}

/// Normalized coordinates at least this far from the origin map off any
/// screen, past the range of `i32`.
pub const FAR: i64 = 0x2_0000_0000_0000;

/// Viewport transform onto a `width` by `height` screen.
pub fn viewport_transform(n: &Ndc, width: usize, height: usize) -> (r: ScreenPoint)
    ensures
        r == screen_of(*n, width as int, height as int),
{
    let x = screen_part(n.x, width);
    let y = screen_part(n.y, height);
    ScreenPoint { x, y, z: n.z }
}

proof fn lemma_far_saturates(v: int, size: int)
    requires
        size >= 1,
        v >= FAR || v <= -FAR,
        v < 0x8000_0000_0000_0000,
    ensures
        v >= FAR ==> screen_coord(v, size) == i32::MAX,
        v <= -FAR ==> screen_coord(v, size) == i32::MIN,
{
    let u = UNIT as int;
    let a = (v + u) * size;
    if v >= FAR {
        assert(a >= 0x2_0000_0000_0000) by (nonlinear_arith)
            requires
                v >= 0x2_0000_0000_0000,
                size >= 1,
                u == 65536,
                a == (v + u) * size,
        ;
        vstd::arithmetic::div_mod::lemma_div_is_ordered(0x2_0000_0000_0000, a, 2 * u);
    } else {
        assert(-a >= 0x2_0000_0000_0000 - 65536) by (nonlinear_arith)
            requires
                v <= -0x2_0000_0000_0000,
                size >= 1,
                u == 65536,
                a == (v + u) * size,
        ;
        vstd::arithmetic::div_mod::lemma_div_is_ordered(0x2_0000_0000_0000 - 65536, -a, 2 * u);
    }
}

fn screen_part(v: i64, size: usize) -> (r: i32)
    ensures
        r == screen_coord(v as int, size as int),
{
    if size == 0 {
        assert((v + UNIT) * 0 == 0);
        return 0;
    }
    if v >= FAR || v <= -FAR {
        proof {
            lemma_far_saturates(v as int, size as int);
        }
        return if v >= FAR {
            i32::MAX
        } else {
            i32::MIN
        };
    }
    let u = UNIT as i128;
    let s = size as u64 as i128;
    proof {
        assert(0 <= (v + u) * s <= (0x2_0000_0000_0000 + 65536) * 0x1_0000_0000_0000_0000
            || -(0x2_0000_0000_0000 + 65536) * 0x1_0000_0000_0000_0000 <= (v + u) * s < 0)
            by (nonlinear_arith)
            requires
                -0x2_0000_0000_0000 <= v <= 0x2_0000_0000_0000,
                u == 65536,
                0 <= s < 0x1_0000_0000_0000_0000,
        ;
    }
    let q = div_toward_zero((v as i128 + u) * s, 2 * u);
    clamp_i128(q, i32::MIN as i128, i32::MAX as i128) as i32
}

} // verus!
