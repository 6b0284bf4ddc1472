//! Fixed-point 4x4 transforms: products, and the matrix of a
//! translation-rotation-scale decomposition.
use vstd::prelude::*;

use crate::fixed::{floor_div, UNIT};
use crate::geometry::{clamp, entry, Mat4, Vec3};

verus! {

/// A rotation as a unit quaternion `(x, y, z, w)`, each part in fixed point.
#[derive(Clone, Copy, Debug, PartialEq, Eq, Structural)]
pub struct Quat {
    pub x: i32,
    pub y: i32,
    pub z: i32,
    pub w: i32,
}

/// A product of two fixed-point values scaled by `UNIT` twice, brought back
/// to one `UNIT`: rounded down and saturated to the range of `i32`.
pub open spec fn fx(v: int) -> int {
    clamp(v / (UNIT as int), i32::MIN as int, i32::MAX as int)
}

/// Entry `(i, j)` of the fixed-point product `a * b`.
pub open spec fn product_entry(a: Seq<i32>, b: Seq<i32>, i: int, j: int) -> int {
    fx(
        entry(a, i, 0) * entry(b, 0, j) + entry(a, i, 1) * entry(b, 1, j) + entry(a, i, 2) * entry(
            b,
            2,
            j,
        ) + entry(a, i, 3) * entry(b, 3, j),
    )
}

/// The fixed-point product `a * b`.
pub open spec fn mat_mul(a: Seq<i32>, b: Seq<i32>) -> Seq<i32> {
    Seq::new(16, |k: int| product_entry(a, b, k / 4, k % 4) as i32)
}

/// The identity matrix.
pub open spec fn identity_matrix() -> Seq<i32> {
    Seq::new(16, |k: int| if k / 4 == k % 4 { UNIT as i32 } else { 0i32 })
}

/// The identity matrix.
pub fn identity() -> (r: Mat4)
    ensures
        r@ == identity_matrix(),
{
    let u = UNIT as i32;
    let r = Mat4 { m: [u, 0, 0, 0, 0, u, 0, 0, 0, 0, u, 0, 0, 0, 0, u] };
    assert(r@ =~= identity_matrix());
    r
}

/// Entry `(i, j)`, for `i, j < 3`, of the rotation matrix of `q`, twice
/// scaled by `UNIT`.
pub open spec fn rotation_entry(q: Quat, i: int, j: int) -> int {
    let (x, y, z, w) = (q.x as int, q.y as int, q.z as int, q.w as int);
    let u = UNIT as int;
    if i == 0 && j == 0 {
        u * u - 2 * (y * y + z * z)
    } else if i == 0 && j == 1 {
        2 * (x * y - w * z)
    } else if i == 0 && j == 2 {
        2 * (x * z + w * y)
    } else if i == 1 && j == 0 {
        2 * (x * y + w * z)
    } else if i == 1 && j == 1 {
        u * u - 2 * (x * x + z * z)
    } else if i == 1 && j == 2 {
        2 * (y * z - w * x)
    } else if i == 2 && j == 0 {
        2 * (x * z - w * y)
    } else if i == 2 && j == 1 {
        2 * (y * z + w * x)
    } else {
        u * u - 2 * (x * x + y * y)
    }
}

/// Scale factor of column `j < 3`.
pub open spec fn scale_part(s: Vec3, j: int) -> int {
    if j == 0 {
        s.x as int
    } else if j == 1 {
        s.y as int
    } else {
        s.z as int
    }
}

/// Entry `(i, j)` of `translate(t) * rotate(q) * scale(s)`.
pub open spec fn local_entry(t: Vec3, q: Quat, s: Vec3, i: int, j: int) -> int {
    if i == 3 {
        if j == 3 {
            UNIT as int
        } else {
            0
        }
    } else if j == 3 {
        scale_part(t, i)
    } else {
        fx(fx(rotation_entry(q, i, j)) * scale_part(s, j))
    }
}

/// The fixed-point matrix `translate(t) * rotate(q) * scale(s)`.
pub open spec fn local_matrix(t: Vec3, q: Quat, s: Vec3) -> Seq<i32> {
    Seq::new(16, |k: int| local_entry(t, q, s, k / 4, k % 4) as i32)
}

/// `fx` on a value that fits `i128`.
fn fx_exec(v: i128) -> (r: i32)
    ensures
        r == fx(v as int),
{
    let q = floor_div(v, UNIT as i128);
    if q < i32::MIN as i128 {
        i32::MIN
    } else if q > i32::MAX as i128 {
        i32::MAX
    } else {
        q as i32
    }
}

proof fn lemma_product_bound(a: i32, b: i32)
    ensures
        -0x4000_0000_0000_0000 <= a * b <= 0x4000_0000_0000_0000,
{
    assert(-0x4000_0000_0000_0000 <= a * b <= 0x4000_0000_0000_0000) by (nonlinear_arith)
        requires
            -0x8000_0000 <= a < 0x8000_0000,
            -0x8000_0000 <= b < 0x8000_0000,
    ;
}

/// Rotation entry `(i, j)` of `q`, twice scaled by `UNIT`.
fn rotation_entry_exec(q: &Quat, i: usize, j: usize) -> (r: i128)
    requires
        i < 3,
        j < 3,
    ensures
        r == rotation_entry(*q, i as int, j as int),
{
    let (x, y, z, w) = (q.x as i128, q.y as i128, q.z as i128, q.w as i128);
    let u = UNIT as i128;
    proof {
        lemma_product_bound(q.x, q.x);
        lemma_product_bound(q.y, q.y);
        lemma_product_bound(q.z, q.z);
        lemma_product_bound(q.x, q.y);
        lemma_product_bound(q.x, q.z);
        lemma_product_bound(q.y, q.z);
        lemma_product_bound(q.w, q.x);
        lemma_product_bound(q.w, q.y);
        lemma_product_bound(q.w, q.z);
    }
    if i == 0 && j == 0 {
        u * u - 2 * (y * y + z * z)
    } else if i == 0 && j == 1 {
        2 * (x * y - w * z)
    } else if i == 0 && j == 2 {
        2 * (x * z + w * y)
    } else if i == 1 && j == 0 {
        2 * (x * y + w * z)
    } else if i == 1 && j == 1 {
        u * u - 2 * (x * x + z * z)
    } else if i == 1 && j == 2 {
        2 * (y * z - w * x)
    } else if i == 2 && j == 0 {
        2 * (x * z - w * y)
    } else if i == 2 && j == 1 {
        2 * (y * z + w * x)
    } else {
        u * u - 2 * (x * x + y * y)
    }
}

/// Component `i < 3` of a vector.
fn part(v: &Vec3, i: usize) -> (r: i32)
    requires
        i < 3,
    ensures
        r == scale_part(*v, i as int),
{
    if i == 0 {
        v.x
    } else if i == 1 {
        v.y
    } else {
        v.z
    }
}

/// The fixed-point matrix `translate(t) * rotate(q) * scale(s)`.
pub fn local_transform(t: &Vec3, q: &Quat, s: &Vec3) -> (r: Mat4)
    ensures
        r@ == local_matrix(*t, *q, *s),
{
    let mut m: [i32; 16] = [0i32; 16];
    let mut k: usize = 0;
    while k < 16
        invariant
            k <= 16,
            forall|l: int| 0 <= l < k ==> m@[l] == local_entry(*t, *q, *s, l / 4, l % 4) as i32,
        decreases 16 - k,
    {
        let i = k / 4;
        let j = k % 4;
        let v: i32 = if i == 3 {
            if j == 3 {
                UNIT as i32
            } else {
                0
            }
        } else if j == 3 {
            part(t, i)
        } else {
            let rot = fx_exec(rotation_entry_exec(q, i, j));
            let sc = part(s, j);
            proof {
                lemma_product_bound(rot, sc);
            }
            fx_exec(rot as i128 * sc as i128)
        };
        m[k] = v;
        k = k + 1;
    }
    let r = Mat4 { m };
    assert(r@ =~= local_matrix(*t, *q, *s));
    r
}

/// The fixed-point product `a * b` of two matrices.
pub fn multiply(a: &Mat4, b: &Mat4) -> (r: Mat4)
    ensures
        r@ == mat_mul(a@, b@),
{
    let mut m: [i32; 16] = [0i32; 16];
    let mut k: usize = 0;
    while k < 16
        invariant
            k <= 16,
            forall|l: int| 0 <= l < k ==> m@[l] == product_entry(a@, b@, l / 4, l % 4) as i32,
        decreases 16 - k,
    {
        let i = k / 4;
        let j = k % 4;
        proof {
            lemma_product_bound(a.m[(4 * i) as int], b.m[j as int]);
            lemma_product_bound(a.m[(4 * i + 1) as int], b.m[(4 + j) as int]);
            lemma_product_bound(a.m[(4 * i + 2) as int], b.m[(8 + j) as int]);
            lemma_product_bound(a.m[(4 * i + 3) as int], b.m[(12 + j) as int]);
        }
        let s: i128 = a.m[4 * i] as i128 * b.m[j] as i128 + a.m[4 * i + 1] as i128 * b.m[4 + j] as i128
            + a.m[4 * i + 2] as i128 * b.m[8 + j] as i128 + a.m[4 * i + 3] as i128 * b.m[12 + j] as i128;
        m[k] = fx_exec(s);
        k = k + 1;
    }
    let r = Mat4 { m };
    assert(r@ =~= mat_mul(a@, b@));
    r
}

} // verus!
