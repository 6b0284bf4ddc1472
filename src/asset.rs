//! What an asset source hands over for a scene: node descriptions, and index
//! buffers read out of raw bytes with their length and alignment checked.
use vstd::prelude::*;

use vstd::arithmetic::power2::{lemma2_to64, lemma_pow2_strictly_increases, lemma_pow2_unfold, pow2};

use crate::geometry::{clamp, Vec3};
use crate::model::LoadError;
use crate::transform::Quat;

verus! {

/// Element type of an accessor, as an asset declares it.
#[derive(Clone, Copy, Debug, PartialEq, Eq, Structural)]
pub enum ComponentType {
    I8,
    U8,
    I16,
    U16,
    U32,
    F32,
}

/// A byte range of a binary buffer.
#[derive(Clone, Copy, Debug, PartialEq, Eq, Structural)]
pub struct BufferView {
    pub offset: usize,
    pub length: usize,
}

/// The one drawable part of a mesh: the view of its vertex positions, if the
/// asset gives them, and its triangle index buffer.
pub struct PrimitiveDesc {
    pub positions: Option<BufferView>,
    pub indices: BufferView,
    pub index_type: ComponentType,
}

/// A node of an asset's scene: its name, local transform, the primitives of
/// its mesh if it has one, and its children.
pub struct NodeDesc {
    pub name: String,
    pub translation: Vec3,
    pub rotation: Quat,
    pub scale: Vec3,
    pub mesh: Option<Vec<PrimitiveDesc>>,
    pub children: Vec<NodeDesc>,
}

/// Size in bytes of one index of a supported type.
pub open spec fn index_size(kind: ComponentType) -> nat {
    match kind {
        ComponentType::U8 => 1,
        ComponentType::U16 => 2,
        _ => 4,
    }
}

pub open spec fn supported_index_type(kind: ComponentType) -> bool {
    kind == ComponentType::U8 || kind == ComponentType::U16 || kind == ComponentType::U32
}

/// The unsigned little-endian integer of `size` bytes starting at byte `at`.
pub open spec fn le_uint(b: Seq<u8>, at: int, size: int) -> int {
    if size == 1 {
        b[at] as int
    } else if size == 2 {
        b[at] + 256 * b[at + 1]
    } else {
        b[at] + 256 * b[at + 1] + 65536 * b[at + 2] + 16777216 * b[at + 3]
    }
}

/// The indices that the bytes of a view hold, widened to 32 bits.
pub open spec fn decoded_indices(b: Seq<u8>, kind: ComponentType) -> Seq<u32> {
    let size = index_size(kind);
    Seq::new(b.len() / size, |i: int| le_uint(b, size * i, size as int) as u32)
}

/// Why reading an index view fails, if it does: an unsupported type first,
/// then a view past the end of the buffer, then a view not aligned to whole
/// indices.
pub open spec fn index_view_error(buffer: Seq<u8>, view: BufferView, kind: ComponentType) -> Option<
    LoadError,
> {
    if !supported_index_type(kind) {
        Some(LoadError::UnsupportedIndexType)
    } else if view.offset + view.length > buffer.len() {
        Some(LoadError::ViewOutOfBounds)
    } else if (view.offset as nat) % index_size(kind) != 0 || (view.length as nat) % index_size(kind)
        != 0 {
        Some(LoadError::MisalignedView)
    } else {
        None
    }
}

/// The fixed-point value of the IEEE-754 single-precision number whose bits
/// are `bits`: times `UNIT`, rounded toward zero and saturated to the range
/// of `i32`, with 0 for a NaN.
pub open spec fn fixed_of_f32_bits(bits: u32) -> int {
    let negative = bits >= 0x8000_0000;
    let exponent = (bits / 0x80_0000) % 256;
    let fraction = bits % 0x80_0000;
    if exponent == 255 {
        if fraction != 0 {
            0
        } else if negative {
            i32::MIN as int
        } else {
            i32::MAX as int
        }
    } else if exponent == 0 {
        0
    } else {
        let m = fraction + 0x80_0000;
        let magnitude = if exponent >= 134 {
            m * pow2((exponent - 134) as nat)
        } else {
            m / (pow2((134 - exponent) as nat) as int)
        };
        clamp(
            if negative {
                -magnitude
            } else {
                magnitude
            },
            i32::MIN as int,
            i32::MAX as int,
        )
    }
}

/// The vertex positions that bytes hold as little-endian single-precision
/// triples, in fixed point.
pub open spec fn decoded_positions(b: Seq<u8>) -> Seq<Vec3> {
    Seq::new(
        b.len() / 12,
        |i: int|
            Vec3 {
                x: fixed_of_f32_bits(le_uint(b, 12 * i, 4) as u32) as i32,
                y: fixed_of_f32_bits(le_uint(b, 12 * i + 4, 4) as u32) as i32,
                z: fixed_of_f32_bits(le_uint(b, 12 * i + 8, 4) as u32) as i32,
            },
    )
}

/// Why reading a position view fails, if it does: a view past the end of
/// the buffer, then one not aligned to whole coordinates and vertices.
pub open spec fn position_view_error(buffer: Seq<u8>, view: BufferView) -> Option<LoadError> {
    if view.offset + view.length > buffer.len() {
        Some(LoadError::ViewOutOfBounds)
    } else if view.offset % 4 != 0 || view.length % 12 != 0 {
        Some(LoadError::MisalignedView)
    } else {
        None
    }
}

proof fn lemma_pow2_monotonic(a: nat, b: nat)
    requires
        a <= b,
    ensures
        pow2(a) <= pow2(b),
{
    if a < b {
        lemma_pow2_strictly_increases(a, b);
    }
}

/// `2` to the power `e`.
fn pow2_exec(e: u32) -> (r: u64)
    requires
        e <= 32,
    ensures
        r == pow2(e as nat),
{
    let mut p: u64 = 1;
    let mut i: u32 = 0;
    proof {
        lemma2_to64();
    }
    while i < e
        invariant
            i <= e <= 32,
            p == pow2(i as nat),
        decreases e - i,
    {
        proof {
            lemma_pow2_unfold((i + 1) as nat);
            lemma_pow2_strictly_increases((i + 1) as nat, 33);
            lemma2_to64();
        }
        p = p * 2;
        i = i + 1;
    }
    p
}

/// The fixed-point value of a single-precision number given by its bits.
pub fn fixed_from_f32_bits(bits: u32) -> (r: i32)
    ensures
        r == fixed_of_f32_bits(bits),
{
    let negative = bits >= 0x8000_0000;
    let exponent: u32 = (bits / 0x80_0000) % 256;
    let fraction: u32 = bits % 0x80_0000;
    if exponent == 255 {
        return if fraction != 0 {
            0
        } else if negative {
            i32::MIN
        } else {
            i32::MAX
        };
    }
    if exponent == 0 {
        return 0;
    }
    let m: u64 = (fraction + 0x80_0000) as u64;
    proof {
        lemma2_to64();
    }
    let magnitude: u64 = if exponent >= 134 {
        if exponent - 134 >= 8 {
            proof {
                lemma_pow2_monotonic(8, (exponent - 134) as nat);
                assert(m * pow2((exponent - 134) as nat) >= 0x80_0000 * 256) by (nonlinear_arith)
                    requires
                        m >= 0x80_0000,
                        pow2((exponent - 134) as nat) >= 256,
                ;
            }
            return if negative {
                i32::MIN
            } else {
                i32::MAX
            };
        }
        let p = pow2_exec(exponent - 134);
        proof {
            lemma_pow2_monotonic((exponent - 134) as nat, 7);
            assert(m * p <= 0x100_0000 * 128) by (nonlinear_arith)
                requires
                    m <= 0x100_0000,
                    p <= 128,
            ;
        }
        m * p
    } else if 134 - exponent >= 25 {
        proof {
            lemma_pow2_monotonic(25, (134 - exponent) as nat);
            vstd::arithmetic::div_mod::lemma_basic_div(m as int, pow2((134 - exponent) as nat) as int);
        }
        0
    } else {
        let p = pow2_exec(134 - exponent);
        m / p
    };
    if negative {
        if magnitude >= 0x8000_0000 {
            i32::MIN
        } else {
            -(magnitude as i32)
        }
    } else {
        if magnitude > 0x7fff_ffff {
            i32::MAX
        } else {
            magnitude as i32
        }
    }
}

/// Reads the vertex positions that `view` of `buffer` holds as
/// little-endian single-precision triples, after checking that the view lies
/// inside the buffer and is aligned to whole coordinates and vertices.
pub fn read_positions(buffer: &Vec<u8>, view: &BufferView) -> (r: Result<Vec<Vec3>, LoadError>)
    ensures
        position_view_error(buffer@, *view) matches Some(e) ==> r == Err::<Vec<Vec3>, LoadError>(e),
        position_view_error(buffer@, *view) is None ==> (r matches Ok(v) && v@ == decoded_positions(
            view_bytes(buffer@, *view),
        )),
{
    let bytes = match view.look(buffer) {
        Ok(b) => b,
        Err(e) => {
            return Err(e);
        },
    };
    if view.offset % 4 != 0 || view.length % 12 != 0 {
        return Err(LoadError::MisalignedView);
    }
    let blen: usize = bytes.len();
    let n: usize = blen / 12;
    let mut r: Vec<Vec3> = Vec::with_capacity(n);
    let mut i: usize = 0;
    while i < n
        invariant
            blen == bytes@.len(),
            n == blen / 12,
            i <= n,
            r@ =~= decoded_positions(bytes@).take(i as int),
        decreases n - i,
    {
        let at: usize = 12 * i;
        let x = fixed_from_f32_bits(le_u32(&bytes, at));
        let y = fixed_from_f32_bits(le_u32(&bytes, at + 4));
        let z = fixed_from_f32_bits(le_u32(&bytes, at + 8));
        r.push(Vec3 { x, y, z });
        i = i + 1;
    }
    Ok(r)
}

/// The little-endian `u32` at byte `at`.
fn le_u32(b: &Vec<u8>, at: usize) -> (r: u32)
    requires
        at + 4 <= b@.len(),
        at + 4 <= usize::MAX,
    ensures
        r == le_uint(b@, at as int, 4),
{
    b[at] as u32 + 256 * b[at + 1] as u32 + 65536 * b[at + 2] as u32 + 16777216 * b[at + 3] as u32
}

/// The bytes of a view.
pub open spec fn view_bytes(buffer: Seq<u8>, view: BufferView) -> Seq<u8> {
    buffer.subrange(view.offset as int, view.offset + view.length)
}

impl BufferView {
    /// The bytes of this view of `buffer`, if the view lies inside it.
    pub fn look(&self, buffer: &Vec<u8>) -> (r: Result<Vec<u8>, LoadError>)
        ensures
            self.offset + self.length <= buffer@.len() ==> (r matches Ok(b) && b@ == view_bytes(
                buffer@,
                *self,
            )),
            self.offset + self.length > buffer@.len() ==> r == Err::<Vec<u8>, LoadError>(
                LoadError::ViewOutOfBounds,
            ),
    {
        let len: usize = buffer.len();
        if self.offset > len || self.length > len - self.offset {
            return Err(LoadError::ViewOutOfBounds);
        }
        let end: usize = self.offset + self.length;
        let mut r: Vec<u8> = Vec::with_capacity(self.length);
        let mut i: usize = self.offset;
        while i < end
            invariant
                len == buffer@.len(),
                self.offset <= i <= end,
                end == self.offset + self.length,
                end <= len,
                r@ =~= buffer@.subrange(self.offset as int, i as int),
            decreases end - i,
        {
            r.push(buffer[i]);
            i = i + 1;
        }
        Ok(r)
    }
}

/// Reads the index buffer that `view` of `buffer` holds as indices of type
/// `kind`, widening each to 32 bits.
pub fn read_indices(buffer: &Vec<u8>, view: &BufferView, kind: ComponentType) -> (r: Result<
    Vec<u32>,
    LoadError,
>)
    ensures
        index_view_error(buffer@, *view, kind) matches Some(e) ==> r == Err::<Vec<u32>, LoadError>(
            e,
        ),
        index_view_error(buffer@, *view, kind) is None ==> (r matches Ok(v) && v@
            == decoded_indices(view_bytes(buffer@, *view), kind)),
{
    let size: usize = match kind {
        ComponentType::U8 => 1,
        ComponentType::U16 => 2,
        ComponentType::U32 => 4,
        _ => {
            return Err(LoadError::UnsupportedIndexType);
        },
    };
    let bytes = match view.look(buffer) {
        Ok(b) => b,
        Err(e) => {
            return Err(e);
        },
    };
    if view.offset % size != 0 || view.length % size != 0 {
        return Err(LoadError::MisalignedView);
    }
    let blen: usize = bytes.len();
    let n: usize = blen / size;
    let mut r: Vec<u32> = Vec::with_capacity(n);
    let mut i: usize = 0;
    while i < n
        invariant
            blen == bytes@.len(),
            size == index_size(kind),
            supported_index_type(kind),
            n == bytes@.len() / (size as nat),
            i <= n,
            r@ =~= decoded_indices(bytes@, kind).take(i as int),
        decreases n - i,
    {
        assert(size * i + size <= size * n) by (nonlinear_arith)
            requires
                i < n,
                size > 0,
        ;
        assert(size * n <= bytes@.len()) by (nonlinear_arith)
            requires
                n == bytes@.len() / (size as nat),
                size > 0,
        ;
        let at: usize = size * i;
        let v: u32 = if size == 1 {
            bytes[at] as u32
        } else if size == 2 {
            bytes[at] as u32 + 256 * bytes[at + 1] as u32
        } else {
            bytes[at] as u32 + 256 * bytes[at + 1] as u32 + 65536 * bytes[at + 2] as u32 + 16777216
                * bytes[at + 3] as u32
        };
        r.push(v);
        i = i + 1;
    }
    Ok(r)
}

} // verus!
