//! Homogeneous 4x4 transforms and 3-component vectors.
//!
//! Matrices are `nalgebra_glm` values that verified code treats as opaque;
//! every contract speaks of the matrix's sixteen column-major binary32 bit
//! patterns, named by the uninterpreted function [`mat_bits`]. A translation
//! matrix and the identity have exactly known entries; a product, a rotation
//! and a perspective matrix are named by uninterpreted functions of their
//! operands' bit patterns.

use vstd::prelude::*;

use crate::fp::{real_bits, sub_bits, Real};
use nalgebra_glm as glm;

verus! {

/// A 4x4 homogeneous transform, held as an opaque `nalgebra_glm` matrix.
pub type Mat4 = glm::Mat4;

/// A vector of three scalar components.
#[derive(Clone, Copy)]
pub struct Vec3r {
    pub x: Real,
    pub y: Real,
    pub z: Real,
}

/// The three component bit patterns of a [`Vec3r`], in x, y, z order.
pub open spec fn bits3(v: Vec3r) -> Seq<u32> {
    seq![real_bits(v.x), real_bits(v.y), real_bits(v.z)]
}

/// The sixteen column-major binary32 bit patterns of a [`Mat4`].
pub uninterp spec fn mat_bits(m: Mat4) -> Seq<u32>;

/// Entry bit patterns of the binary32 matrix product of the matrices with the
/// given entry bit patterns.
pub uninterp spec fn mat_mul_bits(a: Seq<u32>, b: Seq<u32>) -> Seq<u32>;

/// Entry bit patterns of the rotation matrix by the angle with the given bit
/// pattern about the positive x (`axis == 0`), y (`axis == 1`) or z
/// (`axis == 2`) axis.
pub uninterp spec fn rot_bits(angle: u32, axis: int) -> Seq<u32>;

/// Entry bit patterns of the right-handed perspective projection matrix for
/// the given aspect ratio, vertical field of view and near and far planes.
pub uninterp spec fn persp_bits(aspect: u32, fovy: u32, near: u32, far: u32) -> Seq<u32>;

/// Entry bit patterns of the binary32 cross product of the vectors with the
/// given component bit patterns.
pub uninterp spec fn cross_bits(a: Seq<u32>, b: Seq<u32>) -> Seq<u32>;

/// The bit pattern of binary32 one.
pub const ONE_BITS: u32 = 0x3F80_0000;

/// The bit pattern of the binary32 machine epsilon.
pub const EPSILON_BITS: u32 = 0x3400_0000;

/// Bit pattern of the magnitude of the binary32 value with bit pattern `a`:
/// the sign bit cleared. For finite values the magnitude order coincides
/// with the unsigned order of these patterns.
pub open spec fn abs_bits(a: u32) -> u32 {
    a & 0x7FFF_FFFF
}

/// Whether the binary32 value with bit pattern `a` lies within machine
/// epsilon of zero: the magnitude patterns up to [`EPSILON_BITS`]. An
/// infinity or a NaN has a larger magnitude pattern and does not count.
pub open spec fn near_zero(a: u32) -> bool {
    abs_bits(a) <= EPSILON_BITS
}

/// Column-major entries of the 4x4 identity matrix.
pub open spec fn identity_bits() -> Seq<u32> {
    seq![
        ONE_BITS, 0u32, 0u32, 0u32,
        0u32, ONE_BITS, 0u32, 0u32,
        0u32, 0u32, ONE_BITS, 0u32,
        0u32, 0u32, 0u32, ONE_BITS,
    ]
}

/// Column-major entries of the translation matrix by `(x, y, z)`: the
/// identity with the translation in the last column.
pub open spec fn translation_bits(x: u32, y: u32, z: u32) -> Seq<u32> {
    seq![
        ONE_BITS, 0u32, 0u32, 0u32,
        0u32, ONE_BITS, 0u32, 0u32,
        0u32, 0u32, ONE_BITS, 0u32,
        x, y, z, ONE_BITS,
    ]
}

/// Relies on `nalgebra_glm::identity`: the 4x4 identity matrix.
#[verifier::external_body]
pub(crate) fn mat_identity() -> (r: Mat4)
    ensures
        mat_bits(r) == identity_bits(),
{
    let m: glm::Mat4 = glm::identity();
    m
}

/// Relies on `nalgebra`'s matrix multiplication of two 4x4 binary32 matrices.
#[verifier::external_body]
pub(crate) fn mat_mul(a: &Mat4, b: &Mat4) -> (r: Mat4)
    ensures
        mat_bits(r) == mat_mul_bits(mat_bits(*a), mat_bits(*b)),
        mat_bits(r).len() == 16,
{
    a * b
}

/// Relies on `nalgebra_glm::translation`: the identity matrix with the given
/// vector written into the last column.
#[verifier::external_body]
pub(crate) fn mat_translation(v: &Vec3r) -> (r: Mat4)
    ensures
        mat_bits(r) == translation_bits(real_bits(v.x), real_bits(v.y), real_bits(v.z)),
{
    glm::translation(&glm::vec3(v.x.x, v.y.x, v.z.x))
}

/// Relies on `nalgebra_glm::rotation` about the unit x axis.
#[verifier::external_body]
pub(crate) fn mat_rotation_x(angle: Real) -> (r: Mat4)
    ensures
        mat_bits(r) == rot_bits(real_bits(angle), 0),
        mat_bits(r).len() == 16,
{
    glm::rotation(angle.x, &glm::vec3(1u8.into(), 0u8.into(), 0u8.into()))
}

/// Relies on `nalgebra_glm::rotation` about the unit y axis.
#[verifier::external_body]
pub(crate) fn mat_rotation_y(angle: Real) -> (r: Mat4)
    ensures
        mat_bits(r) == rot_bits(real_bits(angle), 1),
        mat_bits(r).len() == 16,
{
    glm::rotation(angle.x, &glm::vec3(0u8.into(), 1u8.into(), 0u8.into()))
}

/// Relies on `nalgebra_glm::rotation` about the unit z axis.
#[verifier::external_body]
pub(crate) fn mat_rotation_z(angle: Real) -> (r: Mat4)
    ensures
        mat_bits(r) == rot_bits(real_bits(angle), 2),
        mat_bits(r).len() == 16,
{
    glm::rotation(angle.x, &glm::vec3(0u8.into(), 0u8.into(), 1u8.into()))
}

/// True exactly when the value lies within machine epsilon of zero, as
/// [`near_zero`] says of its bit pattern.
pub(crate) fn is_near_zero(a: Real) -> (r: bool)
    ensures
        r == near_zero(real_bits(a)),
{
    let bits = crate::fp::real_to_bits(a);
    (bits & 0x7FFF_FFFF) <= EPSILON_BITS
}

/// Relies on `nalgebra_glm::perspective` with the aspect ratio first, as the
/// renderer calls it. The callee refuses to build a frustum whose aspect
/// ratio or whose plane separation `far - near` is within machine epsilon of
/// zero, so those inputs are excluded here.
#[verifier::external_body]
pub(crate) fn mat_perspective(aspect: Real, fovy: Real, near: Real, far: Real) -> (r: Mat4)
    requires
        !near_zero(real_bits(aspect)),
        !near_zero(sub_bits(real_bits(far), real_bits(near))),
    ensures
        mat_bits(r) == persp_bits(
            real_bits(aspect),
            real_bits(fovy),
            real_bits(near),
            real_bits(far),
        ),
        mat_bits(r).len() == 16,
{
    glm::perspective(aspect.x, fovy.x, near.x, far.x)
}

/// Relies on `nalgebra_glm::cross` on two binary32 vectors.
#[verifier::external_body]
pub(crate) fn cross3(a: &Vec3r, b: &Vec3r) -> (r: Vec3r)
    ensures
        bits3(r) == cross_bits(bits3(*a), bits3(*b)),
{
    let av = glm::vec3(a.x.x, a.y.x, a.z.x);
    let bv = glm::vec3(b.x.x, b.y.x, b.z.x);
    let c = glm::cross(&av, &bv);
    Vec3r { x: glm::vec1(c.x), y: glm::vec1(c.y), z: glm::vec1(c.z) }
}

} // verus!
