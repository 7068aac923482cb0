//! Scalar values carried as opaque single-component `nalgebra_glm` vectors.
//!
//! Verified code never looks inside a [`Real`]: every contract speaks of the
//! value's IEEE 754 binary32 bit pattern, named by the uninterpreted function
//! [`real_bits`]. Each arithmetic operation is a trusted wrapper around the
//! corresponding `nalgebra` operation, and its result is named by an
//! uninterpreted function of the operand bit patterns, so that two equal
//! inputs are known to give equal outputs while nothing unprovable is claimed
//! about the numeric values themselves.

use vstd::prelude::*;

use nalgebra_glm as glm;

verus! {

#[verifier::external_type_specification]
#[verifier::external_body]
#[verifier::reject_recursive_types(T)]
#[verifier::reject_recursive_types(R)]
#[verifier::reject_recursive_types(C)]
#[verifier::reject_recursive_types(S)]
pub struct ExMatrix<T, R, C, S>(nalgebra::Matrix<T, R, C, S>);

#[verifier::external_type_specification]
#[verifier::external_body]
#[verifier::reject_recursive_types(T)]
pub struct ExArrayStorage<T, const R: usize, const C: usize>(nalgebra::ArrayStorage<T, R, C>);

#[verifier::external_type_specification]
#[verifier::external_body]
pub struct ExConst<const D: usize>(nalgebra::Const<D>);

/// A scalar quantity: one IEEE 754 binary32 value, held as a one-component
/// `nalgebra_glm` vector that verified code treats as opaque.
pub type Real = glm::Vec1;

/// The IEEE 754 binary32 bit pattern of the single component of a [`Real`].
pub uninterp spec fn real_bits(v: Real) -> u32;

/// Bit pattern of the binary32 sum of the values with the given bit patterns.
pub uninterp spec fn add_bits(a: u32, b: u32) -> u32;

/// Bit pattern of the binary32 difference of the values with the given bit patterns.
pub uninterp spec fn sub_bits(a: u32, b: u32) -> u32;

/// Bit pattern of the binary32 product of the values with the given bit patterns.
pub uninterp spec fn mul_bits(a: u32, b: u32) -> u32;

/// Bit pattern of the binary32 quotient of the values with the given bit patterns.
pub uninterp spec fn div_bits(a: u32, b: u32) -> u32;

/// Bit pattern of the binary32 negation of the value with the given bit pattern.
pub uninterp spec fn neg_bits(a: u32) -> u32;

/// Whether the binary32 value with bit pattern `a` compares less than the one
/// with bit pattern `b`.
pub uninterp spec fn lt_bits(a: u32, b: u32) -> bool;

/// Bit pattern of the sine, evaluated in double precision and rounded back to
/// binary32, of the value with the given bit pattern.
pub uninterp spec fn sin_bits(a: u32) -> u32;

/// Bit pattern of the cosine, evaluated in double precision and rounded back
/// to binary32, of the value with the given bit pattern.
pub uninterp spec fn cos_bits(a: u32) -> u32;

/// Bit pattern of the binary32 value nearest to the given integer.
pub uninterp spec fn f32_of_u32(n: u32) -> u32;

/// Relies on `nalgebra`'s component-wise vector addition of two
/// one-component vectors: binary32 addition of the held values.
#[verifier::external_body]
pub(crate) fn real_add(a: Real, b: Real) -> (r: Real)
    ensures
        real_bits(r) == add_bits(real_bits(a), real_bits(b)),
{
    a + b
}

/// Relies on `nalgebra`'s component-wise vector subtraction of two
/// one-component vectors: binary32 subtraction of the held values.
#[verifier::external_body]
pub(crate) fn real_sub(a: Real, b: Real) -> (r: Real)
    ensures
        real_bits(r) == sub_bits(real_bits(a), real_bits(b)),
{
    a - b
}

/// Relies on `nalgebra`'s `component_mul` on one-component vectors: binary32
/// multiplication of the held values.
#[verifier::external_body]
pub(crate) fn real_mul(a: Real, b: Real) -> (r: Real)
    ensures
        real_bits(r) == mul_bits(real_bits(a), real_bits(b)),
{
    a.component_mul(&b)
}

/// Relies on `nalgebra`'s `component_div` on one-component vectors: binary32
/// division of the held values.
#[verifier::external_body]
pub(crate) fn real_div(a: Real, b: Real) -> (r: Real)
    ensures
        real_bits(r) == div_bits(real_bits(a), real_bits(b)),
{
    a.component_div(&b)
}

/// Relies on `nalgebra`'s vector negation: binary32 negation of the held value.
#[verifier::external_body]
pub(crate) fn real_neg(a: Real) -> (r: Real)
    ensures
        real_bits(r) == neg_bits(real_bits(a)),
{
    -a
}

/// Relies on the standard `<` on the held binary32 components.
#[verifier::external_body]
pub(crate) fn real_lt(a: Real, b: Real) -> (r: bool)
    ensures
        r == lt_bits(real_bits(a), real_bits(b)),
{
    a.x < b.x
}

/// Relies on `nalgebra_glm::sin`, applied to a double-precision copy of the
/// value and rounded back to binary32.
#[verifier::external_body]
pub(crate) fn real_sin(a: Real) -> (r: Real)
    ensures
        real_bits(r) == sin_bits(real_bits(a)),
{
    let wide: glm::DVec1 = glm::convert(a);
    glm::convert(glm::sin(&wide))
}

/// Relies on `nalgebra_glm::cos`, applied to a double-precision copy of the
/// value and rounded back to binary32.
#[verifier::external_body]
pub(crate) fn real_cos(a: Real) -> (r: Real)
    ensures
        real_bits(r) == cos_bits(real_bits(a)),
{
    let wide: glm::DVec1 = glm::convert(a);
    glm::convert(glm::cos(&wide))
}

/// Relies on `nalgebra`'s exact widening of an integer to double precision
/// and `nalgebra_glm::convert` down to binary32: the nearest binary32 value
/// to `n`.
#[verifier::external_body]
pub(crate) fn real_of_u32(n: u32) -> (r: Real)
    ensures
        real_bits(r) == f32_of_u32(n),
{
    let wide: glm::DVec1 = glm::vec1(n.into());
    glm::convert(wide)
}

/// Relies on `f32::to_bits`: the IEEE 754 bit pattern of the held value,
/// which is what [`real_bits`] names.
#[verifier::external_body]
pub(crate) fn real_to_bits(a: Real) -> (r: u32)
    ensures
        r == real_bits(a),
{
    a.x.to_bits()
}

/// Bit pattern of the binary32 value that the standard decimal parser reads
/// from the given bytes, or nothing where they are not a valid decimal float.
pub uninterp spec fn parse_f32_bits(t: Seq<u8>) -> Option<u32>;

/// Relies on the standard `str::parse::<f32>`, the correctly rounded decimal
/// parser, applied to the given bytes read as UTF-8.
#[verifier::external_body]
pub(crate) fn parse_real_bytes(t: &[u8]) -> (r: Option<Real>)
    ensures
        match r {
            Some(v) => parse_f32_bits(t@) == Some(real_bits(v)),
            None => parse_f32_bits(t@) is None,
        },
{
    let text = core::str::from_utf8(t).ok()?;
    let parsed = text.parse().ok()?;
    Some(glm::vec1(parsed))
}

/// Bit pattern of the binary32 value nearest to the mathematical constant pi.
pub const PI_BITS: u32 = 0x40490FDB;

/// Relies on `nalgebra_glm::pi`: the binary32 value nearest to the
/// mathematical constant, whose bit pattern is [`PI_BITS`].
#[verifier::external_body]
pub(crate) fn real_pi() -> (r: Real)
    ensures
        real_bits(r) == PI_BITS,
{
    glm::vec1(glm::pi())
}

} // verus!
