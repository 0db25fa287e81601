//! Shaped arrays held by `ndarray`, seen by the proofs through their flat
//! row-major contents and their extents.
use vstd::prelude::*;
use ndarray::{ArrayD, ShapeError};

verus! {

#[verifier::external_type_specification]
#[verifier::external_body]
pub struct ExShapeError(ShapeError);

/// An `n`-dimensional array of `ndarray`, in row-major (standard) layout.
#[verifier::external_body]
#[verifier::reject_recursive_types(T)]
pub struct NdArray<T> {
    inner: ArrayD<T>,
}

/// Product of the extents of a shape; `1` for the shape with no axis.
pub open spec fn product(shape: Seq<usize>) -> nat
    decreases shape.len(),
{
    if shape.len() == 0 {
        1
    } else {
        (product(shape.drop_last()) * shape.last()) as nat
    }
}

/// Product of the nonzero extents of a shape.
pub open spec fn nonzero_product(shape: Seq<usize>) -> nat
    decreases shape.len(),
{
    if shape.len() == 0 {
        1
    } else if shape.last() == 0 {
        nonzero_product(shape.drop_last())
    } else {
        (nonzero_product(shape.drop_last()) * shape.last()) as nat
    }
}

/// Whether `ndarray` accepts `len` elements under `shape`: the extents must
/// multiply to `len`, and the nonzero ones must not overflow `isize`.
pub open spec fn shape_accepts(shape: Seq<usize>, len: nat) -> bool {
    &&& nonzero_product(shape) <= isize::MAX
    &&& product(shape) == len
}

/// The elements of an array of `u8`, in row-major order.
pub uninterp spec fn elems_u8(a: NdArray<u8>) -> Seq<u8>;

/// The extents of an array of `u8`, one per axis.
pub uninterp spec fn dims_u8(a: NdArray<u8>) -> Seq<usize>;

/// Relies on `Array::from_shape_vec` with a plain (row-major) shape: it fails
/// exactly when the extents do not multiply to `v.len()` or their nonzero
/// product overflows `isize`; otherwise the array holds `v` in that order.
#[verifier::external_body]
pub(crate) fn from_shape_vec_u8(shape: Vec<usize>, v: Vec<u8>) -> (r: Result<NdArray<u8>, ShapeError>)
    ensures
        r is Ok <==> shape_accepts(shape@, v@.len()),
        r matches Ok(a) ==> elems_u8(a) == v@ && dims_u8(a) == shape@,
{
    match ArrayD::from_shape_vec(shape, v) {
        Ok(inner) => Ok(NdArray { inner }),
        Err(e) => Err(e),
    }
}

/// Relies on `ArrayBase::iter`: the elements in logical (row-major) order.
#[verifier::external_body]
pub(crate) fn to_vec_u8(a: &NdArray<u8>) -> (r: Vec<u8>)
    ensures
        r@ == elems_u8(*a),
{
    a.inner.iter().copied().collect()
}

/// Relies on `ArrayBase::shape`: the extents, one per axis.
#[verifier::external_body]
pub(crate) fn shape_u8(a: &NdArray<u8>) -> (r: Vec<usize>)
    ensures
        r@ == dims_u8(*a),
{
    a.inner.shape().to_vec()
}

/// The elements of an array of `i16`, in row-major order.
pub uninterp spec fn elems_i16(a: NdArray<i16>) -> Seq<i16>;

/// The extents of an array of `i16`, one per axis.
pub uninterp spec fn dims_i16(a: NdArray<i16>) -> Seq<usize>;

/// Relies on `Array::from_shape_vec` with a plain (row-major) shape: it fails
/// exactly when the extents do not multiply to `v.len()` or their nonzero
/// product overflows `isize`; otherwise the array holds `v` in that order.
#[verifier::external_body]
pub(crate) fn from_shape_vec_i16(shape: Vec<usize>, v: Vec<i16>) -> (r: Result<NdArray<i16>, ShapeError>)
    ensures
        r is Ok <==> shape_accepts(shape@, v@.len()),
        r matches Ok(a) ==> elems_i16(a) == v@ && dims_i16(a) == shape@,
{
    match ArrayD::from_shape_vec(shape, v) {
        Ok(inner) => Ok(NdArray { inner }),
        Err(e) => Err(e),
    }
}

/// Relies on `ArrayBase::iter`: the elements in logical (row-major) order.
#[verifier::external_body]
pub(crate) fn to_vec_i16(a: &NdArray<i16>) -> (r: Vec<i16>)
    ensures
        r@ == elems_i16(*a),
{
    a.inner.iter().copied().collect()
}

/// Relies on `ArrayBase::shape`: the extents, one per axis.
#[verifier::external_body]
pub(crate) fn shape_i16(a: &NdArray<i16>) -> (r: Vec<usize>)
    ensures
        r@ == dims_i16(*a),
{
    a.inner.shape().to_vec()
}

/// The elements of an array of `i32`, in row-major order.
pub uninterp spec fn elems_i32(a: NdArray<i32>) -> Seq<i32>;

/// The extents of an array of `i32`, one per axis.
pub uninterp spec fn dims_i32(a: NdArray<i32>) -> Seq<usize>;

/// Relies on `Array::from_shape_vec` with a plain (row-major) shape: it fails
/// exactly when the extents do not multiply to `v.len()` or their nonzero
/// product overflows `isize`; otherwise the array holds `v` in that order.
#[verifier::external_body]
pub(crate) fn from_shape_vec_i32(shape: Vec<usize>, v: Vec<i32>) -> (r: Result<NdArray<i32>, ShapeError>)
    ensures
        r is Ok <==> shape_accepts(shape@, v@.len()),
        r matches Ok(a) ==> elems_i32(a) == v@ && dims_i32(a) == shape@,
{
    match ArrayD::from_shape_vec(shape, v) {
        Ok(inner) => Ok(NdArray { inner }),
        Err(e) => Err(e),
    }
}

/// Relies on `ArrayBase::iter`: the elements in logical (row-major) order.
#[verifier::external_body]
pub(crate) fn to_vec_i32(a: &NdArray<i32>) -> (r: Vec<i32>)
    ensures
        r@ == elems_i32(*a),
{
    a.inner.iter().copied().collect()
}

/// Relies on `ArrayBase::shape`: the extents, one per axis.
#[verifier::external_body]
pub(crate) fn shape_i32(a: &NdArray<i32>) -> (r: Vec<usize>)
    ensures
        r@ == dims_i32(*a),
{
    a.inner.shape().to_vec()
}

/// The elements of an array of `u32`, in row-major order.
pub uninterp spec fn elems_u32(a: NdArray<u32>) -> Seq<u32>;

/// The extents of an array of `u32`, one per axis.
pub uninterp spec fn dims_u32(a: NdArray<u32>) -> Seq<usize>;

/// Relies on `Array::from_shape_vec` with a plain (row-major) shape: it fails
/// exactly when the extents do not multiply to `v.len()` or their nonzero
/// product overflows `isize`; otherwise the array holds `v` in that order.
#[verifier::external_body]
pub(crate) fn from_shape_vec_u32(shape: Vec<usize>, v: Vec<u32>) -> (r: Result<NdArray<u32>, ShapeError>)
    ensures
        r is Ok <==> shape_accepts(shape@, v@.len()),
        r matches Ok(a) ==> elems_u32(a) == v@ && dims_u32(a) == shape@,
{
    match ArrayD::from_shape_vec(shape, v) {
        Ok(inner) => Ok(NdArray { inner }),
        Err(e) => Err(e),
    }
}

/// Relies on `ArrayBase::iter`: the elements in logical (row-major) order.
#[verifier::external_body]
pub(crate) fn to_vec_u32(a: &NdArray<u32>) -> (r: Vec<u32>)
    ensures
        r@ == elems_u32(*a),
{
    a.inner.iter().copied().collect()
}

/// Relies on `ArrayBase::shape`: the extents, one per axis.
#[verifier::external_body]
pub(crate) fn shape_u32(a: &NdArray<u32>) -> (r: Vec<usize>)
    ensures
        r@ == dims_u32(*a),
{
    a.inner.shape().to_vec()
}

/// The elements of an array of `u64`, in row-major order.
pub uninterp spec fn elems_u64(a: NdArray<u64>) -> Seq<u64>;

/// The extents of an array of `u64`, one per axis.
pub uninterp spec fn dims_u64(a: NdArray<u64>) -> Seq<usize>;

/// Relies on `Array::from_shape_vec` with a plain (row-major) shape: it fails
/// exactly when the extents do not multiply to `v.len()` or their nonzero
/// product overflows `isize`; otherwise the array holds `v` in that order.
#[verifier::external_body]
pub(crate) fn from_shape_vec_u64(shape: Vec<usize>, v: Vec<u64>) -> (r: Result<NdArray<u64>, ShapeError>)
    ensures
        r is Ok <==> shape_accepts(shape@, v@.len()),
        r matches Ok(a) ==> elems_u64(a) == v@ && dims_u64(a) == shape@,
{
    match ArrayD::from_shape_vec(shape, v) {
        Ok(inner) => Ok(NdArray { inner }),
        Err(e) => Err(e),
    }
}

/// Relies on `ArrayBase::iter`: the elements in logical (row-major) order.
#[verifier::external_body]
pub(crate) fn to_vec_u64(a: &NdArray<u64>) -> (r: Vec<u64>)
    ensures
        r@ == elems_u64(*a),
{
    a.inner.iter().copied().collect()
}

/// Relies on `ArrayBase::shape`: the extents, one per axis.
#[verifier::external_body]
pub(crate) fn shape_u64(a: &NdArray<u64>) -> (r: Vec<usize>)
    ensures
        r@ == dims_u64(*a),
{
    a.inner.shape().to_vec()
}

} // verus!
