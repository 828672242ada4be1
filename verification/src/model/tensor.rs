//! The boundary to `ndarray`: the output tensors are two-dimensional
//! `i64` arrays, built row by row.
//!
//! Verus cannot see inside `ndarray::Array2`, so it is held in a `Tensor2`,
//! opaque to the verifier. `tensor2_rows` names the sequence of rows the
//! array holds and `tensor2_ncols` its column count; the two wrappers below
//! are the only operations the encoder performs on it. Unverified callers
//! reach the underlying array through the public `data` field.

use vstd::prelude::*;

verus! {

/// A batch-rows-by-`token_width` matrix of `i64` cells.
#[verifier::external_body]
pub struct Tensor2 {
    /// The underlying array, for the inference boundary and for tests.
    pub data: ndarray::Array2<i64>,
}

/// The rows a tensor holds, top to bottom.
pub uninterp spec fn tensor2_rows(t: Tensor2) -> Seq<Seq<i64>>;

/// The column count a tensor was created with.
pub uninterp spec fn tensor2_ncols(t: Tensor2) -> int;

/// Relies on ndarray's `Array::zeros` with zero rows: a fresh array of
/// `width` columns and no rows. The source panics only when the product of
/// the non-zero axis lengths passes `isize::MAX`, excluded here.
#[verifier::external_body]
pub fn tensor2_new(width: usize) -> (t: Tensor2)
    requires
        width as int <= isize::MAX as int,
    ensures
        tensor2_rows(t) == Seq::<Seq<i64>>::empty(),
        tensor2_ncols(t) == width as int,
{
    Tensor2 { data: ndarray::Array::zeros((0, width)) }
}

/// Relies on ndarray's `push_row`: appends one row. The source errs only on
/// a row-length mismatch or when the new element count would pass
/// `isize::MAX`; both are excluded here, so the append succeeds.
#[verifier::external_body]
pub fn tensor2_push_row(t: &mut Tensor2, row: &Vec<i64>)
    requires
        row@.len() == tensor2_ncols(*old(t)),
        tensor2_rows(*old(t)).len() + 1 <= isize::MAX as int,
        (tensor2_rows(*old(t)).len() + 1) * tensor2_ncols(*old(t)) <= isize::MAX as int,
    ensures
        tensor2_rows(*final(t)) == tensor2_rows(*old(t)).push(row@),
        tensor2_ncols(*final(t)) == tensor2_ncols(*old(t)),
{
    let _ = t.data.push_row(ndarray::ArrayView::from(row.as_slice()));
}

} // verus!
