use vstd::prelude::*;
use crate::csr::{csr_layout, entries, swapped};

verus! {

/// Relies on sprs's `CsMatBase::try_new`, which accepts CSR arrays with a
/// zero first row pointer exactly when `csr_layout` holds (its structural
/// validation in `check_compressed_structure`, with `usize` indices), and on
/// `into_raw_storage`, which hands the three arrays back as they were given.
#[verifier::external_body]
pub(crate) fn sprs_try_new<T>(
    rows: usize,
    cols: usize,
    pointers: Vec<usize>,
    indices: Vec<usize>,
    data: Vec<T>,
) -> (r: Result<(Vec<usize>, Vec<usize>, Vec<T>), ()>)
    requires
        rows < usize::MAX,
        pointers@.len() > 0,
        pointers@[0] == 0,
    ensures
        r is Ok <==> csr_layout(rows as nat, cols as nat, pointers@, indices@, data@.len()),
        r matches Ok((p, i, d)) ==> p@ == pointers@ && i@ == indices@ && d@ == data@,
{
    match sprs::CsMatI::<T, usize>::try_new((rows, cols), pointers, indices, data) {
        Ok(m) => Ok(m.into_raw_storage()),
        Err(_) => Err(()),
    }
}

/// Relies on sprs's `transpose_mut`, which swaps the shape and reads the
/// arrays as compressed columns, and `to_csr`, which re-buckets every stored
/// entry by its new row in ascending order of its new column: the result is
/// the valid CSR form of the transposed matrix, holding the same values.
/// `to_csr` allocates `cols + 1` row pointers, so `cols` stays below
/// `usize::MAX`.
#[verifier::external_body]
pub(crate) fn sprs_transpose<T: Copy + Default>(
    rows: usize,
    cols: usize,
    pointers: Vec<usize>,
    indices: Vec<usize>,
    data: Vec<T>,
) -> (r: (Vec<usize>, Vec<usize>, Vec<T>))
    requires
        csr_layout(rows as nat, cols as nat, pointers@, indices@, data@.len()),
        cols < usize::MAX,
    ensures
        csr_layout(cols as nat, rows as nat, r.0@, r.1@, r.2@.len()),
        entries(cols as nat, r.0@, r.1@, r.2@) == swapped(entries(rows as nat, pointers@, indices@, data@)),
{
    let mut m = sprs::CsMatI::<T, usize>::new((rows, cols), pointers, indices, data);
    m.transpose_mut();
    m.to_csr().into_raw_storage()
}

} // verus!
