use vstd::prelude::*;

verus! {

/// Why a conversion stopped before any record was produced.
#[derive(Clone, Debug, PartialEq, Eq)]
pub enum ConvertError {
    /// The compressed-row arrays do not describe a matrix of the declared shape.
    MalformedMatrix {
        row_count: usize,
        col_count: usize,
        pointer_count: usize,
        index_count: usize,
        value_count: usize,
    },
    /// The element type tag is not one of the supported numeric types.
    UnsupportedType { tag: String, supported: Vec<String> },
    /// A label set does not match the matrix dimension it names.
    LabelMismatch {
        row_labels: usize,
        column_labels: usize,
        row_count: usize,
        col_count: usize,
    },
}

} // verus!
