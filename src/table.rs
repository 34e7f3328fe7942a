use vstd::prelude::*;
use crate::csr::{csr_layout, entries, swapped, CsrMatrix};
use crate::element::{is_default, Element};
use crate::error::ConvertError;
use crate::options::Orient;
use crate::row::RowCursor;

verus! {

/// The labels that form the header for orientation `o`, given the labels of
/// the stored rows (`obs`) and of the stored columns (`var`).
pub open spec fn header_labels(o: Orient, obs: Seq<String>, var: Seq<String>) -> Seq<String> {
    match o {
        Orient::VarNames => var,
        Orient::ObsNames => obs,
    }
}

/// The labels that name the records for orientation `o`.
pub open spec fn record_labels(o: Orient, obs: Seq<String>, var: Seq<String>) -> Seq<String> {
    match o {
        Orient::VarNames => obs,
        Orient::ObsNames => var,
    }
}

/// Name of the first header field, which heads the column of record labels.
pub open spec fn first_column_name(o: Orient) -> Seq<char> {
    match o {
        Orient::VarNames => "cell"@,
        Orient::ObsNames => "gene"@,
    }
}

/// The two orientations of one source trade places: the header of one is
/// the record labels of the other.
pub proof fn lemma_orientations_swap_labels(obs: Seq<String>, var: Seq<String>)
    ensures
        header_labels(Orient::VarNames, obs, var) == record_labels(Orient::ObsNames, obs, var),
        record_labels(Orient::VarNames, obs, var) == header_labels(Orient::ObsNames, obs, var),
{
}

/// A matrix in its final orientation with its labels, ready to be written
/// record by record. Nothing mutates it once it is built.
pub struct Table<T> {
    first_column: String,
    header: Vec<String>,
    row_names: Vec<String>,
    matrix: CsrMatrix<T>,
    zero: T,
}

impl<T> Table<T> {
    pub closed spec fn first_column_spec(&self) -> Seq<char> {
        self.first_column@
    }

    pub closed spec fn header_spec(&self) -> Seq<String> {
        self.header@
    }

    pub closed spec fn row_names_spec(&self) -> Seq<String> {
        self.row_names@
    }

    pub closed spec fn matrix_spec(&self) -> CsrMatrix<T> {
        self.matrix
    }

    /// The value written at positions that hold no stored entry.
    pub closed spec fn zero_spec(&self) -> T {
        self.zero
    }

    pub open spec fn wf(&self) -> bool {
        &&& self.matrix_spec().wf()
        &&& self.header_spec().len() == self.matrix_spec().cols()
        &&& self.row_names_spec().len() == self.matrix_spec().rows()
    }

    /// Number of records below the header.
    pub fn row_count(&self) -> (r: usize)
        ensures
            r == self.matrix_spec().rows(),
    {
        self.matrix.row_count()
    }

    /// Number of values in each record.
    pub fn col_count(&self) -> (r: usize)
        ensures
            r == self.matrix_spec().cols(),
    {
        self.matrix.col_count()
    }

    pub fn first_column(&self) -> (r: &String)
        ensures
            r@ == self.first_column_spec(),
    {
        &self.first_column
    }

    pub fn header(&self) -> (r: &Vec<String>)
        ensures
            r@ == self.header_spec(),
    {
        &self.header
    }

    pub fn row_names(&self) -> (r: &Vec<String>)
        ensures
            r@ == self.row_names_spec(),
    {
        &self.row_names
    }

    /// The label of record `i`.
    pub fn row_name(&self, i: usize) -> (r: &String)
        requires
            self.wf(),
            i < self.matrix_spec().rows(),
        ensures
            *r == self.row_names_spec()[i as int],
    {
        &self.row_names[i]
    }

    /// The header record: the first column's name, then every header label.
    pub fn header_record(&self) -> (r: Vec<String>)
        ensures
            r@.len() == self.header_spec().len() + 1,
            r@[0]@ == self.first_column_spec(),
            r@.subrange(1, r@.len() as int) == self.header_spec(),
    {
        let mut r: Vec<String> = Vec::new();
        r.push(self.first_column.clone());
        let mut i: usize = 0;
        while i < self.header.len()
            invariant
                i <= self.header@.len(),
                r@.len() == i + 1,
                r@[0]@ == self.first_column@,
                r@.subrange(1, r@.len() as int) == self.header@.subrange(0, i as int),
            decreases self.header@.len() - i,
        {
            r.push(self.header[i].clone());
            i = i + 1;
            assert(r@.subrange(1, r@.len() as int) =~= self.header@.subrange(0, i as int));
        }
        assert(self.header@.subrange(0, i as int) =~= self.header@);
        r
    }
}

impl<T: Element> Table<T> {
    /// Puts `matrix` in orientation `o` with its labels: `obs` names the
    /// stored rows and `var` the stored columns. `ObsNames` transposes the
    /// matrix; `VarNames` keeps it as stored.
    pub fn orient(matrix: CsrMatrix<T>, obs: Vec<String>, var: Vec<String>, o: Orient) -> (r: Result<Table<T>, ConvertError>)
        requires
            matrix.wf(),
        ensures
            r is Ok <==> obs@.len() == matrix.rows() && var@.len() == matrix.cols(),
            r matches Ok(t) ==> {
                &&& t.wf()
                &&& t.first_column_spec() == first_column_name(o)
                &&& t.header_spec() == header_labels(o, obs@, var@)
                &&& t.row_names_spec() == record_labels(o, obs@, var@)
                &&& is_default(t.zero_spec())
                &&& o == Orient::VarNames ==> t.matrix_spec() == matrix
                &&& o == Orient::ObsNames ==> t.matrix_spec().is_transpose_of(matrix)
            },
            r matches Err(e) ==> e == (ConvertError::LabelMismatch {
                row_labels: obs@.len() as usize,
                column_labels: var@.len() as usize,
                row_count: matrix.rows() as usize,
                col_count: matrix.cols() as usize,
            }),
    {
        if obs.len() != matrix.row_count() || var.len() != matrix.col_count() {
            return Err(ConvertError::LabelMismatch {
                row_labels: obs.len(),
                column_labels: var.len(),
                row_count: matrix.row_count(),
                col_count: matrix.col_count(),
            });
        }
        let zero = T::default();
        match o {
            Orient::VarNames => Ok(
                Table { first_column: "cell".to_owned(), header: var, row_names: obs, matrix, zero },
            ),
            Orient::ObsNames => {
                let t = matrix.transpose();
                Ok(Table { first_column: "gene".to_owned(), header: obs, row_names: var, matrix: t, zero })
            },
        }
    }

    /// A cursor over record `i` that yields its values in column order.
    pub fn row_cursor(&self, i: usize) -> (c: RowCursor<'_, T>)
        requires
            self.wf(),
            i < self.matrix_spec().rows(),
        ensures
            c.wf(),
            c.position() == 0,
            c.row() == self.matrix_spec().dense(i as int, self.zero_spec()),
    {
        self.matrix.row_cursor(i, self.zero)
    }

    /// The values of record `i`: one per header label, zero where nothing is stored.
    pub fn materialize_row(&self, i: usize) -> (v: Vec<T>)
        requires
            self.wf(),
            i < self.matrix_spec().rows(),
        ensures
            v@ == self.matrix_spec().dense(i as int, self.zero_spec()),
            v@.len() == self.header_spec().len(),
    {
        self.matrix.materialize_row(i, self.zero)
    }
}

/// Builds the table for the arrays of a matrix whose stored rows are named by
/// `obs` and stored columns by `var`, in orientation `o`.
pub fn arrays_to_table<T: Element>(
    o: Orient,
    row_pointers: Vec<usize>,
    column_indices: Vec<usize>,
    values: Vec<T>,
    obs: Vec<String>,
    var: Vec<String>,
) -> (r: Result<Table<T>, ConvertError>)
    ensures
        r is Ok <==> csr_layout(obs@.len(), var@.len(), row_pointers@, column_indices@, values@.len())
            && var@.len() < usize::MAX,
        r matches Ok(t) ==> {
            &&& t.wf()
            &&& t.first_column_spec() == first_column_name(o)
            &&& t.header_spec() == header_labels(o, obs@, var@)
            &&& t.row_names_spec() == record_labels(o, obs@, var@)
            &&& is_default(t.zero_spec())
            &&& o == Orient::VarNames ==> {
                &&& t.matrix_spec().pointers() == row_pointers@
                &&& t.matrix_spec().indices() == column_indices@
                &&& t.matrix_spec().data() == values@
            }
            &&& o == Orient::ObsNames ==> t.matrix_spec().triples() == swapped(
                entries(obs@.len(), row_pointers@, column_indices@, values@),
            )
        },
        r matches Err(e) ==> e == (ConvertError::MalformedMatrix {
            row_count: obs@.len() as usize,
            col_count: var@.len() as usize,
            pointer_count: row_pointers@.len() as usize,
            index_count: column_indices@.len() as usize,
            value_count: values@.len() as usize,
        }),
{
    let m = CsrMatrix::try_new(obs.len(), var.len(), row_pointers, column_indices, values);
    match m {
        Ok(m) => Table::orient(m, obs, var, o),
        Err(e) => Err(e),
    }
}

} // verus!
