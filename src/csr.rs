use vstd::prelude::*;
use crate::element::Element;
use crate::error::ConvertError;
use crate::row::{dense_row, lemma_dense_sum, strictly_increasing, sum_by, RowCursor};
use crate::sparse::{sprs_transpose, sprs_try_new};

verus! {

/// Row pointers for `rows` rows over `nnz` stored entries: one more pointer
/// than rows, starting at zero, never decreasing, ending at `nnz`.
pub open spec fn pointers_ok(rows: nat, nnz: nat, p: Seq<usize>) -> bool {
    &&& p.len() == rows + 1
    &&& p[0] == 0
    &&& p[rows as int] == nnz
    &&& forall|i: int, j: int| 0 <= i <= j <= rows ==> p[i] <= p[j]
}

/// The part of `s` that belongs to row `r`.
pub open spec fn row_slice<A>(p: Seq<usize>, s: Seq<A>, r: int) -> Seq<A> {
    s.subrange(p[r] as int, p[r + 1] as int)
}

/// Within each row the column indices strictly increase, and every column
/// index is below `cols`.
pub open spec fn rows_sorted(rows: nat, cols: nat, p: Seq<usize>, idx: Seq<usize>) -> bool {
    &&& forall|r: int| 0 <= r < rows ==> strictly_increasing(#[trigger] row_slice(p, idx, r))
    &&& forall|k: int| 0 <= k < idx.len() ==> idx[k] < cols
}

/// The arrays form a valid `rows` by `cols` CSR matrix with `nvals` values.
/// The entry count stays within half the address space.
pub open spec fn csr_layout(rows: nat, cols: nat, p: Seq<usize>, idx: Seq<usize>, nvals: nat) -> bool {
    &&& pointers_ok(rows, idx.len(), p)
    &&& idx.len() == nvals
    &&& idx.len() <= usize::MAX / 2
    &&& rows_sorted(rows, cols, p, idx)
}

/// The stored `(row, column, value)` triples.
pub open spec fn entries<T>(rows: nat, p: Seq<usize>, idx: Seq<usize>, vals: Seq<T>) -> Set<(int, int, T)> {
    Set::new(
        |e: (int, int, T)|
            exists|r: int, k: int|
                #![trigger p[r], idx[k]]
                0 <= r < rows && p[r] <= k < p[r + 1] && e == (r, idx[k] as int, vals[k]),
    )
}

/// The same triples with row and column exchanged.
pub open spec fn swapped<T>(s: Set<(int, int, T)>) -> Set<(int, int, T)> {
    Set::new(|e: (int, int, T)| s.contains((e.1, e.0, e.2)))
}

/// A sparse matrix in compressed-sparse-row form, validated when built.
pub struct CsrMatrix<T> {
    row_count: usize,
    col_count: usize,
    row_pointers: Vec<usize>,
    column_indices: Vec<usize>,
    values: Vec<T>,
}

impl<T> CsrMatrix<T> {
    pub closed spec fn rows(&self) -> nat {
        self.row_count as nat
    }

    pub closed spec fn cols(&self) -> nat {
        self.col_count as nat
    }

    pub closed spec fn pointers(&self) -> Seq<usize> {
        self.row_pointers@
    }

    pub closed spec fn indices(&self) -> Seq<usize> {
        self.column_indices@
    }

    pub closed spec fn data(&self) -> Seq<T> {
        self.values@
    }

    /// A valid layout whose dimensions each leave room for one more row
    /// pointer than they count, so that either one can serve as the row count.
    pub open spec fn wf(&self) -> bool {
        &&& csr_layout(self.rows(), self.cols(), self.pointers(), self.indices(), self.data().len())
        &&& self.rows() < usize::MAX
        &&& self.cols() < usize::MAX
    }

    pub open spec fn triples(&self) -> Set<(int, int, T)> {
        entries(self.rows(), self.pointers(), self.indices(), self.data())
    }

    /// Column indices of row `r`.
    pub open spec fn row_columns(&self, r: int) -> Seq<usize> {
        row_slice(self.pointers(), self.indices(), r)
    }

    /// Stored values of row `r`.
    pub open spec fn row_values(&self, r: int) -> Seq<T> {
        row_slice(self.pointers(), self.data(), r)
    }

    /// Row `r` with `zero` at every column that holds no stored entry.
    pub open spec fn dense(&self, r: int, zero: T) -> Seq<T> {
        dense_row(self.row_columns(r), self.row_values(r), self.cols(), zero)
    }

    /// `self` is the transpose of `m`: shape swapped, every triple mirrored.
    pub open spec fn is_transpose_of(&self, m: CsrMatrix<T>) -> bool {
        &&& self.rows() == m.cols()
        &&& self.cols() == m.rows()
        &&& self.triples() == swapped(m.triples())
    }

    pub fn row_count(&self) -> (r: usize)
        ensures
            r == self.rows(),
    {
        self.row_count
    }

    pub fn col_count(&self) -> (r: usize)
        ensures
            r == self.cols(),
    {
        self.col_count
    }

    pub fn row_pointers(&self) -> (r: &Vec<usize>)
        ensures
            r@ == self.pointers(),
    {
        &self.row_pointers
    }

    pub fn column_indices(&self) -> (r: &Vec<usize>)
        ensures
            r@ == self.indices(),
    {
        &self.column_indices
    }

    pub fn values(&self) -> (r: &Vec<T>)
        ensures
            r@ == self.data(),
    {
        &self.values
    }

    /// Number of stored entries.
    pub fn nnz(&self) -> (r: usize)
        ensures
            r == self.data().len(),
    {
        self.values.len()
    }

}

impl<T: Element> CsrMatrix<T> {
    /// Builds a `row_count` by `col_count` matrix from its three arrays, or
    /// reports a structural error when they do not form a valid CSR layout
    /// or `col_count` is `usize::MAX` (a count that cannot be transposed).
    pub fn try_new(
        row_count: usize,
        col_count: usize,
        row_pointers: Vec<usize>,
        column_indices: Vec<usize>,
        values: Vec<T>,
    ) -> (r: Result<CsrMatrix<T>, ConvertError>)
        ensures
            r is Ok <==> csr_layout(
                row_count as nat,
                col_count as nat,
                row_pointers@,
                column_indices@,
                values@.len(),
            ) && col_count < usize::MAX,
            r matches Ok(m) ==> {
                &&& m.wf()
                &&& m.rows() == row_count
                &&& m.cols() == col_count
                &&& m.pointers() == row_pointers@
                &&& m.indices() == column_indices@
                &&& m.data() == values@
            },
            r matches Err(e) ==> e == (ConvertError::MalformedMatrix {
                row_count,
                col_count,
                pointer_count: row_pointers@.len() as usize,
                index_count: column_indices@.len() as usize,
                value_count: values@.len() as usize,
            }),
    {
        let error = ConvertError::MalformedMatrix {
            row_count,
            col_count,
            pointer_count: row_pointers.len(),
            index_count: column_indices.len(),
            value_count: values.len(),
        };
        if row_pointers.len() == 0 || row_pointers[0] != 0 || row_count == usize::MAX || col_count
            == usize::MAX {
            return Err(error);
        }
        match sprs_try_new(row_count, col_count, row_pointers, column_indices, values) {
            Ok((p, i, d)) => Ok(
                CsrMatrix {
                    row_count,
                    col_count,
                    row_pointers: p,
                    column_indices: i,
                    values: d,
                },
            ),
            Err(()) => Err(error),
        }
    }

    /// A cursor over row `r` that yields its `cols` values in order, `zero`
    /// wherever the row stores no entry.
    pub fn row_cursor(&self, r: usize, zero: T) -> (c: RowCursor<'_, T>)
        requires
            self.wf(),
            r < self.rows(),
        ensures
            c.wf(),
            c.position() == 0,
            c.row() == self.dense(r as int, zero),
    {
        let start = self.row_pointers[r];
        let end = self.row_pointers[r + 1];
        proof {
            assert(strictly_increasing(row_slice(self.pointers(), self.indices(), r as int)));
        }
        let c = RowCursor::new(&self.column_indices, &self.values, start, end, self.col_count, zero);
        assert(c.row() =~= self.dense(r as int, zero));
        c
    }

    /// Row `r` in dense form: exactly `cols` values, `zero` wherever the row
    /// stores no entry.
    pub fn materialize_row(&self, r: usize, zero: T) -> (v: Vec<T>)
        requires
            self.wf(),
            r < self.rows(),
        ensures
            v@ == self.dense(r as int, zero),
            v@.len() == self.cols(),
    {
        let mut c = self.row_cursor(r, zero);
        let ghost row = c.row();
        let mut v: Vec<T> = Vec::new();
        let n = c.remaining();
        while v.len() < n
            invariant
                c.wf(),
                c.row() == row,
                n == row.len(),
                v@.len() <= n,
                c.position() == v@.len(),
                v@ == row.subrange(0, v@.len() as int),
            decreases n - v@.len(),
        {
            let x = c.next();
            match x {
                Some(x) => {
                    v.push(x);
                },
                None => {},
            }
            assert(v@ =~= row.subrange(0, v@.len() as int));
        }
        assert(v@ =~= row);
        v
    }

    /// The transposed matrix, again in CSR form: rows and columns swap and
    /// each new row lists its entries by ascending column.
    pub fn transpose(self) -> (t: CsrMatrix<T>)
        requires
            self.wf(),
        ensures
            t.wf(),
            t.is_transpose_of(self),
    {
        let CsrMatrix { row_count, col_count, row_pointers, column_indices, values } = self;
        let (p, i, d) = sprs_transpose(row_count, col_count, row_pointers, column_indices, values);
        CsrMatrix { row_count: col_count, col_count: row_count, row_pointers: p, column_indices: i, values: d }
    }
}

/// A row stores at most one entry per column, so no triple is stored twice
/// and the set of stored triples is their multiset.
pub proof fn lemma_one_entry_per_cell<T>(m: CsrMatrix<T>, r: int, k1: int, k2: int)
    requires
        m.wf(),
        0 <= r < m.rows(),
        m.pointers()[r] <= k1 < m.pointers()[r + 1],
        m.pointers()[r] <= k2 < m.pointers()[r + 1],
        m.indices()[k1] == m.indices()[k2],
    ensures
        k1 == k2,
{
    let p = m.pointers();
    let row = row_slice(p, m.indices(), r);
    assert(strictly_increasing(row));
    assert(p[r + 1] <= p[m.rows() as int]);
    assert(row[k1 - p[r]] == m.indices()[k1]);
    assert(row[k2 - p[r]] == m.indices()[k2]);
}

/// Two strictly increasing sequences with the same elements are equal.
proof fn lemma_sorted_same_elements(s: Seq<usize>, t: Seq<usize>)
    requires
        strictly_increasing(s),
        strictly_increasing(t),
        forall|x: usize| s.contains(x) <==> t.contains(x),
    ensures
        s == t,
    decreases s.len() + t.len(),
{
    if s.len() == 0 {
        if t.len() > 0 {
            assert(t.contains(t[0]));
        }
        assert(s =~= t);
    } else if t.len() == 0 {
        assert(s.contains(s[0]));
    } else {
        let a = s.last();
        let b = t.last();
        assert(s.contains(a));
        assert(t.contains(b));
        let i = choose|i: int| 0 <= i < t.len() && t[i] == a;
        let j = choose|j: int| 0 <= j < s.len() && s[j] == b;
        if i < t.len() - 1 {
            assert(t[i] < b);
        }
        if j < s.len() - 1 {
            assert(s[j] < a);
        }
        assert(a == b);
        let s2 = s.drop_last();
        let t2 = t.drop_last();
        assert forall|x: usize| s2.contains(x) <==> t2.contains(x) by {
            if s2.contains(x) {
                let m = choose|m: int| 0 <= m < s2.len() && s2[m] == x;
                assert(s[m] == x && s[m] < a);
                assert(s.contains(x));
                let n = choose|n: int| 0 <= n < t.len() && t[n] == x;
                assert(t2[n] == x);
            }
            if t2.contains(x) {
                let m = choose|m: int| 0 <= m < t2.len() && t2[m] == x;
                assert(t[m] == x && t[m] < b);
                assert(t.contains(x));
                let n = choose|n: int| 0 <= n < s.len() && s[n] == x;
                assert(s2[n] == x);
            }
        }
        lemma_sorted_same_elements(s2, t2);
        assert(s =~= s2.push(a));
        assert(t =~= t2.push(b));
    }
}

/// The row whose slice of the entry arrays holds entry `k`.
proof fn lemma_find_row(p: Seq<usize>, hi: int, k: int) -> (r: int)
    requires
        1 <= hi < p.len(),
        p[0] <= k < p[hi],
        forall|i: int, j: int| 0 <= i <= j < p.len() ==> p[i] <= p[j],
    ensures
        0 <= r < hi,
        p[r] <= k < p[r + 1],
    decreases hi,
{
    if p[hi - 1] <= k {
        hi - 1
    } else {
        lemma_find_row(p, hi - 1, k)
    }
}

/// A column stored in row `r` of `a` is stored in row `r` of `b` when both
/// hold the same triples.
proof fn lemma_row_column_carries<T>(a: CsrMatrix<T>, b: CsrMatrix<T>, r: int, x: usize)
    requires
        a.wf(),
        b.wf(),
        a.rows() == b.rows(),
        a.triples() == b.triples(),
        0 <= r < a.rows(),
        a.row_columns(r).contains(x),
    ensures
        b.row_columns(r).contains(x),
{
    let pa = a.pointers();
    let pb = b.pointers();
    assert(pa[r + 1] <= pa[a.rows() as int]);
    assert(pb[r + 1] <= pb[b.rows() as int]);
    let j = choose|j: int| 0 <= j < a.row_columns(r).len() && a.row_columns(r)[j] == x;
    let k = pa[r] + j;
    assert(a.indices()[k] == x);
    let e = (r, x as int, a.data()[k]);
    assert(a.triples().contains(e));
    assert(b.triples().contains(e));
    let (r2, k2) = choose|r2: int, k2: int|
        #![trigger pb[r2], b.indices()[k2]]
        0 <= r2 < b.rows() && pb[r2] <= k2 < pb[r2 + 1] && e == (r2, b.indices()[k2] as int, b.data()[k2]);
    assert(b.row_columns(r)[k2 - pb[r]] == x);
}

/// Row `r` lists the same columns in `a` and in `b` when both hold the same
/// triples.
proof fn lemma_rows_agree<T>(a: CsrMatrix<T>, b: CsrMatrix<T>, r: int)
    requires
        a.wf(),
        b.wf(),
        a.rows() == b.rows(),
        a.triples() == b.triples(),
        0 <= r < a.rows(),
    ensures
        a.row_columns(r) == b.row_columns(r),
{
    assert(strictly_increasing(row_slice(a.pointers(), a.indices(), r)));
    assert(strictly_increasing(row_slice(b.pointers(), b.indices(), r)));
    assert forall|x: usize| a.row_columns(r).contains(x) <==> b.row_columns(r).contains(x) by {
        if a.row_columns(r).contains(x) {
            lemma_row_column_carries(a, b, r, x);
        }
        if b.row_columns(r).contains(x) {
            lemma_row_column_carries(b, a, r, x);
        }
    }
    lemma_sorted_same_elements(a.row_columns(r), b.row_columns(r));
}

proof fn lemma_pointers_agree<T>(a: CsrMatrix<T>, b: CsrMatrix<T>, r: int)
    requires
        a.wf(),
        b.wf(),
        a.rows() == b.rows(),
        a.triples() == b.triples(),
        0 <= r <= a.rows(),
    ensures
        a.pointers()[r] == b.pointers()[r],
    decreases r,
{
    if r > 0 {
        lemma_pointers_agree(a, b, r - 1);
        lemma_rows_agree(a, b, r - 1);
        assert(a.pointers()[r - 1] <= a.pointers()[r] <= a.pointers()[a.rows() as int]);
        assert(b.pointers()[r - 1] <= b.pointers()[r] <= b.pointers()[b.rows() as int]);
    }
}

/// A valid CSR matrix is determined by its row count and its triples: two
/// such matrices that agree on both have the same three arrays.
pub proof fn lemma_triples_determine_arrays<T>(a: CsrMatrix<T>, b: CsrMatrix<T>)
    requires
        a.wf(),
        b.wf(),
        a.rows() == b.rows(),
        a.triples() == b.triples(),
    ensures
        a.pointers() == b.pointers(),
        a.indices() == b.indices(),
        a.data() == b.data(),
{
    let pa = a.pointers();
    let pb = b.pointers();
    let rows = a.rows() as int;
    assert forall|r: int| 0 <= r <= rows implies pa[r] == pb[r] by {
        lemma_pointers_agree(a, b, r);
    }
    assert(pa =~= pb);
    assert forall|k: int|
        #![trigger a.indices()[k]]
        #![trigger a.data()[k]]
        0 <= k < a.indices().len() implies a.indices()[k] == b.indices()[k] && a.data()[k] == b.data()[k] by {
        let r = lemma_find_row(pa, rows, k);
        assert(pa[r + 1] <= pa[rows]);
        lemma_rows_agree(a, b, r);
        assert(a.row_columns(r)[k - pa[r]] == a.indices()[k]);
        assert(b.row_columns(r)[k - pb[r]] == b.indices()[k]);
        let e = (r, a.indices()[k] as int, a.data()[k]);
        assert(a.triples().contains(e));
        assert(b.triples().contains(e));
        let (r2, k2) = choose|r2: int, k2: int|
            #![trigger pb[r2], b.indices()[k2]]
            0 <= r2 < b.rows() && pb[r2] <= k2 < pb[r2 + 1] && e == (r2, b.indices()[k2] as int, b.data()[k2]);
        lemma_one_entry_per_cell(b, r, k2, k);
    }
    assert(a.indices() =~= b.indices());
    assert(a.data().len() == a.indices().len() && b.data().len() == b.indices().len());
    assert(a.data() =~= b.data());
}

/// Transposing twice gives back the starting matrix: its shape, its stored
/// triples, and so its very arrays.
pub proof fn lemma_transpose_involution<T>(m: CsrMatrix<T>, t: CsrMatrix<T>, tt: CsrMatrix<T>)
    requires
        m.wf(),
        t.wf(),
        tt.wf(),
        t.is_transpose_of(m),
        tt.is_transpose_of(t),
    ensures
        tt.rows() == m.rows(),
        tt.cols() == m.cols(),
        tt.triples() == m.triples(),
        tt.pointers() == m.pointers(),
        tt.indices() == m.indices(),
        tt.data() == m.data(),
{
    assert(tt.triples() =~= m.triples());
    lemma_triples_determine_arrays(tt, m);
}

/// Every row keeps its total when expanded: under any valuation `f` that
/// maps `zero` to 0, the dense row adds up to what its stored values add up to.
pub proof fn lemma_row_sum<T>(m: CsrMatrix<T>, r: int, zero: T, f: spec_fn(T) -> int)
    requires
        m.wf(),
        0 <= r < m.rows(),
        f(zero) == 0,
    ensures
        sum_by(m.dense(r, zero), f) == sum_by(m.row_values(r), f),
{
    let p = m.pointers();
    assert(strictly_increasing(row_slice(p, m.indices(), r)));
    assert(p[r] <= p[r + 1] <= p[m.rows() as int]);
    let cols = m.row_columns(r);
    assert forall|k: int| 0 <= k < cols.len() implies #[trigger] cols[k] < m.cols() by {
        assert(cols[k] == m.indices()[p[r] + k]);
    }
    lemma_dense_sum(cols, m.row_values(r), m.cols(), zero, f);
}

} // verus!
