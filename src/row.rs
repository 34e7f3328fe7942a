use vstd::prelude::*;

verus! {

pub open spec fn strictly_increasing(s: Seq<usize>) -> bool {
    forall|a: int, b: int| 0 <= a < b < s.len() ==> s[a] < s[b]
}

/// Some sparse slot of `cols` names position `i`.
pub open spec fn has_slot(cols: Seq<usize>, i: int) -> bool {
    exists|j: int| 0 <= j < cols.len() && cols[j] == i
}

/// The sparse slot of `cols` that names position `i`.
pub open spec fn slot_of(cols: Seq<usize>, i: int) -> int {
    choose|j: int| 0 <= j < cols.len() && cols[j] == i
}

/// The dense form of a sparse row of length `len`: position `i` holds the
/// value stored at column `i`, or `zero` where none is stored.
pub open spec fn dense_row<T>(cols: Seq<usize>, vals: Seq<T>, len: nat, zero: T) -> Seq<T> {
    Seq::new(len, |i: int| if has_slot(cols, i) { vals[slot_of(cols, i)] } else { zero })
}

} // verus!

verus! {

/// In a strictly increasing sequence, the slot holding `cols[j]` is `j`.
pub proof fn lemma_slot_unique(cols: Seq<usize>, j: int)
    requires
        strictly_increasing(cols),
        0 <= j < cols.len(),
    ensures
        has_slot(cols, cols[j] as int),
        slot_of(cols, cols[j] as int) == j,
{
    assert(has_slot(cols, cols[j] as int));
    let s = slot_of(cols, cols[j] as int);
    if s < j {
        assert(cols[s] < cols[j]);
    } else if s > j {
        assert(cols[j] < cols[s]);
    }
}

/// A forward-only cursor over one sparse row: it yields, one position at a
/// time, the dense form of the row, merging the ascending positions
/// `0..length` with the ascending column indices of the stored entries.
pub struct RowCursor<'a, T> {
    columns: &'a Vec<usize>,
    values: &'a Vec<T>,
    start: usize,
    entry: usize,
    end: usize,
    position: usize,
    length: usize,
    zero: T,
}

impl<'a, T: Copy> RowCursor<'a, T> {
    /// Column indices of the row's stored entries.
    pub closed spec fn sparse_columns(&self) -> Seq<usize> {
        self.columns@.subrange(self.start as int, self.end as int)
    }

    /// Values of the row's stored entries.
    pub closed spec fn sparse_values(&self) -> Seq<T> {
        self.values@.subrange(self.start as int, self.end as int)
    }

    /// The value yielded at positions that hold no stored entry.
    pub closed spec fn zero(&self) -> T {
        self.zero
    }

    /// How many values have been yielded so far.
    pub closed spec fn position(&self) -> nat {
        self.position as nat
    }

    /// The whole dense row this cursor walks through.
    pub open spec fn row(&self) -> Seq<T> {
        dense_row(self.sparse_columns(), self.sparse_values(), self.len_spec(), self.zero())
    }

    /// The declared length of the row.
    pub closed spec fn len_spec(&self) -> nat {
        self.length as nat
    }

    pub closed spec fn wf(&self) -> bool {
        &&& self.start <= self.entry <= self.end <= self.columns@.len()
        &&& self.end <= self.values@.len()
        &&& self.position <= self.length
        &&& strictly_increasing(self.sparse_columns())
        &&& forall|k: int| self.start <= k < self.entry ==> #[trigger] self.columns@[k] < self.position
        &&& forall|k: int| self.entry <= k < self.end ==> #[trigger] self.columns@[k] >= self.position
    }

    /// A cursor at position zero over the entries `start..end` of the two
    /// index-aligned arrays, for a row of `length` positions. Stored columns
    /// at or past `length` are never reached: the cursor stops at `length`.
    pub fn new(
        columns: &'a Vec<usize>,
        values: &'a Vec<T>,
        start: usize,
        end: usize,
        length: usize,
        zero: T,
    ) -> (c: RowCursor<'a, T>)
        requires
            start <= end <= columns@.len(),
            end <= values@.len(),
            strictly_increasing(columns@.subrange(start as int, end as int)),
        ensures
            c.wf(),
            c.position() == 0,
            c.sparse_columns() == columns@.subrange(start as int, end as int),
            c.sparse_values() == values@.subrange(start as int, end as int),
            c.len_spec() == length,
            c.zero() == zero,
    {
        RowCursor { columns, values, start, entry: start, end, position: 0, length, zero }
    }

    /// Number of values still to come.
    pub fn remaining(&self) -> (r: usize)
        requires
            self.wf(),
        ensures
            r == self.row().len() - self.position(),
    {
        self.length - self.position
    }

    /// The value at the current position, then one step forward; `None`
    /// once all `length` positions have been yielded.
    pub fn next(&mut self) -> (r: Option<T>)
        requires
            old(self).wf(),
        ensures
            final(self).wf(),
            final(self).row() == old(self).row(),
            old(self).position() < old(self).row().len() ==> {
                &&& r == Some(old(self).row()[old(self).position() as int])
                &&& final(self).position() == old(self).position() + 1
            },
            old(self).position() >= old(self).row().len() ==> {
                &&& r is None
                &&& final(self).position() == old(self).position()
            },
    {
        if self.position >= self.length {
            return None;
        }
        let ghost cols = self.sparse_columns();
        let ghost vals = self.sparse_values();
        let ghost row = self.row();
        let p = self.position;
        if self.entry < self.end && self.columns[self.entry] == p {
            let v = self.values[self.entry];
            proof {
                let j = self.entry - self.start;
                assert(cols[j] == p);
                lemma_slot_unique(cols, j);
                assert(row[p as int] == v);
            }
            self.entry = self.entry + 1;
            self.position = self.position + 1;
            proof {
                assert forall|k: int| self.entry <= k < self.end implies #[trigger] self.columns@[k] >= self.position by {
                    assert(cols[k - self.start] == self.columns@[k]);
                    assert(cols[(self.entry - 1) - self.start] == self.columns@[self.entry - 1]);
                    assert(cols[(self.entry - 1) - self.start] < cols[k - self.start]);
                }
            }
            Some(v)
        } else {
            proof {
                assert forall|k: int| self.entry < k < self.end implies #[trigger] self.columns@[k] > p by {
                    assert(cols[k - self.start] == self.columns@[k]);
                    assert(cols[self.entry - self.start] == self.columns@[self.entry as int]);
                    assert(cols[self.entry - self.start] < cols[k - self.start]);
                }
                if has_slot(cols, p as int) {
                    let j = slot_of(cols, p as int);
                    assert(cols[j] == self.columns@[self.start + j]);
                }
                assert(row[p as int] == self.zero);
            }
            self.position = self.position + 1;
            Some(self.zero)
        }
    }
}

} // verus!

verus! {

/// Total of `f` over the items of `s`.
pub open spec fn sum_by<T>(s: Seq<T>, f: spec_fn(T) -> int) -> int
    decreases s.len(),
{
    if s.len() == 0 {
        0
    } else {
        sum_by(s.drop_last(), f) + f(s.last())
    }
}

proof fn lemma_sum_update<T>(s: Seq<T>, i: int, x: T, f: spec_fn(T) -> int)
    requires
        0 <= i < s.len(),
    ensures
        sum_by(s.update(i, x), f) == sum_by(s, f) - f(s[i]) + f(x),
    decreases s.len(),
{
    let u = s.update(i, x);
    if i == s.len() - 1 {
        assert(u.drop_last() =~= s.drop_last());
    } else {
        assert(u.drop_last() =~= s.drop_last().update(i, x));
        lemma_sum_update(s.drop_last(), i, x, f);
    }
}

proof fn lemma_sum_constant<T>(len: nat, zero: T, f: spec_fn(T) -> int)
    requires
        f(zero) == 0,
    ensures
        sum_by(Seq::new(len, |i: int| zero), f) == 0,
    decreases len,
{
    if len > 0 {
        assert(Seq::new(len, |i: int| zero).drop_last() =~= Seq::new((len - 1) as nat, |i: int| zero));
        lemma_sum_constant((len - 1) as nat, zero, f);
    }
}

/// Filling in zeros does not change a row's total: under any valuation `f`
/// that maps `zero` to 0, the dense row adds up to what its stored values
/// add up to.
pub proof fn lemma_dense_sum<T>(cols: Seq<usize>, vals: Seq<T>, len: nat, zero: T, f: spec_fn(T) -> int)
    requires
        cols.len() == vals.len(),
        strictly_increasing(cols),
        forall|k: int| 0 <= k < cols.len() ==> #[trigger] cols[k] < len,
        f(zero) == 0,
    ensures
        sum_by(dense_row(cols, vals, len, zero), f) == sum_by(vals, f),
    decreases cols.len(),
{
    if cols.len() == 0 {
        assert(dense_row(cols, vals, len, zero) =~= Seq::new(len, |i: int| zero));
        lemma_sum_constant(len, zero, f);
    } else {
        let n = cols.len() - 1;
        let c = cols[n] as int;
        let cs = cols.drop_last();
        let vs = vals.drop_last();
        let small = dense_row(cs, vs, len, zero);
        let full = dense_row(cols, vals, len, zero);
        assert(strictly_increasing(cs));
        lemma_slot_unique(cols, n);
        assert(!has_slot(cs, c)) by {
            if has_slot(cs, c) {
                let j = slot_of(cs, c);
                assert(cols[j] < cols[n]);
            }
        }
        assert forall|i: int| 0 <= i < len && i != c implies full[i] == small[i] by {
            if has_slot(cols, i) {
                let j = slot_of(cols, i);
                lemma_slot_unique(cols, j);
                assert(cs[j] == cols[j]);
                lemma_slot_unique(cs, j);
            } else if has_slot(cs, i) {
                let j = slot_of(cs, i);
                assert(cols[j] == i);
            }
        }
        assert(full =~= small.update(c, vals[n]));
        lemma_dense_sum(cs, vs, len, zero, f);
        lemma_sum_update(small, c, vals[n], f);
    }
}

} // verus!
