//! Sparse symmetric matrix storage.
//!
//! The assembler accumulates `(row, col, value)` triplets in push order;
//! entries with the same position must add up, not overwrite.  Compaction
//! turns the triplet list into a row-compressed form — per row, the present
//! columns in increasing order with their accumulated values — which the
//! solver multiplies against a dense vector every iteration.

use crate::fp::{fadd, fadd_bits, fmul_bits, all_zero, POS_ZERO};
use vstd::prelude::*;

verus! {

/// One accumulated contribution to the coefficient matrix.
#[derive(Clone, Copy)]
pub struct Triplet {
    pub row: usize,
    pub col: usize,
    pub val: u64,
}

/// Triplet-list (coordinate form) accumulator for a square matrix.
pub struct CooMatrix {
    pub nrows: usize,
    pub triplets: Vec<Triplet>,
}

/// The accumulated value at `(r, c)` after the first `k` triplets:
/// `None` while no triplet hit the position, else the running
/// floating-point sum in push order.
pub open spec fn entry_upto(ts: Seq<Triplet>, r: int, c: int, k: int) -> Option<u64>
    decreases k,
{
    if k <= 0 {
        None
    } else {
        let prev = entry_upto(ts, r, c, k - 1);
        if ts[k - 1].row == r && ts[k - 1].col == c {
            match prev {
                None => Some(ts[k - 1].val),
                Some(v) => Some(fadd_bits(v, ts[k - 1].val)),
            }
        } else {
            prev
        }
    }
}

/// The accumulated value at `(r, c)` over the whole triplet list.
pub open spec fn entry(ts: Seq<Triplet>, r: int, c: int) -> Option<u64> {
    entry_upto(ts, r, c, ts.len() as int)
}

/// Continues the accumulation of `entry_upto` from `prev` over the first
/// `k` triplets of a further list.
pub open spec fn entry_cont(
    prev: Option<u64>,
    ts: Seq<Triplet>,
    r: int,
    c: int,
    k: int,
) -> Option<u64>
    decreases k,
{
    if k <= 0 {
        prev
    } else {
        let p = entry_cont(prev, ts, r, c, k - 1);
        if ts[k - 1].row == r && ts[k - 1].col == c {
            match p {
                None => Some(ts[k - 1].val),
                Some(v) => Some(fadd_bits(v, ts[k - 1].val)),
            }
        } else {
            p
        }
    }
}

/// The accumulated value over a prefix reads only that prefix.
pub proof fn lemma_entry_prefix(t1: Seq<Triplet>, t2: Seq<Triplet>, r: int, c: int, k: int)
    requires
        k <= t1.len(),
        k <= t2.len(),
        forall|i: int| 0 <= i < k ==> t1[i] == t2[i],
    ensures
        entry_upto(t1, r, c, k) == entry_upto(t2, r, c, k),
    decreases k,
{
    if k > 0 {
        lemma_entry_prefix(t1, t2, r, c, k - 1);
    }
}

/// Accumulating over a concatenation first folds the left list, then
/// continues over the right one.
pub proof fn lemma_entry_append(t1: Seq<Triplet>, t2: Seq<Triplet>, r: int, c: int, k: int)
    requires
        0 <= k <= t2.len(),
    ensures
        entry_upto(t1 + t2, r, c, t1.len() + k) == entry_cont(
            entry(t1, r, c),
            t2,
            r,
            c,
            k,
        ),
    decreases k,
{
    if k == 0 {
        lemma_entry_prefix(t1 + t2, t1, r, c, t1.len() as int);
    } else {
        lemma_entry_append(t1, t2, r, c, k - 1);
        assert((t1 + t2)[t1.len() + k - 1] == t2[k - 1]);
    }
}

/// The compacted `(column, value)` pairs of row `r`, over columns `0 .. c`
/// in increasing order.
pub open spec fn row_pairs(ts: Seq<Triplet>, r: int, c: int) -> Seq<(usize, u64)>
    decreases c,
{
    if c <= 0 {
        Seq::empty()
    } else {
        let rest = row_pairs(ts, r, c - 1);
        match entry(ts, r, c - 1) {
            Some(v) => rest.push((((c - 1) as usize), v)),
            None => rest,
        }
    }
}

/// The concatenated compacted pairs of rows `0 .. r` of an `n`-column
/// matrix.
pub open spec fn rows_pairs(ts: Seq<Triplet>, n: int, r: int) -> Seq<(usize, u64)>
    decreases r,
{
    if r <= 0 {
        Seq::empty()
    } else {
        rows_pairs(ts, n, r - 1) + row_pairs(ts, r - 1, n)
    }
}

/// The mathematical content of a row-compressed matrix.
#[verifier::ext_equal]
pub ghost struct CsrModel {
    pub nrows: int,
    pub row_offsets: Seq<int>,
    pub col_indices: Seq<int>,
    pub values: Seq<u64>,
}

/// The row-compressed form determined by a triplet list: per row the
/// present columns in increasing order, each with its accumulated value.
pub open spec fn csr_of(ts: Seq<Triplet>, n: int) -> CsrModel {
    let pairs = rows_pairs(ts, n, n);
    CsrModel {
        nrows: n,
        row_offsets: Seq::new((n + 1) as nat, |r: int| rows_pairs(ts, n, r).len() as int),
        col_indices: Seq::new(pairs.len(), |k: int| pairs[k].0 as int),
        values: Seq::new(pairs.len(), |k: int| pairs[k].1),
    }
}

/// Row-compressed sparse square matrix: row `r` owns the slice
/// `row_offsets[r] .. row_offsets[r + 1]` of `col_indices` and `values`.
pub struct CsrMatrix {
    pub nrows: usize,
    pub row_offsets: Vec<usize>,
    pub col_indices: Vec<usize>,
    pub values: Vec<u64>,
}

impl CooMatrix {
    pub open spec fn wf(self) -> bool {
        forall|i: int|
            0 <= i < self.triplets@.len() ==> (#[trigger] self.triplets@[i]).row < self.nrows
                && self.triplets@[i].col < self.nrows
    }

    /// An empty accumulator for an `nrows` by `nrows` matrix.
    pub fn new(nrows: usize) -> (m: Self)
        ensures
            m.nrows == nrows,
            m.triplets@ == Seq::<Triplet>::empty(),
            m.wf(),
    {
        let m = CooMatrix { nrows, triplets: Vec::new() };
        proof {
            assert(m.triplets@ =~= Seq::<Triplet>::empty());
        }
        m
    }

    /// Records one contribution; equal positions are summed at compaction.
    pub fn push(&mut self, row: usize, col: usize, val: u64)
        requires
            old(self).wf(),
            row < old(self).nrows,
            col < old(self).nrows,
        ensures
            final(self).wf(),
            final(self).nrows == old(self).nrows,
            final(self).triplets@ == old(self).triplets@.push(Triplet { row, col, val }),
    {
        self.triplets.push(Triplet { row, col, val });
    }
}

impl CsrMatrix {
    pub open spec fn wf(self) -> bool {
        &&& self.row_offsets@.len() == self.nrows + 1
        &&& self.row_offsets@[0] == 0
        &&& forall|i: int, j: int|
            0 <= i <= j <= self.nrows ==> #[trigger] self.row_offsets@[i]
                <= #[trigger] self.row_offsets@[j]
        &&& self.row_offsets@[self.nrows as int] == self.values@.len()
        &&& self.col_indices@.len() == self.values@.len()
        &&& forall|k: int|
            0 <= k < self.col_indices@.len() ==> #[trigger] self.col_indices@[k] < self.nrows
    }

    pub open spec fn model(self) -> CsrModel {
        CsrModel {
            nrows: self.nrows as int,
            row_offsets: Seq::new(self.row_offsets@.len(), |i: int| self.row_offsets@[i] as int),
            col_indices: Seq::new(self.col_indices@.len(), |i: int| self.col_indices@[i] as int),
            values: self.values@,
        }
    }

    /// No row stores any entry (an all-zero matrix).
    pub open spec fn all_rows_empty(self) -> bool {
        self.row_offsets@[self.nrows as int] == 0
    }
}

/// The running dot product of stored entries `lo .. k` of a row with the
/// dense vector `x`, starting from positive zero.
pub open spec fn row_dot_upto(mm: CsrModel, x: Seq<u64>, lo: int, k: int) -> u64
    decreases k - lo,
{
    if k <= lo {
        POS_ZERO
    } else {
        fadd_bits(
            row_dot_upto(mm, x, lo, k - 1),
            fmul_bits(mm.values[k - 1], x[mm.col_indices[k - 1]]),
        )
    }
}

/// The matrix-vector product: entry `r` is row `r`'s stored entries dotted
/// with `x`.
pub open spec fn spmv_spec(mm: CsrModel, x: Seq<u64>) -> Seq<u64> {
    Seq::new(
        mm.nrows as nat,
        |r: int| row_dot_upto(mm, x, mm.row_offsets[r], mm.row_offsets[r + 1]),
    )
}

/// Compacts the triplet list into row-compressed form.  Per row the
/// present columns come out in increasing order; triplets on the same
/// position are summed in push order.
pub fn to_csr(coo: &CooMatrix) -> (m: CsrMatrix)
    requires
        coo.wf(),
    ensures
        m.nrows == coo.nrows,
        m.wf(),
        m.model() == csr_of(coo.triplets@, coo.nrows as int),
{
    let n = coo.nrows;
    let ghost ts = coo.triplets@;
    let mut row_offsets: Vec<usize> = Vec::new();
    let mut col_indices: Vec<usize> = Vec::new();
    let mut values: Vec<u64> = Vec::new();
    row_offsets.push(0);
    for r in 0..n
        invariant
            n == coo.nrows,
            ts == coo.triplets@,
            coo.wf(),
            row_offsets@.len() == r + 1,
            forall|j: int| 0 <= j <= r ==> #[trigger] row_offsets@[j] as int == rows_pairs(
                ts,
                n as int,
                j,
            ).len(),
            forall|j: int| 0 <= j <= r ==> #[trigger] row_offsets@[j] <= col_indices@.len(),
            forall|i: int, j: int|
                0 <= i <= j <= r ==> #[trigger] row_offsets@[i] <= #[trigger] row_offsets@[j],
            col_indices@.len() == values@.len(),
            col_indices@.len() == rows_pairs(ts, n as int, r as int).len(),
            forall|k: int|
                0 <= k < col_indices@.len() ==> #[trigger] col_indices@[k] == rows_pairs(
                    ts,
                    n as int,
                    r as int,
                )[k].0 && col_indices@[k] < n,
            forall|k: int|
                0 <= k < values@.len() ==> #[trigger] values@[k] == rows_pairs(
                    ts,
                    n as int,
                    r as int,
                )[k].1,
    {
        for c in 0..n
            invariant
                n == coo.nrows,
                ts == coo.triplets@,
                coo.wf(),
                r < n,
                col_indices@.len() == values@.len(),
                col_indices@.len() == rows_pairs(ts, n as int, r as int).len() + row_pairs(
                    ts,
                    r as int,
                    c as int,
                ).len(),
                rows_pairs(ts, n as int, r as int).len() <= col_indices@.len(),
                forall|k: int|
                    0 <= k < col_indices@.len() ==> #[trigger] col_indices@[k] == (rows_pairs(
                        ts,
                        n as int,
                        r as int,
                    ) + row_pairs(ts, r as int, c as int))[k].0 && col_indices@[k] < n,
                forall|k: int|
                    0 <= k < values@.len() ==> #[trigger] values@[k] == (rows_pairs(
                        ts,
                        n as int,
                        r as int,
                    ) + row_pairs(ts, r as int, c as int))[k].1,
        {
            let mut acc: u64 = 0;
            let mut found = false;
            let t_len = coo.triplets.len();
            for k in 0..t_len
                invariant
                    t_len == coo.triplets@.len(),
                    ts == coo.triplets@,
                    found <==> entry_upto(ts, r as int, c as int, k as int) is Some,
                    found ==> entry_upto(ts, r as int, c as int, k as int) == Some(acc),
            {
                let t = coo.triplets[k];
                if t.row == r && t.col == c {
                    if found {
                        acc = fadd(acc, t.val);
                    } else {
                        acc = t.val;
                        found = true;
                    }
                }
            }
            proof {
                assert(entry(ts, r as int, c as int) == entry_upto(
                    ts,
                    r as int,
                    c as int,
                    ts.len() as int,
                ));
            }
            if found {
                col_indices.push(c);
                values.push(acc);
            }
            proof {
                let rp = rows_pairs(ts, n as int, r as int);
                let before = row_pairs(ts, r as int, c as int);
                let after = row_pairs(ts, r as int, c as int + 1);
                if entry(ts, r as int, c as int) is Some {
                    assert(after == before.push((c, acc)));
                    assert(rp + after =~= (rp + before).push((c, acc)));
                } else {
                    assert(after == before);
                }
            }
        }
        row_offsets.push(col_indices.len());
        proof {
            assert(rows_pairs(ts, n as int, r as int + 1) == rows_pairs(ts, n as int, r as int)
                + row_pairs(ts, r as int, n as int));
        }
    }
    let m = CsrMatrix { nrows: n, row_offsets, col_indices, values };
    proof {
        assert(m.model().row_offsets =~= csr_of(ts, n as int).row_offsets);
        assert(m.model().col_indices =~= csr_of(ts, n as int).col_indices);
        assert(m.model().values =~= csr_of(ts, n as int).values);
        assert(m.model() =~= csr_of(ts, n as int));
    }
    m
}

/// Multiplies the matrix by `x`, writing the product into the scratch
/// buffer `y` without allocating.
pub fn spmv(m: &CsrMatrix, x: &Vec<u64>, y: &mut Vec<u64>)
    requires
        m.wf(),
        x@.len() == m.nrows,
        old(y)@.len() == m.nrows,
    ensures
        final(y)@ == spmv_spec(m.model(), x@),
{
    let n = m.nrows;
    for r in 0..n
        invariant
            n == m.nrows,
            m.wf(),
            x@.len() == m.nrows,
            y@.len() == m.nrows,
            forall|j: int| 0 <= j < r ==> #[trigger] y@[j] == spmv_spec(m.model(), x@)[j],
    {
        let lo = m.row_offsets[r];
        let hi = m.row_offsets[r + 1];
        let mut acc: u64 = 0;
        proof {
            assert(m.row_offsets@[r as int] <= m.row_offsets@[r as int + 1]);
            assert(m.row_offsets@[r as int + 1] <= m.row_offsets@[m.nrows as int]);
        }
        for k in lo..hi
            invariant
                n == m.nrows,
                m.wf(),
                x@.len() == m.nrows,
                lo == m.row_offsets@[r as int],
                hi == m.row_offsets@[r as int + 1],
                hi <= m.values@.len(),
                acc == row_dot_upto(m.model(), x@, lo as int, k as int),
        {
            let col = m.col_indices[k];
            acc = fadd(acc, crate::fp::fmul(m.values[k], x[col]));
        }
        y.set(r, acc);
    }
    proof {
        assert(y@ =~= spmv_spec(m.model(), x@));
    }
}

/// A triplet list that was never pushed to compacts to a matrix with no
/// stored entries.
pub proof fn lemma_row_pairs_empty(r: int, c: int)
    ensures
        row_pairs(Seq::<Triplet>::empty(), r, c) == Seq::<(usize, u64)>::empty(),
    decreases c,
{
    if c > 0 {
        lemma_row_pairs_empty(r, c - 1);
    }
}

/// Rows of the empty triplet list hold no pairs at all.
pub proof fn lemma_rows_pairs_empty(n: int, r: int)
    ensures
        rows_pairs(Seq::<Triplet>::empty(), n, r) == Seq::<(usize, u64)>::empty(),
    decreases r,
{
    if r > 0 {
        lemma_rows_pairs_empty(n, r - 1);
        lemma_row_pairs_empty(r - 1, n);
        assert(rows_pairs(Seq::<Triplet>::empty(), n, r) =~= Seq::<(usize, u64)>::empty());
    }
}

/// A matrix with no stored entries sends every vector to all zeros.
pub proof fn lemma_spmv_all_rows_empty(m: CsrMatrix, x: Seq<u64>)
    requires
        m.wf(),
        m.all_rows_empty(),
    ensures
        all_zero(spmv_spec(m.model(), x)),
{
    assert forall|r: int| 0 <= r < m.nrows implies #[trigger] spmv_spec(m.model(), x)[r]
        == POS_ZERO by {
        assert(m.row_offsets@[r] <= m.row_offsets@[m.nrows as int]);
        assert(m.row_offsets@[r + 1] <= m.row_offsets@[m.nrows as int]);
        assert(m.model().row_offsets[r] == 0 && m.model().row_offsets[r + 1] == 0);
    }
}

} // verus!
