//! Assembly of the normal equations.
//!
//! Each edge observes the displacement between two vertices with a weight.
//! An edge between two free vertices contributes to four matrix positions
//! and two right-hand-side entries per axis; an edge with one fixed
//! endpoint folds that endpoint's known coordinate into the right-hand
//! side (boundary-condition elimination); an edge between two fixed
//! vertices contributes nothing.  The X and Y systems share one matrix —
//! the contributions depend only on the weights — and differ only in their
//! right-hand sides.

use crate::fp::{fadd, fadd_bits, fmul, fmul_bits, fsub, fsub_bits, zero_seq, SIGN_MASK};
use crate::index_map::{slots_wf, Slot};
use crate::sparse::{entry, entry_cont, lemma_entry_append, CooMatrix, Triplet};
use crate::cg::vec_zeros;
use vstd::prelude::*;

verus! {

/// One relative-displacement observation between two vertices.
#[derive(Clone, Copy)]
pub struct Edge {
    pub from: usize,
    pub to: usize,
    pub dx: u64,
    pub dy: u64,
    pub weight: u64,
}

/// The matrix contributions of one edge, in push order.  The mirrored
/// off-diagonal entries carry the negated weight; binary64 negation just
/// flips the sign bit.
pub open spec fn edge_triplets(e: Edge, slots: Seq<Slot>) -> Seq<Triplet> {
    match (slots[e.from as int], slots[e.to as int]) {
        (Slot::Free(ui), Slot::Free(vi)) => seq![
            Triplet { row: ui, col: ui, val: e.weight },
            Triplet { row: vi, col: vi, val: e.weight },
            Triplet { row: ui, col: vi, val: e.weight ^ SIGN_MASK },
            Triplet { row: vi, col: ui, val: e.weight ^ SIGN_MASK },
        ],
        (Slot::Free(ui), Slot::Fixed) => seq![Triplet { row: ui, col: ui, val: e.weight }],
        (Slot::Fixed, Slot::Free(vi)) => seq![Triplet { row: vi, col: vi, val: e.weight }],
        (Slot::Fixed, Slot::Fixed) => Seq::empty(),
    }
}

/// All matrix contributions of the first `k` edges, in order.
pub open spec fn triplets_upto(edges: Seq<Edge>, slots: Seq<Slot>, k: int) -> Seq<Triplet>
    decreases k,
{
    if k <= 0 {
        Seq::empty()
    } else {
        triplets_upto(edges, slots, k - 1) + edge_triplets(edges[k - 1], slots)
    }
}

/// One edge's update of a right-hand-side vector, for one axis: `d` is the
/// observed displacement on that axis, `cu` and `cv` the endpoint
/// coordinates on that axis (read only when that endpoint is fixed).
pub open spec fn edge_rhs(
    b: Seq<u64>,
    us: Slot,
    vs: Slot,
    w: u64,
    d: u64,
    cu: u64,
    cv: u64,
) -> Seq<u64> {
    match (us, vs) {
        (Slot::Free(ui), Slot::Free(vi)) => {
            let b1 = b.update(ui as int, fsub_bits(b[ui as int], fmul_bits(w, d)));
            b1.update(vi as int, fadd_bits(b1[vi as int], fmul_bits(w, d)))
        },
        (Slot::Free(ui), Slot::Fixed) => {
            let b1 = b.update(ui as int, fsub_bits(b[ui as int], fmul_bits(w, d)));
            b1.update(ui as int, fadd_bits(b1[ui as int], fmul_bits(w, cv)))
        },
        (Slot::Fixed, Slot::Free(vi)) => {
            let b1 = b.update(vi as int, fadd_bits(b[vi as int], fmul_bits(w, d)));
            b1.update(vi as int, fadd_bits(b1[vi as int], fmul_bits(w, cu)))
        },
        (Slot::Fixed, Slot::Fixed) => b,
    }
}

/// The right-hand side after the first `k` edges, starting from `init`.
/// With `use_dy` false this is the X system (observed `dx`, X
/// coordinates); with `use_dy` true the Y system.
pub open spec fn rhs_upto(
    edges: Seq<Edge>,
    slots: Seq<Slot>,
    coords: Seq<u64>,
    use_dy: bool,
    init: Seq<u64>,
    k: int,
) -> Seq<u64>
    decreases k,
{
    if k <= 0 {
        init
    } else {
        let prev = rhs_upto(edges, slots, coords, use_dy, init, k - 1);
        let e = edges[k - 1];
        edge_rhs(
            prev,
            slots[e.from as int],
            slots[e.to as int],
            e.weight,
            if use_dy {
                e.dy
            } else {
                e.dx
            },
            coords[e.from as int],
            coords[e.to as int],
        )
    }
}

/// The first `k` matrix contributions read only the first `k` edges.
pub proof fn lemma_triplets_prefix(e1: Seq<Edge>, e2: Seq<Edge>, slots: Seq<Slot>, k: int)
    requires
        k <= e1.len(),
        k <= e2.len(),
        forall|i: int| 0 <= i < k ==> e1[i] == e2[i],
    ensures
        triplets_upto(e1, slots, k) == triplets_upto(e2, slots, k),
    decreases k,
{
    if k > 0 {
        lemma_triplets_prefix(e1, e2, slots, k - 1);
    }
}

/// One edge's contributions are mirrored: continuing two equal
/// accumulations over the edge's block, the positions `(r, c)` and
/// `(c, r)` end equal.
proof fn lemma_edge_block_symmetric(e: Edge, slots: Seq<Slot>, p: Option<u64>, r: int, c: int)
    ensures
        entry_cont(p, edge_triplets(e, slots), r, c, edge_triplets(e, slots).len() as int)
            == entry_cont(p, edge_triplets(e, slots), c, r, edge_triplets(e, slots).len() as int),
{
    let block = edge_triplets(e, slots);
    assert(entry_cont(p, block, r, c, block.len() as int) == entry_cont(
        p,
        block,
        c,
        r,
        block.len() as int,
    )) by {
        reveal_with_fuel(entry_cont, 6);
    }
}

/// Law: the assembled coefficient matrix is symmetric by construction —
/// every off-diagonal contribution is mirrored, so the accumulated values
/// at `(r, c)` and `(c, r)` coincide.
pub proof fn lemma_assembled_symmetric(edges: Seq<Edge>, slots: Seq<Slot>, r: int, c: int)
    ensures
        entry(triplets_upto(edges, slots, edges.len() as int), r, c) == entry(
            triplets_upto(edges, slots, edges.len() as int),
            c,
            r,
        ),
    decreases edges.len(),
{
    if edges.len() == 0 {
    } else {
        let prefix = edges.drop_last();
        let last = edges.last();
        let ts_pre = triplets_upto(prefix, slots, prefix.len() as int);
        let block = edge_triplets(last, slots);
        let ts_all = triplets_upto(edges, slots, edges.len() as int);
        lemma_triplets_prefix(edges, prefix, slots, edges.len() as int - 1);
        assert(ts_all == ts_pre + block);
        lemma_assembled_symmetric(prefix, slots, r, c);
        lemma_entry_append(ts_pre, block, r, c, block.len() as int);
        lemma_entry_append(ts_pre, block, c, r, block.len() as int);
        lemma_edge_block_symmetric(last, slots, entry(ts_pre, r, c), r, c);
    }
}

/// Builds the coefficient matrix (as triplets) and both right-hand sides
/// from the edge list, folding fixed endpoints into the constants.
pub fn assemble(
    edges: &Vec<Edge>,
    slots: &Vec<Slot>,
    xs: &Vec<u64>,
    ys: &Vec<u64>,
    active: usize,
) -> (out: (CooMatrix, Vec<u64>, Vec<u64>))
    requires
        slots@.len() == xs@.len(),
        slots@.len() == ys@.len(),
        slots_wf(slots@, active as nat),
        forall|i: int|
            0 <= i < edges@.len() ==> (#[trigger] edges@[i]).from < slots@.len()
                && edges@[i].to < slots@.len(),
    ensures
        out.0.nrows == active,
        out.0.wf(),
        out.0.triplets@ == triplets_upto(edges@, slots@, edges@.len() as int),
        out.1@ == rhs_upto(edges@, slots@, xs@, false, zero_seq(active as nat), edges@.len() as int),
        out.2@ == rhs_upto(edges@, slots@, ys@, true, zero_seq(active as nat), edges@.len() as int),
        out.1@.len() == active,
        out.2@.len() == active,
{
    let mut coo = CooMatrix::new(active);
    let mut bx = vec_zeros(active);
    let mut by = vec_zeros(active);
    let ne = edges.len();
    for e in 0..ne
        invariant
            ne == edges@.len(),
            slots@.len() == xs@.len(),
            slots@.len() == ys@.len(),
            slots_wf(slots@, active as nat),
            forall|i: int|
                0 <= i < edges@.len() ==> (#[trigger] edges@[i]).from < slots@.len()
                    && edges@[i].to < slots@.len(),
            coo.nrows == active,
            coo.wf(),
            coo.triplets@ == triplets_upto(edges@, slots@, e as int),
            bx@ == rhs_upto(edges@, slots@, xs@, false, zero_seq(active as nat), e as int),
            by@ == rhs_upto(edges@, slots@, ys@, true, zero_seq(active as nat), e as int),
            bx@.len() == active,
            by@.len() == active,
    {
        let ed = edges[e];
        let ghost pre = coo.triplets@;
        match (slots[ed.from], slots[ed.to]) {
            (Slot::Free(ui), Slot::Free(vi)) => {
                coo.push(ui, ui, ed.weight);
                coo.push(vi, vi, ed.weight);
                let neg_w = ed.weight ^ SIGN_MASK;
                coo.push(ui, vi, neg_w);
                coo.push(vi, ui, neg_w);
                let wdx = fmul(ed.weight, ed.dx);
                let t0 = fsub(bx[ui], wdx);
                bx.set(ui, t0);
                let t1 = fadd(bx[vi], wdx);
                bx.set(vi, t1);
                let wdy = fmul(ed.weight, ed.dy);
                let t2 = fsub(by[ui], wdy);
                by.set(ui, t2);
                let t3 = fadd(by[vi], wdy);
                by.set(vi, t3);
                proof {
                    assert(coo.triplets@ =~= pre + edge_triplets(edges@[e as int], slots@));
                }
            },
            (Slot::Free(ui), Slot::Fixed) => {
                coo.push(ui, ui, ed.weight);
                let wdx = fmul(ed.weight, ed.dx);
                let t0 = fsub(bx[ui], wdx);
                bx.set(ui, t0);
                let t1 = fadd(bx[ui], fmul(ed.weight, xs[ed.to]));
                bx.set(ui, t1);
                let wdy = fmul(ed.weight, ed.dy);
                let t2 = fsub(by[ui], wdy);
                by.set(ui, t2);
                let t3 = fadd(by[ui], fmul(ed.weight, ys[ed.to]));
                by.set(ui, t3);
                proof {
                    assert(coo.triplets@ =~= pre + edge_triplets(edges@[e as int], slots@));
                }
            },
            (Slot::Fixed, Slot::Free(vi)) => {
                coo.push(vi, vi, ed.weight);
                let wdx = fmul(ed.weight, ed.dx);
                let t0 = fadd(bx[vi], wdx);
                bx.set(vi, t0);
                let t1 = fadd(bx[vi], fmul(ed.weight, xs[ed.from]));
                bx.set(vi, t1);
                let wdy = fmul(ed.weight, ed.dy);
                let t2 = fadd(by[vi], wdy);
                by.set(vi, t2);
                let t3 = fadd(by[vi], fmul(ed.weight, ys[ed.from]));
                by.set(vi, t3);
                proof {
                    assert(coo.triplets@ =~= pre + edge_triplets(edges@[e as int], slots@));
                }
            },
            (Slot::Fixed, Slot::Fixed) => {
                proof {
                    assert(coo.triplets@ =~= pre + edge_triplets(edges@[e as int], slots@));
                }
            },
        }
    }
    (coo, bx, by)
}

} // verus!
