//! Top-level orchestration: reduce, assemble, compact, solve both axes,
//! write back.
//!
//! The boundary function mirrors the native-call contract: it reports `0`
//! on success — including the trivial case of no free vertices, where
//! nothing is touched — and `-1` for the reserved iteration-count sentinel
//! that deliberately triggers the failure path, in which case the
//! coordinate buffers are untouched as well.

use crate::assemble::{assemble, edge_triplets, lemma_triplets_prefix, rhs_upto, triplets_upto, Edge};
use crate::cg::{cg_spec, solve_cg};
use crate::fp::{all_zero, zero_seq};
use crate::index_map::{
    build_index_map, free_count, gather, gather_spec, lemma_free_count_monotone,
    lemma_scatter_of_gather, scatter_spec, slot_of, write_back, Slot,
};
use crate::sparse::{csr_of, lemma_rows_pairs_empty, to_csr, Triplet};
use vstd::prelude::*;

verus! {

/// The status code of a completed adjustment.
pub const STATUS_OK: i32 = 0;

/// The status code of the deliberate internal-failure path.
pub const STATUS_FAULT: i32 = -1;

/// The reserved iteration-count value that triggers the failure path.
pub const FAULT_SENTINEL: i32 = -1;

/// The canonical index map of a fixed-flag vector.
pub open spec fn reduction_of(flags: Seq<bool>) -> Seq<Slot> {
    Seq::new(flags.len(), |i: int| slot_of(flags, i))
}

/// The reduced-space solution of one axis: gather the initial guesses,
/// assemble the system, compact the matrix, and run conjugate gradients.
pub open spec fn axis_solution(
    flags: Seq<bool>,
    coords: Seq<u64>,
    edges: Seq<Edge>,
    use_dy: bool,
    max_iter: int,
    tol: u64,
) -> Seq<u64> {
    let slots = reduction_of(flags);
    let active = free_count(flags, flags.len() as int) as int;
    let ts = triplets_upto(edges, slots, edges.len() as int);
    let b = rhs_upto(edges, slots, coords, use_dy, zero_seq(active as nat), edges.len() as int);
    let x0 = gather_spec(slots, coords, flags.len() as int);
    cg_spec(csr_of(ts, active), b, x0, max_iter, tol)
}

/// The coordinates of one axis after a successful adjustment: the axis
/// solution written back over the original values, fixed vertices kept.
pub open spec fn adjusted(
    flags: Seq<bool>,
    coords: Seq<u64>,
    edges: Seq<Edge>,
    use_dy: bool,
    max_iter: int,
    tol: u64,
) -> Seq<u64> {
    scatter_spec(coords, reduction_of(flags), axis_solution(flags, coords, edges, use_dy, max_iter, tol))
}

/// Adjusts the free vertices of a 2D graph so the edge observations are
/// satisfied in the weighted least-squares sense.
///
/// `x` and `y` carry the initial guesses in and the adjusted coordinates
/// out; entries of fixed vertices (`flags[i]` true) are read but never
/// written.  `iterations` caps the conjugate-gradient iterations per axis
/// (the reserved sentinel instead reports the failure status and leaves
/// both buffers untouched); `tolerance` is the residual-norm stopping
/// threshold, as binary64 bits.  With no free vertices the call succeeds
/// and touches nothing; so does a call with no edges, whose residual is
/// already zero.
pub fn solve_graph_least_squares(
    x: &mut Vec<u64>,
    y: &mut Vec<u64>,
    flags: &Vec<bool>,
    edges: &Vec<Edge>,
    iterations: i32,
    tolerance: u64,
) -> (status: i32)
    requires
        old(x)@.len() == flags@.len(),
        old(y)@.len() == flags@.len(),
        forall|i: int|
            0 <= i < edges@.len() ==> (#[trigger] edges@[i]).from < flags@.len()
                && edges@[i].to < flags@.len(),
    ensures
        status == if iterations == FAULT_SENTINEL {
            STATUS_FAULT
        } else {
            STATUS_OK
        },
        final(x)@.len() == old(x)@.len(),
        final(y)@.len() == old(y)@.len(),
        iterations == FAULT_SENTINEL ==> final(x)@ == old(x)@ && final(y)@ == old(y)@,
        free_count(flags@, flags@.len() as int) == 0 ==> final(x)@ == old(x)@ && final(y)@
            == old(y)@,
        iterations != FAULT_SENTINEL && free_count(flags@, flags@.len() as int) > 0 ==> final(x)@
            == adjusted(flags@, old(x)@, edges@, false, iterations as int, tolerance) && final(y)@
            == adjusted(flags@, old(y)@, edges@, true, iterations as int, tolerance),
        edges@.len() == 0 ==> final(x)@ == old(x)@ && final(y)@ == old(y)@,
{
    if iterations == FAULT_SENTINEL {
        return STATUS_FAULT;
    }
    let n = flags.len();
    let (slots, active) = build_index_map(flags);
    proof {
        assert(slots@ =~= reduction_of(flags@));
        assert forall|i: int|
            0 <= i < slots@.len() implies ((#[trigger] slots@[i]) matches Slot::Free(k) ==> k
            < active) by {
            if !flags@[i] {
                lemma_free_count_monotone(flags@, i, n as int);
            }
        }
    }
    if active == 0 {
        return STATUS_OK;
    }
    let x0 = gather(&slots, x);
    let y0 = gather(&slots, y);
    proof {
        crate::index_map::lemma_gather_len(slots@, flags@, x@, n as int);
        crate::index_map::lemma_gather_len(slots@, flags@, y@, n as int);
    }
    let (coo, bx, by) = assemble(edges, &slots, x, y, active);
    let a = to_csr(&coo);
    proof {
        if edges@.len() == 0 {
            lemma_rows_pairs_empty(active as int, active as int);
            assert(a.model().row_offsets[active as int] == 0);
            assert(a.all_rows_empty());
            assert(all_zero(bx@));
            assert(all_zero(by@));
        }
    }
    let resx = solve_cg(&a, &bx, &x0, iterations, tolerance);
    let resy = solve_cg(&a, &by, &y0, iterations, tolerance);
    write_back(x, &slots, &resx);
    write_back(y, &slots, &resy);
    proof {
        assert(resx@ == axis_solution(flags@, old(x)@, edges@, false, iterations as int, tolerance));
        assert(resy@ == axis_solution(flags@, old(y)@, edges@, true, iterations as int, tolerance));
        if edges@.len() == 0 {
            lemma_scatter_of_gather(flags@, slots@, old(x)@);
            lemma_scatter_of_gather(flags@, slots@, old(y)@);
        }
    }
    STATUS_OK
}

/// An edge with at least one free endpoint.
pub open spec fn touches_free(e: Edge, slots: Seq<Slot>) -> bool {
    !(slots[e.from as int] is Fixed && slots[e.to as int] is Fixed)
}

/// The edge list with the purely anchored edges (both endpoints fixed)
/// removed, order kept.
pub open spec fn without_anchored(edges: Seq<Edge>, slots: Seq<Slot>) -> Seq<Edge>
    decreases edges.len(),
{
    if edges.len() == 0 {
        Seq::empty()
    } else {
        let prev = without_anchored(edges.drop_last(), slots);
        if touches_free(edges.last(), slots) {
            prev.push(edges.last())
        } else {
            prev
        }
    }
}

/// The right-hand side after `k` edges reads only the first `k` edges.
proof fn lemma_rhs_prefix(
    e1: Seq<Edge>,
    e2: Seq<Edge>,
    slots: Seq<Slot>,
    coords: Seq<u64>,
    use_dy: bool,
    init: Seq<u64>,
    k: int,
)
    requires
        k <= e1.len(),
        k <= e2.len(),
        forall|i: int| 0 <= i < k ==> e1[i] == e2[i],
    ensures
        rhs_upto(e1, slots, coords, use_dy, init, k) == rhs_upto(e2, slots, coords, use_dy, init, k),
    decreases k,
{
    if k > 0 {
        lemma_rhs_prefix(e1, e2, slots, coords, use_dy, init, k - 1);
    }
}

/// Purely anchored edges add no matrix contribution.
proof fn lemma_triplets_drop_anchored(edges: Seq<Edge>, slots: Seq<Slot>)
    ensures
        triplets_upto(
            without_anchored(edges, slots),
            slots,
            without_anchored(edges, slots).len() as int,
        ) == triplets_upto(edges, slots, edges.len() as int),
    decreases edges.len(),
{
    if edges.len() > 0 {
        let prefix = edges.drop_last();
        let last = edges.last();
        let kept = without_anchored(prefix, slots);
        lemma_triplets_drop_anchored(prefix, slots);
        lemma_triplets_prefix(edges, prefix, slots, edges.len() as int - 1);
        if touches_free(last, slots) {
            lemma_triplets_prefix(kept.push(last), kept, slots, kept.len() as int);
            assert(kept.push(last).last() == last);
        } else {
            assert(edge_triplets(last, slots) == Seq::<Triplet>::empty());
            assert(triplets_upto(edges, slots, edges.len() as int) =~= triplets_upto(
                edges,
                slots,
                edges.len() as int - 1,
            ));
        }
    }
}

/// Purely anchored edges leave the right-hand side alone.
proof fn lemma_rhs_drop_anchored(
    edges: Seq<Edge>,
    slots: Seq<Slot>,
    coords: Seq<u64>,
    use_dy: bool,
    init: Seq<u64>,
)
    ensures
        rhs_upto(
            without_anchored(edges, slots),
            slots,
            coords,
            use_dy,
            init,
            without_anchored(edges, slots).len() as int,
        ) == rhs_upto(edges, slots, coords, use_dy, init, edges.len() as int),
    decreases edges.len(),
{
    if edges.len() > 0 {
        let prefix = edges.drop_last();
        let last = edges.last();
        let kept = without_anchored(prefix, slots);
        lemma_rhs_drop_anchored(prefix, slots, coords, use_dy, init);
        lemma_rhs_prefix(edges, prefix, slots, coords, use_dy, init, edges.len() as int - 1);
        if touches_free(last, slots) {
            lemma_rhs_prefix(kept.push(last), kept, slots, coords, use_dy, init, kept.len() as int);
            assert(kept.push(last).last() == last);
        }
    }
}

/// Law: an edge whose endpoints are both fixed anchors affects neither the
/// matrix nor either right-hand side — removing all such edges from the
/// input leaves the adjusted coordinates of both axes identical.
pub proof fn lemma_anchored_edges_ignored(
    flags: Seq<bool>,
    coords: Seq<u64>,
    edges: Seq<Edge>,
    use_dy: bool,
    max_iter: int,
    tol: u64,
)
    ensures
        adjusted(
            flags,
            coords,
            without_anchored(edges, reduction_of(flags)),
            use_dy,
            max_iter,
            tol,
        ) == adjusted(flags, coords, edges, use_dy, max_iter, tol),
{
    let slots = reduction_of(flags);
    lemma_triplets_drop_anchored(edges, slots);
    lemma_rhs_drop_anchored(
        edges,
        slots,
        coords,
        use_dy,
        zero_seq(free_count(flags, flags.len() as int)),
    );
}

} // verus!
