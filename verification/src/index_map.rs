//! Index reduction: fixed vertices are boundary conditions, not unknowns.
//!
//! The reducer maps every original vertex index either to `Fixed` or to a
//! dense reduced index, assigned to the free vertices in original order.
//! The reduced indices of the free vertices are exactly `0 .. active`,
//! where `active` is the number of free vertices.

use vstd::prelude::*;

verus! {

/// Where one original vertex index lands in the reduced system: a free
/// vertex carries its dense reduced index, a fixed vertex is absent.
#[derive(Clone, Copy)]
pub enum Slot {
    Free(usize),
    Fixed,
}

/// How many of the first `k` vertices are free (`flags[i]` is true for a
/// fixed vertex).
pub open spec fn free_count(flags: Seq<bool>, k: int) -> nat
    decreases k,
{
    if k <= 0 {
        0
    } else {
        free_count(flags, k - 1) + if flags[k - 1] { 0nat } else { 1nat }
    }
}

/// The slot of vertex `i`: absent when fixed, else the number of free
/// vertices before it.
pub open spec fn slot_of(flags: Seq<bool>, i: int) -> Slot {
    if flags[i] {
        Slot::Fixed
    } else {
        Slot::Free(free_count(flags, i) as usize)
    }
}

/// A prefix never holds more free vertices than its length.
pub proof fn lemma_free_count_le(flags: Seq<bool>, k: int)
    requires
        0 <= k <= flags.len(),
    ensures
        free_count(flags, k) <= k,
    decreases k,
{
    if k > 0 {
        lemma_free_count_le(flags, k - 1);
    }
}

/// `free_count` grows weakly with the prefix, and strictly past a free
/// vertex.
pub proof fn lemma_free_count_monotone(flags: Seq<bool>, j: int, k: int)
    requires
        0 <= j <= k <= flags.len(),
    ensures
        free_count(flags, j) <= free_count(flags, k),
        j < k && !flags[j] ==> free_count(flags, j) < free_count(flags, k),
    decreases k - j,
{
    if j < k {
        lemma_free_count_monotone(flags, j + 1, k);
    }
}

/// Every reduced index below the free count is assigned to some earlier
/// free vertex.
pub proof fn lemma_free_count_surjective(flags: Seq<bool>, k: nat, n: int)
    requires
        0 <= n <= flags.len(),
        k < free_count(flags, n),
    ensures
        exists|i: int| 0 <= i < n && !flags[i] && free_count(flags, i) == k,
    decreases n,
{
    if n > 0 {
        if !flags[n - 1] && free_count(flags, n - 1) == k {
            assert(0 <= n - 1 < n && !flags[n - 1] && free_count(flags, n - 1) == k);
        } else {
            lemma_free_count_surjective(flags, k, n - 1);
            let i = choose|i: int| 0 <= i < n - 1 && !flags[i] && free_count(flags, i) == k;
            assert(0 <= i < n && !flags[i] && free_count(flags, i) == k);
        }
    }
}

/// The index map is injective on the free vertices: together with
/// `lemma_free_count_surjective`, the assigned reduced indices are exactly
/// `0 .. active`, each used once.
pub proof fn lemma_reduction_injective(flags: Seq<bool>)
    ensures
        forall|i: int, j: int|
            0 <= i < j < flags.len() && !flags[i] && !flags[j] ==> free_count(flags, i)
                != free_count(flags, j),
{
    assert forall|i: int, j: int|
        0 <= i < j < flags.len() && !flags[i] && !flags[j] implies free_count(flags, i)
        != free_count(flags, j) by {
        lemma_free_count_monotone(flags, i, j);
    }
}

/// Every assigned reduced index stays below `active`.
pub open spec fn slots_wf(slots: Seq<Slot>, active: nat) -> bool {
    forall|i: int|
        0 <= i < slots.len() ==> ((#[trigger] slots[i]) matches Slot::Free(k) ==> k < active)
}

/// `slots` is exactly the reduction of the fixed flags `flags`.
pub open spec fn is_reduction_of(slots: Seq<Slot>, flags: Seq<bool>) -> bool {
    &&& slots.len() == flags.len()
    &&& forall|i: int| 0 <= i < flags.len() ==> slots[i] == slot_of(flags, i)
}

/// The coordinates of the free vertices among the first `k`, in original
/// order: the reduced-space vector that a coordinate array induces.
pub open spec fn gather_spec(slots: Seq<Slot>, coords: Seq<u64>, k: int) -> Seq<u64>
    decreases k,
{
    if k <= 0 {
        Seq::empty()
    } else {
        let prev = gather_spec(slots, coords, k - 1);
        match slots[k - 1] {
            Slot::Free(_) => prev.push(coords[k - 1]),
            Slot::Fixed => prev,
        }
    }
}

/// The original-space coordinates after writing a reduced-space solution
/// back: free vertices take their solution entry, fixed vertices keep
/// their original value.
pub open spec fn scatter_spec(orig: Seq<u64>, slots: Seq<Slot>, sol: Seq<u64>) -> Seq<u64> {
    Seq::new(
        orig.len(),
        |i: int|
            match slots[i] {
                Slot::Free(k) => sol[k as int],
                Slot::Fixed => orig[i],
            },
    )
}

/// A gathered prefix holds one entry per free vertex in it.
pub proof fn lemma_gather_len(slots: Seq<Slot>, flags: Seq<bool>, coords: Seq<u64>, k: int)
    requires
        is_reduction_of(slots, flags),
        0 <= k <= flags.len(),
    ensures
        gather_spec(slots, coords, k).len() == free_count(flags, k),
    decreases k,
{
    if k > 0 {
        lemma_gather_len(slots, flags, coords, k - 1);
    }
}

/// A free vertex's entry in the gathered vector sits at its reduced index
/// and holds its coordinate.
pub proof fn lemma_gather_at(slots: Seq<Slot>, flags: Seq<bool>, coords: Seq<u64>, k: int, i: int)
    requires
        is_reduction_of(slots, flags),
        0 <= i < k <= flags.len(),
        !flags[i],
    ensures
        free_count(flags, i) < gather_spec(slots, coords, k).len(),
        gather_spec(slots, coords, k)[free_count(flags, i) as int] == coords[i],
    decreases k,
{
    lemma_gather_len(slots, flags, coords, k - 1);
    if i == k - 1 {
    } else {
        lemma_gather_at(slots, flags, coords, k - 1, i);
        lemma_free_count_monotone(flags, i, k - 1);
    }
}

/// Writing back the gathered coordinates changes nothing: scatter inverts
/// gather.
pub proof fn lemma_scatter_of_gather(flags: Seq<bool>, slots: Seq<Slot>, orig: Seq<u64>)
    requires
        is_reduction_of(slots, flags),
        orig.len() == flags.len(),
        flags.len() <= usize::MAX,
    ensures
        scatter_spec(orig, slots, gather_spec(slots, orig, flags.len() as int)) == orig,
{
    let n = flags.len() as int;
    let sol = gather_spec(slots, orig, n);
    assert forall|i: int| 0 <= i < n implies scatter_spec(orig, slots, sol)[i] == orig[i] by {
        if !flags[i] {
            lemma_free_count_le(flags, i);
            lemma_gather_at(slots, flags, orig, n, i);
        }
    }
    assert(scatter_spec(orig, slots, sol) =~= orig);
}

/// Builds the index map and the number of free vertices.
///
/// Every free vertex is mapped to the count of free vertices before it, so
/// the assigned reduced indices are `0 .. active` in original order.
pub fn build_index_map(flags: &Vec<bool>) -> (out: (Vec<Slot>, usize))
    ensures
        out.0@.len() == flags@.len(),
        out.1 == free_count(flags@, flags@.len() as int),
        forall|i: int| 0 <= i < flags@.len() ==> out.0@[i] == slot_of(flags@, i),
{
    let mut slots: Vec<Slot> = Vec::new();
    let mut active: usize = 0;
    let n = flags.len();
    for i in 0..n
        invariant
            slots@.len() == i,
            active == free_count(flags@, i as int),
            active <= i,
            n == flags@.len(),
            forall|j: int| 0 <= j < i ==> slots@[j] == slot_of(flags@, j),
    {
        if flags[i] {
            slots.push(Slot::Fixed);
        } else {
            slots.push(Slot::Free(active));
            active = active + 1;
        }
    }
    (slots, active)
}

/// Collects the coordinates of the free vertices into the reduced-space
/// vector, in reduced-index order.
pub fn gather(slots: &Vec<Slot>, coords: &Vec<u64>) -> (r: Vec<u64>)
    requires
        slots@.len() == coords@.len(),
    ensures
        r@ == gather_spec(slots@, coords@, slots@.len() as int),
{
    let mut v: Vec<u64> = Vec::new();
    let n = slots.len();
    for i in 0..n
        invariant
            n == slots@.len(),
            slots@.len() == coords@.len(),
            v@ == gather_spec(slots@, coords@, i as int),
    {
        match slots[i] {
            Slot::Free(_) => {
                v.push(coords[i]);
            },
            Slot::Fixed => {},
        }
    }
    v
}

/// Scatters the reduced-space solution back into the original coordinate
/// array; fixed vertices are left untouched.
pub fn write_back(coords: &mut Vec<u64>, slots: &Vec<Slot>, sol: &Vec<u64>)
    requires
        old(coords)@.len() == slots@.len(),
        slots_wf(slots@, sol@.len() as nat),
    ensures
        final(coords)@ == scatter_spec(old(coords)@, slots@, sol@),
{
    let n = slots.len();
    for i in 0..n
        invariant
            n == slots@.len(),
            coords@.len() == slots@.len(),
            old(coords)@.len() == slots@.len(),
            slots_wf(slots@, sol@.len() as nat),
            forall|j: int|
                0 <= j < i ==> #[trigger] coords@[j] == scatter_spec(old(coords)@, slots@, sol@)[j],
            forall|j: int| i <= j < n ==> #[trigger] coords@[j] == old(coords)@[j],
    {
        match slots[i] {
            Slot::Free(k) => {
                let t = sol[k];
                coords.set(i, t);
            },
            Slot::Fixed => {},
        }
    }
    proof {
        assert(coords@ =~= scatter_spec(old(coords)@, slots@, sol@));
    }
}

} // verus!
