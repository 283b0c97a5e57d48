//! Conjugate-gradient solver for the assembled symmetric system.
//!
//! The solver is specified bit-for-bit: `cg_spec` is the exact functional
//! model of the iteration, phrased over the uninterpreted scalar operation
//! names of `fp`, and the executable solver returns precisely the model's
//! value.  The iteration stops on convergence (`sqrt(rho) < tol`), on a
//! numerically degenerate search direction (breakdown guard), or at the
//! iteration cap, and returns its best iterate unconditionally.

use crate::fp::{
    all_zero, fadd, fadd_bits, fdiv, fdiv_bits, flt, flt_bits, fmul, fmul_bits, fsqrt, fsqrt_bits,
    fsub, fsub_bits, zero_seq, ABS_MASK, BREAKDOWN_LIMIT, POS_INFINITY, POS_ZERO,
};
use crate::sparse::{lemma_spmv_all_rows_empty, spmv, spmv_spec, CsrMatrix, CsrModel};
use vstd::prelude::*;

verus! {

/// Elementwise difference `a - b`.
pub open spec fn sub_vec_spec(a: Seq<u64>, b: Seq<u64>) -> Seq<u64> {
    Seq::new(a.len(), |i: int| fsub_bits(a[i], b[i]))
}

/// The running dot product of the first `k` entries, starting from
/// positive zero.
pub open spec fn dot_upto(a: Seq<u64>, b: Seq<u64>, k: int) -> u64
    decreases k,
{
    if k <= 0 {
        POS_ZERO
    } else {
        fadd_bits(dot_upto(a, b, k - 1), fmul_bits(a[k - 1], b[k - 1]))
    }
}

/// The dot product of two vectors.
pub open spec fn dot_spec(a: Seq<u64>, b: Seq<u64>) -> u64 {
    dot_upto(a, b, a.len() as int)
}

/// Elementwise `x + alpha * p`.
pub open spec fn axpy_add_spec(x: Seq<u64>, alpha: u64, p: Seq<u64>) -> Seq<u64> {
    Seq::new(x.len(), |i: int| fadd_bits(x[i], fmul_bits(alpha, p[i])))
}

/// Elementwise `x - alpha * p`.
pub open spec fn axpy_sub_spec(x: Seq<u64>, alpha: u64, p: Seq<u64>) -> Seq<u64> {
    Seq::new(x.len(), |i: int| fsub_bits(x[i], fmul_bits(alpha, p[i])))
}

/// Elementwise `p * beta + r`: the next search direction.
pub open spec fn dir_update_spec(p: Seq<u64>, beta: u64, r: Seq<u64>) -> Seq<u64> {
    Seq::new(p.len(), |i: int| fadd_bits(fmul_bits(p[i], beta), r[i]))
}

/// One state of the iteration carried to its end: returns the final
/// iterate, stopping on convergence, breakdown, or exhausted fuel.
pub open spec fn cg_loop_spec(
    mm: CsrModel,
    x: Seq<u64>,
    r: Seq<u64>,
    p: Seq<u64>,
    rho: u64,
    tol: u64,
    fuel: nat,
) -> Seq<u64>
    decreases fuel,
{
    if fuel == 0 {
        x
    } else if flt_bits(fsqrt_bits(rho), tol) {
        x
    } else {
        let ap = spmv_spec(mm, p);
        let pap = dot_spec(p, ap);
        if flt_bits(pap & ABS_MASK, BREAKDOWN_LIMIT) {
            x
        } else {
            let alpha = fdiv_bits(rho, pap);
            let x2 = axpy_add_spec(x, alpha, p);
            let r2 = axpy_sub_spec(r, alpha, ap);
            let rho2 = dot_spec(r2, r2);
            let beta = fdiv_bits(rho2, rho);
            let p2 = dir_update_spec(p, beta, r2);
            cg_loop_spec(mm, x2, r2, p2, rho2, tol, (fuel - 1) as nat)
        }
    }
}

/// The whole solve: start from the residual of the initial guess and
/// iterate at most `max_iter` times.
pub open spec fn cg_spec(mm: CsrModel, b: Seq<u64>, x0: Seq<u64>, max_iter: int, tol: u64) -> Seq<
    u64,
> {
    let r0 = sub_vec_spec(b, spmv_spec(mm, x0));
    let fuel: nat = if max_iter <= 0 {
        0
    } else {
        max_iter as nat
    };
    cg_loop_spec(mm, x0, r0, r0, dot_spec(r0, r0), tol, fuel)
}

/// A vector of `n` zero scalars.
pub fn vec_zeros(n: usize) -> (r: Vec<u64>)
    ensures
        r@ == zero_seq(n as nat),
{
    let mut v: Vec<u64> = Vec::new();
    for i in 0..n
        invariant
            v@.len() == i,
            forall|j: int| 0 <= j < i ==> v@[j] == POS_ZERO,
    {
        v.push(0);
    }
    proof {
        assert(v@ =~= zero_seq(n as nat));
    }
    v
}

/// A copy of `src`.
pub fn vec_copy(src: &Vec<u64>) -> (r: Vec<u64>)
    ensures
        r@ == src@,
{
    let mut v: Vec<u64> = Vec::new();
    let n = src.len();
    for i in 0..n
        invariant
            n == src@.len(),
            v@.len() == i,
            forall|j: int| 0 <= j < i ==> v@[j] == src@[j],
    {
        v.push(src[i]);
    }
    proof {
        assert(v@ =~= src@);
    }
    v
}

/// The elementwise difference `a - b`; all zeros when both inputs are.
pub fn vec_sub(a: &Vec<u64>, b: &Vec<u64>) -> (r: Vec<u64>)
    requires
        a@.len() == b@.len(),
    ensures
        r@ == sub_vec_spec(a@, b@),
        all_zero(a@) && all_zero(b@) ==> all_zero(r@),
{
    let mut v: Vec<u64> = Vec::new();
    let n = a.len();
    for i in 0..n
        invariant
            n == a@.len(),
            a@.len() == b@.len(),
            v@.len() == i,
            forall|j: int| 0 <= j < i ==> v@[j] == sub_vec_spec(a@, b@)[j],
            all_zero(a@) && all_zero(b@) ==> all_zero(v@),
    {
        v.push(fsub(a[i], b[i]));
    }
    proof {
        assert(v@ =~= sub_vec_spec(a@, b@));
    }
    v
}

/// The dot product of `a` and `b`; zero when both inputs are all zeros.
pub fn dot(a: &Vec<u64>, b: &Vec<u64>) -> (r: u64)
    requires
        a@.len() == b@.len(),
    ensures
        r == dot_spec(a@, b@),
        all_zero(a@) && all_zero(b@) ==> r == POS_ZERO,
{
    let mut acc: u64 = 0;
    let n = a.len();
    for i in 0..n
        invariant
            n == a@.len(),
            a@.len() == b@.len(),
            acc == dot_upto(a@, b@, i as int),
            all_zero(a@) && all_zero(b@) ==> acc == POS_ZERO,
    {
        acc = fadd(acc, fmul(a[i], b[i]));
    }
    acc
}

/// In place, `x := x + alpha * p`.
pub fn vec_axpy_add(x: &mut Vec<u64>, alpha: u64, p: &Vec<u64>)
    requires
        old(x)@.len() == p@.len(),
    ensures
        final(x)@ == axpy_add_spec(old(x)@, alpha, p@),
{
    let n = x.len();
    for i in 0..n
        invariant
            n == x@.len(),
            x@.len() == p@.len(),
            x@.len() == old(x)@.len(),
            forall|j: int| 0 <= j < i ==> x@[j] == axpy_add_spec(old(x)@, alpha, p@)[j],
            forall|j: int| i <= j < n ==> x@[j] == old(x)@[j],
    {
        let t = fadd(x[i], fmul(alpha, p[i]));
        x.set(i, t);
    }
    proof {
        assert(x@ =~= axpy_add_spec(old(x)@, alpha, p@));
    }
}

/// In place, `x := x - alpha * p`.
pub fn vec_axpy_sub(x: &mut Vec<u64>, alpha: u64, p: &Vec<u64>)
    requires
        old(x)@.len() == p@.len(),
    ensures
        final(x)@ == axpy_sub_spec(old(x)@, alpha, p@),
{
    let n = x.len();
    for i in 0..n
        invariant
            n == x@.len(),
            x@.len() == p@.len(),
            x@.len() == old(x)@.len(),
            forall|j: int| 0 <= j < i ==> x@[j] == axpy_sub_spec(old(x)@, alpha, p@)[j],
            forall|j: int| i <= j < n ==> x@[j] == old(x)@[j],
    {
        let t = fsub(x[i], fmul(alpha, p[i]));
        x.set(i, t);
    }
    proof {
        assert(x@ =~= axpy_sub_spec(old(x)@, alpha, p@));
    }
}

/// In place, `p := p * beta + r`.
pub fn vec_dir_update(p: &mut Vec<u64>, beta: u64, r: &Vec<u64>)
    requires
        old(p)@.len() == r@.len(),
    ensures
        final(p)@ == dir_update_spec(old(p)@, beta, r@),
{
    let n = p.len();
    for i in 0..n
        invariant
            n == p@.len(),
            p@.len() == r@.len(),
            p@.len() == old(p)@.len(),
            forall|j: int| 0 <= j < i ==> p@[j] == dir_update_spec(old(p)@, beta, r@)[j],
            forall|j: int| i <= j < n ==> p@[j] == old(p)@[j],
    {
        let t = fadd(fmul(p[i], beta), r[i]);
        p.set(i, t);
    }
    proof {
        assert(p@ =~= dir_update_spec(old(p)@, beta, r@));
    }
}

/// Solves `m * x = b` by conjugate gradients from the initial guess `x0`,
/// returning exactly the iterate that the model `cg_spec` reaches.  When
/// the matrix stores no entries and `b` is all zeros — no observations
/// constrain the unknowns — the initial guess comes back unchanged.
#[verifier::loop_isolation(false)]
pub fn solve_cg(m: &CsrMatrix, b: &Vec<u64>, x0: &Vec<u64>, max_iter: i32, tol: u64) -> (x: Vec<
    u64,
>)
    requires
        m.wf(),
        b@.len() == m.nrows,
        x0@.len() == m.nrows,
    ensures
        x@.len() == x0@.len(),
        x@ == cg_spec(m.model(), b@, x0@, max_iter as int, tol),
        m.all_rows_empty() && all_zero(b@) ==> x@ == x0@,
{
    let ghost premise = m.all_rows_empty() && all_zero(b@);
    let n = m.nrows;
    let mut x = vec_copy(x0);
    let mut scratch = vec_zeros(n);
    spmv(m, &x, &mut scratch);
    proof {
        if premise {
            lemma_spmv_all_rows_empty(*m, x@);
        }
    }
    let mut r = vec_sub(b, &scratch);
    let mut p = vec_copy(&r);
    let mut rho: u64 = dot(&r, &r);
    let iters: usize = if max_iter <= 0 {
        0
    } else {
        max_iter as usize
    };
    let ghost target = cg_loop_spec(m.model(), x0@, r@, p@, rho, tol, iters as nat);
    proof {
        assert(target == cg_spec(m.model(), b@, x0@, max_iter as int, tol));
    }
    let mut done = false;
    let mut it: usize = 0;
    while it < iters && !done
        invariant
            it <= iters,
            x@.len() == n,
            r@.len() == n,
            p@.len() == n,
            scratch@.len() == n,
            done ==> x@ == target,
            !done ==> cg_loop_spec(m.model(), x@, r@, p@, rho, tol, (iters - it) as nat)
                == target,
            premise ==> x@ == x0@,
            premise && !done ==> all_zero(p@) && rho == POS_ZERO,
        decreases iters - it,
    {
        let s = fsqrt(rho);
        if flt(s, tol) {
            done = true;
        } else {
            spmv(m, &p, &mut scratch);
            proof {
                if premise {
                    lemma_spmv_all_rows_empty(*m, p@);
                }
            }
            let pap = dot(&p, &scratch);
            let mag = pap & ABS_MASK;
            proof {
                if premise {
                    assert(mag == 0u64) by (bit_vector)
                        requires
                            pap == 0u64,
                            mag == pap & 0x7FFF_FFFF_FFFF_FFFFu64,
                    ;
                }
            }
            if flt(mag, BREAKDOWN_LIMIT) {
                done = true;
            } else {
                let alpha = fdiv(rho, pap);
                vec_axpy_add(&mut x, alpha, &p);
                vec_axpy_sub(&mut r, alpha, &scratch);
                let rho_new = dot(&r, &r);
                let beta = fdiv(rho_new, rho);
                vec_dir_update(&mut p, beta, &r);
                rho = rho_new;
            }
        }
        it = it + 1;
    }
    x
}

} // verus!
