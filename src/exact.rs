use vstd::prelude::*;
use crate::plan::{LagTerm, ambiguity_plan, ambiguity_terms};

verus! {

// For integer samples an ambiguity cell can be kept exactly: as the
// coefficients `c[0..n]` of `sum_k c[k] * exp(2*pi*i*k/n)`.

/// Largest magnitude of one lag product of two `i32` samples.
pub const PRODUCT_BOUND: i128 = 0x4000_0000_0000_0000;

/// The samples as mathematical integers.
pub open spec fn samples(x: Seq<i32>) -> Seq<int> {
    Seq::new(x.len(), |i: int| x[i] as int)
}

/// Coefficients of the sum of `terms` over the samples `x`, each term adding
/// `x[plus] * x[minus]` to the coefficient of its phase.
pub open spec fn accumulate(x: Seq<int>, terms: Seq<LagTerm>, n: nat) -> Seq<int>
    decreases terms.len(),
{
    if terms.len() == 0 {
        Seq::new(n, |k: int| 0int)
    } else {
        let last = terms.last();
        let c = accumulate(x, terms.drop_last(), n);
        c.update(last.phase as int, c[last.phase as int] + x[last.plus as int] * x[last.minus as int])
    }
}

/// Exact coefficients of ambiguity cell `(eta, tau)` of the signal `x`.
pub open spec fn ambiguity_coefficients(x: Seq<int>, eta: int, tau: int) -> Seq<int> {
    accumulate(x, ambiguity_plan(x.len() as int, eta, tau), x.len())
}

/// Every coefficient, as a mathematical integer.
pub open spec fn coefficients(c: Seq<i128>) -> Seq<int> {
    Seq::new(c.len(), |k: int| c[k] as int)
}

/// Exact ambiguity cell `(eta, tau)` of the integer signal `x`.
pub fn ambiguity_cell(x: &Vec<i32>, eta: usize, tau: usize) -> (r: Vec<i128>)
    requires
        eta < x@.len(),
        tau < x@.len(),
    ensures
        coefficients(r@) == ambiguity_coefficients(samples(x@), eta as int, tau as int),
{
    let n: usize = x.len();
    let terms: Vec<LagTerm> = ambiguity_terms(n, eta, tau);
    let ghost plan = ambiguity_plan(n as int, eta as int, tau as int);
    proof { lemma_plan_in_range(n as int, eta as int, tau as int); }
    let mut c: Vec<i128> = Vec::new();
    let mut k: usize = 0;
    while k < n
        invariant
            k <= n,
            c@.len() == k,
            forall|j: int| 0 <= j < k ==> c@[j] == 0,
        decreases n - k,
    {
        c.push(0);
        k = k + 1;
    }
    assert(coefficients(c@) =~= accumulate(samples(x@), terms@.take(0), n as nat));
    let mut i: usize = 0;
    while i < terms.len()
        invariant
            n == x@.len(),
            terms@ == plan,
            plan.len() <= n,
            i <= terms@.len(),
            c@.len() == n,
            forall|j: int| 0 <= j < plan.len() ==>
                (#[trigger] plan[j]).plus < n && plan[j].minus < n && plan[j].phase < n,
            coefficients(c@) == accumulate(samples(x@), terms@.take(i as int), n as nat),
            forall|k: int| 0 <= k < n ==>
                -(i as int) * PRODUCT_BOUND <= #[trigger] c@[k] <= (i as int) * PRODUCT_BOUND,
        decreases terms.len() - i,
    {
        let term: LagTerm = terms[i];
        let a: i128 = x[term.plus] as i128;
        let b: i128 = x[term.minus] as i128;
        assert(-PRODUCT_BOUND <= a * b <= PRODUCT_BOUND) by (nonlinear_arith)
            requires
                -0x8000_0000 <= a < 0x8000_0000,
                -0x8000_0000 <= b < 0x8000_0000,
        ;
        assert(n <= usize::MAX);
        let ghost old_c = c@;
        let p: usize = term.phase;
        let v: i128 = c[p] + a * b;
        c.set(p, v);
        proof {
            assert(terms@.take(i as int + 1).drop_last() =~= terms@.take(i as int));
            assert(terms@.take(i as int + 1).last() == term);
            assert(coefficients(c@) =~= accumulate(samples(x@), terms@.take(i as int + 1), n as nat));
            assert forall|k: int| 0 <= k < n implies
                -(i as int + 1) * PRODUCT_BOUND <= #[trigger] c@[k] <= (i as int + 1) * PRODUCT_BOUND by {
                assert(-(i as int) * PRODUCT_BOUND <= old_c[k] <= (i as int) * PRODUCT_BOUND);
            }
        }
        i = i + 1;
    }
    assert(terms@.take(terms@.len() as int) =~= terms@);
    c
}

/// Every term of the plan reads two samples of the signal and names a phase
/// in `0..n`, and there are at most `n` terms.
pub proof fn lemma_plan_in_range(n: int, eta: int, tau: int)
    requires
        0 <= eta < n,
        0 <= tau < n,
    ensures
        ambiguity_plan(n, eta, tau).len() <= n,
        forall|j: int| 0 <= j < ambiguity_plan(n, eta, tau).len() ==>
            (#[trigger] ambiguity_plan(n, eta, tau)[j]).plus < n
            && ambiguity_plan(n, eta, tau)[j].minus < n
            && ambiguity_plan(n, eta, tau)[j].phase < n,
{
    assert forall|j: int| 0 <= j < ambiguity_plan(n, eta, tau).len() implies
        (#[trigger] ambiguity_plan(n, eta, tau)[j]).plus < n
        && ambiguity_plan(n, eta, tau)[j].minus < n
        && ambiguity_plan(n, eta, tau)[j].phase < n by {
        let t = tau / 2 + j;
        vstd::arithmetic::div_mod::lemma_mod_bound(-(eta * t), n);
    }
}

} // verus!
