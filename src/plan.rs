use vstd::prelude::*;
use crate::lag::{window_lo, window_hi, lag_window};
use crate::phase::{analysis_phase, synthesis_phase, analysis_phase_index, synthesis_phase_index};

verus! {

/// One term `x[plus] * conj(x[minus]) * exp(2*pi*i*phase/n)` of an
/// ambiguity cell.
#[derive(Clone, Copy, Debug, PartialEq, Eq, Structural)]
pub struct LagTerm {
    pub plus: usize,
    pub minus: usize,
    pub phase: usize,
}

/// One term `weighted[eta][tau] * exp(2*pi*i*phase/n)` of a distribution
/// cell.
#[derive(Clone, Copy, Debug, PartialEq, Eq, Structural)]
pub struct CellTerm {
    pub eta: usize,
    pub tau: usize,
    pub phase: usize,
}

/// The term of ambiguity cell `(eta, tau)` contributed by sample time `t`.
pub open spec fn lag_term(n: int, eta: int, tau: int, t: int) -> LagTerm {
    LagTerm {
        plus: (t + tau / 2) as usize,
        minus: (t - tau / 2) as usize,
        phase: analysis_phase(n, eta, t) as usize,
    }
}

/// The terms of ambiguity cell `(eta, tau)`: one for each sample time of the
/// lag window, in increasing time order.
pub open spec fn ambiguity_plan(n: int, eta: int, tau: int) -> Seq<LagTerm> {
    Seq::new(
        (window_hi(n, tau) - window_lo(n, tau)) as nat,
        |i: int| lag_term(n, eta, tau, window_lo(n, tau) + i),
    )
}

/// The term of distribution cell `(t, f)` contributed by ambiguity cell
/// `(eta, tau)`.
pub open spec fn cell_term(n: int, t: int, f: int, eta: int, tau: int) -> CellTerm {
    CellTerm {
        eta: eta as usize,
        tau: tau as usize,
        phase: synthesis_phase(n, t, f, eta, tau) as usize,
    }
}

/// The terms of distribution cell `(t, f)`: one for each ambiguity cell,
/// `eta` major and `tau` minor.
pub open spec fn synthesis_plan(n: int, t: int, f: int) -> Seq<CellTerm> {
    Seq::new((n * n) as nat, |i: int| cell_term(n, t, f, i / n, i % n))
}

/// The terms that make up ambiguity cell `(eta, tau)` of a signal of length
/// `n`. Sample times whose lag partners fall outside the signal contribute
/// nothing and are left out.
pub fn ambiguity_terms(n: usize, eta: usize, tau: usize) -> (r: Vec<LagTerm>)
    requires
        eta < n,
        tau < n,
    ensures
        r@ == ambiguity_plan(n as int, eta as int, tau as int),
{
    let (lo, hi) = lag_window(n, tau);
    let h: usize = tau / 2;
    let mut r: Vec<LagTerm> = Vec::new();
    let mut t: usize = lo;
    while t < hi
        invariant
            lo == window_lo(n as int, tau as int),
            hi == window_hi(n as int, tau as int),
            h == tau / 2,
            lo <= t <= hi,
            hi <= n,
            n > 0,
            r@.len() == t - lo,
            forall|i: int| 0 <= i < r@.len() ==>
                #[trigger] r@[i] == lag_term(n as int, eta as int, tau as int, lo + i),
        decreases hi - t,
    {
        let term = LagTerm { plus: t + h, minus: t - h, phase: analysis_phase_index(n, eta, t) };
        r.push(term);
        t = t + 1;
    }
    assert(r@ =~= ambiguity_plan(n as int, eta as int, tau as int));
    r
}

/// The terms that make up distribution cell `(t, f)` of an `n` by `n`
/// weighted ambiguity surface.
pub fn synthesis_terms(n: usize, t: usize, f: usize) -> (r: Vec<CellTerm>)
    requires
        t < n,
        f < n,
        n * n <= usize::MAX,
    ensures
        r@ == synthesis_plan(n as int, t as int, f as int),
{
    let mut r: Vec<CellTerm> = Vec::new();
    let mut eta: usize = 0;
    while eta < n
        invariant
            0 < n,
            n * n <= usize::MAX,
            t < n,
            f < n,
            eta <= n,
            r@.len() == eta * n,
            forall|i: int| 0 <= i < r@.len() ==>
                #[trigger] r@[i] == cell_term(n as int, t as int, f as int, i / n as int, i % n as int),
        decreases n - eta,
    {
        let mut tau: usize = 0;
        while tau < n
            invariant
                0 < n,
                n * n <= usize::MAX,
                t < n,
                f < n,
                eta < n,
                tau <= n,
                r@.len() == eta * n + tau,
                forall|i: int| 0 <= i < r@.len() ==>
                    #[trigger] r@[i] == cell_term(n as int, t as int, f as int, i / n as int, i % n as int),
            decreases n - tau,
        {
            let phase: usize = synthesis_phase_index(n, t, f, eta, tau);
            proof {
                let k = eta * n + tau;
                vstd::arithmetic::div_mod::lemma_fundamental_div_mod_converse(
                    k as int, n as int, eta as int, tau as int);
            }
            r.push(CellTerm { eta, tau, phase });
            tau = tau + 1;
        }
        proof {
            assert((eta + 1) * n == eta * n + n) by (nonlinear_arith);
            assert((eta + 1) * n <= n * n) by (nonlinear_arith) requires eta < n;
        }
        eta = eta + 1;
    }
    assert(r@ =~= synthesis_plan(n as int, t as int, f as int));
    r
}

} // verus!
