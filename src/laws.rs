use vstd::prelude::*;
use crate::lag::{in_window, window_lo, window_hi};
use crate::plan::{LagTerm, CellTerm, lag_term, ambiguity_plan, synthesis_plan};
use crate::exact::{accumulate, ambiguity_coefficients, lemma_plan_in_range};

verus! {

/// The signal `x` with every sample multiplied by `c`.
pub open spec fn scaled(x: Seq<int>, c: int) -> Seq<int> {
    Seq::new(x.len(), |i: int| c * x[i])
}

/// The skip rule: ambiguity cell `(eta, tau)` holds exactly one term for each
/// sample time `t` whose lag partners `t + tau/2` and `t - tau/2` both lie in
/// `0..n`, and no other term. Each term reads those two samples.
pub proof fn lemma_skip_rule(n: int, eta: int, tau: int)
    requires
        0 <= eta < n,
        0 <= tau < n,
        n <= usize::MAX,
    ensures
        forall|t: int| #![trigger lag_term(n, eta, tau, t)]
            in_window(n, tau, t) ==> 0 <= t - tau / 2 < ambiguity_plan(n, eta, tau).len()
                && ambiguity_plan(n, eta, tau)[t - tau / 2] == lag_term(n, eta, tau, t),
        forall|j: int| 0 <= j < ambiguity_plan(n, eta, tau).len() ==>
            in_window(n, tau, tau / 2 + j)
            && (#[trigger] ambiguity_plan(n, eta, tau)[j]).plus == tau / 2 + j + tau / 2
            && ambiguity_plan(n, eta, tau)[j].minus == j,
{
}

/// Accumulating the terms over a scaled signal scales every coefficient by
/// the square of the factor.
proof fn lemma_accumulate_scaled(x: Seq<int>, c: int, terms: Seq<LagTerm>, n: nat)
    requires
        forall|j: int| 0 <= j < terms.len() ==>
            (#[trigger] terms[j]).plus < x.len() && terms[j].minus < x.len() && terms[j].phase < n,
    ensures
        accumulate(scaled(x, c), terms, n) == Seq::new(n, |k: int| c * c * accumulate(x, terms, n)[k]),
    decreases terms.len(),
{
    lemma_accumulate_len(x, terms, n);
    lemma_accumulate_len(scaled(x, c), terms, n);
    if terms.len() == 0 {
        assert(accumulate(scaled(x, c), terms, n) =~= Seq::new(n, |k: int| c * c * accumulate(x, terms, n)[k]));
    } else {
        let rest = terms.drop_last();
        assert forall|j: int| 0 <= j < rest.len() implies
            (#[trigger] rest[j]).plus < x.len() && rest[j].minus < x.len() && rest[j].phase < n by {
            assert(rest[j] == terms[j]);
        }
        lemma_accumulate_scaled(x, c, rest, n);
        let last = terms.last();
        assert(terms[terms.len() - 1] == last);
        let a = x[last.plus as int];
        let b = x[last.minus as int];
        let p = last.phase as int;
        let prev = accumulate(x, rest, n);
        lemma_accumulate_len(x, rest, n);
        assert(accumulate(x, terms, n) == prev.update(p, prev[p] + a * b));
        assert(accumulate(scaled(x, c), terms, n) == accumulate(scaled(x, c), rest, n).update(
            p, accumulate(scaled(x, c), rest, n)[p]
                + scaled(x, c)[last.plus as int] * scaled(x, c)[last.minus as int]));
        assert(scaled(x, c)[last.plus as int] * scaled(x, c)[last.minus as int] == c * c * (a * b))
            by (nonlinear_arith)
            requires
                scaled(x, c)[last.plus as int] == c * a,
                scaled(x, c)[last.minus as int] == c * b,
        ;
        assert(c * c * prev[p] + c * c * (a * b) == c * c * (prev[p] + a * b)) by (nonlinear_arith);
        assert(accumulate(scaled(x, c), terms, n) =~= Seq::new(n, |k: int| c * c * accumulate(x, terms, n)[k]));
    }
}

/// Accumulating terms whose phases lie in `0..n` gives `n` coefficients.
proof fn lemma_accumulate_len(x: Seq<int>, terms: Seq<LagTerm>, n: nat)
    requires
        forall|j: int| 0 <= j < terms.len() ==> (#[trigger] terms[j]).phase < n,
    ensures
        accumulate(x, terms, n).len() == n,
    decreases terms.len(),
{
    if terms.len() > 0 {
        let rest = terms.drop_last();
        assert forall|j: int| 0 <= j < rest.len() implies (#[trigger] rest[j]).phase < n by {
            assert(rest[j] == terms[j]);
        }
        lemma_accumulate_len(x, rest, n);
    }
}

/// Energy scaling: scaling the signal by `c` scales every exact ambiguity
/// coefficient by `c * c`.
pub proof fn lemma_energy_scaling(x: Seq<int>, c: int, eta: int, tau: int)
    requires
        0 <= eta < x.len(),
        0 <= tau < x.len(),
    ensures
        ambiguity_coefficients(scaled(x, c), eta, tau)
            == Seq::new(x.len(), |k: int| c * c * ambiguity_coefficients(x, eta, tau)[k]),
{
    let n = x.len() as int;
    lemma_plan_in_range(n, eta, tau);
    lemma_accumulate_scaled(x, c, ambiguity_plan(n, eta, tau), x.len());
}

/// A one-sample signal: its only ambiguity cell is `x[0] * x[0]` at phase 0,
/// and its only distribution cell is built from that ambiguity cell at
/// phase 0.
pub proof fn lemma_single_sample(x: Seq<int>)
    requires
        x.len() == 1,
    ensures
        ambiguity_plan(1, 0, 0) == seq![LagTerm { plus: 0, minus: 0, phase: 0 }],
        ambiguity_coefficients(x, 0, 0) == seq![x[0] * x[0]],
        synthesis_plan(1, 0, 0) == seq![CellTerm { eta: 0, tau: 0, phase: 0 }],
{
    assert(window_lo(1, 0) == 0 && window_hi(1, 0) == 1);
    assert(ambiguity_plan(1, 0, 0) =~= seq![LagTerm { plus: 0, minus: 0, phase: 0 }]);
    let plan = ambiguity_plan(1, 0, 0);
    assert(plan.drop_last() =~= Seq::<LagTerm>::empty());
    assert(accumulate(x, plan.drop_last(), 1) =~= seq![0int]);
    assert(ambiguity_coefficients(x, 0, 0) =~= seq![x[0] * x[0]]);
    assert(synthesis_plan(1, 0, 0) =~= seq![CellTerm { eta: 0, tau: 0, phase: 0 }]);
}

/// Dimension: every ambiguity cell of a signal of length `n` is made of at
/// most `n` terms, and every distribution cell is built from all `n * n`
/// ambiguity cells.
pub proof fn lemma_dimensions(n: int, t: int, f: int, eta: int, tau: int)
    requires
        0 <= t < n,
        0 <= f < n,
        0 <= eta < n,
        0 <= tau < n,
    ensures
        ambiguity_plan(n, eta, tau).len() <= n,
        synthesis_plan(n, t, f).len() == n * n,
{
    lemma_plan_in_range(n, eta, tau);
    assert(n * n >= 0) by (nonlinear_arith);
}

/// An empty signal: no ambiguity cell has a term and no distribution cell
/// has a term.
pub proof fn lemma_empty_signal(eta: int, tau: int, t: int, f: int)
    requires
        0 <= tau,
    ensures
        ambiguity_plan(0, eta, tau).len() == 0,
        synthesis_plan(0, t, f).len() == 0,
{
}

} // verus!
