use vstd::prelude::*;
use vstd::arithmetic::div_mod::{lemma_add_mod_noop, lemma_mul_mod_noop, lemma_mod_bound};

verus! {

// A phase is an exponent `k` in `0..n` standing for the root of unity
// `exp(2*pi*i*k/n)`. Products of roots of unity add their exponents, so all
// phase arithmetic is integer arithmetic modulo `n`.

/// Phase of the analysis exponential `exp(-2*pi*i*eta*t/n)`.
pub open spec fn analysis_phase(n: int, eta: int, t: int) -> int {
    (-(eta * t)) % n
}

/// Phase of the synthesis exponential `exp(+2*pi*i*(t*eta + f*tau)/n)`.
pub open spec fn synthesis_phase(n: int, t: int, f: int, eta: int, tau: int) -> int {
    (t * eta + f * tau) % n
}

/// `(a * b) % n`, computed without overflow for any `a`, `b` and `n > 0`.
pub fn mul_mod(a: usize, b: usize, n: usize) -> (r: usize)
    requires
        n > 0,
    ensures
        r as int == (a as int * b as int) % (n as int),
        r < n,
{
    let am: u128 = (a % n) as u128;
    let bm: u128 = (b % n) as u128;
    let nn: u128 = n as u128;
    assert(am * bm < 0x1_0000_0000_0000_0000_0000_0000_0000_0000) by (nonlinear_arith)
        requires
            am < 0x1_0000_0000_0000_0000,
            bm < 0x1_0000_0000_0000_0000,
    ;
    let p: u128 = am * bm;
    let r: u128 = p % nn;
    proof {
        lemma_mul_mod_noop(a as int, b as int, n as int);
        lemma_mod_bound(p as int, n as int);
    }
    r as usize
}

/// Exponent of `exp(-2*pi*i*eta*t/n)` as a phase in `0..n`.
pub fn analysis_phase_index(n: usize, eta: usize, t: usize) -> (r: usize)
    requires
        n > 0,
    ensures
        r as int == analysis_phase(n as int, eta as int, t as int),
        r < n,
{
    let m: usize = mul_mod(eta, t, n);
    let r: usize = if m == 0 { 0 } else { n - m };
    proof {
        let e = eta as int * t as int;
        assert(e == (e / n as int) * n as int + m) by {
            vstd::arithmetic::div_mod::lemma_fundamental_div_mod(e, n as int);
        }
        if m == 0 {
            assert((-e) % (n as int) == 0) by {
                vstd::arithmetic::div_mod::lemma_mod_multiples_basic(-(e / n as int), n as int);
                assert(-e == (-(e / n as int)) * n as int) by (nonlinear_arith)
                    requires e == (e / n as int) * n as int;
            }
        } else {
            let q = -(e / n as int) - 1;
            assert(-e == q * n as int + (n - m)) by (nonlinear_arith)
                requires e == (e / n as int) * n as int + m, q == -(e / n as int) - 1;
            vstd::arithmetic::div_mod::lemma_mod_multiples_vanish(q, (n - m) as int, n as int);
            vstd::arithmetic::div_mod::lemma_small_mod((n - m) as nat, n as nat);
        }
    }
    r
}

/// Exponent of `exp(+2*pi*i*(t*eta + f*tau)/n)` as a phase in `0..n`.
pub fn synthesis_phase_index(n: usize, t: usize, f: usize, eta: usize, tau: usize) -> (r: usize)
    requires
        n > 0,
    ensures
        r as int == synthesis_phase(n as int, t as int, f as int, eta as int, tau as int),
        r < n,
{
    let a: usize = mul_mod(t, eta, n);
    let b: usize = mul_mod(f, tau, n);
    let s: u128 = a as u128 + b as u128;
    let r: u128 = s % (n as u128);
    proof {
        lemma_add_mod_noop(t as int * eta as int, f as int * tau as int, n as int);
        lemma_mod_bound(s as int, n as int);
    }
    r as usize
}

} // verus!
