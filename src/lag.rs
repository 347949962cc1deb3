use vstd::prelude::*;

verus! {

/// Whether sample time `t` has both lag partners `t + tau/2` and
/// `t - tau/2` inside a signal of length `n`.
pub open spec fn in_window(n: int, tau: int, t: int) -> bool {
    t - tau / 2 >= 0 && t + tau / 2 < n
}

/// First sample time of the lag window (inclusive).
pub open spec fn window_lo(n: int, tau: int) -> int {
    tau / 2
}

/// One past the last sample time of the lag window; equal to `window_lo`
/// when the window is empty.
pub open spec fn window_hi(n: int, tau: int) -> int {
    if tau / 2 <= n - tau / 2 { n - tau / 2 } else { tau / 2 }
}

/// The sample times whose lag partners both lie in `0..n`, as a half-open
/// range `lo..hi`.
pub fn lag_window(n: usize, tau: usize) -> (r: (usize, usize))
    ensures
        r.0 as int == window_lo(n as int, tau as int),
        r.1 as int == window_hi(n as int, tau as int),
        r.0 <= r.1,
        forall|t: int| #![trigger in_window(n as int, tau as int, t)]
            in_window(n as int, tau as int, t) <==> r.0 <= t < r.1,
{
    let h: usize = tau / 2;
    if h <= n / 2 {
        (h, n - h)
    } else {
        (h, h)
    }
}

} // verus!
