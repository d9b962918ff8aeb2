//! Sampling of series into the `(x, y)` points that a chart draws.
use vstd::prelude::*;

verus! {

/// One point is kept out of this many.
pub const SAMPLE_EVERY: usize = 10;

/// How many points a sample of `n` values keeps: one per started run of
/// `SAMPLE_EVERY`.
pub open spec fn sample_count(n: nat) -> nat {
    ((n + SAMPLE_EVERY - 1) / SAMPLE_EVERY as int) as nat
}

/// Pairs every `SAMPLE_EVERY`-th x with the y at the same position, starting
/// with the first, for as long as both series last.
pub fn into_data<X: Copy, Y: Copy>(xs: &[X], ys: &[Y]) -> (r: Vec<(X, Y)>)
    ensures
        r@.len() == if xs@.len() <= ys@.len() {
            sample_count(xs@.len())
        } else {
            sample_count(ys@.len())
        },
        forall|i: int|
            0 <= i < r@.len() ==> #[trigger] r@[i] == (
                xs@[SAMPLE_EVERY * i],
                ys@[SAMPLE_EVERY * i],
            ),
{
    let n: usize = if xs.len() <= ys.len() {
        xs.len()
    } else {
        ys.len()
    };
    let count: usize = if n % SAMPLE_EVERY == 0 {
        n / SAMPLE_EVERY
    } else {
        n / SAMPLE_EVERY + 1
    };
    assert(count == sample_count(n as nat)) by (nonlinear_arith)
        requires
            n % 10 == 0 ==> count == n / 10,
            n % 10 != 0 ==> count == n / 10 + 1,
            SAMPLE_EVERY == 10,
    ;
    let mut r: Vec<(X, Y)> = Vec::new();
    let mut k: usize = 0;
    while k < count
        invariant
            k <= count,
            count == sample_count(n as nat),
            n <= xs@.len(),
            n <= ys@.len(),
            r@.len() == k,
            forall|i: int|
                0 <= i < k ==> #[trigger] r@[i] == (xs@[SAMPLE_EVERY * i], ys@[SAMPLE_EVERY * i]),
        decreases count - k,
    {
        assert(SAMPLE_EVERY * k < n) by (nonlinear_arith)
            requires
                k < count,
                count == (n + 9) / 10,
                SAMPLE_EVERY == 10,
        ;
        let idx = SAMPLE_EVERY * k;
        r.push((xs[idx], ys[idx]));
        k += 1;
    }
    r
}

} // verus!
