use vstd::prelude::*;

verus! {

/// Milliseconds from `earlier` to `later`; zero when `later` is not after
/// `earlier` (time points are never taken to run backwards).
pub open spec fn gap(earlier: u64, later: u64) -> nat {
    if later >= earlier {
        (later - earlier) as nat
    } else {
        0
    }
}

/// The sum of the gaps between consecutive time points of `s`.
pub open spec fn gap_total(s: Seq<u64>) -> nat
    decreases s.len(),
{
    if s.len() < 2 {
        0
    } else {
        gap_total(s.drop_last()) + gap(s[s.len() - 2], s.last())
    }
}

/// The mean spacing of the time points of `s`: the summed gaps divided by the
/// number of time points (not the number of gaps).
pub open spec fn mean_gap(s: Seq<u64>) -> nat {
    if s.len() == 0 {
        0
    } else {
        gap_total(s) / s.len()
    }
}

/// `x` as a `u64`, saturated at `u64::MAX`.
pub open spec fn saturate(x: nat) -> u64 {
    if x > u64::MAX {
        u64::MAX
    } else {
        x as u64
    }
}

/// Each gap is at most `u64::MAX`, so the total of `n` points is at most
/// `(n - 1) * u64::MAX`.
pub proof fn lemma_gap_total_bound(s: Seq<u64>)
    ensures
        s.len() >= 1 ==> gap_total(s) <= (s.len() - 1) * (u64::MAX as int),
        s.len() == 0 ==> gap_total(s) == 0,
    decreases s.len(),
{
    if s.len() >= 2 {
        lemma_gap_total_bound(s.drop_last());
        assert((s.len() - 2) * (u64::MAX as int) + u64::MAX as int == (s.len() - 1) * (u64::MAX as int))
            by (nonlinear_arith);
    }
}

/// Sums the gaps between consecutive time points of `items`.
pub(crate) fn sum_of_gaps(items: &Vec<u64>) -> (r: u128)
    ensures
        r == gap_total(items@),
{
    let n: usize = items.len();
    let mut sum: u128 = 0;
    if n < 2 {
        return 0;
    }
    let mut i: usize = 1;
    while i < n
        invariant
            n == items@.len(),
            1 <= i <= n,
            sum == gap_total(items@.take(i as int)),
        decreases n - i,
    {
        proof {
            let s = items@.take(i as int + 1);
            assert(s.drop_last() =~= items@.take(i as int));
            lemma_gap_total_bound(s);
            assert((i as int) * (u64::MAX as int) < u128::MAX) by (nonlinear_arith)
                requires i < n, n <= usize::MAX;
        }
        let earlier = items[i - 1];
        let later = items[i];
        if later >= earlier {
            sum = sum + (later - earlier) as u128;
        }
        i = i + 1;
    }
    assert(items@.take(n as int) =~= items@);
    sum
}

} // verus!
