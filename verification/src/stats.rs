//! Latency statistics of a set of timing samples.
//!
//! Samples are whole nanoseconds. Statistics are kept in picoseconds, so
//! that the midpoint of two samples is exact. Of no samples every statistic
//! is `None`: there is no number to report.

use vstd::prelude::*;
use vstd::seq_lib::{lemma_sorted_unique, to_multiset_update};
use vstd::relations::{sorted_by, total_ordering};

verus! {

/// The picoseconds in a nanosecond.
pub const PICOS_PER_NANO: u128 = 1000;

/// The picoseconds in half a nanosecond.
pub const PICOS_PER_HALF_NANO: u128 = 500;

/// The minimum, the median, the 95th percentile and the maximum of a set of
/// timing samples, in picoseconds.
#[derive(Clone, Copy, Debug, PartialEq, Eq)]
pub struct BenchStats {
    /// The smallest sample.
    pub min: Option<u128>,
    /// The median.
    pub p50: Option<u128>,
    /// The 95th percentile.
    pub p95: Option<u128>,
    /// The largest sample.
    pub max: Option<u128>,
}

/// Whether `s` is in ascending order.
pub open spec fn is_ascending(s: Seq<u64>) -> bool {
    forall|i: int, j: int| 0 <= i <= j < s.len() ==> s[i] <= s[j]
}

/// Whether `sorted` holds the samples of `samples` in ascending order.
pub open spec fn is_sorting_of(sorted: Seq<u64>, samples: Seq<u64>) -> bool {
    is_ascending(sorted) && sorted.to_multiset() == samples.to_multiset()
}

/// A sample in picoseconds.
pub open spec fn picos(nanos: u64) -> u128 {
    (nanos * PICOS_PER_NANO) as u128
}

/// The median of samples in ascending order: the middle one of an odd
/// number, the mean of the two middle ones of an even number.
pub open spec fn median_of(sorted: Seq<u64>) -> Option<u128> {
    let n = sorted.len() as int;
    if n == 0 {
        None
    } else if n % 2 == 1 {
        Some(picos(sorted[n / 2]))
    } else {
        Some(((sorted[n / 2 - 1] + sorted[n / 2]) * PICOS_PER_HALF_NANO) as u128)
    }
}

/// The index of the 95th percentile among `n` samples in ascending order:
/// `(n - 1) * 0.95`, rounded to the nearest whole number with halves rounded
/// up, and never more than `n - 1`.
pub open spec fn p95_index(n: nat) -> nat
    recommends
        n > 0,
{
    let rounded = ((n - 1) * 19 + 10) / 20;
    if rounded > n - 1 {
        (n - 1) as nat
    } else {
        rounded as nat
    }
}

/// The 95th percentile of samples in ascending order.
pub open spec fn p95_of(sorted: Seq<u64>) -> Option<u128> {
    if sorted.len() == 0 {
        None
    } else {
        Some(picos(sorted[p95_index(sorted.len()) as int]))
    }
}

/// The statistics of samples in ascending order.
pub open spec fn stats_of(sorted: Seq<u64>) -> BenchStats {
    if sorted.len() == 0 {
        BenchStats { min: None, p50: None, p95: None, max: None }
    } else {
        BenchStats {
            min: Some(picos(sorted.first())),
            p50: median_of(sorted),
            p95: p95_of(sorted),
            max: Some(picos(sorted.last())),
        }
    }
}

/// The median of samples in ascending order, in picoseconds.
pub fn median(sorted: &[u64]) -> (m: Option<u128>)
    ensures
        m == median_of(sorted@),
{
    let n = sorted.len();
    if n == 0 {
        return None;
    }
    if n % 2 == 1 {
        Some(sorted[n / 2] as u128 * PICOS_PER_NANO)
    } else {
        Some((sorted[n / 2 - 1] as u128 + sorted[n / 2] as u128) * PICOS_PER_HALF_NANO)
    }
}

/// The 95th percentile of samples in ascending order, in picoseconds.
pub fn p95(sorted: &[u64]) -> (p: Option<u128>)
    ensures
        p == p95_of(sorted@),
{
    let n = sorted.len();
    if n == 0 {
        return None;
    }
    let m: usize = n - 1;
    let idx: usize = (m / 20) * 19 + ((m % 20) * 19 + 10) / 20;
    assert(idx == (m * 19 + 10) / 20 && idx <= m);
    let idx: usize = if idx > m {
        m
    } else {
        idx
    };
    Some(sorted[idx] as u128 * PICOS_PER_NANO)
}

/// Exchanging two samples changes the order, not the samples.
proof fn lemma_swap_keeps_samples(s: Seq<u64>, i: int, j: int)
    requires
        0 <= i < s.len(),
        0 <= j < s.len(),
    ensures
        s.update(i, s[j]).update(j, s[i]).to_multiset() == s.to_multiset(),
{
    broadcast use vstd::multiset::group_multiset_axioms;

    let mid = s.update(i, s[j]);
    to_multiset_update(s, i, s[j]);
    to_multiset_update(mid, j, s[i]);
    s.to_multiset_ensures();
    assert(mid.update(j, s[i]).to_multiset() =~= s.to_multiset());
}

/// Sorts `times` in ascending order.
pub fn sort_ascending(times: &mut [u64])
    ensures
        is_sorting_of(final(times)@, old(times)@),
        final(times)@.len() == old(times)@.len(),
{
    let n = times.len();
    let mut i: usize = 1;
    while i < n
        invariant
            n == times@.len(),
            1 <= i,
            times@.to_multiset() == old(times)@.to_multiset(),
            forall|a: int, b: int| 0 <= a <= b < i && b < n ==> times@[a] <= times@[b],
        decreases n - i,
    {
        let mut j: usize = i;
        while j > 0 && times[j - 1] > times[j]
            invariant
                n == times@.len(),
                0 <= j <= i < n,
                times@.to_multiset() == old(times)@.to_multiset(),
                forall|a: int, b: int|
                    0 <= a <= b <= i && a != j && b != j ==> times@[a] <= times@[b],
                forall|b: int| j < b <= i ==> times@[j as int] <= times@[b],
            decreases j,
        {
            let ghost before = times@;
            let lo = times[j - 1];
            let hi = times[j];
            times[j - 1] = hi;
            times[j] = lo;
            proof {
                lemma_swap_keeps_samples(before, j - 1, j as int);
            }
            j = j - 1;
        }
        i = i + 1;
    }
}

/// Sorts `times` in ascending order and reduces them to their statistics.
pub fn calc_stats(times: &mut [u64]) -> (stats: BenchStats)
    ensures
        is_sorting_of(final(times)@, old(times)@),
        final(times)@.len() == old(times)@.len(),
        stats == stats_of(final(times)@),
{
    sort_ascending(times);
    let n = times.len();
    if n == 0 {
        return BenchStats { min: None, p50: None, p95: None, max: None };
    }
    BenchStats {
        min: Some(times[0] as u128 * PICOS_PER_NANO),
        p50: median(times),
        p95: p95(times),
        max: Some(times[n - 1] as u128 * PICOS_PER_NANO),
    }
}

/// The index of the 95th percentile is the whole number nearest to
/// `(n - 1) * 0.95`: twenty times the index is within ten of nineteen times
/// `n - 1`, and ten off only upwards.
pub proof fn law_p95_index_is_nearest(n: nat)
    requires
        n > 0,
    ensures
        19 * (n - 1) - 10 < 20 * p95_index(n) <= 19 * (n - 1) + 10,
        p95_index(n) <= n - 1,
{
}

/// The statistics depend on the samples alone, not on the order in which
/// they were taken: two sequences with the same samples have the same
/// sorting, and so the same statistics.
pub proof fn law_stats_ignore_order(
    a: Seq<u64>,
    b: Seq<u64>,
    sorted_a: Seq<u64>,
    sorted_b: Seq<u64>,
)
    requires
        a.to_multiset() == b.to_multiset(),
        is_sorting_of(sorted_a, a),
        is_sorting_of(sorted_b, b),
    ensures
        sorted_a == sorted_b,
        stats_of(sorted_a) == stats_of(sorted_b),
{
    let leq = |x: u64, y: u64| x <= y;
    assert(sorted_by(sorted_a, leq));
    assert(sorted_by(sorted_b, leq));
    lemma_sorted_unique(sorted_a, sorted_b, leq);
}

/// Of samples in ascending order the minimum is no larger, and the maximum
/// no smaller, than any sample, and the median and the 95th percentile lie
/// between them.
pub proof fn law_stats_bounds(sorted: Seq<u64>, i: int)
    requires
        is_ascending(sorted),
        0 <= i < sorted.len(),
    ensures
        stats_of(sorted).min == Some(picos(sorted[0])),
        stats_of(sorted).max == Some(picos(sorted[sorted.len() - 1])),
        stats_of(sorted).min->0 <= picos(sorted[i]) <= stats_of(sorted).max->0,
        stats_of(sorted).min->0 <= stats_of(sorted).p50->0 <= stats_of(sorted).max->0,
        stats_of(sorted).min->0 <= stats_of(sorted).p95->0 <= stats_of(sorted).max->0,
        p95_index(sorted.len()) < sorted.len(),
{
}

} // verus!
