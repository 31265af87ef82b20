//! Statistics over raw samples: mean, median, minimum, maximum and sample
//! standard deviation, with optional symmetric outlier trimming.

use vstd::prelude::*;
use vstd::relations::{sorted_by, total_ordering};

verus! {

broadcast use vstd::seq_lib::group_to_multiset_ensures;

/// The ascending order on samples.
pub open spec fn ascending() -> spec_fn(u64, u64) -> bool {
    |x: u64, y: u64| x <= y
}

/// The samples in ascending order.
pub open spec fn sorted_samples(s: Seq<u64>) -> Seq<u64> {
    s.sort_by(ascending())
}

/// Sum of the samples.
pub open spec fn seq_sum(s: Seq<u64>) -> int
    decreases s.len(),
{
    if s.len() == 0 {
        0
    } else {
        seq_sum(s.drop_last()) + s.last()
    }
}

/// Arithmetic mean rounded down; zero for no samples.
pub open spec fn mean_of(s: Seq<u64>) -> int {
    if s.len() == 0 {
        0
    } else {
        seq_sum(s) / s.len() as int
    }
}

/// Sum of squared deviations of the samples from `m`.
pub open spec fn sq_dev_sum(s: Seq<u64>, m: int) -> int
    decreases s.len(),
{
    if s.len() == 0 {
        0
    } else {
        sq_dev_sum(s.drop_last(), m) + (s.last() - m) * (s.last() - m)
    }
}

/// `r` is the integer square root of `x`.
pub open spec fn is_isqrt(r: int, x: int) -> bool {
    0 <= r && r * r <= x < (r + 1) * (r + 1)
}

/// The integer square root of `x` (the largest `r` with `r * r <= x`).
pub open spec fn isqrt_of(x: int) -> int {
    choose|r: int| is_isqrt(r, x)
}

/// Sample standard deviation around `m`, rounded down: the integer square root
/// of the squared-deviation sum (capped at `u128::MAX`) divided by `n - 1`;
/// zero for fewer than two samples.
pub open spec fn std_dev_of(s: Seq<u64>, m: int) -> int {
    if s.len() < 2 {
        0
    } else {
        let total = if sq_dev_sum(s, m) > u128::MAX {
            u128::MAX as int
        } else {
            sq_dev_sum(s, m)
        };
        isqrt_of(total / (s.len() - 1))
    }
}

proof fn lemma_isqrt_unique(r1: int, r2: int, x: int)
    requires
        is_isqrt(r1, x),
        is_isqrt(r2, x),
    ensures
        r1 == r2,
{
    if r1 < r2 {
        assert((r1 + 1) * (r1 + 1) <= r2 * r2) by (nonlinear_arith)
            requires
                0 <= r1 + 1 <= r2,
        ;
    } else if r2 < r1 {
        assert((r2 + 1) * (r2 + 1) <= r1 * r1) by (nonlinear_arith)
            requires
                0 <= r2 + 1 <= r1,
        ;
    }
}

/// Integer square root: the largest `r` with `r * r <= x`.
pub fn integer_sqrt(x: u128) -> (r: u64)
    ensures
        r as int == isqrt_of(x as int),
        is_isqrt(r as int, x as int),
{
    let mut lo: u128 = 0;
    let mut hi: u128 = 0x1_0000_0000_0000_0000;
    assert(hi * hi > u128::MAX) by (nonlinear_arith)
        requires
            hi == 0x1_0000_0000_0000_0000u128,
    ;
    while hi - lo > 1
        invariant
            lo < hi <= 0x1_0000_0000_0000_0000,
            lo * lo <= x,
            x < hi * hi,
        decreases hi - lo,
    {
        let mid = lo + (hi - lo) / 2;
        assert(mid * mid <= 0xffff_ffff_ffff_ffff * 0xffff_ffff_ffff_ffffu128) by (nonlinear_arith)
            requires
                mid < 0x1_0000_0000_0000_0000,
        ;
        if mid * mid <= x {
            lo = mid;
        } else {
            hi = mid;
        }
    }
    proof {
        assert(is_isqrt(lo as int, x as int));
        lemma_isqrt_unique(lo as int, isqrt_of(x as int), x as int);
    }
    lo as u64
}

/// Sorts samples in place.
///
/// Relies on `slice::sort_unstable`: the result is in ascending order and
/// holds the same elements.
#[verifier::external_body]
fn sort_ascending(v: &mut Vec<u64>)
    ensures
        sorted_by(final(v)@, ascending()),
        final(v)@.to_multiset() == old(v)@.to_multiset(),
{
    v.sort_unstable()
}

proof fn lemma_ascending_total()
    ensures
        total_ordering(ascending()),
{
}

/// A sorted copy of the samples.
pub fn sorted_copy(samples: &[u64]) -> (r: Vec<u64>)
    ensures
        r@ == sorted_samples(samples@),
{
    let mut v = vstd::slice::slice_to_vec(samples);
    sort_ascending(&mut v);
    proof {
        lemma_ascending_total();
        samples@.lemma_sort_by_ensures(ascending());
        vstd::seq_lib::lemma_sorted_unique(v@, sorted_samples(samples@), ascending());
    }
    v
}

proof fn lemma_seq_sum_prefix(s: Seq<u64>, i: int)
    requires
        0 <= i < s.len(),
    ensures
        seq_sum(s.subrange(0, i + 1)) == seq_sum(s.subrange(0, i)) + s[i],
{
    assert(s.subrange(0, i + 1).drop_last() =~= s.subrange(0, i));
}

proof fn lemma_sq_dev_sum_prefix(s: Seq<u64>, m: int, i: int)
    requires
        0 <= i < s.len(),
    ensures
        sq_dev_sum(s.subrange(0, i + 1), m) == sq_dev_sum(s.subrange(0, i), m) + (s[i] - m) * (s[i]
            - m),
{
    assert(s.subrange(0, i + 1).drop_last() =~= s.subrange(0, i));
}

proof fn lemma_sq_dev_sum_nonneg(s: Seq<u64>, m: int)
    ensures
        sq_dev_sum(s, m) >= 0,
    decreases s.len(),
{
    if s.len() > 0 {
        lemma_sq_dev_sum_nonneg(s.drop_last(), m);
        assert((s.last() - m) * (s.last() - m) >= 0) by (nonlinear_arith);
    }
}

/// Sum of the samples; it always fits in 128 bits.
pub fn sum_of(samples: &[u64]) -> (r: u128)
    ensures
        r == seq_sum(samples@),
{
    let n = samples.len();
    let mut acc: u128 = 0;
    let mut i: usize = 0;
    assert(samples@.subrange(0, 0) =~= Seq::<u64>::empty());
    while i < n
        invariant
            n == samples@.len(),
            i <= n,
            acc == seq_sum(samples@.subrange(0, i as int)),
            acc <= i * 0xffff_ffff_ffff_ffffu128,
        decreases n - i,
    {
        proof {
            lemma_seq_sum_prefix(samples@, i as int);
            assert((i + 1) * 0xffff_ffff_ffff_ffffu128 <= 0x1_0000_0000_0000_0000 * 0xffff_ffff_ffff_ffffu128)
                by (nonlinear_arith)
                requires
                    i < 0x1_0000_0000_0000_0000,
            ;
            assert((i + 1) * 0xffff_ffff_ffff_ffffu128 == i * 0xffff_ffff_ffff_ffffu128 + 0xffff_ffff_ffff_ffffu128)
                by (nonlinear_arith);
        }
        acc = acc + samples[i] as u128;
        i = i + 1;
    }
    assert(samples@.subrange(0, n as int) =~= samples@);
    acc
}

proof fn lemma_mean_fits(s: Seq<u64>)
    requires
        s.len() > 0,
        seq_sum(s) <= s.len() * 0xffff_ffff_ffff_ffffu128,
    ensures
        0 <= mean_of(s) <= u64::MAX,
{
    let n = s.len() as int;
    lemma_seq_sum_nonneg(s);
    vstd::arithmetic::div_mod::lemma_div_is_ordered(seq_sum(s), n * 0xffff_ffff_ffff_ffff, n);
    vstd::arithmetic::mul::lemma_mul_is_commutative(n, 0xffff_ffff_ffff_ffff);
    vstd::arithmetic::div_mod::lemma_div_by_multiple(0xffff_ffff_ffff_ffff, n);
    vstd::arithmetic::div_mod::lemma_div_pos_is_pos(seq_sum(s), n);
}

proof fn lemma_seq_sum_nonneg(s: Seq<u64>)
    ensures
        seq_sum(s) >= 0,
    decreases s.len(),
{
    if s.len() > 0 {
        lemma_seq_sum_nonneg(s.drop_last());
    }
}

proof fn lemma_seq_sum_bound(s: Seq<u64>)
    ensures
        seq_sum(s) <= s.len() * 0xffff_ffff_ffff_ffffu128,
    decreases s.len(),
{
    if s.len() > 0 {
        lemma_seq_sum_bound(s.drop_last());
        assert(s.len() * 0xffff_ffff_ffff_ffffu128 == (s.len() - 1) * 0xffff_ffff_ffff_ffffu128
            + 0xffff_ffff_ffff_ffffu128) by (nonlinear_arith)
            requires
                s.len() >= 1,
        ;
    }
}

/// Sum of squared deviations from `mean`, saturating at `u128::MAX`.
fn saturating_sq_dev_sum(samples: &[u64], mean: u64) -> (r: u128)
    ensures
        r == if sq_dev_sum(samples@, mean as int) > u128::MAX {
            u128::MAX as int
        } else {
            sq_dev_sum(samples@, mean as int)
        },
{
    let n = samples.len();
    let mut acc: u128 = 0;
    let mut i: usize = 0;
    assert(samples@.subrange(0, 0) =~= Seq::<u64>::empty());
    while i < n
        invariant
            n == samples@.len(),
            i <= n,
            acc == if sq_dev_sum(samples@.subrange(0, i as int), mean as int) > u128::MAX {
                u128::MAX as int
            } else {
                sq_dev_sum(samples@.subrange(0, i as int), mean as int)
            },
        decreases n - i,
    {
        let x = samples[i];
        let d: u64 = if x >= mean {
            x - mean
        } else {
            mean - x
        };
        assert((d as u128) * (d as u128) <= 0xffff_ffff_ffff_ffffu128 * 0xffff_ffff_ffff_ffffu128)
            by (nonlinear_arith)
            requires
                d <= 0xffff_ffff_ffff_ffffu64,
        ;
        let sq = (d as u128) * (d as u128);
        proof {
            lemma_sq_dev_sum_prefix(samples@, mean as int, i as int);
            lemma_sq_dev_sum_nonneg(samples@.subrange(0, i as int), mean as int);
            assert((x - mean) * (x - mean) == d * d) by (nonlinear_arith)
                requires
                    d == x - mean || d == mean - x,
            ;
        }
        acc = acc.saturating_add(sq);
        i = i + 1;
    }
    assert(samples@.subrange(0, n as int) =~= samples@);
    acc
}

/// Sample standard deviation of `times` around `mean` (dividing by `n - 1`),
/// rounded down; zero for fewer than two samples.
pub fn calculate_std_dev(times: &[u64], mean: u64) -> (r: u64)
    ensures
        r == std_dev_of(times@, mean as int),
{
    if times.len() < 2 {
        return 0;
    }
    let total = saturating_sq_dev_sum(times, mean);
    let divisor = (times.len() - 1) as u128;
    integer_sqrt(total / divisor)
}

/// Arithmetic mean rounded down; zero for no samples.
pub fn mean(samples: &[u64]) -> (r: u64)
    ensures
        r == mean_of(samples@),
{
    if samples.len() == 0 {
        return 0;
    }
    let total = sum_of(samples);
    proof {
        lemma_seq_sum_bound(samples@);
        lemma_mean_fits(samples@);
    }
    (total / (samples.len() as u128)) as u64
}

/// Median of the samples: the middle element of the sorted samples (the
/// lower of the two middle ones for an even count); zero for no samples.
pub fn calculate_median(times: &[u64]) -> (r: u64)
    ensures
        times@.len() == 0 ==> r == 0,
        times@.len() > 0 ==> r == sorted_samples(times@)[(times@.len() as int - 1) / 2],
{
    if times.len() == 0 {
        return 0;
    }
    let sorted = sorted_copy(times);
    proof {
        lemma_sorted_len(times@);
    }
    sorted[(sorted.len() - 1) / 2]
}

proof fn lemma_sorted_len(s: Seq<u64>)
    ensures
        sorted_samples(s).len() == s.len(),
{
    lemma_ascending_total();
    s.lemma_sort_by_ensures(ascending());
    assert(s.to_multiset().len() == s.len());
    assert(sorted_samples(s).to_multiset().len() == sorted_samples(s).len());
}

/// Smallest sample (zero for none).
pub open spec fn min_of(s: Seq<u64>) -> u64 {
    if s.len() == 0 {
        0
    } else {
        sorted_samples(s)[0]
    }
}

/// Largest sample (zero for none).
pub open spec fn max_of(s: Seq<u64>) -> u64 {
    if s.len() == 0 {
        0
    } else {
        sorted_samples(s).last()
    }
}

/// Mean, minimum, maximum and standard deviation of a list of samples, all
/// zero for an empty list.
pub fn compute_stats(times: &[u64]) -> (r: (u64, u64, u64, u64))
    ensures
        r.0 == mean_of(times@),
        r.1 == min_of(times@),
        r.2 == max_of(times@),
        r.3 == std_dev_of(times@, mean_of(times@)),
{
    if times.len() == 0 {
        return (0, 0, 0, 0);
    }
    let sorted = sorted_copy(times);
    proof {
        lemma_sorted_len(times@);
    }
    let min = sorted[0];
    let max = sorted[sorted.len() - 1];
    let avg = mean(times);
    let std_dev = calculate_std_dev(times, avg);
    (avg, min, max, std_dev)
}

/// Mean, minimum, maximum and standard deviation of a batch of samples.
pub struct BenchStats {
    pub avg: u64,
    pub min: u64,
    pub max: u64,
    pub std_dev: u64,
}

impl BenchStats {
    /// Statistics of `times`, all zero when it is empty.
    pub fn from_samples(times: &[u64]) -> (r: BenchStats)
        ensures
            r.avg == mean_of(times@),
            r.min == min_of(times@),
            r.max == max_of(times@),
            r.std_dev == std_dev_of(times@, mean_of(times@)),
    {
        let (avg, min, max, std_dev) = compute_stats(times);
        BenchStats { avg, min, max, std_dev }
    }
}

/// Number of samples trimmed from each end when outlier filtering is on:
/// half a percent of the count, rounded up.
pub open spec fn trim_count(n: int) -> int {
    (n + 199) / 200
}

/// Window `[start, end)` of the sorted samples that statistics are computed
/// over. Without filtering, or with ten samples or fewer, it is everything.
/// Otherwise `trim_count(n)` samples go from each end, but never more than a
/// quarter of them from the low end, and at least one sample stays.
pub open spec fn trim_window(n: int, filter_outliers: bool) -> (int, int) {
    if filter_outliers && n > 10 {
        let t = trim_count(n);
        let start = if t < n / 4 {
            t
        } else {
            n / 4
        };
        let rest = if n >= t {
            n - t
        } else {
            0
        };
        let end = if rest >= start + 1 {
            rest
        } else {
            start + 1
        };
        (start, end)
    } else {
        (0, n)
    }
}

/// Computes the window of sorted samples kept by outlier trimming.
pub fn trim_bounds(n: usize, filter_outliers: bool) -> (r: (usize, usize))
    ensures
        r.0 as int == trim_window(n as int, filter_outliers).0,
        r.1 as int == trim_window(n as int, filter_outliers).1,
        n > 0 ==> r.0 < r.1 <= n,
{
    if filter_outliers && n > 10 {
        let t = n / 200 + if n % 200 == 0 {
            0
        } else {
            1
        };
        assert(t == (n + 199) / 200) by {
            vstd::arithmetic::div_mod::lemma_fundamental_div_mod(n as int, 200);
            vstd::arithmetic::div_mod::lemma_fundamental_div_mod(n + 199, 200);
        }
        let start = if t < n / 4 {
            t
        } else {
            n / 4
        };
        let end = if n.saturating_sub(t) >= start + 1 {
            n.saturating_sub(t)
        } else {
            start + 1
        };
        (start, end)
    } else {
        (0, n)
    }
}

/// Aggregate statistics of one variant's samples.
pub struct SummaryStats {
    pub avg: u64,
    pub median: u64,
    pub min: u64,
    pub max: u64,
    pub std_dev: u64,
}

/// The samples that statistics are computed over: the sorted samples, cut to
/// the trimming window.
pub open spec fn kept_samples(samples: Seq<u64>, filter_outliers: bool) -> Seq<u64> {
    let w = trim_window(samples.len() as int, filter_outliers);
    sorted_samples(samples).subrange(w.0, w.1)
}

/// What `aggregate` returns: all zero for no samples; otherwise, over the kept
/// samples, their mean (rounded down), their middle element (the lower of
/// the two middle ones for an even count), first, last, and
/// their sample standard deviation around that mean.
pub open spec fn summary_of(samples: Seq<u64>, filter_outliers: bool) -> SummaryStats {
    if samples.len() == 0 {
        SummaryStats { avg: 0, median: 0, min: 0, max: 0, std_dev: 0 }
    } else {
        let t = kept_samples(samples, filter_outliers);
        SummaryStats {
            avg: mean_of(t) as u64,
            median: t[(t.len() as int - 1) / 2],
            min: t[0],
            max: t.last(),
            std_dev: std_dev_of(t, mean_of(t)) as u64,
        }
    }
}

/// Converts raw samples into summary statistics, trimming outliers first when
/// `filter_outliers` is set.
pub fn aggregate(samples: &[u64], filter_outliers: bool) -> (r: SummaryStats)
    ensures
        r == summary_of(samples@, filter_outliers),
{
    if samples.len() == 0 {
        return SummaryStats { avg: 0, median: 0, min: 0, max: 0, std_dev: 0 };
    }
    let sorted = sorted_copy(samples);
    proof {
        lemma_sorted_len(samples@);
    }
    let (start, end) = trim_bounds(sorted.len(), filter_outliers);
    let kept = vstd::slice::slice_subrange(sorted.as_slice(), start, end);
    let n = kept.len();
    let avg = mean(kept);
    proof {
        lemma_seq_sum_bound(kept@);
        lemma_mean_fits(kept@);
    }
    let std_dev = calculate_std_dev(kept, avg);
    SummaryStats { avg, median: kept[(n - 1) / 2], min: kept[0], max: kept[n - 1], std_dev }
}

proof fn lemma_trim_window_symmetric(n: int)
    requires
        n > 10,
    ensures
        trim_window(n, true) == (trim_count(n), n - trim_count(n)),
        1 <= trim_count(n) <= n / 4,
{
    let t = trim_count(n);
    vstd::arithmetic::div_mod::lemma_fundamental_div_mod(n + 199, 200);
    vstd::arithmetic::div_mod::lemma_fundamental_div_mod(n, 4);
    vstd::arithmetic::div_mod::lemma_mod_pos_bound(n + 199, 200);
    vstd::arithmetic::div_mod::lemma_mod_pos_bound(n, 4);
}

/// No samples give all-zero statistics, with or without trimming.
pub proof fn lemma_empty_summary_is_zero(filter_outliers: bool)
    ensures
        summary_of(Seq::<u64>::empty(), filter_outliers) == (SummaryStats {
            avg: 0,
            median: 0,
            min: 0,
            max: 0,
            std_dev: 0,
        }),
{
}

/// Without the filter nothing is trimmed: the statistics are those of all
/// samples, and minimum and maximum are the extreme samples.
pub proof fn lemma_unfiltered_keeps_all(samples: Seq<u64>)
    requires
        samples.len() > 0,
    ensures
        kept_samples(samples, false) == sorted_samples(samples),
        summary_of(samples, false).min == min_of(samples),
        summary_of(samples, false).max == max_of(samples),
{
    lemma_sorted_len(samples);
    assert(sorted_samples(samples).subrange(0, samples.len() as int) =~= sorted_samples(samples));
}

/// With the filter on and more than ten samples, the `k = trim_count(n)`
/// smallest and `k` largest samples are dropped: the minimum becomes the
/// sorted sample at `k`, the maximum the one at `n - 1 - k`, both within the
/// untrimmed range, and the median stays exactly the untrimmed median.
pub proof fn lemma_outlier_trimming(samples: Seq<u64>)
    requires
        samples.len() > 10,
    ensures
        summary_of(samples, true).min == sorted_samples(samples)[trim_count(samples.len() as int)],
        summary_of(samples, true).max == sorted_samples(samples)[samples.len() - 1 - trim_count(
            samples.len() as int,
        )],
        summary_of(samples, true).min >= summary_of(samples, false).min,
        summary_of(samples, true).max <= summary_of(samples, false).max,
        summary_of(samples, true).median == summary_of(samples, false).median,
{
    let n = samples.len() as int;
    let t = trim_count(n);
    let sorted = sorted_samples(samples);
    lemma_sorted_len(samples);
    lemma_trim_window_symmetric(n);
    lemma_unfiltered_keeps_all(samples);
    lemma_ascending_total();
    samples.lemma_sort_by_ensures(ascending());
    assert(sorted_by(sorted, ascending()));
    assert(ascending()(sorted[0], sorted[t]));
    assert(ascending()(sorted[n - 1 - t], sorted[n - 1]));
    let kept = kept_samples(samples, true);
    assert(kept.len() == n - 2 * t);
    assert((n - 2 * t - 1) / 2 == (n - 1) / 2 - t) by {
        vstd::arithmetic::div_mod::lemma_fundamental_div_mod(n - 1, 2);
        vstd::arithmetic::div_mod::lemma_fundamental_div_mod(n - 2 * t - 1, 2);
        vstd::arithmetic::div_mod::lemma_mod_pos_bound(n - 1, 2);
        vstd::arithmetic::div_mod::lemma_mod_pos_bound(n - 2 * t - 1, 2);
    }
    assert(kept[(kept.len() as int - 1) / 2] == sorted[(n - 1) / 2]);
}

} // verus!
