//! The exact part of histogram binning: counting values into bins.
//!
//! Binning maps every finite value to the index `floor((v - min) / width)`
//! of its equal-width bin; that is floating-point work done by the renderer.
//! Counting the indices is exact and stands here ([`count_bins`]): an index
//! past the last bin (the maximum value lands exactly on the right edge) is
//! clamped into the last bin, so every value lands in exactly one bin.

use vstd::prelude::*;

verus! {

/// The bin a raw index lands in: itself, or the last bin when it is past it.
pub open spec fn clamp_bin(raw: int, num_bins: int) -> int {
    if raw < num_bins {
        raw
    } else {
        num_bins - 1
    }
}

/// The number of raw indices of `raw` that land in bin `b`.
pub open spec fn bin_count(raw: Seq<usize>, num_bins: int, b: int) -> nat
    decreases raw.len(),
{
    if raw.len() == 0 {
        0
    } else {
        bin_count(raw.drop_last(), num_bins, b) + if clamp_bin(raw.last() as int, num_bins) == b {
            1nat
        } else {
            0nat
        }
    }
}

/// The sum of a list of counts.
pub open spec fn sum_counts(s: Seq<usize>) -> int
    decreases s.len(),
{
    if s.len() == 0 {
        0
    } else {
        sum_counts(s.drop_last()) + s.last()
    }
}

/// Raising one count by one raises the sum by one.
proof fn lemma_sum_counts_increment(s: Seq<usize>, j: int, v: usize)
    requires
        0 <= j < s.len(),
        v == s[j] + 1,
    ensures
        sum_counts(s.update(j, v)) == sum_counts(s) + 1,
    decreases s.len(),
{
    let t = s.update(j, v);
    if j == s.len() - 1 {
        assert(t.drop_last() =~= s.drop_last());
    } else {
        lemma_sum_counts_increment(s.drop_last(), j, v);
        assert(t.drop_last() =~= s.drop_last().update(j, v));
    }
}

/// A bin holds no more values than there are.
proof fn lemma_bin_count_bound(raw: Seq<usize>, n: int, b: int)
    ensures
        bin_count(raw, n, b) <= raw.len(),
    decreases raw.len(),
{
    if raw.len() > 0 {
        lemma_bin_count_bound(raw.drop_last(), n, b);
    }
}

/// Counts raw bin indices into `num_bins` bins, clamping indices past the
/// last bin into it. Every index lands in exactly one bin, so the counts sum
/// to the number of indices.
pub fn count_bins(raw: &Vec<usize>, num_bins: usize) -> (counts: Vec<usize>)
    requires
        num_bins > 0,
    ensures
        counts@.len() == num_bins,
        forall|b: int| 0 <= b < num_bins ==> #[trigger] counts@[b] == bin_count(raw@, num_bins as int, b),
        sum_counts(counts@) == raw@.len(),
{
    let mut counts: Vec<usize> = Vec::new();
    let mut k: usize = 0;
    while k < num_bins
        invariant
            k <= num_bins,
            counts@.len() == k,
            forall|b: int| 0 <= b < k ==> #[trigger] counts@[b] == 0,
            sum_counts(counts@) == 0,
        decreases num_bins - k,
    {
        let ghost before = counts@;
        counts.push(0);
        assert(counts@.drop_last() =~= before);
        k = k + 1;
    }
    let n = raw.len();
    let mut i: usize = 0;
    while i < n
        invariant
            i <= n,
            n == raw@.len(),
            num_bins > 0,
            counts@.len() == num_bins,
            forall|b: int| 0 <= b < num_bins ==> #[trigger] counts@[b] == bin_count(
                raw@.take(i as int),
                num_bins as int,
                b,
            ),
            sum_counts(counts@) == i,
        decreases n - i,
    {
        let r = raw[i];
        let bin = if r < num_bins { r } else { num_bins - 1 };
        let ghost before = raw@.take(i as int);
        let ghost after = raw@.take(i + 1);
        assert(after.drop_last() =~= before);
        proof {
            lemma_bin_count_bound(before, num_bins as int, bin as int);
        }
        let ghost old_counts = counts@;
        let c = counts[bin];
        counts.set(bin, c + 1);
        proof {
            lemma_sum_counts_increment(old_counts, bin as int, (c + 1) as usize);
        }
        i = i + 1;
    }
    assert(raw@.take(n as int) =~= raw@);
    counts
}

} // verus!
