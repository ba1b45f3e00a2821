//! Downsampling of large line and scatter series.
//!
//! Both algorithms split the points between the first and the last into
//! buckets of nearly equal size and keep a few points of each bucket: LTTB
//! keeps the point of largest triangle area, min-max keeps the lowest and
//! highest. Choosing points compares floating-point coordinates and happens
//! beside the renderer; the bucketing is exact and stands here.

use vstd::prelude::*;

verus! {

/// The decimation strategy to apply when rendering a line.
#[derive(Debug, Clone, Copy, PartialEq, Eq, Structural)]
pub enum DecimateMethod {
    /// Largest Triangle Three Buckets algorithm (best visual fidelity).
    Lttb,
    /// Min-max decimation (fastest, preserves extremes).
    MinMax,
}

/// How a series is decimated before drawing.
#[derive(Debug, Clone, Copy, PartialEq, Eq, Structural)]
pub enum DecimateMode {
    /// Decimate with LTTB to [`DEFAULT_DECIMATE_THRESHOLD`] points when the
    /// series is longer than that.
    Auto,
    /// Decimate with the given method to the given number of points.
    Explicit(usize, DecimateMethod),
    /// Draw every point.
    Off,
}

/// The number of points above which automatic decimation kicks in.
pub const DEFAULT_DECIMATE_THRESHOLD: usize = 5000;

/// The first position of bucket `i` of `count` buckets over `interior`
/// points that follow position 0.
pub open spec fn bucket_start(i: int, count: int, interior: int) -> int {
    1 + (i * interior) / count
}

/// Returns the half-open range of positions `[start, end)` of bucket
/// `bucket_i` when `interior` points (positions `1..=interior`) are split
/// into `bucket_count` buckets of nearly equal size.
pub fn bucket_bounds(bucket_i: usize, bucket_count: usize, interior: usize) -> (r: (usize, usize))
    requires
        bucket_i < bucket_count,
        bucket_count * interior < usize::MAX,
    ensures
        r.0 == bucket_start(bucket_i as int, bucket_count as int, interior as int),
        r.1 == bucket_start(bucket_i + 1, bucket_count as int, interior as int),
{
    proof {
        let (i, c, m) = (bucket_i as int, bucket_count as int, interior as int);
        assert(i * m <= (i + 1) * m <= c * m) by (nonlinear_arith)
            requires
                0 <= i < c,
                0 <= m,
        ;
        assert((i + 1) * m / c <= (i + 1) * m) by (nonlinear_arith)
            requires
                c >= 1,
                (i + 1) * m >= 0,
        ;
        assert(i * m / c <= i * m) by (nonlinear_arith)
            requires
                c >= 1,
                i * m >= 0,
        ;
    }
    let start = 1 + (bucket_i * interior) / bucket_count;
    let end = 1 + ((bucket_i + 1) * interior) / bucket_count;
    (start, end)
}

/// The buckets tile the interior: bucket 0 starts right after the first
/// point, each bucket ends where the next one starts, no bucket runs
/// backwards, and the last bucket ends right before the last point.
pub proof fn lemma_buckets_tile(count: int, interior: int)
    requires
        count > 0,
        interior >= 0,
    ensures
        bucket_start(0, count, interior) == 1,
        bucket_start(count, count, interior) == 1 + interior,
        forall|i: int| 0 <= i < count ==> #[trigger] bucket_start(i, count, interior)
            <= bucket_start(i + 1, count, interior),
        forall|i: int| 0 <= i <= count ==> 1 <= #[trigger] bucket_start(i, count, interior) <= 1 + interior,
{
    assert(0 * interior == 0);
    vstd::arithmetic::div_mod::lemma_div_basics(count);
    vstd::arithmetic::mul::lemma_mul_is_commutative(count, interior);
    vstd::arithmetic::div_mod::lemma_div_multiples_vanish(interior, count);
    assert forall|i: int| 0 <= i < count implies #[trigger] bucket_start(i, count, interior)
        <= bucket_start(i + 1, count, interior) by {
        vstd::arithmetic::mul::lemma_mul_inequality(i, i + 1, interior);
        vstd::arithmetic::div_mod::lemma_div_is_ordered(i * interior, (i + 1) * interior, count);
    }
    assert forall|i: int| 0 <= i <= count implies 1 <= #[trigger] bucket_start(i, count, interior) <= 1 + interior by {
        vstd::arithmetic::mul::lemma_mul_inequality(i, count, interior);
        vstd::arithmetic::mul::lemma_mul_nonnegative(i, interior);
        vstd::arithmetic::div_mod::lemma_div_is_ordered(i * interior, count * interior, count);
        vstd::arithmetic::div_mod::lemma_div_is_ordered(0, i * interior, count);
    }
}

/// Each bucket holds at least one point when there are at least as many
/// interior points as buckets.
proof fn lemma_bucket_nonempty(i: int, count: int, interior: int)
    requires
        0 <= i < count,
        count <= interior,
    ensures
        bucket_start(i, count, interior) < bucket_start(i + 1, count, interior),
{
    let a = i * interior;
    assert((i + 1) * interior == a + interior) by (nonlinear_arith)
        requires
            a == i * interior,
    ;
    assert(a >= 0) by (nonlinear_arith)
        requires
            i >= 0,
            interior >= 0,
            a == i * interior,
    ;
    vstd::arithmetic::div_mod::lemma_fundamental_div_mod(a, count);
    vstd::arithmetic::div_mod::lemma_mod_pos_bound(a, count);
    let q = a / count;
    assert(count * (q + 1) == count * q + count) by (nonlinear_arith);
    vstd::arithmetic::div_mod::lemma_div_is_ordered(count * (q + 1), a + interior, count);
    vstd::arithmetic::div_mod::lemma_div_multiples_vanish(q + 1, count);
}

/// The positions `i` with `finite[i]`, in increasing order: the points that
/// decimation considers.
pub open spec fn finite_positions(finite: Seq<bool>) -> Seq<int>
    decreases finite.len(),
{
    if finite.len() == 0 {
        Seq::empty()
    } else {
        let prev = finite_positions(finite.drop_last());
        if finite.last() {
            prev.push(finite.len() - 1)
        } else {
            prev
        }
    }
}

/// The finite positions are in range, finite, and strictly increasing.
proof fn lemma_finite_positions(finite: Seq<bool>)
    ensures
        finite_positions(finite).len() <= finite.len(),
        forall|k: int|
            0 <= k < finite_positions(finite).len() ==> 0 <= #[trigger] finite_positions(finite)[k]
                < finite.len() && finite[finite_positions(finite)[k]],
        forall|a: int, b: int|
            0 <= a < b < finite_positions(finite).len() ==> #[trigger] finite_positions(finite)[a]
                < #[trigger] finite_positions(finite)[b],
    decreases finite.len(),
{
    if finite.len() > 0 {
        let d = finite.drop_last();
        lemma_finite_positions(d);
        assert forall|k: int| 0 <= k < d.len() implies d[k] == finite[k] by {}
    }
}

/// Returns the indices `i` with `finite[i]`, in increasing order.
pub fn finite_indices(finite: &Vec<bool>) -> (v: Vec<usize>)
    ensures
        v@.len() == finite_positions(finite@).len(),
        forall|k: int| 0 <= k < v@.len() ==> v@[k] as int == #[trigger] finite_positions(finite@)[k],
{
    let mut v: Vec<usize> = Vec::new();
    let mut i: usize = 0;
    while i < finite.len()
        invariant
            i <= finite@.len(),
            v@.len() == finite_positions(finite@.take(i as int)).len(),
            forall|k: int|
                0 <= k < v@.len() ==> v@[k] as int == #[trigger] finite_positions(
                    finite@.take(i as int),
                )[k],
        decreases finite@.len() - i,
    {
        assert(finite@.take(i as int + 1).drop_last() =~= finite@.take(i as int));
        if finite[i] {
            v.push(i);
        }
        i = i + 1;
    }
    assert(finite@.take(finite@.len() as int) =~= finite@);
    v
}

/// Position `p` lies in bucket `i` of `count` buckets over `interior` points.
pub open spec fn in_bucket(p: int, i: int, count: int, interior: int) -> bool {
    bucket_start(i, count, interior) <= p < bucket_start(i + 1, count, interior)
}

/// `r[k]` is one of the points `v` of bucket `k - 1`, when the points
/// between the first and the last of `v` are split into `threshold - 2`
/// buckets.
pub open spec fn kept_from_bucket(r: Seq<usize>, v: Seq<int>, k: int, threshold: int) -> bool {
    exists|p: int|
        #![trigger v[p]]
        in_bucket(p, k - 1, threshold - 2, v.len() - 2) && r[k] == v[p]
}

/// `r` keeps `threshold` of the points `v`: the first, then one point of
/// each of the `threshold - 2` buckets in turn, then the last.
pub open spec fn is_bucket_selection(r: Seq<usize>, v: Seq<int>, threshold: int) -> bool {
    &&& r.len() == threshold
    &&& r[0] == v[0]
    &&& r[threshold - 1] == v[v.len() - 1]
    &&& forall|k: int| 1 <= k < threshold - 1 ==> #[trigger] kept_from_bucket(r, v, k, threshold)
}

/// The result of decimating the finite points `v` to `threshold` points:
/// nothing when there are none, all of them when they do not exceed the
/// threshold, and a bucket selection otherwise.
pub open spec fn is_decimation_of(r: Seq<usize>, v: Seq<int>, threshold: int) -> bool {
    if v.len() == 0 {
        r.len() == 0
    } else if threshold >= v.len() {
        r.len() == v.len() && forall|k: int| 0 <= k < r.len() ==> r[k] == #[trigger] v[k]
    } else {
        is_bucket_selection(r, v, threshold)
    }
}

/// The bucket arithmetic of decimating `finite` to `threshold` points does
/// not overflow.
pub open spec fn decimation_fits(finite: Seq<bool>, threshold: int) -> bool {
    let vn = finite_positions(finite).len();
    2 <= threshold < vn ==> (threshold - 2) * (vn - 2) < usize::MAX
}

/// The range of positions LTTB averages after bucket `i` of `count`: the
/// next bucket, or the last point after the last bucket (`vn` points).
pub open spec fn next_bucket(i: int, count: int, vn: int) -> (int, int) {
    if i + 1 < count {
        (bucket_start(i + 1, count, vn - 2), bucket_start(i + 2, count, vn - 2))
    } else {
        (vn - 1, vn)
    }
}

/// The range LTTB averages after bucket `i` is the bucket that follows it,
/// `1 + (i + 1) * interior / count .. 1 + (i + 2) * interior / count`, so
/// it starts where bucket `i` ends and ends where bucket `i + 1` ends; after
/// the last bucket it is the last point alone.
pub proof fn lemma_next_bucket_follows(i: int, count: int, vn: int)
    requires
        0 <= i < count,
        count <= vn - 2,
    ensures
        i + 1 < count ==> next_bucket(i, count, vn) == (
            1 + ((i + 1) * (vn - 2)) / count,
            1 + ((i + 2) * (vn - 2)) / count,
        ),
        i + 1 < count ==> next_bucket(i, count, vn).0 == bucket_start(i + 1, count, vn - 2)
            && next_bucket(i, count, vn).1 == bucket_start(i + 2, count, vn - 2),
        i + 1 < count ==> next_bucket(i, count, vn).0 < next_bucket(i, count, vn).1,
        i + 1 == count ==> next_bucket(i, count, vn) == (vn - 1, vn),
{
    if i + 1 < count {
        lemma_bucket_nonempty(i + 1, count, vn - 2);
    }
}

/// Position `pos[k]` is what `pick` chose for bucket `k - 1`, handed that
/// bucket's range, the next range and the position chosen before, `pos[k - 1]`.
pub open spec fn lttb_choice<F: Fn(usize, usize, usize, usize, usize) -> usize>(
    pick: F,
    vn: int,
    threshold: int,
    pos: Seq<int>,
    k: int,
) -> bool {
    call_ensures(
        pick,
        (
            bucket_start(k - 1, threshold - 2, vn - 2) as usize,
            bucket_start(k, threshold - 2, vn - 2) as usize,
            next_bucket(k - 1, threshold - 2, vn).0 as usize,
            next_bucket(k - 1, threshold - 2, vn).1 as usize,
            pos[k - 1] as usize,
        ),
        pos[k] as usize,
    )
}

/// `pos` are the positions LTTB keeps among `vn` points: the first, one
/// chosen by `pick` for each bucket in turn, and the last.
pub open spec fn lttb_choices<F: Fn(usize, usize, usize, usize, usize) -> usize>(
    pick: F,
    vn: int,
    threshold: int,
    pos: Seq<int>,
) -> bool {
    &&& pos.len() == threshold
    &&& pos[0] == 0
    &&& pos[threshold - 1] == vn - 1
    &&& forall|k: int| 0 <= k < threshold ==> 0 <= #[trigger] pos[k] < vn
    &&& forall|k: int| 1 <= k < threshold - 1 ==> #[trigger] lttb_choice(pick, vn, threshold, pos, k)
}

/// A sequence that keeps the first and the last point and, between them,
/// one point of each bucket in turn is a bucket selection.
proof fn lemma_bucket_selection(r: Seq<usize>, v: Seq<int>, pos: Seq<int>, threshold: int)
    requires
        2 <= threshold < v.len(),
        r.len() == threshold,
        pos.len() == threshold,
        pos[0] == 0,
        pos[threshold - 1] == v.len() - 1,
        forall|k: int| 0 <= k < threshold ==> r[k] == v[#[trigger] pos[k]],
        forall|k: int|
            1 <= k < threshold - 1 ==> in_bucket(#[trigger] pos[k], k - 1, threshold - 2, v.len() - 2),
    ensures
        is_bucket_selection(r, v, threshold),
{
    assert(r[0] == v[pos[0]]);
    assert(r[threshold - 1] == v[pos[threshold - 1]]);
    assert forall|k: int| 1 <= k < threshold - 1 implies #[trigger] kept_from_bucket(
        r,
        v,
        k,
        threshold,
    ) by {
        assert(in_bucket(pos[k], k - 1, threshold - 2, v.len() - 2));
        assert(r[k] == v[pos[k]]);
    }
}

/// The indices `0..n`.
fn all_indices(n: usize) -> (r: Vec<usize>)
    ensures
        r@.len() == n,
        forall|k: int| 0 <= k < n ==> r@[k] == k,
{
    let mut r: Vec<usize> = Vec::new();
    let mut i: usize = 0;
    while i < n
        invariant
            i <= n,
            r@.len() == i,
            forall|k: int| 0 <= k < i ==> r@[k] == k,
        decreases n - i,
    {
        r.push(i);
        i = i + 1;
    }
    r
}

/// Selects the indices that Largest Triangle Three Buckets keeps when a
/// series of `finite.len()` points is downsampled to `threshold` points;
/// `finite[i]` tells whether point `i` has finite coordinates.
///
/// Without decimation (`threshold` at least the number of points) every
/// index is kept; a threshold of 0 keeps nothing and 1 keeps index 0.
/// Otherwise the finite points are considered: the first and the last are
/// always kept, and the `threshold - 2` points in between are split into
/// buckets of nearly equal size, of which one point each is kept.
/// `pick(start, end, next_start, next_end, prev)` chooses that point: a
/// position in `start..end` of the finite points, given the next bucket's
/// range and the position kept last (LTTB keeps the point that forms the
/// largest triangle with those).
#[verifier::spinoff_prover]
#[verifier::rlimit(40)]
pub fn lttb_indices<F>(finite: &Vec<bool>, threshold: usize, pick: F) -> (r: Vec<usize>) where
    F: Fn(usize, usize, usize, usize, usize) -> usize,

    requires
        forall|s: usize, e: usize, ns: usize, ne: usize, prev: usize|
            s < e ==> #[trigger] call_requires(pick, (s, e, ns, ne, prev)),
        forall|s: usize, e: usize, ns: usize, ne: usize, prev: usize, p: usize|
            s < e && #[trigger] call_ensures(pick, (s, e, ns, ne, prev), p) ==> s <= p < e,
        decimation_fits(finite@, threshold as int),
    ensures
        threshold == 0 || finite@.len() == 0 ==> r@.len() == 0,
        threshold == 1 && finite@.len() > 0 ==> r@ == seq![0usize],
        2 <= threshold && finite@.len() <= threshold ==> r@.len() == finite@.len() && forall|k: int|
            0 <= k < r@.len() ==> r@[k] == k,
        2 <= threshold < finite@.len() ==> is_decimation_of(
            r@,
            finite_positions(finite@),
            threshold as int,
        ),
        2 <= threshold < finite_positions(finite@).len() ==> exists|pos: Seq<int>|
            lttb_choices(pick, finite_positions(finite@).len() as int, threshold as int, pos)
                && forall|k: int| 0 <= k < threshold ==> r@[k] == finite_positions(finite@)[#[trigger] pos[k]],
        2 <= threshold < finite@.len() ==> forall|k: int|
            0 <= k < r@.len() ==> finite@[#[trigger] r@[k] as int],
        forall|k: int| 0 <= k < r@.len() ==> #[trigger] r@[k] < finite@.len(),
        forall|a: int, b: int| 0 <= a < b < r@.len() ==> #[trigger] r@[a] < #[trigger] r@[b],
{
    proof {
        lemma_finite_positions(finite@);
    }
    let n = finite.len();
    if threshold == 0 || n == 0 {
        return Vec::new();
    }
    if threshold == 1 {
        let mut r: Vec<usize> = Vec::new();
        r.push(0);
        return r;
    }
    if threshold >= n {
        return all_indices(n);
    }
    let valid = finite_indices(finite);
    let ghost v = finite_positions(finite@);
    let valid_n = valid.len();
    if valid_n == 0 {
        return Vec::new();
    }
    if threshold >= valid_n {
        assert forall|k: int| 0 <= k < valid@.len() implies finite@[#[trigger] valid@[k] as int]
            && valid@[k] < finite@.len() by {
            assert(valid@[k] as int == v[k]);
        }
        assert forall|a: int, b: int| 0 <= a < b < valid@.len() implies #[trigger] valid@[a]
            < #[trigger] valid@[b] by {
            assert(v[a] < v[b]);
        }
        return valid;
    }
    let mut selected: Vec<usize> = Vec::new();
    selected.push(valid[0]);
    let bucket_count = threshold - 2;
    let interior = valid_n - 2;
    let mut prev: usize = 0;
    let ghost mut pos: Seq<int> = seq![0int];
    let mut bucket_i: usize = 0;
    assert(bucket_count > 0 ==> bucket_start(0, bucket_count as int, interior as int) == 1) by {
        assert(0 * (interior as int) == 0);
    }
    while bucket_i < bucket_count
        invariant
            forall|s: usize, e: usize, ns: usize, ne: usize, prev: usize|
                s < e ==> #[trigger] call_requires(pick, (s, e, ns, ne, prev)),
            forall|s: usize, e: usize, ns: usize, ne: usize, prev: usize, p: usize|
                s < e && #[trigger] call_ensures(pick, (s, e, ns, ne, prev), p) ==> s <= p < e,
            v == finite_positions(finite@),
            valid@.len() == valid_n == v.len(),
            forall|k: int| 0 <= k < valid_n ==> valid@[k] as int == #[trigger] v[k],
            forall|a: int, b: int| 0 <= a < b < v.len() ==> #[trigger] v[a] < #[trigger] v[b],
            forall|k: int| 0 <= k < v.len() ==> 0 <= #[trigger] v[k] < finite@.len(),
            2 <= threshold < valid_n,
            bucket_count == threshold - 2,
            interior == valid_n - 2,
            bucket_count * interior < usize::MAX,
            bucket_i <= bucket_count,
            selected@.len() == bucket_i + 1,
            pos.len() == bucket_i + 1,
            pos[0] == 0,
            prev == pos.last(),
            bucket_count > 0 ==> pos.last() < bucket_start(
                bucket_i as int,
                bucket_count as int,
                interior as int,
            ),
            forall|k: int| 0 <= k < pos.len() ==> 0 <= #[trigger] pos[k] < valid_n - 1,
            forall|k: int| 0 <= k < pos.len() ==> selected@[k] == v[#[trigger] pos[k]],
            forall|k: int|
                1 <= k < pos.len() ==> in_bucket(#[trigger] pos[k], k - 1, bucket_count as int, interior as int),
            forall|a: int, b: int| 0 <= a < b < pos.len() ==> #[trigger] pos[a] < #[trigger] pos[b],
            forall|k: int|
                1 <= k < pos.len() ==> #[trigger] lttb_choice(pick, valid_n as int, threshold as int, pos, k),
        decreases bucket_count - bucket_i,
    {
        let (s, e) = bucket_bounds(bucket_i, bucket_count, interior);
        let (ns, ne) = if bucket_i + 1 < bucket_count {
            bucket_bounds(bucket_i + 1, bucket_count, interior)
        } else {
            (valid_n - 1, valid_n)
        };
        proof {
            lemma_bucket_nonempty(bucket_i as int, bucket_count as int, interior as int);
            lemma_buckets_tile(bucket_count as int, interior as int);
        }
        let best = pick(s, e, ns, ne, prev);
        selected.push(valid[best]);
        proof {
            let ghost old_pos = pos;
            pos = pos.push(best as int);
            assert forall|k: int| 1 <= k < pos.len() implies #[trigger] lttb_choice(
                pick,
                valid_n as int,
                threshold as int,
                pos,
                k,
            ) by {
                if k < old_pos.len() {
                    assert(lttb_choice(pick, valid_n as int, threshold as int, old_pos, k));
                    assert(pos[k] == old_pos[k] && pos[k - 1] == old_pos[k - 1]);
                } else {
                    assert(pos[k - 1] == prev);
                }
            }
        }
        prev = best;
        bucket_i = bucket_i + 1;
    }
    let ghost old_pos = pos;
    let ghost old_sel = selected@;
    selected.push(valid[valid_n - 1]);
    proof {
        if bucket_count > 0 {
            lemma_buckets_tile(bucket_count as int, interior as int);
        }
        pos = old_pos.push(valid_n - 1);
        assert forall|k: int| 0 <= k < pos.len() implies selected@[k] == v[#[trigger] pos[k]] by {
            if k < old_pos.len() {
                assert(selected@[k] == old_sel[k]);
            }
        }
        assert forall|a: int, b: int| 0 <= a < b < pos.len() implies #[trigger] pos[a]
            < #[trigger] pos[b] by {
            if b < old_pos.len() {
                assert(old_pos[a] < old_pos[b]);
            } else {
                assert(old_pos[a] < valid_n - 1);
            }
        }
        assert forall|a: int, b: int| 0 <= a < b < selected@.len() implies #[trigger] selected@[a]
            < #[trigger] selected@[b] by {
            assert(pos[a] < pos[b]);
            assert(selected@[a] == v[pos[a]]);
            assert(selected@[b] == v[pos[b]]);
        }
        assert forall|k: int| 0 <= k < selected@.len() implies finite@[#[trigger] selected@[k] as int]
            && selected@[k] < finite@.len() by {
            assert(selected@[k] == v[pos[k]]);
        }
        assert(pos[threshold - 1] == valid_n - 1);
        assert forall|k: int| 1 <= k < threshold - 1 implies in_bucket(
            #[trigger] pos[k],
            k - 1,
            threshold - 2,
            v.len() - 2,
        ) by {
            assert(pos[k] == old_pos[k]);
        }
        lemma_bucket_selection(selected@, v, pos, threshold as int);
        assert forall|k: int| 1 <= k < threshold - 1 implies #[trigger] lttb_choice(
            pick,
            valid_n as int,
            threshold as int,
            pos,
            k,
        ) by {
            assert(lttb_choice(pick, valid_n as int, threshold as int, old_pos, k));
            assert(pos[k] == old_pos[k] && pos[k - 1] == old_pos[k - 1]);
        }
        assert(lttb_choices(pick, valid_n as int, threshold as int, pos));
    }
    selected
}

/// The number of buckets min-max decimation uses for `threshold` points:
/// each bucket keeps up to two points, and there is at least one bucket.
pub open spec fn minmax_bucket_count(threshold: int) -> int {
    if (threshold - 2) / 2 == 0 {
        1
    } else {
        (threshold - 2) / 2
    }
}

/// Min-max decimation uses the largest number of buckets whose two points
/// each, with the first and the last point, fit in the threshold (one
/// bucket below a threshold of 4): `2 + 2 * count <= threshold < 4 + 2 * count`.
pub proof fn lemma_minmax_bucket_count(threshold: int)
    requires
        threshold >= 2,
    ensures
        minmax_bucket_count(threshold) >= 1,
        threshold < 4 ==> minmax_bucket_count(threshold) == 1,
        threshold >= 4 ==> 2 + 2 * minmax_bucket_count(threshold) <= threshold < 4 + 2
            * minmax_bucket_count(threshold),
{
}

/// Some position of `pos` lies in bucket `i`.
pub open spec fn bucket_covered(pos: Seq<int>, i: int, count: int, interior: int) -> bool {
    exists|k: int| 0 <= k < pos.len() && #[trigger] in_bucket(pos[k], i, count, interior)
}

/// `r[k]` is one of the points of `v` strictly between the first and the last.
pub open spec fn is_interior_point(r: Seq<usize>, v: Seq<int>, k: int) -> bool {
    exists|p: int| #![trigger v[p]] 1 <= p < v.len() - 1 && r[k] == v[p]
}

/// Some point of `r` is one of the points of `v` in bucket `i` of `count`.
pub open spec fn bucket_kept(r: Seq<usize>, v: Seq<int>, i: int, count: int) -> bool {
    exists|k: int, p: int|
        #![trigger r[k], v[p]]
        0 <= k < r.len() && in_bucket(p, i, count, v.len() - 2) && r[k] == v[p]
}

/// `r` keeps the first and the last of the points `v` and, in between, one
/// or two interior points of each of `count` buckets (at least one from
/// every bucket).
pub open spec fn is_minmax_selection(r: Seq<usize>, v: Seq<int>, count: int) -> bool {
    &&& 2 + count <= r.len() <= 2 + 2 * count
    &&& r[0] == v[0]
    &&& r[r.len() - 1] == v[v.len() - 1]
    &&& forall|k: int| 1 <= k < r.len() - 1 ==> #[trigger] is_interior_point(r, v, k)
    &&& forall|i: int| 0 <= i < count ==> #[trigger] bucket_kept(r, v, i, count)
}

/// The positions kept of a bucket whose lowest and highest points are at
/// `m`: both in order, or one when they coincide.
pub open spec fn extremes_kept(m: (usize, usize)) -> Seq<int> {
    if m.0 == m.1 {
        seq![m.0 as int]
    } else if m.0 < m.1 {
        seq![m.0 as int, m.1 as int]
    } else {
        seq![m.1 as int, m.0 as int]
    }
}

/// The positions kept of the buckets whose extremes are `ms`, bucket by bucket.
pub open spec fn minmax_positions(ms: Seq<(usize, usize)>) -> Seq<int>
    decreases ms.len(),
{
    if ms.len() == 0 {
        seq![]
    } else {
        minmax_positions(ms.drop_last()) + extremes_kept(ms.last())
    }
}

/// `ms[i]` is what `extremes` gave for bucket `i` of `count` over the
/// `vn - 2` points between the first and the last of `vn`.
pub open spec fn minmax_choice<F: Fn(usize, usize) -> (usize, usize)>(
    extremes: F,
    vn: int,
    count: int,
    ms: Seq<(usize, usize)>,
    i: int,
) -> bool {
    call_ensures(
        extremes,
        (bucket_start(i, count, vn - 2) as usize, bucket_start(i + 1, count, vn - 2) as usize),
        ms[i],
    )
}

/// `r` keeps, of the points `v`, the first, then the extremes `ms[i]` that
/// `extremes` gave for each of the `count` buckets in turn, then the last.
pub open spec fn is_minmax_result<F: Fn(usize, usize) -> (usize, usize)>(
    r: Seq<usize>,
    v: Seq<int>,
    extremes: F,
    count: int,
    ms: Seq<(usize, usize)>,
) -> bool {
    &&& ms.len() == count
    &&& forall|i: int| 0 <= i < count ==> #[trigger] minmax_choice(extremes, v.len() as int, count, ms, i)
    &&& r.len() == minmax_positions(ms).len() + 2
    &&& forall|k: int|
        0 <= k < r.len() ==> #[trigger] r[k] == v[(seq![0int] + minmax_positions(ms) + seq![v.len() - 1])[k]]
}

/// A sequence that keeps the first and the last point, interior points in
/// between and a point of every bucket is a min-max selection.
proof fn lemma_minmax_selection(r: Seq<usize>, v: Seq<int>, pos: Seq<int>, count: int)
    requires
        count >= 1,
        2 + count <= pos.len() <= 2 + 2 * count,
        r.len() == pos.len(),
        pos[0] == 0,
        pos[pos.len() - 1] == v.len() - 1,
        forall|k: int| 0 <= k < pos.len() ==> r[k] == v[#[trigger] pos[k]],
        forall|k: int| 1 <= k < pos.len() - 1 ==> 1 <= #[trigger] pos[k] < v.len() - 1,
        forall|i: int| 0 <= i < count ==> #[trigger] bucket_covered(pos, i, count, v.len() - 2),
    ensures
        is_minmax_selection(r, v, count),
{
    assert(r[0] == v[pos[0]]);
    assert(r[r.len() - 1] == v[pos[pos.len() - 1]]);
    assert forall|k: int| 1 <= k < r.len() - 1 implies #[trigger] is_interior_point(r, v, k) by {
        assert(r[k] == v[pos[k]]);
    }
    assert forall|i: int| 0 <= i < count implies #[trigger] bucket_kept(r, v, i, count) by {
        assert(bucket_covered(pos, i, count, v.len() - 2));
        let k = choose|k: int|
            0 <= k < pos.len() && #[trigger] in_bucket(pos[k], i, count, v.len() - 2);
        assert(r[k] == v[pos[k]]);
    }
}

/// Selects the indices that min-max decimation keeps when a series of
/// `finite.len()` points is downsampled to about `threshold` points;
/// `finite[i]` tells whether point `i` has finite coordinates.
///
/// The cases without decimation are those of [`lttb_indices`]. Otherwise
/// the first and the last finite points are kept, and the finite points
/// between them are split into `max(1, (threshold - 2) / 2)` buckets.
/// `extremes(start, end)` gives the positions of the lowest and the highest
/// point of a bucket (a range of positions of the finite points); both are
/// kept, in their original order, or one of them when they coincide.
#[verifier::spinoff_prover]
#[verifier::rlimit(40)]
pub fn minmax_indices<F>(finite: &Vec<bool>, threshold: usize, extremes: F) -> (r: Vec<usize>) where
    F: Fn(usize, usize) -> (usize, usize),

    requires
        forall|s: usize, e: usize| s < e ==> #[trigger] call_requires(extremes, (s, e)),
        forall|s: usize, e: usize, m: (usize, usize)|
            s < e && #[trigger] call_ensures(extremes, (s, e), m) ==> s <= m.0 < e && s <= m.1 < e,
        decimation_fits(finite@, threshold as int),
    ensures
        threshold == 0 || finite@.len() == 0 ==> r@.len() == 0,
        threshold == 1 && finite@.len() > 0 ==> r@ == seq![0usize],
        2 <= threshold && finite@.len() <= threshold ==> r@.len() == finite@.len() && forall|k: int|
            0 <= k < r@.len() ==> r@[k] == k,
        2 <= threshold < finite@.len() && finite_positions(finite@).len() <= threshold
            ==> is_decimation_of(r@, finite_positions(finite@), threshold as int),
        2 <= threshold < finite_positions(finite@).len() ==> is_minmax_selection(
            r@,
            finite_positions(finite@),
            minmax_bucket_count(threshold as int),
        ),
        4 <= threshold < finite@.len() ==> r@.len() <= threshold,
        2 <= threshold < finite_positions(finite@).len() ==> exists|ms: Seq<(usize, usize)>|
            #[trigger] is_minmax_result(
                r@,
                finite_positions(finite@),
                extremes,
                minmax_bucket_count(threshold as int),
                ms,
            ),
        2 <= threshold < finite@.len() ==> forall|k: int|
            0 <= k < r@.len() ==> finite@[#[trigger] r@[k] as int],
        forall|k: int| 0 <= k < r@.len() ==> #[trigger] r@[k] < finite@.len(),
        forall|a: int, b: int| 0 <= a < b < r@.len() ==> #[trigger] r@[a] < #[trigger] r@[b],
{
    proof {
        lemma_finite_positions(finite@);
    }
    let n = finite.len();
    if threshold == 0 || n == 0 {
        return Vec::new();
    }
    if threshold == 1 {
        let mut r: Vec<usize> = Vec::new();
        r.push(0);
        return r;
    }
    if threshold >= n {
        return all_indices(n);
    }
    let valid = finite_indices(finite);
    let ghost v = finite_positions(finite@);
    let valid_n = valid.len();
    if valid_n == 0 {
        return Vec::new();
    }
    if threshold >= valid_n {
        assert forall|k: int| 0 <= k < valid@.len() implies finite@[#[trigger] valid@[k] as int]
            && valid@[k] < finite@.len() by {
            assert(valid@[k] as int == v[k]);
        }
        assert forall|a: int, b: int| 0 <= a < b < valid@.len() implies #[trigger] valid@[a]
            < #[trigger] valid@[b] by {
            assert(v[a] < v[b]);
        }
        return valid;
    }
    let mut selected: Vec<usize> = Vec::new();
    selected.push(valid[0]);
    let pairs = (threshold - 2) / 2;
    let bucket_count = if pairs == 0 {
        1
    } else {
        pairs
    };
    let interior = valid_n - 2;
    assert(bucket_count * interior < usize::MAX) by (nonlinear_arith)
        requires
            threshold >= 3 ==> (threshold - 2) * interior < usize::MAX,
            threshold == 2 ==> bucket_count == 1,
            threshold >= 3 ==> 1 <= bucket_count <= threshold - 2,
            interior < usize::MAX,
            threshold >= 2,
    ;
    let ghost mut pos: Seq<int> = seq![0int];
    let ghost mut ms: Seq<(usize, usize)> = seq![];
    let mut bucket_i: usize = 0;
    assert(bucket_start(0, bucket_count as int, interior as int) == 1) by {
        assert(0 * (interior as int) == 0);
    }
    assert(pos =~= seq![0int] + minmax_positions(ms));
    while bucket_i < bucket_count
        invariant
            forall|s: usize, e: usize| s < e ==> #[trigger] call_requires(extremes, (s, e)),
            forall|s: usize, e: usize, m: (usize, usize)|
                s < e && #[trigger] call_ensures(extremes, (s, e), m) ==> s <= m.0 < e && s <= m.1
                    < e,
            v == finite_positions(finite@),
            valid@.len() == valid_n == v.len(),
            forall|k: int| 0 <= k < valid_n ==> valid@[k] as int == #[trigger] v[k],
            2 <= threshold < valid_n,
            bucket_count == minmax_bucket_count(threshold as int),
            1 <= bucket_count <= interior,
            interior == valid_n - 2,
            bucket_count * interior < usize::MAX,
            bucket_i <= bucket_count,
            1 + bucket_i <= pos.len() <= 1 + 2 * bucket_i,
            selected@.len() == pos.len(),
            pos[0] == 0,
            pos.last() < bucket_start(bucket_i as int, bucket_count as int, interior as int),
            forall|k: int| 0 <= k < pos.len() ==> 0 <= #[trigger] pos[k] < valid_n - 1,
            forall|k: int| 0 <= k < pos.len() ==> selected@[k] == v[#[trigger] pos[k]],
            forall|a: int, b: int| 0 <= a < b < pos.len() ==> #[trigger] pos[a] < #[trigger] pos[b],
            forall|i: int|
                0 <= i < bucket_i ==> #[trigger] bucket_covered(
                    pos,
                    i,
                    bucket_count as int,
                    interior as int,
                ),
            ms.len() == bucket_i,
            pos == seq![0int] + minmax_positions(ms),
            forall|q: int|
                0 <= q < bucket_i ==> #[trigger] minmax_choice(
                    extremes,
                    valid_n as int,
                    bucket_count as int,
                    ms,
                    q,
                ),
        decreases bucket_count - bucket_i,
    {
        let (s, e) = bucket_bounds(bucket_i, bucket_count, interior);
        proof {
            lemma_bucket_nonempty(bucket_i as int, bucket_count as int, interior as int);
            lemma_buckets_tile(bucket_count as int, interior as int);
        }
        if s >= e {
            bucket_i = bucket_i + 1;
            continue;
        }
        let (min_idx, max_idx) = extremes(s, e);
        let ghost old_pos = pos;
        let ghost old_sel = selected@;
        let lo = if min_idx <= max_idx {
            min_idx
        } else {
            max_idx
        };
        let hi = if min_idx <= max_idx {
            max_idx
        } else {
            min_idx
        };
        selected.push(valid[lo]);
        proof {
            pos = pos.push(lo as int);
        }
        if lo != hi {
            selected.push(valid[hi]);
            proof {
                pos = pos.push(hi as int);
            }
        }
        proof {
            let ghost old_ms = ms;
            ms = ms.push((min_idx, max_idx));
            assert(ms.drop_last() =~= old_ms);
            assert(pos =~= old_pos + extremes_kept((min_idx, max_idx)));
            assert(pos =~= seq![0int] + minmax_positions(ms));
            assert forall|q: int| 0 <= q < bucket_i + 1 implies #[trigger] minmax_choice(
                extremes,
                valid_n as int,
                bucket_count as int,
                ms,
                q,
            ) by {
                if q < bucket_i {
                    assert(minmax_choice(extremes, valid_n as int, bucket_count as int, old_ms, q));
                    assert(ms[q] == old_ms[q]);
                }
            }
            assert forall|k: int| 0 <= k < pos.len() implies selected@[k] == v[#[trigger] pos[k]] by {
                if k < old_pos.len() {
                    assert(selected@[k] == old_sel[k]);
                    assert(pos[k] == old_pos[k]);
                }
            }
            assert forall|a: int, b: int| 0 <= a < b < pos.len() implies #[trigger] pos[a]
                < #[trigger] pos[b] by {
                if b < old_pos.len() {
                    assert(old_pos[a] < old_pos[b]);
                } else if a < old_pos.len() {
                    assert(old_pos[a] <= old_pos.last());
                }
            }
            assert forall|k: int| 0 <= k < pos.len() implies 0 <= #[trigger] pos[k] < valid_n - 1 by {
                if k < old_pos.len() {
                    assert(pos[k] == old_pos[k]);
                }
            }
            assert forall|i: int| 0 <= i < bucket_i + 1 implies #[trigger] bucket_covered(
                pos,
                i,
                bucket_count as int,
                interior as int,
            ) by {
                if i < bucket_i {
                    assert(bucket_covered(old_pos, i, bucket_count as int, interior as int));
                    let k = choose|k: int|
                        0 <= k < old_pos.len() && #[trigger] in_bucket(
                            old_pos[k],
                            i,
                            bucket_count as int,
                            interior as int,
                        );
                    assert(pos[k] == old_pos[k]);
                } else {
                    assert(pos[old_pos.len() as int] == lo);
                    assert(in_bucket(pos[old_pos.len() as int], i, bucket_count as int, interior as int));
                }
            }
        }
        bucket_i = bucket_i + 1;
    }
    let last = valid[valid_n - 1];
    let ghost old_pos = pos;
    let ghost old_sel = selected@;
    proof {
        lemma_buckets_tile(bucket_count as int, interior as int);
        assert(selected@.last() == v[pos.last()]);
        assert(v[pos.last()] < v[valid_n - 1]);
    }
    if selected[selected.len() - 1] != last {
        selected.push(last);
    }
    proof {
        pos = old_pos.push(valid_n - 1);
        assert forall|k: int| 0 <= k < pos.len() implies selected@[k] == v[#[trigger] pos[k]] by {
            if k < old_pos.len() {
                assert(selected@[k] == old_sel[k]);
                assert(pos[k] == old_pos[k]);
            }
        }
        assert forall|a: int, b: int| 0 <= a < b < pos.len() implies #[trigger] pos[a]
            < #[trigger] pos[b] by {
            if b < old_pos.len() {
                assert(old_pos[a] < old_pos[b]);
            } else {
                assert(old_pos[a] < valid_n - 1);
            }
        }
        assert forall|k: int| 1 <= k < pos.len() - 1 implies 1 <= #[trigger] pos[k] < v.len() - 1 by {
            assert(pos[k] == old_pos[k]);
            assert(old_pos[0] < old_pos[k]);
        }
        assert forall|i: int| 0 <= i < bucket_count implies #[trigger] bucket_covered(
            pos,
            i,
            bucket_count as int,
            v.len() - 2,
        ) by {
            assert(bucket_covered(old_pos, i, bucket_count as int, interior as int));
            let k = choose|k: int|
                0 <= k < old_pos.len() && #[trigger] in_bucket(
                    old_pos[k],
                    i,
                    bucket_count as int,
                    interior as int,
                );
            assert(pos[k] == old_pos[k]);
        }
        lemma_minmax_selection(selected@, v, pos, bucket_count as int);
        lemma_minmax_bucket_count(threshold as int);
        assert(pos =~= seq![0int] + minmax_positions(ms) + seq![valid_n - 1]);
        assert(is_minmax_result(selected@, v, extremes, bucket_count as int, ms));
        assert forall|a: int, b: int| 0 <= a < b < selected@.len() implies #[trigger] selected@[a]
            < #[trigger] selected@[b] by {
            assert(pos[a] < pos[b]);
            assert(selected@[a] == v[pos[a]]);
            assert(selected@[b] == v[pos[b]]);
        }
        assert forall|k: int| 0 <= k < selected@.len() implies finite@[#[trigger] selected@[k] as int]
            && selected@[k] < finite@.len() by {
            assert(selected@[k] == v[pos[k]]);
        }
    }
    selected
}

} // verus!
