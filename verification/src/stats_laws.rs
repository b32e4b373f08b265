//! What holds of round-trip time statistics as a whole.

use crate::stats::{
    compute_rtt_stats, is_rounded_std_dev, lemma_mean_between, sample_nanos, scaled_variance, std_dev_below_half_past,
    total, total_squares, RttStats,
};
use crate::time::duration_nanos;
use std::time::Duration;
use vstd::arithmetic::div_mod::lemma_fundamental_div_mod;
use vstd::prelude::*;

verus! {

proof fn lemma_samples_bounded(stats: RttStats, rtts: Seq<Duration>)
    requires
        rtts.len() > 0,
        stats.describes(rtts),
    ensures
        forall|i: int|
            0 <= i < sample_nanos(rtts).len() ==> duration_nanos(stats.rtt_min)
                <= #[trigger] sample_nanos(rtts)[i] <= duration_nanos(stats.rtt_max),
{
}

/// The mean lies between the shortest and the longest sample.
pub proof fn law_mean_between_extremes(stats: RttStats, rtts: Seq<Duration>)
    requires
        stats.describes(rtts),
    ensures
        duration_nanos(stats.rtt_min) <= duration_nanos(stats.rtt_avg) <= duration_nanos(
            stats.rtt_max,
        ),
{
    if rtts.len() > 0 {
        let ns = sample_nanos(rtts);
        let n: int = ns.len() as int;
        let t: int = total(ns) as int;
        lemma_samples_bounded(stats, rtts);
        lemma_fundamental_div_mod(t, n);
        assert(n * (t / n) == (t / n) * n) by (nonlinear_arith);
        lemma_mean_between(
            ns,
            t / n,
            t % n,
            duration_nanos(stats.rtt_min),
            duration_nanos(stats.rtt_max),
        );
    }
}

/// The standard deviation is at most half the range of the samples, rounded up.
pub proof fn law_std_dev_at_most_half_range(stats: RttStats, rtts: Seq<Duration>)
    requires
        stats.describes(rtts),
    ensures
        2 * duration_nanos(stats.rtt_std_dev) <= duration_nanos(stats.rtt_max) - duration_nanos(
            stats.rtt_min,
        ) + 1,
{
    let low: nat = duration_nanos(stats.rtt_min);
    let high: nat = duration_nanos(stats.rtt_max);
    let r: nat = duration_nanos(stats.rtt_std_dev);
    if rtts.len() > 0 && r > 0 {
        let ns = sample_nanos(rtts);
        lemma_samples_bounded(stats, rtts);
        lemma_variance_at_most_half_range(ns, low, high);
        assert(low <= high) by {
            assert(low <= ns[0] <= high);
        }
        let n: int = ns.len() as int;
        let k: int = 2 * (r - 1) + 1;
        let range: int = high - low;
        assert(k <= range) by (nonlinear_arith)
            requires
                (k * n) * (k * n) <= (range * n) * (range * n),
                0 < n,
                0 <= k,
                0 <= range,
        ;
    } else if rtts.len() > 0 {
        lemma_samples_bounded(stats, rtts);
        assert(low <= sample_nanos(rtts)[0] <= high);
    }
}

/// Samples between `low` and `high` have a variance of at most a quarter of the
/// square of the range.
proof fn lemma_variance_at_most_half_range(ns: Seq<nat>, low: nat, high: nat)
    requires
        ns.len() > 0,
        forall|i: int| 0 <= i < ns.len() ==> low <= #[trigger] ns[i] <= high,
    ensures
        4 * scaled_variance(ns) <= ((high - low) * ns.len()) * ((high - low) * ns.len()),
{
    lemma_squares_below_chord(ns, low, high);
    let n: int = ns.len() as int;
    let t: int = total(ns) as int;
    let s: int = total_squares(ns) as int;
    let a: int = n * high - t;
    let b: int = t - n * low;
    assert(n * s - t * t <= a * b) by (nonlinear_arith)
        requires
            s <= (high + low) * t - n * (high * low),
            0 < n,
            a == n * high - t,
            b == t - n * low,
    ;
    assert(4 * (a * b) <= (a + b) * (a + b)) by (nonlinear_arith);
    assert(a + b == (high - low) * n) by (nonlinear_arith)
        requires
            a == n * high - t,
            b == t - n * low,
    ;
}

/// Between `low` and `high` the square lies below the chord.
proof fn lemma_squares_below_chord(ns: Seq<nat>, low: nat, high: nat)
    requires
        forall|i: int| 0 <= i < ns.len() ==> low <= #[trigger] ns[i] <= high,
    ensures
        total_squares(ns) <= (high + low) * total(ns) - ns.len() * (high * low),
    decreases ns.len(),
{
    if ns.len() > 0 {
        let rest = ns.drop_last();
        assert forall|i: int| 0 <= i < rest.len() implies low <= #[trigger] rest[i] <= high by {
            assert(rest[i] == ns[i]);
        }
        lemma_squares_below_chord(rest, low, high);
        assert(low <= ns[ns.len() - 1] <= high);
        let x: int = ns.last() as int;
        let t: int = total(rest) as int;
        let n: int = rest.len() as int;
        assert(x * x <= (high + low) * x - high * low) by (nonlinear_arith)
            requires
                low <= x <= high,
        ;
        assert((high + low) * (t + x) == (high + low) * t + (high + low) * x) by (nonlinear_arith);
        assert((n + 1) * (high * low) == n * (high * low) + high * low) by (nonlinear_arith);
    } else {
        assert((high + low) * 0 == 0 && 0 * (high * low) == 0) by (nonlinear_arith);
    }
}

/// Samples that are all the same have that sample as minimum, mean and maximum,
/// and a standard deviation of zero.
pub proof fn law_identical_samples(stats: RttStats, rtts: Seq<Duration>, sample: nat)
    requires
        rtts.len() > 0,
        stats.describes(rtts),
        forall|i: int| 0 <= i < rtts.len() ==> duration_nanos(#[trigger] rtts[i]) == sample,
    ensures
        duration_nanos(stats.rtt_min) == sample,
        duration_nanos(stats.rtt_avg) == sample,
        duration_nanos(stats.rtt_max) == sample,
        duration_nanos(stats.rtt_std_dev) == 0,
{
    law_mean_between_extremes(stats, rtts);
    law_std_dev_at_most_half_range(stats, rtts);
}

/// The order of the samples does not matter: the same samples, each as often,
/// have the same statistics.
pub proof fn law_sample_order_is_irrelevant(
    stats: RttStats,
    rtts: Seq<Duration>,
    other_stats: RttStats,
    others: Seq<Duration>,
)
    requires
        stats.describes(rtts),
        other_stats.describes(others),
        rtts.to_multiset() == others.to_multiset(),
    ensures
        duration_nanos(stats.rtt_min) == duration_nanos(other_stats.rtt_min),
        duration_nanos(stats.rtt_avg) == duration_nanos(other_stats.rtt_avg),
        duration_nanos(stats.rtt_max) == duration_nanos(other_stats.rtt_max),
        duration_nanos(stats.rtt_std_dev) == duration_nanos(other_stats.rtt_std_dev),
{
    broadcast use vstd::seq_lib::group_to_multiset_ensures;

    lemma_sums_ignore_order(rtts, others);
    assert(rtts.len() == rtts.to_multiset().len() && others.len() == others.to_multiset().len());
    if rtts.len() > 0 {
        let ns = sample_nanos(rtts);
        let ms = sample_nanos(others);
        lemma_minimum_shared(stats, rtts, other_stats, others);
        lemma_minimum_shared(other_stats, others, stats, rtts);
        assert(scaled_variance(ns) == scaled_variance(ms));
        lemma_rounded_std_dev_unique(
            ns,
            duration_nanos(stats.rtt_std_dev),
            duration_nanos(other_stats.rtt_std_dev),
        );
    }
}

/// An offset that is common to all samples moves the minimum, the mean and the
/// maximum by it, and leaves the standard deviation alone.
pub proof fn law_common_offset_keeps_std_dev(
    stats: RttStats,
    rtts: Seq<Duration>,
    moved_stats: RttStats,
    moved: Seq<Duration>,
    offset: nat,
)
    requires
        rtts.len() > 0,
        stats.describes(rtts),
        moved_stats.describes(moved),
        moved.len() == rtts.len(),
        forall|i: int|
            0 <= i < rtts.len() ==> duration_nanos(#[trigger] moved[i]) == duration_nanos(rtts[i])
                + offset,
    ensures
        duration_nanos(moved_stats.rtt_min) == duration_nanos(stats.rtt_min) + offset,
        duration_nanos(moved_stats.rtt_avg) == duration_nanos(stats.rtt_avg) + offset,
        duration_nanos(moved_stats.rtt_max) == duration_nanos(stats.rtt_max) + offset,
        duration_nanos(moved_stats.rtt_std_dev) == duration_nanos(stats.rtt_std_dev),
{
    let ns = sample_nanos(rtts);
    let ms = sample_nanos(moved);
    let n: int = ns.len() as int;
    let t: int = total(ns) as int;
    let s: int = total_squares(ns) as int;
    let c: int = offset as int;
    assert forall|i: int| 0 <= i < ns.len() implies #[trigger] ms[i] == ns[i] + offset by {
        assert(duration_nanos(moved[i]) == duration_nanos(rtts[i]) + offset);
    }
    lemma_moved_sums(ns, ms, offset);
    assert(n * (s + 2 * c * t + n * (c * c)) - (t + n * c) * (t + n * c) == n * s - t * t)
        by (nonlinear_arith);
    assert((t + n * c) / n == t / n + c) by {
        lemma_fundamental_div_mod(t, n);
        assert(n * (t / n) + t % n + n * c == n * (t / n + c) + t % n) by (nonlinear_arith);
        vstd::arithmetic::div_mod::lemma_fundamental_div_mod_converse(
            t + n * c,
            n,
            t / n + c,
            t % n,
        );
    }
    lemma_rounded_std_dev_unique(
        ns,
        duration_nanos(stats.rtt_std_dev),
        duration_nanos(moved_stats.rtt_std_dev),
    );
    let i: int = choose|i: int| 0 <= i < rtts.len() && rtts[i] == stats.rtt_min;
    let j: int = choose|j: int| 0 <= j < rtts.len() && rtts[j] == stats.rtt_max;
    let k: int = choose|k: int| 0 <= k < moved.len() && moved[k] == moved_stats.rtt_min;
    let l: int = choose|l: int| 0 <= l < moved.len() && moved[l] == moved_stats.rtt_max;
    assert(ms[i] == ns[i] + offset && ms[j] == ns[j] + offset);
    assert(ms[k] == ns[k] + offset && ms[l] == ns[l] + offset);
}

proof fn lemma_moved_sums(ns: Seq<nat>, ms: Seq<nat>, offset: nat)
    requires
        ms.len() == ns.len(),
        forall|i: int| 0 <= i < ns.len() ==> #[trigger] ms[i] == ns[i] + offset,
    ensures
        total(ms) == total(ns) + ns.len() * offset,
        total_squares(ms) == total_squares(ns) + 2 * offset * total(ns) + ns.len() * (offset
            * offset),
    decreases ns.len(),
{
    if ns.len() > 0 {
        let rest = ns.drop_last();
        let moved_rest = ms.drop_last();
        assert forall|i: int| 0 <= i < rest.len() implies #[trigger] moved_rest[i] == rest[i]
            + offset by {
            assert(ms[i] == ns[i] + offset);
        }
        lemma_moved_sums(rest, moved_rest, offset);
        let x: int = ns.last() as int;
        assert(ms[ms.len() - 1] == ns[ns.len() - 1] + offset);
        let t: int = total(rest) as int;
        let n: int = rest.len() as int;
        let c: int = offset as int;
        assert((x + c) * (x + c) == x * x + 2 * c * x + c * c) by (nonlinear_arith);
        assert(2 * c * (t + x) == 2 * c * t + 2 * c * x) by (nonlinear_arith);
        assert((n + 1) * (c * c) == n * (c * c) + c * c) by (nonlinear_arith);
        assert((n + 1) * c == n * c + c) by (nonlinear_arith);
    } else {
        assert(0 * offset == 0 && 2 * offset * 0 == 0 && 0 * (offset * offset) == 0)
            by (nonlinear_arith);
    }
}

/// The sum of the samples in nanoseconds.
pub open spec fn summed(rtts: Seq<Duration>) -> int {
    rtts.fold_left(0int, |sum: int, rtt: Duration| sum + duration_nanos(rtt))
}

/// The sum of the squared differences between every two of `ns`. The population
/// variance is this, divided by the square of their number.
pub open spec fn pairwise_squares(ns: Seq<nat>) -> int
    decreases ns.len(),
{
    if ns.len() == 0 {
        0
    } else {
        pairwise_squares(ns.drop_last()) + squares_from(ns.drop_last(), ns.last() as int)
    }
}

/// The sum of the squared differences of `ns` from `x`.
pub open spec fn squares_from(ns: Seq<nat>, x: int) -> int
    decreases ns.len(),
{
    if ns.len() == 0 {
        0
    } else {
        squares_from(ns.drop_last(), x) + (ns.last() - x) * (ns.last() - x)
    }
}

/// Whether `min` and `max` are the least and the greatest of `rtts`, `avg` their
/// mean cut down to whole nanoseconds, and `dev` within half a nanosecond of their
/// standard deviation. Of no samples all four are zero.
pub open spec fn statistics_hold(
    rtts: Seq<Duration>,
    min: Duration,
    avg: Duration,
    max: Duration,
    dev: Duration,
) -> bool {
    let n = rtts.len();
    let ns = rtts.map_values(|rtt: Duration| duration_nanos(rtt));
    let mean = duration_nanos(avg);
    let r = duration_nanos(dev);
    if n == 0 {
        duration_nanos(min) == 0 && mean == 0 && duration_nanos(max) == 0 && r == 0
    } else {
        &&& rtts.contains(min)
        &&& rtts.contains(max)
        &&& forall|i: int|
            0 <= i < n ==> duration_nanos(min) <= duration_nanos(#[trigger] rtts[i])
                <= duration_nanos(max)
        &&& mean * n <= summed(rtts) < (mean + 1) * n
        &&& 4 * pairwise_squares(ns) < ((2 * r + 1) * n) * ((2 * r + 1) * n)
        &&& r > 0 ==> ((2 * r - 1) * n) * ((2 * r - 1) * n) <= 4 * pairwise_squares(ns)
    }
}

/// Statistics that describe samples hold of them.
pub proof fn law_statistics_hold(stats: RttStats, rtts: Seq<Duration>)
    requires
        stats.describes(rtts),
    ensures
        statistics_hold(rtts, stats.rtt_min, stats.rtt_avg, stats.rtt_max, stats.rtt_std_dev),
{
    let ns = sample_nanos(rtts);
    assert(ns =~= rtts.map_values(|rtt: Duration| duration_nanos(rtt)));
    if rtts.len() > 0 {
        let n: int = rtts.len() as int;
        let t: int = total(ns) as int;
        let r: int = duration_nanos(stats.rtt_std_dev) as int;
        lemma_samples_bounded(stats, rtts);
        assert forall|i: int| 0 <= i < n implies duration_nanos(stats.rtt_min) <= duration_nanos(
            #[trigger] rtts[i],
        ) <= duration_nanos(stats.rtt_max) by {
            assert(ns[i] == duration_nanos(rtts[i]));
        }
        lemma_summed(rtts);
        lemma_fundamental_div_mod(t, n);
        assert((t / n) * n <= t < (t / n + 1) * n) by (nonlinear_arith)
            requires
                t == n * (t / n) + t % n,
                0 <= t % n < n,
        ;
        lemma_pairwise_squares(ns);
        assert(2 * (r - 1) + 1 == 2 * r - 1);
    }
}

/// The statistics of samples hold of them, and those of no samples are the default.
pub proof fn law_computed_statistics_hold(
    rtts: &[Duration],
    stats: RttStats,
    default: RttStats,
)
    requires
        call_ensures(compute_rtt_stats, (rtts,), stats),
        call_ensures(<RttStats as Default>::default, (), default),
    ensures
        statistics_hold(rtts@, stats.rtt_min, stats.rtt_avg, stats.rtt_max, stats.rtt_std_dev),
        statistics_hold(
            Seq::empty(),
            default.rtt_min,
            default.rtt_avg,
            default.rtt_max,
            default.rtt_std_dev,
        ),
{
    law_statistics_hold(stats, rtts@);
    law_statistics_hold(default, Seq::empty());
}

proof fn lemma_summed(rtts: Seq<Duration>)
    ensures
        summed(rtts) == total(sample_nanos(rtts)),
    decreases rtts.len(),
{
    reveal_with_fuel(Seq::fold_left, 2);
    if rtts.len() > 0 {
        lemma_summed(rtts.drop_last());
        assert(sample_nanos(rtts).drop_last() =~= sample_nanos(rtts.drop_last()));
    }
}

proof fn lemma_squares_from(ns: Seq<nat>, x: int)
    ensures
        squares_from(ns, x) == total_squares(ns) - 2 * x * total(ns) + ns.len() * (x * x),
    decreases ns.len(),
{
    if ns.len() > 0 {
        let rest = ns.drop_last();
        lemma_squares_from(rest, x);
        let y: int = ns.last() as int;
        let t: int = total(rest) as int;
        let n: int = rest.len() as int;
        assert((y - x) * (y - x) == y * y - 2 * x * y + x * x) by (nonlinear_arith);
        assert(2 * x * (t + y) == 2 * x * t + 2 * x * y) by (nonlinear_arith);
        assert((n + 1) * (x * x) == n * (x * x) + x * x) by (nonlinear_arith);
    } else {
        assert(2 * x * 0 == 0 && 0 * (x * x) == 0) by (nonlinear_arith);
    }
}

proof fn lemma_pairwise_squares(ns: Seq<nat>)
    ensures
        pairwise_squares(ns) == scaled_variance(ns),
    decreases ns.len(),
{
    if ns.len() > 0 {
        let rest = ns.drop_last();
        lemma_pairwise_squares(rest);
        let x: int = ns.last() as int;
        lemma_squares_from(rest, x);
        let t: int = total(rest) as int;
        let s: int = total_squares(rest) as int;
        let n: int = rest.len() as int;
        assert((n + 1) * (s + x * x) - (t + x) * (t + x) == n * s - t * t + (s - 2 * x * t + n * (x
            * x))) by (nonlinear_arith);
    } else {
        assert(0 * total_squares(ns) == 0 && 0 * 0 == 0) by (nonlinear_arith);
    }
}

/// The extremes of `others` do not lie inside those of `rtts`, if each sample of
/// `rtts` is among `others`.
proof fn lemma_minimum_shared(
    stats: RttStats,
    rtts: Seq<Duration>,
    other_stats: RttStats,
    others: Seq<Duration>,
)
    requires
        rtts.len() > 0,
        others.len() > 0,
        stats.describes(rtts),
        other_stats.describes(others),
        rtts.to_multiset() == others.to_multiset(),
    ensures
        duration_nanos(other_stats.rtt_min) <= duration_nanos(stats.rtt_min),
        duration_nanos(stats.rtt_max) <= duration_nanos(other_stats.rtt_max),
{
    broadcast use vstd::seq_lib::group_to_multiset_ensures;

    assert(rtts.to_multiset().count(stats.rtt_min) > 0);
    assert(rtts.to_multiset().count(stats.rtt_max) > 0);
    assert(others.contains(stats.rtt_min) && others.contains(stats.rtt_max));
    let i: int = choose|i: int| 0 <= i < others.len() && others[i] == stats.rtt_min;
    let j: int = choose|j: int| 0 <= j < others.len() && others[j] == stats.rtt_max;
    assert(sample_nanos(others)[i] == duration_nanos(stats.rtt_min));
    assert(sample_nanos(others)[j] == duration_nanos(stats.rtt_max));
}

proof fn lemma_rounded_std_dev_unique(ns: Seq<nat>, r: nat, q: nat)
    requires
        is_rounded_std_dev(ns, r),
        is_rounded_std_dev(ns, q),
    ensures
        r == q,
{
    if r < q {
        lemma_half_past_monotonic(ns, r as int, q - 1);
    } else if q < r {
        lemma_half_past_monotonic(ns, q as int, r - 1);
    }
}

proof fn lemma_half_past_monotonic(ns: Seq<nat>, r: int, q: int)
    requires
        0 <= r <= q,
        std_dev_below_half_past(ns, r),
    ensures
        std_dev_below_half_past(ns, q),
{
    let n: int = ns.len() as int;
    let x: int = (2 * r + 1) * n;
    let y: int = (2 * q + 1) * n;
    assert(0 <= x <= y) by (nonlinear_arith)
        requires
            0 <= r <= q,
            0 <= n,
            x == (2 * r + 1) * n,
            y == (2 * q + 1) * n,
    ;
    assert(x * x <= y * y) by (nonlinear_arith)
        requires
            0 <= x <= y,
    ;
}

proof fn lemma_sums_ignore_order(rtts: Seq<Duration>, others: Seq<Duration>)
    requires
        rtts.to_multiset() == others.to_multiset(),
    ensures
        total(sample_nanos(rtts)) == total(sample_nanos(others)),
        total_squares(sample_nanos(rtts)) == total_squares(sample_nanos(others)),
    decreases rtts.len(),
{
    broadcast use vstd::seq_lib::group_to_multiset_ensures;

    assert(rtts.len() == rtts.to_multiset().len() && others.len() == others.to_multiset().len());
    if rtts.len() > 0 {
        let last = rtts.last();
        let rest = rtts.drop_last();
        assert(rest =~= rtts.remove(rtts.len() - 1));
        assert(rtts[rtts.len() - 1] == last);
        assert(rtts.to_multiset().count(last) > 0);
        assert(others.contains(last));
        let i: int = choose|i: int| 0 <= i < others.len() && others[i] == last;
        lemma_sums_ignore_order(rest, others.remove(i));
        lemma_sums_without(others, i);
        assert(sample_nanos(rtts).drop_last() =~= sample_nanos(rest));
    }
}

/// Taking a sample out takes it out of the sums.
proof fn lemma_sums_without(rtts: Seq<Duration>, i: int)
    requires
        0 <= i < rtts.len(),
    ensures
        total(sample_nanos(rtts)) == total(sample_nanos(rtts.remove(i))) + duration_nanos(rtts[i]),
        total_squares(sample_nanos(rtts)) == total_squares(sample_nanos(rtts.remove(i)))
            + duration_nanos(rtts[i]) * duration_nanos(rtts[i]),
    decreases rtts.len(),
{
    let ns = sample_nanos(rtts);
    let without = rtts.remove(i);
    if i == rtts.len() - 1 {
        assert(sample_nanos(without) =~= ns.drop_last());
    } else {
        let rest = rtts.drop_last();
        lemma_sums_without(rest, i);
        assert(sample_nanos(rest) =~= ns.drop_last());
        assert(sample_nanos(without).drop_last() =~= sample_nanos(rest.remove(i)));
        assert(sample_nanos(without).last() == ns.last());
    }
}

} // verus!
