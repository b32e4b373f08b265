//! Round-trip time statistics.

use crate::natural::Natural;
use crate::time::{duration_nanos, max_duration_nanos};
use std::time::Duration;
use vstd::arithmetic::div_mod::lemma_fundamental_div_mod_converse;
use vstd::prelude::*;

verus! {

/// RTT statistics shared by the library and command-line binary.
#[derive(Clone, Copy, Debug)]
pub struct RttStats {
    /// Shortest sample.
    pub rtt_min: Duration,
    /// Mean of the samples, truncated to whole nanoseconds.
    pub rtt_avg: Duration,
    /// Longest sample.
    pub rtt_max: Duration,
    /// Population standard deviation of the samples, rounded to the nearest
    /// nanosecond.
    pub rtt_std_dev: Duration,
}

/// The samples in nanoseconds.
pub open spec fn sample_nanos(rtts: Seq<Duration>) -> Seq<nat> {
    rtts.map_values(|d: Duration| duration_nanos(d))
}

/// The sum of `ns`.
pub open spec fn total(ns: Seq<nat>) -> nat
    decreases ns.len(),
{
    if ns.len() == 0 {
        0
    } else {
        total(ns.drop_last()) + ns.last()
    }
}

/// The sum of the squares of `ns`.
pub open spec fn total_squares(ns: Seq<nat>) -> nat
    decreases ns.len(),
{
    if ns.len() == 0 {
        0
    } else {
        total_squares(ns.drop_last()) + ns.last() * ns.last()
    }
}

/// The population variance of `ns`, times the square of their number.
pub open spec fn scaled_variance(ns: Seq<nat>) -> int {
    ns.len() * total_squares(ns) - total(ns) * total(ns)
}

/// Whether the population standard deviation of `ns` lies below `r + 1/2`.
pub open spec fn std_dev_below_half_past(ns: Seq<nat>, r: int) -> bool {
    4 * scaled_variance(ns) < ((2 * r + 1) * ns.len()) * ((2 * r + 1) * ns.len())
}

/// Whether `r` is the population standard deviation of `ns`, rounded to the
/// nearest integer with halves rounded up.
pub open spec fn is_rounded_std_dev(ns: Seq<nat>, r: nat) -> bool {
    &&& std_dev_below_half_past(ns, r as int)
    &&& r > 0 ==> !std_dev_below_half_past(ns, r - 1)
}

impl RttStats {
    /// Whether these are the statistics of the samples `rtts`.
    pub open spec fn describes(self, rtts: Seq<Duration>) -> bool {
        let ns = sample_nanos(rtts);
        if rtts.len() == 0 {
            &&& duration_nanos(self.rtt_min) == 0
            &&& duration_nanos(self.rtt_avg) == 0
            &&& duration_nanos(self.rtt_max) == 0
            &&& duration_nanos(self.rtt_std_dev) == 0
        } else {
            &&& rtts.contains(self.rtt_min)
            &&& forall|i: int| 0 <= i < ns.len() ==> duration_nanos(self.rtt_min) <= #[trigger] ns[i]
            &&& rtts.contains(self.rtt_max)
            &&& forall|i: int| 0 <= i < ns.len() ==> #[trigger] ns[i] <= duration_nanos(self.rtt_max)
            &&& duration_nanos(self.rtt_avg) == total(ns) / ns.len()
            &&& is_rounded_std_dev(ns, duration_nanos(self.rtt_std_dev))
        }
    }
}

impl Default for RttStats {
    /// The statistics of no samples: zero durations.
    fn default() -> (stats: RttStats)
        ensures
            stats.describes(Seq::empty()),
    {
        let zero: Duration = Duration::from_nanos(0);
        RttStats { rtt_min: zero, rtt_avg: zero, rtt_max: zero, rtt_std_dev: zero }
    }
}

/// The sum of the squared distances of `ns` from `center`.
spec fn total_squared_deviations(ns: Seq<nat>, center: int) -> int
    decreases ns.len(),
{
    if ns.len() == 0 {
        0
    } else {
        total_squared_deviations(ns.drop_last(), center) + (ns.last() - center) * (ns.last()
            - center)
    }
}

proof fn lemma_deviations_expand(ns: Seq<nat>, center: int)
    ensures
        total_squared_deviations(ns, center) == total_squares(ns) - 2 * center * total(ns)
            + ns.len() * (center * center),
    decreases ns.len(),
{
    if ns.len() > 0 {
        let rest = ns.drop_last();
        lemma_deviations_expand(rest, center);
        let x: int = ns.last() as int;
        let t: int = total(rest) as int;
        let n: int = rest.len() as int;
        let c: int = center;
        assert((x - c) * (x - c) == x * x - 2 * c * x + c * c) by (nonlinear_arith);
        assert(2 * c * (t + x) == 2 * c * t + 2 * c * x) by (nonlinear_arith);
        assert((n + 1) * (c * c) == n * (c * c) + c * c) by (nonlinear_arith);
    } else {
        assert(2 * center * 0 == 0 && 0 * (center * center) == 0) by (nonlinear_arith);
    }
}

/// Centered on the truncated mean `q`, with `rem` left over, the variance is
/// that of the deviations less the square of the remainder.
proof fn lemma_variance_from_deviations(ns: Seq<nat>, q: int, rem: int)
    requires
        total(ns) == q * ns.len() + rem,
    ensures
        scaled_variance(ns) == ns.len() * total_squared_deviations(ns, q) - rem * rem,
{
    lemma_deviations_expand(ns, q);
    let n: int = ns.len() as int;
    let s: int = total_squares(ns) as int;
    let t: int = total(ns) as int;
    assert(n * (s - 2 * q * t + n * (q * q)) - rem * rem == n * s - t * t) by (nonlinear_arith)
        requires
            t == q * n + rem,
    ;
}

proof fn lemma_deviations_bounded(ns: Seq<nat>, center: int, reach: int)
    requires
        forall|i: int| 0 <= i < ns.len() ==> -reach <= #[trigger] ns[i] - center <= reach,
    ensures
        0 <= total_squared_deviations(ns, center) <= ns.len() * (reach * reach),
    decreases ns.len(),
{
    if ns.len() > 0 {
        let rest = ns.drop_last();
        assert forall|i: int| 0 <= i < rest.len() implies -reach <= #[trigger] rest[i] - center
            <= reach by {
            assert(rest[i] == ns[i]);
        }
        lemma_deviations_bounded(rest, center, reach);
        assert(ns.last() == ns[ns.len() - 1]);
        let d: int = ns.last() - center;
        assert(0 <= d * d <= reach * reach) by (nonlinear_arith)
            requires
                -reach <= d <= reach,
        ;
        let n: int = rest.len() as int;
        assert((n + 1) * (reach * reach) == n * (reach * reach) + reach * reach)
            by (nonlinear_arith);
    } else {
        assert(0 * (reach * reach) == 0) by (nonlinear_arith);
    }
}

proof fn lemma_total_between(ns: Seq<nat>, low: nat, high: nat)
    requires
        forall|i: int| 0 <= i < ns.len() ==> low <= #[trigger] ns[i] <= high,
    ensures
        ns.len() * low <= total(ns) <= ns.len() * high,
    decreases ns.len(),
{
    if ns.len() > 0 {
        let rest = ns.drop_last();
        assert forall|i: int| 0 <= i < rest.len() implies low <= #[trigger] rest[i] <= high by {
            assert(rest[i] == ns[i]);
        }
        lemma_total_between(rest, low, high);
        assert(ns.last() == ns[ns.len() - 1]);
        let n: int = rest.len() as int;
        assert((n + 1) * low == n * low + low && (n + 1) * high == n * high + high)
            by (nonlinear_arith);
    } else {
        assert(0 * low == 0 && 0 * high == 0) by (nonlinear_arith);
    }
}

/// The shortest and the longest of the samples.
fn extremes(rtts: &[Duration]) -> (r: (Duration, Duration))
    requires
        rtts@.len() > 0,
    ensures
        rtts@.contains(r.0),
        rtts@.contains(r.1),
        forall|i: int|
            0 <= i < rtts@.len() ==> duration_nanos(r.0) <= duration_nanos(#[trigger] rtts@[i])
                <= duration_nanos(r.1),
        duration_nanos(r.1) <= max_duration_nanos(),
{
    let mut min: Duration = rtts[0];
    let mut max: Duration = rtts[0];
    let mut min_nanos: u128 = min.as_nanos();
    let mut max_nanos: u128 = min_nanos;
    let mut i: usize = 1;
    while i < rtts.len()
        invariant
            1 <= i <= rtts@.len(),
            rtts@.contains(min),
            rtts@.contains(max),
            min_nanos == duration_nanos(min),
            max_nanos == duration_nanos(max),
            max_nanos <= max_duration_nanos(),
            forall|k: int|
                0 <= k < i ==> min_nanos <= duration_nanos(#[trigger] rtts@[k]) <= max_nanos,
        decreases rtts@.len() - i,
    {
        let sample: Duration = rtts[i];
        let nanos: u128 = sample.as_nanos();
        if nanos < min_nanos {
            min = sample;
            min_nanos = nanos;
        }
        if nanos > max_nanos {
            max = sample;
            max_nanos = nanos;
        }
        i = i + 1;
    }
    (min, max)
}

/// The mean of the samples, truncated to whole nanoseconds, and what the
/// truncation leaves of their sum.
///
/// Dividing before summing keeps the sums small whatever the samples are.
fn mean(rtts: &[Duration]) -> (r: (u128, u128))
    requires
        rtts@.len() > 0,
    ensures
        total(sample_nanos(rtts@)) == r.0 * rtts@.len() + r.1,
        r.1 < rtts@.len(),
        r.0 <= max_duration_nanos(),
{
    let count: u128 = rtts.len() as u128;
    let ghost ns = sample_nanos(rtts@);
    let mut quotients: u128 = 0;
    let mut remainders: u128 = 0;
    let mut i: usize = 0;
    while i < rtts.len()
        invariant
            i <= rtts@.len(),
            0 < count == rtts@.len(),
            ns == sample_nanos(rtts@),
            quotients * count + remainders == total(ns.take(i as int)),
            quotients <= i * (max_duration_nanos() / rtts@.len()),
            remainders <= i * (count - 1),
            forall|k: int| 0 <= k < i ==> 0 <= #[trigger] ns[k] <= max_duration_nanos(),
        decreases rtts@.len() - i,
    {
        let nanos: u128 = rtts[i].as_nanos();
        proof {
            assert(ns.take(i + 1).drop_last() =~= ns.take(i as int));
            let c: int = count as int;
            let most: int = max_duration_nanos() as int / c;
            assert(nanos as int / c <= most) by {
                vstd::arithmetic::div_mod::lemma_div_is_ordered(
                    nanos as int,
                    max_duration_nanos() as int,
                    c,
                );
            }
            assert((i + 1) * most == i * most + most) by (nonlinear_arith);
            assert((i + 1) * (c - 1) == i * (c - 1) + (c - 1)) by (nonlinear_arith);
            assert(most * c <= max_duration_nanos()) by {
                vstd::arithmetic::div_mod::lemma_fundamental_div_mod(
                    max_duration_nanos() as int,
                    c,
                );
                assert(c * most == most * c) by (nonlinear_arith);
            }
            assert((i + 1) * most <= max_duration_nanos()) by (nonlinear_arith)
                requires
                    i + 1 <= c,
                    0 <= most,
                    most * c <= max_duration_nanos(),
            ;
            assert((i + 1) * (c - 1) <= u64::MAX * u64::MAX) by (nonlinear_arith)
                requires
                    0 <= i + 1 <= c <= u64::MAX,
            ;
            let q: int = nanos as int / c;
            let r: int = nanos as int % c;
            vstd::arithmetic::div_mod::lemma_fundamental_div_mod(nanos as int, c);
            assert((quotients + q) * c + (remainders + r) == quotients * c + remainders + nanos)
                by (nonlinear_arith)
                requires
                    nanos == c * q + r,
            ;
        }
        quotients = quotients + nanos / count;
        remainders = remainders + nanos % count;
        i = i + 1;
    }
    proof {
        assert(ns.take(rtts@.len() as int) =~= ns);
        let c: int = count as int;
        let carry: int = remainders as int / c;
        vstd::arithmetic::div_mod::lemma_fundamental_div_mod(remainders as int, c);
        assert((quotients + carry) * c + remainders as int % c == quotients * c + remainders)
            by (nonlinear_arith)
            requires
                remainders == c * carry + remainders as int % c,
        ;
        lemma_total_between(ns, 0, max_duration_nanos());
        assert(quotients + carry <= max_duration_nanos()) by (nonlinear_arith)
            requires
                (quotients + carry) * c <= c * max_duration_nanos(),
                0 < c,
        ;
    }
    (quotients + remainders / count, remainders % count)
}

/// The sum of the squared distances of the samples from `center` nanoseconds.
fn squared_deviations(rtts: &[Duration], center: u128) -> (sum: Natural)
    ensures
        sum@ == total_squared_deviations(sample_nanos(rtts@), center as int),
{
    let ghost ns = sample_nanos(rtts@);
    let mut sum: Natural = Natural::zero();
    let mut i: usize = 0;
    while i < rtts.len()
        invariant
            i <= rtts@.len(),
            ns == sample_nanos(rtts@),
            sum@ == total_squared_deviations(ns.take(i as int), center as int),
        decreases rtts@.len() - i,
    {
        let nanos: u128 = rtts[i].as_nanos();
        let distance: u128 = if nanos >= center {
            nanos - center
        } else {
            center - nanos
        };
        let d: Natural = Natural::from_u128(distance);
        sum = sum.plus(&d.times(&d));
        proof {
            assert(ns.take(i + 1).drop_last() =~= ns.take(i as int));
            let x: int = nanos - center;
            assert((-x) * (-x) == x * x) by (nonlinear_arith);
        }
        i = i + 1;
    }
    proof {
        assert(ns.take(rtts@.len() as int) =~= ns);
    }
    sum
}

/// The population standard deviation of the samples in nanoseconds, rounded to
/// the nearest integer with halves rounded up.
///
/// `avg` and `rem` are the mean and what its truncation leaves of the sum;
/// `reach` bounds the distance of every sample from the mean.
fn rounded_std_dev(rtts: &[Duration], avg: u128, rem: u128, reach: u128) -> (r: u128)
    requires
        rtts@.len() > 0,
        total(sample_nanos(rtts@)) == avg * rtts@.len() + rem,
        reach <= max_duration_nanos(),
        forall|i: int|
            0 <= i < rtts@.len() ==> -reach <= #[trigger] sample_nanos(rtts@)[i] - avg <= reach,
    ensures
        is_rounded_std_dev(sample_nanos(rtts@), r as nat),
        r <= reach,
{
    let ghost ns = sample_nanos(rtts@);
    let ghost n: int = rtts@.len() as int;
    let ghost deviations: int = total_squared_deviations(ns, avg as int);
    let four: Natural = Natural::from_u128(4);
    let count: Natural = Natural::from_u128(rtts.len() as u128);
    let left_over: Natural = Natural::from_u128(rem);
    // Four times the scaled variance is `spread` less `correction`.
    let spread: Natural = four.times(&count).times(&squared_deviations(rtts, avg));
    let correction: Natural = four.times(&left_over).times(&left_over);
    proof {
        lemma_variance_from_deviations(ns, avg as int, rem as int);
        assert((4 * n) * deviations == 4 * (n * deviations)) by (nonlinear_arith);
        assert((4 * rem) * rem == 4 * (rem * rem)) by (nonlinear_arith);
        lemma_deviations_bounded(ns, avg as int, reach as int);
        let b: int = reach as int;
        assert(4 * (n * deviations) < ((2 * b + 1) * n) * ((2 * b + 1) * n) && rem * rem >= 0)
            by (nonlinear_arith)
            requires
                0 < n,
                0 <= b,
                0 <= rem,
                0 <= deviations <= n * (b * b),
        ;
    }
    let mut low: u128 = 0;
    let mut high: u128 = reach;
    while low < high
        invariant
            low <= high <= reach <= max_duration_nanos(),
            n == ns.len(),
            count@ == n,
            spread@ - correction@ == 4 * scaled_variance(ns),
            std_dev_below_half_past(ns, high as int),
            low > 0 ==> !std_dev_below_half_past(ns, low - 1),
        decreases high - low,
    {
        let middle: u128 = low + (high - low) / 2;
        let root: Natural = Natural::from_u128(2 * middle + 1).times(&count);
        if spread.less_than(&root.times(&root).plus(&correction)) {
            high = middle;
        } else {
            low = middle + 1;
        }
    }
    low
}

/// Compute population statistics; empty input produces zero durations.
///
/// The mean is truncated to whole nanoseconds. The standard deviation is that
/// around the untruncated mean, rounded to the nearest nanosecond.
pub fn compute_rtt_stats(rtts: &[Duration]) -> (stats: RttStats)
    ensures
        stats.describes(rtts@),
{
    if rtts.len() == 0 {
        assert(rtts@ =~= Seq::empty());
        return RttStats::default();
    }
    let ghost ns = sample_nanos(rtts@);
    let (min, max) = extremes(rtts);
    let (avg, rem) = mean(rtts);
    proof {
        assert forall|i: int| 0 <= i < ns.len() implies duration_nanos(min) <= #[trigger] ns[i]
            <= duration_nanos(max) by {
            assert(ns[i] == duration_nanos(rtts@[i]));
        }
        lemma_mean_between(ns, avg as int, rem as int, duration_nanos(min), duration_nanos(max));
        lemma_fundamental_div_mod_converse(
            total(ns) as int,
            ns.len() as int,
            avg as int,
            rem as int,
        );
    }
    let reach: u128 = max.as_nanos() - min.as_nanos();
    let std_dev: u128 = rounded_std_dev(rtts, avg, rem, reach);
    RttStats {
        rtt_min: min,
        rtt_avg: duration_of(avg),
        rtt_max: max,
        rtt_std_dev: duration_of(std_dev),
    }
}

/// The duration of `nanos` nanoseconds.
fn duration_of(nanos: u128) -> (d: Duration)
    requires
        nanos <= max_duration_nanos(),
    ensures
        duration_nanos(d) == nanos,
{
    let secs: u128 = nanos / 1_000_000_000;
    let subsec: u128 = nanos % 1_000_000_000;
    assert(nanos == secs * 1_000_000_000 + subsec);
    assert(secs <= u64::MAX);
    Duration::new(secs as u64, subsec as u32)
}

/// The truncated mean `q`, with `rem` left over, lies between bounds of the
/// samples.
pub(crate) proof fn lemma_mean_between(ns: Seq<nat>, q: int, rem: int, low: nat, high: nat)
    requires
        ns.len() > 0,
        total(ns) == q * ns.len() + rem,
        0 <= rem < ns.len(),
        forall|i: int| 0 <= i < ns.len() ==> low <= #[trigger] ns[i] <= high,
    ensures
        low <= q <= high,
{
    lemma_total_between(ns, low, high);
    let n: int = ns.len() as int;
    assert(low <= q <= high) by (nonlinear_arith)
        requires
            0 < n,
            n * low <= q * n + rem <= n * high,
            0 <= rem < n,
    ;
}

} // verus!
