use ping_tokio::natural::Natural;
use ping_tokio::stats::compute_rtt_stats;
use std::time::Duration;

#[test]
fn test_compute_rtt_stats_empty() {
    let stats = compute_rtt_stats(&[]);
    assert_eq!(stats.rtt_min, Duration::ZERO);
    assert_eq!(stats.rtt_avg, Duration::ZERO);
    assert_eq!(stats.rtt_max, Duration::ZERO);
    assert_eq!(stats.rtt_std_dev, Duration::ZERO);
}

#[test]
fn test_compute_rtt_stats_single() {
    let rtts = vec![Duration::from_millis(10)];
    let stats = compute_rtt_stats(&rtts);
    assert_eq!(stats.rtt_min, Duration::from_millis(10));
    assert_eq!(stats.rtt_avg, Duration::from_millis(10));
    assert_eq!(stats.rtt_max, Duration::from_millis(10));
    assert_eq!(stats.rtt_std_dev, Duration::ZERO);
}

#[test]
fn test_compute_rtt_stats_multiple() {
    // 10ms, 20ms, 30ms -> mean 20ms, population std dev sqrt(200/3) ms.
    let rtts = vec![
        Duration::from_millis(10),
        Duration::from_millis(20),
        Duration::from_millis(30),
    ];
    let stats = compute_rtt_stats(&rtts);
    assert_eq!(stats.rtt_min, Duration::from_millis(10));
    assert_eq!(stats.rtt_max, Duration::from_millis(30));
    assert_eq!(stats.rtt_avg, Duration::from_millis(20));
    assert_eq!(stats.rtt_std_dev, Duration::from_nanos(8_164_966));
}

#[test]
fn test_compute_rtt_stats_identical() {
    let rtts = vec![
        Duration::from_millis(5),
        Duration::from_millis(5),
        Duration::from_millis(5),
    ];
    let stats = compute_rtt_stats(&rtts);
    assert_eq!(stats.rtt_min, Duration::from_millis(5));
    assert_eq!(stats.rtt_avg, Duration::from_millis(5));
    assert_eq!(stats.rtt_max, Duration::from_millis(5));
    assert_eq!(stats.rtt_std_dev, Duration::ZERO);
}

#[test]
fn large_outlier_does_not_overflow_squared_deviation() {
    let mut rtts = [
        Duration::from_millis(1),
        Duration::from_millis(1),
        Duration::from_millis(4999),
    ];
    // For [a, a, b], population standard deviation is (b - a) * sqrt(2) / 3.
    let expected = Duration::from_secs_f64(4.998 * 2.0_f64.sqrt() / 3.0);
    for _ in 0..2 {
        let stats = compute_rtt_stats(&rtts);
        assert_eq!(stats.rtt_min, Duration::from_millis(1));
        assert_eq!(stats.rtt_avg, Duration::from_millis(1667));
        assert_eq!(stats.rtt_max, Duration::from_millis(4999));
        assert!(stats.rtt_std_dev.abs_diff(expected) <= Duration::from_nanos(1));
        rtts.reverse();
    }
}

#[test]
fn accumulated_variance_does_not_overflow() {
    let rtts: Vec<_> = (0..100)
        .map(|i| Duration::from_millis(if i % 2 == 0 { 1 } else { 999 }))
        .collect();
    let stats = compute_rtt_stats(&rtts);
    assert_eq!(stats.rtt_avg, Duration::from_millis(500));
    assert_eq!(stats.rtt_std_dev, Duration::from_millis(499));
}

#[test]
fn realistic_samples_match_an_exact_integer_reference() {
    // Fixed-seed samples make this deterministic and independent of the
    // algorithm. These bounds keep the u128 oracle exact.
    let mut seed = 1u64;
    for count in [1usize, 2, 3, 10, 100, 1000] {
        let rtts: Vec<_> = (0..count)
            .map(|_| {
                seed = seed.wrapping_mul(6_364_136_223_846_793_005).wrapping_add(1);
                Duration::from_nanos(seed % 5_000_000_001)
            })
            .collect();
        let n = count as u128;
        let sum: u128 = rtts.iter().map(Duration::as_nanos).sum();
        let sum_squares: u128 = rtts.iter().map(|d| d.as_nanos().pow(2)).sum();
        // Population variance = (n * sum(x^2) - sum(x)^2) / n^2.
        let numerator = n * sum_squares - sum * sum;
        let denominator = n * n;
        let floor_std_dev = (numerator / denominator).isqrt();
        let midpoint_squared = (2 * floor_std_dev + 1).pow(2);
        let round_up = 4 * numerator >= denominator * midpoint_squared;
        let expected_nanos = floor_std_dev + u128::from(round_up);
        let expected = Duration::from_nanos(u64::try_from(expected_nanos).unwrap());

        let stats = compute_rtt_stats(&rtts);
        assert_eq!(stats.rtt_avg.as_nanos(), sum / n);
        assert!(
            stats.rtt_std_dev.abs_diff(expected) <= Duration::from_nanos(1),
            "{count} samples: got {:?}, expected {expected:?}",
            stats.rtt_std_dev,
        );
        assert_eq!(stats.rtt_std_dev, expected);
    }
}

#[test]
fn large_sample_sum_does_not_overflow() {
    // Each sample fits in u64 nanoseconds, but their sum does not.
    let sample = Duration::from_secs(10_000_000_000);
    let stats = compute_rtt_stats(&[sample; 4]);
    assert_eq!(stats.rtt_avg, sample);
    assert_eq!(stats.rtt_std_dev, Duration::ZERO);
}

#[test]
fn large_durations_retain_nanosecond_differences() {
    // Larger than u64 nanoseconds; converting the samples themselves to
    // f64 seconds would also erase the two-nanosecond difference.
    let base = Duration::from_secs(20_000_000_000);
    let stats = compute_rtt_stats(&[base, base + Duration::from_nanos(2)]);
    assert_eq!(stats.rtt_min, base);
    assert_eq!(stats.rtt_avg, base + Duration::from_nanos(1));
    assert_eq!(stats.rtt_max, base + Duration::from_nanos(2));
    assert_eq!(stats.rtt_std_dev, Duration::from_nanos(1));
}

#[test]
fn maximum_durations_are_supported() {
    for rtts in [&[Duration::MAX][..], &[Duration::MAX; 3][..]] {
        let stats = compute_rtt_stats(rtts);
        assert_eq!(stats.rtt_min, Duration::MAX);
        assert_eq!(stats.rtt_avg, Duration::MAX);
        assert_eq!(stats.rtt_max, Duration::MAX);
        assert_eq!(stats.rtt_std_dev, Duration::ZERO);
    }
}

#[test]
fn full_duration_range_is_supported() {
    let stats = compute_rtt_stats(&[Duration::ZERO, Duration::MAX]);
    assert_eq!(stats.rtt_avg, Duration::MAX / 2);
    // Half the range rounds to exactly 2^63 seconds in f64.
    assert_eq!(stats.rtt_std_dev, Duration::from_secs(1u64 << 63));
}

#[test]
fn variance_uses_the_unrounded_mean() {
    let stats = compute_rtt_stats(&[Duration::ZERO, Duration::ZERO, Duration::from_nanos(1)]);
    assert_eq!(stats.rtt_avg, Duration::ZERO);
    // sqrt(2)/3 ns rounds to 0 ns. Centering only on the truncated mean
    // would produce sqrt(1/3) ns, which incorrectly rounds to 1 ns.
    assert_eq!(stats.rtt_std_dev, Duration::ZERO);
}

#[test]
fn half_a_nanosecond_of_deviation_rounds_up() {
    let stats = compute_rtt_stats(&[Duration::ZERO, Duration::from_nanos(1)]);
    assert_eq!(stats.rtt_avg, Duration::ZERO);
    assert_eq!(stats.rtt_std_dev, Duration::from_nanos(1));
}

#[test]
fn statistics_do_not_depend_on_the_order_of_samples() {
    let rtts: Vec<_> = [7, 3, 11, 3, 5].into_iter().map(Duration::from_micros).collect();
    let mut sorted = rtts.clone();
    sorted.sort();
    let a = compute_rtt_stats(&rtts);
    let b = compute_rtt_stats(&sorted);
    assert_eq!(a.rtt_min, Duration::from_micros(3));
    assert_eq!(a.rtt_avg, Duration::from_nanos(5_800));
    assert_eq!(a.rtt_max, Duration::from_micros(11));
    // sqrt(213 / 5 - 5.8^2) us = 2.993325...us
    assert_eq!(a.rtt_std_dev, Duration::from_nanos(2_993));
    assert_eq!(a.rtt_min, b.rtt_min);
    assert_eq!(a.rtt_avg, b.rtt_avg);
    assert_eq!(a.rtt_max, b.rtt_max);
    assert_eq!(a.rtt_std_dev, b.rtt_std_dev);
}

#[test]
fn deviation_is_at_most_half_the_range() {
    let rtts = [Duration::from_nanos(10), Duration::from_nanos(10), Duration::from_nanos(21)];
    let stats = compute_rtt_stats(&rtts);
    assert!(stats.rtt_min <= stats.rtt_avg && stats.rtt_avg <= stats.rtt_max);
    // 11 * sqrt(2) / 3 = 5.185...
    assert_eq!(stats.rtt_std_dev, Duration::from_nanos(5));
    assert!(stats.rtt_std_dev * 2 <= Duration::from_nanos(21 - 10 + 1));
}

#[test]
fn large_integers_add_multiply_and_compare() {
    let max = Natural::from_u128(u128::MAX);
    let one = Natural::from_u128(1);
    let square = max.times(&max);
    // (m + 1)^2 = m^2 + 2m + 1
    let next_square = max.plus(&one).times(&max.plus(&one));
    let expanded = square.plus(&max).plus(&max).plus(&one);
    assert!(!next_square.less_than(&expanded));
    assert!(!expanded.less_than(&next_square));
    assert!(square.less_than(&next_square));
    assert!(!next_square.less_than(&square));
    assert!(Natural::zero().less_than(&one));
    assert!(!Natural::zero().less_than(&Natural::from_u128(0)));
}

#[test]
fn a_common_offset_leaves_the_deviation_alone() {
    let offset = Duration::from_secs(20_000_000_000);
    let rtts: Vec<_> = [7, 3, 11, 3, 5].into_iter().map(Duration::from_micros).collect();
    let moved: Vec<_> = rtts.iter().map(|rtt| *rtt + offset).collect();
    let a = compute_rtt_stats(&rtts);
    let b = compute_rtt_stats(&moved);
    assert_eq!(b.rtt_min, a.rtt_min + offset);
    assert_eq!(b.rtt_avg, a.rtt_avg + offset);
    assert_eq!(b.rtt_max, a.rtt_max + offset);
    assert_eq!(b.rtt_std_dev, a.rtt_std_dev);
}
