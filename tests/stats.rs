use micro_optimize_algo::stats::{
    aggregate, calculate_median, calculate_std_dev, compute_stats, integer_sqrt, mean,
    sorted_copy, sum_of, trim_bounds, BenchStats,
};
use micro_optimize_algo::verify::{compare_outputs, Mismatch};

#[test]
fn aggregation_of_three_samples() {
    let s = aggregate(&[100, 150, 200], false);
    assert_eq!(s.avg, 150);
    assert_eq!(s.median, 150);
    assert_eq!(s.min, 100);
    assert_eq!(s.max, 200);
    assert_eq!(s.std_dev, 50);
    let t = aggregate(&[200, 100, 150], true);
    assert_eq!((t.avg, t.median, t.min, t.max, t.std_dev), (150, 150, 100, 200, 50));
}

#[test]
fn outlier_trimming_drops_extremes() {
    let mut samples: Vec<u64> = (0..990).map(|i| 1000 + (i % 50)).collect();
    samples.extend([1u64, 2, 3, 4, 5]);
    samples.extend([1_000_000u64, 2_000_000, 3_000_000, 4_000_000, 5_000_000]);
    let plain = aggregate(&samples, false);
    let trimmed = aggregate(&samples, true);
    assert_eq!(plain.min, 1);
    assert_eq!(plain.max, 5_000_000);
    assert_eq!(trimmed.min, 1000);
    assert_eq!(trimmed.max, 1049);
    assert_eq!(trimmed.median, plain.median);
    let (avg, min, max, std_dev) = compute_stats(&samples);
    assert_eq!((plain.avg, plain.min, plain.max, plain.std_dev), (avg, min, max, std_dev));
    assert_eq!(plain.median, calculate_median(&samples));
    assert!(trimmed.std_dev < plain.std_dev);
}

#[test]
fn trim_window_rules() {
    assert_eq!(trim_bounds(1000, true), (5, 995));
    assert_eq!(trim_bounds(1000, false), (0, 1000));
    assert_eq!(trim_bounds(10, true), (0, 10));
    assert_eq!(trim_bounds(11, true), (1, 10));
    assert_eq!(trim_bounds(200, true), (1, 199));
    assert_eq!(trim_bounds(201, true), (2, 199));
    assert_eq!(trim_bounds(0, true), (0, 0));
}

#[test]
fn empty_samples_give_zero_statistics() {
    let s = aggregate(&[], true);
    assert_eq!((s.avg, s.median, s.min, s.max, s.std_dev), (0, 0, 0, 0, 0));
    let s = aggregate(&[], false);
    assert_eq!((s.avg, s.median, s.min, s.max, s.std_dev), (0, 0, 0, 0, 0));
    assert_eq!(compute_stats(&[]), (0, 0, 0, 0));
    assert_eq!(calculate_median(&[]), 0);
    assert_eq!(calculate_std_dev(&[], 0), 0);
    assert_eq!(calculate_std_dev(&[42], 42), 0);
    assert_eq!(mean(&[]), 0);
    let b = BenchStats::from_samples(&[]);
    assert_eq!((b.avg, b.min, b.max, b.std_dev), (0, 0, 0, 0));
}

#[test]
fn median_takes_the_lower_middle_of_sorted_samples() {
    assert_eq!(calculate_median(&[3, 1, 2]), 2);
    assert_eq!(calculate_median(&[4, 1, 3, 2]), 2);
    assert_eq!(aggregate(&[200, 100], false).median, 100);
    assert_eq!(sorted_copy(&[5, 3, 9, 1]), vec![1, 3, 5, 9]);
}

#[test]
fn std_dev_and_mean_formulas() {
    assert_eq!(calculate_std_dev(&[2, 4, 4, 4, 5, 5, 7, 9], 5), 2);
    assert_eq!(calculate_std_dev(&[10, 20], 15), 7);
    assert_eq!(mean(&[1, 2]), 1);
    assert_eq!(mean(&[u64::MAX, u64::MAX]), u64::MAX);
    assert_eq!(sum_of(&[u64::MAX, u64::MAX]), 2 * (u64::MAX as u128));
    assert_eq!(compute_stats(&[5, 1, 9]), (5, 1, 9, 4));
    let b = BenchStats::from_samples(&[5, 1, 9]);
    assert_eq!((b.avg, b.min, b.max, b.std_dev), (5, 1, 9, 4));
    assert_eq!(calculate_std_dev(&[0, u64::MAX, 0, u64::MAX], 0), integer_sqrt(u128::MAX / 3));
}

#[test]
fn integer_square_roots() {
    assert_eq!(integer_sqrt(0), 0);
    assert_eq!(integer_sqrt(1), 1);
    assert_eq!(integer_sqrt(3), 1);
    assert_eq!(integer_sqrt(4), 2);
    assert_eq!(integer_sqrt(2500), 50);
    assert_eq!(integer_sqrt(2499), 49);
    assert_eq!(integer_sqrt(u128::MAX), u64::MAX);
    let big = (u64::MAX as u128) * (u64::MAX as u128);
    assert_eq!(integer_sqrt(big), u64::MAX);
    assert_eq!(integer_sqrt(big - 1), u64::MAX - 1);
}

#[test]
fn comparing_outputs_reports_first_difference() {
    assert_eq!(compare_outputs(&[1, 2, 3], &[1, 2, 3]), Ok(()));
    assert_eq!(compare_outputs(&[], &[]), Ok(()));
    assert_eq!(
        compare_outputs(&[1, 2, 3], &[1, 5, 4]),
        Err(Mismatch { index: 1, expected: Some(2), actual: Some(5) })
    );
    assert_eq!(
        compare_outputs(&[1, 2], &[1, 2, 3]),
        Err(Mismatch { index: 2, expected: None, actual: Some(3) })
    );
    assert_eq!(
        compare_outputs(&[7], &[]),
        Err(Mismatch { index: 0, expected: Some(7), actual: None })
    );
}
