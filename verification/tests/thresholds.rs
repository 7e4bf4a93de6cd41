use proslam::threshold::adapt_threshold;

// Thresholds are in thousandths: 15_000 is a threshold of 15.

#[test]
fn threshold_stays_within_the_tolerance() {
    assert_eq!(adapt_threshold(50_000, 25, 1, 25, 100, 500, 15_000, 100_000), 50_000);
    assert_eq!(adapt_threshold(50_000, 24, 1, 25, 100, 500, 15_000, 100_000), 50_000);
    assert_eq!(adapt_threshold(50_000, 27, 1, 25, 100, 500, 15_000, 100_000), 50_000);
    assert_eq!(adapt_threshold(22_500, 25, 1, 25, 100, 500, 15_000, 100_000), 22_500);
    // exactly at the tolerance: 10 of 100 missing or in excess
    assert_eq!(adapt_threshold(50_000, 90, 1, 100, 100, 500, 15_000, 100_000), 50_000);
    assert_eq!(adapt_threshold(50_000, 110, 1, 100, 100, 500, 15_000, 100_000), 50_000);
}

#[test]
fn threshold_falls_by_the_shortage() {
    // 3 of 25 missing: 12 % of 50 is 6
    assert_eq!(adapt_threshold(50_000, 22, 1, 25, 100, 500, 15_000, 100_000), 44_000);
    // 15 of 25 missing: 60 % of 50 is 30
    assert_eq!(adapt_threshold(50_000, 10, 1, 25, 100, 500, 15_000, 100_000), 20_000);
    // nothing found: the whole threshold goes, the minimum stays
    assert_eq!(adapt_threshold(50_000, 0, 1, 25, 100, 500, 15_000, 100_000), 15_000);
    // 12 % of 17 is 2.04
    assert_eq!(adapt_threshold(17_000, 22, 1, 25, 100, 500, 5_000, 100_000), 14_960);
    // 12 % of 17.001 is 2.04012: the last thousandth is rounded away from the threshold
    assert_eq!(adapt_threshold(17_001, 22, 1, 25, 100, 500, 5_000, 100_000), 14_960);
    // a fall of less than 1 is a fall of 1
    assert_eq!(adapt_threshold(2_000, 22, 1, 25, 100, 500, 0, 100_000), 1_000);
    assert_eq!(adapt_threshold(8_333, 22, 1, 25, 100, 500, 0, 100_000), 7_333);
    assert_eq!(adapt_threshold(8_334, 22, 1, 25, 100, 500, 0, 100_000), 7_333);
    assert_eq!(adapt_threshold(500, 22, 1, 25, 100, 500, 0, 100_000), 0);
    assert_eq!(adapt_threshold(0, 22, 1, 25, 100, 500, 0, 100_000), 0);
}

#[test]
fn threshold_does_not_fall_below_the_minimum() {
    assert_eq!(adapt_threshold(15_000, 10, 1, 25, 100, 500, 15_000, 100_000), 15_000);
    assert_eq!(adapt_threshold(20_000, 10, 1, 25, 100, 500, 15_000, 100_000), 15_000);
    assert_eq!(adapt_threshold(16_000, 22, 1, 25, 100, 500, 15_000, 100_000), 15_000);
    assert_eq!(adapt_threshold(17_046, 22, 1, 25, 100, 500, 15_000, 100_000), 15_000);
    assert_eq!(adapt_threshold(17_047, 22, 1, 25, 100, 500, 15_000, 100_000), 15_001);
}

#[test]
fn threshold_rises_by_the_excess_and_by_the_step_at_least() {
    // 10 of 20 in excess is 50 %: 50 % of 15 is 7.5
    assert_eq!(adapt_threshold(15_000, 30, 1, 20, 100, 500, 15_000, 100_000), 22_500);
    // 5 of 25 in excess is 20 %, below the step of 50 %: 50 % of 15 is 7.5
    assert_eq!(adapt_threshold(15_000, 30, 1, 25, 100, 500, 15_000, 100_000), 22_500);
    // 25 of 25 in excess is 100 %: 100 % of 15 is 15
    assert_eq!(adapt_threshold(15_000, 50, 1, 25, 100, 500, 15_000, 100_000), 30_000);
    // exactly the step
    assert_eq!(adapt_threshold(20_000, 150, 1, 100, 100, 500, 15_000, 100_000), 30_000);
    // 50 % of 15.001 is 7.5005: the last thousandth is rounded down
    assert_eq!(adapt_threshold(15_001, 30, 1, 25, 100, 500, 15_000, 100_000), 22_501);
    // a rise of less than 1 is a rise of 1
    assert_eq!(adapt_threshold(1_000, 30, 1, 25, 100, 500, 0, 100_000), 2_000);
    assert_eq!(adapt_threshold(2_000, 30, 1, 25, 100, 500, 0, 100_000), 3_000);
    assert_eq!(adapt_threshold(2_002, 30, 1, 25, 100, 500, 0, 100_000), 3_003);
    assert_eq!(adapt_threshold(0, 30, 1, 25, 100, 500, 0, 100_000), 1_000);
}

#[test]
fn threshold_does_not_rise_above_the_maximum() {
    assert_eq!(adapt_threshold(15_000, 1_000, 1, 25, 100, 500, 15_000, 100_000), 100_000);
    assert_eq!(adapt_threshold(100_000, 30, 1, 25, 100, 500, 15_000, 100_000), 100_000);
    assert_eq!(adapt_threshold(99_000, 30, 1, 25, 100, 500, 15_000, 100_000), 100_000);
    assert_eq!(adapt_threshold(66_666, 30, 1, 25, 100, 500, 15_000, 100_000), 99_999);
    assert_eq!(adapt_threshold(66_667, 30, 1, 25, 100, 500, 15_000, 100_000), 100_000);
    assert_eq!(
        adapt_threshold(90_000, usize::MAX, u64::MAX, 1, 100, 500, 15_000, 100_000),
        100_000
    );
    assert_eq!(adapt_threshold(1, usize::MAX, u64::MAX, 1, 0, 0, 0, u64::MAX), u64::MAX);
    assert_eq!(adapt_threshold(u64::MAX, usize::MAX, u64::MAX, 1, 0, 0, 0, u64::MAX), u64::MAX);
    assert_eq!(adapt_threshold(u64::MAX, 0, 1, u64::MAX, 0, 0, 7, u64::MAX), 7);
}

#[test]
fn threshold_follows_the_target_of_each_detector() {
    // 4 detectors share a target of 100 keypoints: 25 each
    assert_eq!(adapt_threshold(50_000, 25, 4, 100, 100, 500, 15_000, 100_000), 50_000);
    assert_eq!(adapt_threshold(50_000, 10, 4, 100, 100, 500, 15_000, 100_000), 20_000);
    assert_eq!(adapt_threshold(15_000, 50, 4, 100, 100, 500, 15_000, 100_000), 30_000);
    // 3 detectors share 25 keypoints: 8 found is 4 % short, 9 found is 8 % over
    assert_eq!(adapt_threshold(50_000, 8, 3, 25, 100, 500, 15_000, 100_000), 50_000);
    assert_eq!(adapt_threshold(50_000, 9, 3, 25, 100, 500, 15_000, 100_000), 50_000);
    // 7 found is 16 % short: 16 % of 50 is 8
    assert_eq!(adapt_threshold(50_000, 7, 3, 25, 100, 500, 15_000, 100_000), 42_000);
}

#[test]
fn threshold_stays_without_a_target() {
    assert_eq!(adapt_threshold(50_000, 0, 1, 0, 100, 500, 15_000, 100_000), 50_000);
    assert_eq!(adapt_threshold(50_000, 1_000, 1, 0, 100, 500, 15_000, 100_000), 50_000);
}

#[test]
fn threshold_response_is_monotonic() {
    for threshold in [15_000u64, 15_001, 16_000, 22_500, 40_000, 99_999, 100_000] {
        for count in 0..60usize {
            let adapted = adapt_threshold(threshold, count, 1, 25, 100, 500, 15_000, 100_000);
            assert!(15_000 <= adapted && adapted <= 100_000);
            if (count as i64 - 25) * 1_000 < -2_500 {
                assert!(adapted <= threshold);
                assert!(adapted < threshold || adapted == 15_000);
            } else if (count as i64 - 25) * 1_000 > 2_500 {
                assert!(adapted >= threshold);
                assert!(adapted > threshold || adapted == 100_000);
            } else {
                assert_eq!(adapted, threshold);
            }
        }
    }
}
