use homo::gui::rate::{classify_window, InputRateCategory, ProcessingStrategy, RateClassifier};

const MS: u64 = 1_000_000;

fn category_after(times: &[u64]) -> InputRateCategory {
    let mut classifier = RateClassifier::new();
    for time in times {
        classifier.observe(*time);
    }
    classifier.category()
}

fn steady(start: u64, interval: u64, count: u64) -> Vec<u64> {
    (0..count).map(|i| start + i * interval).collect()
}

#[test]
fn scheduling_table() {
    assert_eq!(InputRateCategory::Slow.processing_window(), 50 * MS);
    assert_eq!(InputRateCategory::Medium.processing_window(), 200 * MS);
    assert_eq!(InputRateCategory::Fast.processing_window(), 500 * MS);
    assert_eq!(InputRateCategory::Extreme.processing_window(), 1000 * MS);
    assert_eq!(InputRateCategory::Slow.max_batch_size(), 5);
    assert_eq!(InputRateCategory::Medium.max_batch_size(), 15);
    assert_eq!(InputRateCategory::Fast.max_batch_size(), 50);
    assert_eq!(InputRateCategory::Extreme.max_batch_size(), 200);
    assert_eq!(InputRateCategory::Slow.strategy(), ProcessingStrategy::Incremental);
    assert_eq!(InputRateCategory::Medium.strategy(), ProcessingStrategy::Incremental);
    assert_eq!(InputRateCategory::Fast.strategy(), ProcessingStrategy::Aggressive);
    assert_eq!(InputRateCategory::Extreme.strategy(), ProcessingStrategy::Aggressive);
}

#[test]
fn classifier_starts_slow_and_empty() {
    let classifier = RateClassifier::new();
    assert_eq!(classifier.category(), InputRateCategory::Slow);
    assert_eq!(classifier.sample_count(), 0);
}

#[test]
fn steady_fifty_milliseconds_is_medium() {
    assert_eq!(category_after(&steady(1_000, 50 * MS, 5)), InputRateCategory::Medium);
    assert_eq!(category_after(&steady(0, 50 * MS, 3)), InputRateCategory::Medium);
    assert_eq!(category_after(&steady(7, 50 * MS, 40)), InputRateCategory::Medium);
}

#[test]
fn steady_cadences_give_the_documented_categories() {
    assert_eq!(category_after(&steady(0, 500 * MS, 6)), InputRateCategory::Slow);
    assert_eq!(category_after(&steady(0, 101 * MS, 6)), InputRateCategory::Slow);
    assert_eq!(category_after(&steady(0, 20 * MS, 6)), InputRateCategory::Medium);
    assert_eq!(category_after(&steady(0, 5 * MS, 6)), InputRateCategory::Fast);
    assert_eq!(category_after(&steady(0, MS / 2, 6)), InputRateCategory::Extreme);
    assert_eq!(category_after(&steady(0, 0, 6)), InputRateCategory::Extreme);
}

#[test]
fn thresholds_belong_to_the_faster_category() {
    assert_eq!(category_after(&steady(0, 100 * MS, 4)), InputRateCategory::Medium);
    assert_eq!(category_after(&steady(0, 100 * MS + 1, 4)), InputRateCategory::Slow);
    assert_eq!(category_after(&steady(0, 10 * MS, 4)), InputRateCategory::Fast);
    assert_eq!(category_after(&steady(0, 10 * MS + 1, 4)), InputRateCategory::Medium);
    assert_eq!(category_after(&steady(0, MS, 4)), InputRateCategory::Extreme);
    assert_eq!(category_after(&steady(0, MS + 1, 4)), InputRateCategory::Fast);
}

#[test]
fn mean_is_taken_over_the_whole_window() {
    // Intervals of 1 ms and 299 ms: the mean is 150 ms.
    assert_eq!(category_after(&[0, MS, 300 * MS]), InputRateCategory::Slow);
    // Intervals of 1 ms and 19 ms: the mean is 10 ms, which is not above 10 ms.
    assert_eq!(category_after(&[0, MS, 20 * MS]), InputRateCategory::Fast);
    // A mean just above the threshold, by less than a nanosecond per interval.
    assert_eq!(category_after(&[0, 0, 0, 300 * MS + 1]), InputRateCategory::Slow);
    assert_eq!(category_after(&[0, 0, 0, 300 * MS]), InputRateCategory::Medium);
}

#[test]
fn classify_window_compares_the_mean() {
    assert_eq!(classify_window(200 * MS, 2), InputRateCategory::Medium);
    assert_eq!(classify_window(200 * MS + 1, 2), InputRateCategory::Slow);
    assert_eq!(classify_window(0, 9), InputRateCategory::Extreme);
    assert_eq!(classify_window(9 * MS + 1, 9), InputRateCategory::Fast);
    assert_eq!(classify_window(u64::MAX, u64::MAX), InputRateCategory::Extreme);
    assert_eq!(classify_window(u64::MAX, 1), InputRateCategory::Slow);
    assert_eq!(classify_window(0, 0), InputRateCategory::Extreme);
    assert_eq!(classify_window(1, 0), InputRateCategory::Slow);
}

#[test]
fn fewer_than_three_samples_keep_the_category() {
    assert_eq!(category_after(&[0]), InputRateCategory::Slow);
    assert_eq!(category_after(&[0, 1]), InputRateCategory::Slow);
    let mut classifier = RateClassifier::new();
    for time in steady(0, MS / 2, 5) {
        classifier.observe(time);
    }
    assert_eq!(classifier.category(), InputRateCategory::Extreme);
    // Three seconds later the old samples are stale and one sample is left.
    classifier.observe(3_000 * MS);
    assert_eq!(classifier.sample_count(), 1);
    assert_eq!(classifier.category(), InputRateCategory::Extreme);
    classifier.observe(3_200 * MS);
    assert_eq!(classifier.sample_count(), 2);
    assert_eq!(classifier.category(), InputRateCategory::Extreme);
    classifier.observe(3_400 * MS);
    assert_eq!(classifier.sample_count(), 3);
    assert_eq!(classifier.category(), InputRateCategory::Slow);
}

#[test]
fn window_holds_at_most_ten_samples() {
    let mut classifier = RateClassifier::new();
    for (count, time) in steady(0, MS, 25).into_iter().enumerate() {
        classifier.observe(time);
        assert_eq!(classifier.sample_count(), (count + 1).min(10));
    }
}

#[test]
fn window_drops_samples_older_than_two_seconds() {
    let mut classifier = RateClassifier::new();
    for time in steady(0, 600 * MS, 8) {
        classifier.observe(time);
    }
    // Ages 0, 600, 1200, 1800 ms stay; 2400 ms is stale.
    assert_eq!(classifier.sample_count(), 4);
    assert_eq!(classifier.category(), InputRateCategory::Slow);
    let mut classifier = RateClassifier::new();
    classifier.observe(0);
    classifier.observe(2_000 * MS);
    // Exactly two seconds old is not stale.
    assert_eq!(classifier.sample_count(), 2);
    classifier.observe(2_000 * MS + 1);
    assert_eq!(classifier.sample_count(), 2);
}

#[test]
fn clock_running_backwards_counts_as_no_time() {
    assert_eq!(category_after(&[500 * MS, 400 * MS, 300 * MS]), InputRateCategory::Extreme);
}
