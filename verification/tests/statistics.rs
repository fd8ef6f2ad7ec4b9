use millipede_core::statistics::{
    duration_average, is_uuid_token, normalize_error_key, statistics_persist_key, Statistics,
};
use millipede_core::time::{Duration, Instant};
use std::collections::BTreeMap;

fn at(millis: u128) -> Instant {
    Instant { nanos: millis * 1_000_000 }
}

#[test]
fn counters() {
    let mut statistics = Statistics::new();
    statistics.record_finished(Duration::from_millis(10), None, 0, at(0));
    statistics.record_finished(Duration::from_millis(20), None, 1, at(0));
    statistics.record_finished(Duration::from_millis(30), None, 1, at(0));
    statistics.record_failed(Duration::from_millis(40), "non-retryable: boom", 2, at(0));
    for _ in 0..3 {
        statistics.record_retry("retryable: flaky", at(0));
    }
    let snapshot = statistics.snapshot(at(0));
    assert_eq!(snapshot.requests_finished, 3);
    assert_eq!(snapshot.requests_failed, 1);
    assert_eq!(snapshot.requests_retries, 3);
    assert_eq!(snapshot.retry_histogram, &vec![1, 2, 1]);
    assert_eq!(snapshot.errors.keys(), ["non-retryable: boom"]);
    assert_eq!(snapshot.errors.get("non-retryable: boom"), Some(&1));
    assert_eq!(snapshot.retry_errors.keys(), ["retryable: flaky"]);
    assert_eq!(snapshot.retry_errors.get("retryable: flaky"), Some(&3));
    assert_eq!(snapshot.request_min_duration, Duration::from_millis(10));
    assert_eq!(snapshot.request_max_duration, Duration::from_millis(40));
    assert_eq!(snapshot.request_avg_duration, Duration::from_millis(25));
}

#[test]
fn normalize_error_key_collapses_digits() {
    assert_eq!(normalize_error_key("non-retryable: boom 42"), "non-retryable: boom #");
    assert_eq!(normalize_error_key("non-retryable: boom 999"), "non-retryable: boom #");
    assert_eq!(normalize_error_key("timeout after 5031ms"), "timeout after #ms");
}

#[test]
fn normalize_error_key_masks_urls() {
    assert_eq!(
        normalize_error_key("non-retryable: fetch https://a.com/1 failed"),
        "non-retryable: fetch <url> failed"
    );
    assert_eq!(
        normalize_error_key("non-retryable: fetch https://b.com/2 failed"),
        "non-retryable: fetch <url> failed"
    );
}

#[test]
fn normalize_error_key_masks_uuid() {
    assert_eq!(
        normalize_error_key("session: id 550e8400-e29b-41d4-a716-446655440000 failed"),
        "session: id <uuid> failed"
    );
}

#[test]
fn normalize_error_key_only_first_line() {
    assert_eq!(
        normalize_error_key("retryable: boom\ncaused by: id 42"),
        "retryable: boom"
    );
}

#[test]
fn error_keys_at_the_edges() {
    assert_eq!(normalize_error_key(""), "");
    assert_eq!(normalize_error_key("\nx"), "");
    assert_eq!(normalize_error_key("  a \t b\r\nrest"), "a b");
    assert_eq!(normalize_error_key("x1y22z333"), "x#y#z#");
    assert_eq!(normalize_error_key("http://x"), "<url>");
    assert_eq!(normalize_error_key("(http://x1)"), "(http://x#)");
    assert_eq!(normalize_error_key(&"a".repeat(300)).len(), 200);
    assert!(is_uuid_token("550E8400-e29b-41d4-a716-446655440000"));
    assert!(!is_uuid_token("550e8400-e29b-41d4-a716-44665544000"));
    assert!(!is_uuid_token("550e8400-e29b-41d4-a716-446655440000-"));
    assert!(!is_uuid_token("550e8400-e29b-41d4-a716-44665544000g"));
}

#[test]
fn similar_failures_group_into_one_bucket() {
    let mut statistics = Statistics::new();
    let span = Duration::from_millis(10);
    statistics.record_failed(span, "non-retryable: fetch https://x/1 failed", 0, at(0));
    statistics.record_failed(span, "non-retryable: fetch https://y/2 failed", 0, at(0));
    assert_eq!(statistics.errors.keys().len(), 1);
    assert_eq!(statistics.errors.get("non-retryable: fetch <url> failed"), Some(&2));
    statistics.record_failed(span, "session: fetch https://z/3 failed", 0, at(0));
    assert_eq!(statistics.errors.keys().len(), 2);
    assert!(statistics.errors.contains_key("session: fetch <url> failed"));
}

#[test]
fn sliding_window() {
    let mut statistics = Statistics::with_window(Duration::from_millis(50));
    let none = Duration { nanos: 0 };
    for _ in 0..3 {
        statistics.record_finished(none, None, 0, at(0));
    }
    statistics.record_failed(none, "x", 0, at(50));
    assert_eq!(statistics.snapshot(at(50)).finished_in_window, 3);
    statistics.record_finished(none, None, 0, at(80));
    let snapshot = statistics.snapshot(at(80));
    assert_eq!((snapshot.finished_in_window, snapshot.failed_in_window), (1, 1));
    assert_eq!(snapshot.requests_finished, 4);
}

#[test]
fn status_codes() {
    let mut statistics = Statistics::new();
    let none = Duration { nanos: 0 };
    statistics.record_finished(none, Some(200), 0, at(0));
    statistics.record_finished(none, Some(200), 0, at(0));
    statistics.record_finished(none, Some(404), 0, at(0));
    assert_eq!(
        statistics.snapshot(at(0)).status_codes,
        &BTreeMap::from([(200, 2), (404, 1)])
    );
}

#[test]
fn runtime_accumulates_across_start_and_stop() {
    let mut statistics = Statistics::new();
    statistics.mark_run_started(at(10));
    statistics.mark_run_started(at(20));
    assert_eq!(statistics.snapshot(at(40)).crawler_runtime, Duration::from_millis(30));
    statistics.mark_run_stopped(at(50));
    assert_eq!(statistics.snapshot(at(90)).crawler_runtime, Duration::from_millis(40));
    statistics.mark_run_started(at(100));
    assert_eq!(statistics.snapshot(at(101)).crawler_runtime, Duration::from_millis(41));
}

#[test]
fn statistics_are_stored_and_restored() {
    let mut statistics = Statistics::new();
    statistics.mark_run_started(at(0));
    statistics.record_finished(Duration::from_millis(10), Some(200), 1, at(5));
    let stored = statistics.into_persisted(at(30));
    assert_eq!(stored.accumulated_runtime, Duration::from_millis(30));
    let mut restored = Statistics::new();
    restored.restore(stored);
    let snapshot = restored.snapshot(at(500));
    assert_eq!(snapshot.requests_finished, 1);
    assert_eq!(snapshot.retry_histogram, &vec![0, 1]);
    assert_eq!(snapshot.finished_in_window, 0);
    assert_eq!(snapshot.crawler_runtime, Duration::from_millis(30));
}

#[test]
fn any_stored_counts_are_restored() {
    let mut stored = Statistics::new().into_persisted(at(0));
    stored.retry_histogram = vec![7, u64::MAX];
    stored.errors.insert("gone", u64::MAX);
    let mut restored = Statistics::new();
    restored.restore(stored);
    restored.record_failed(Duration::from_millis(3), "other", 0, at(5));
    assert_eq!(restored.retry_histogram, vec![8, u64::MAX]);
    assert_eq!(restored.errors.get("gone"), Some(&u64::MAX));
    assert_eq!(restored.errors.get("other"), Some(&1));
}

#[test]
fn statistics_add_up() {
    let mut statistics = Statistics::new();
    statistics.record_finished(Duration::from_millis(10), Some(200), 2, at(1));
    statistics.record_finished(Duration::from_millis(40), None, 0, at(2));
    statistics.record_failed(Duration::from_millis(25), "gone", 2, at(3));
    statistics.record_retry("a  1", at(4));
    statistics.record_retry("a\t2\nmore", at(5));
    let snapshot = statistics.snapshot(at(6));
    assert_eq!(snapshot.retry_histogram.iter().sum::<u64>(), 3);
    assert_eq!(snapshot.status_codes.values().sum::<u64>(), 1);
    assert_eq!(snapshot.errors.get("gone"), Some(&1));
    assert_eq!(snapshot.retry_errors.get("a #"), Some(&2));
    assert!(snapshot.request_min_duration.nanos <= snapshot.request_avg_duration.nanos);
    assert!(snapshot.request_avg_duration.nanos <= snapshot.request_max_duration.nanos);
}

#[test]
fn averages_round_down() {
    let total = Duration { nanos: 10 };
    assert_eq!(duration_average(total, 3).nanos, 3);
    assert_eq!(statistics_persist_key(), "SDK_CRAWLER_STATISTICS_0");
}
