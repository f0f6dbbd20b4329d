use incident_engine::config::Config;
use incident_engine::stats::{peak_bucket, record_event};
use incident_engine::time::{minute_bucket, parse_rfc3339, parse_stat_date, Timestamp};
use incident_engine::types::{Bucket, StatsState};

fn ts(min: u32) -> Timestamp {
    parse_rfc3339(&format!("2025-01-15T10:{:02}:00Z", min)).unwrap()
}

#[test]
fn minute_bucket_format() {
    let t = parse_rfc3339("2025-06-01T14:05:30Z").unwrap();
    assert_eq!(minute_bucket(&t), "2025-06-01T14:05");
}

#[test]
fn first_event_spike_factor_is_one() {
    let config = Config::default();
    let mut stats = StatsState::new(ts(0));
    let (spike, regression) = record_event(&mut stats, ts(0), &config);
    assert_eq!(spike, 1000);
    assert!(!regression);
    assert_eq!(stats.total_count, 1);
}

#[test]
fn spike_detected_with_burst() {
    let config = Config { spike_threshold_milli: 3000, ..Config::default() };
    let mut stats = StatsState::new(ts(0));
    for m in 0..5 {
        record_event(&mut stats, ts(m), &config);
    }
    let mut last_spike = 0;
    for _ in 0..10 {
        let (spike, _) = record_event(&mut stats, ts(5), &config);
        last_spike = spike;
    }
    assert!(
        last_spike >= config.spike_threshold_milli as u128,
        "spike_factor {} should exceed threshold {}",
        last_spike,
        config.spike_threshold_milli
    );
}

#[test]
fn regression_detected_after_quiet_window() {
    let config = Config { regression_quiet_minutes: 60, ..Config::default() };
    let mut stats = StatsState::new(ts(0));
    record_event(&mut stats, ts(0), &config);
    let late = parse_rfc3339("2025-01-15T11:30:00Z").unwrap();
    let (_, regression) = record_event(&mut stats, late, &config);
    assert!(regression);
}

#[test]
fn no_regression_within_quiet_window() {
    let config = Config { regression_quiet_minutes: 60, ..Config::default() };
    let mut stats = StatsState::new(ts(0));
    record_event(&mut stats, ts(0), &config);
    let soon = parse_rfc3339("2025-01-15T10:30:00Z").unwrap();
    let (_, regression) = record_event(&mut stats, soon, &config);
    assert!(!regression);
}

#[test]
fn baseline_follows_ewma_steps() {
    let config = Config::default();
    let mut stats = StatsState::new(ts(0));
    record_event(&mut stats, ts(0), &config);
    assert_eq!(stats.baseline_micro, 0);
    let (s, _) = record_event(&mut stats, ts(0), &config);
    assert_eq!(s, 2000);
    let (s, _) = record_event(&mut stats, ts(1), &config);
    assert_eq!(stats.baseline_micro, 600_000);
    assert_eq!(s, 1666);
    record_event(&mut stats, ts(1), &config);
    assert_eq!(stats.baseline_micro, 600_000);
    assert_eq!(stats.buckets.len(), 2);
    assert_eq!(stats.total_count, 4);
    assert_eq!(stats.quiet_minutes, 1);
}

#[test]
fn exactly_quiet_window_is_regression() {
    let config = Config { regression_quiet_minutes: 60, ..Config::default() };
    let mut stats = StatsState::new(ts(0));
    record_event(&mut stats, ts(0), &config);
    let edge = parse_rfc3339("2025-01-15T11:00:00Z").unwrap();
    let (_, regression) = record_event(&mut stats, edge, &config);
    assert!(regression);
    assert_eq!(stats.quiet_minutes, 60);
}

#[test]
fn peak_prefers_earliest_on_ties() {
    let b = vec![
        Bucket { minute: 7, count: 3 },
        Bucket { minute: 2, count: 5 },
        Bucket { minute: 1, count: 5 },
    ];
    assert_eq!(peak_bucket(&b), Some(Bucket { minute: 1, count: 5 }));
    assert_eq!(peak_bucket(&vec![]), None);
}

#[test]
fn stat_dates_and_ranges() {
    assert_eq!(parse_stat_date("2025-03-04T23:30:00-02:00"), Some("2025-03-05".to_string()));
    assert_eq!(parse_stat_date("nope"), None);
    assert!(Timestamp::from_unix(0, 0).is_some());
    assert!(Timestamp::from_unix(0, 1_500_000_000).is_none());
    assert!(Timestamp::from_unix(59, 1_500_000_000).is_some());
    assert!(Timestamp::from_unix(i64::MAX, 0).is_none());
    let a = parse_rfc3339("2025-01-15T10:00:00Z").unwrap();
    let b = parse_rfc3339("2025-01-15T10:59:59.9Z").unwrap();
    assert_eq!(b.minutes_since(&a), 59);
    assert_eq!(a.minutes_since(&b), 0);
    assert_eq!(a.minute_index(), a.secs / 60);
}
