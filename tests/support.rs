use incident_engine::config::Config;
use incident_engine::deps::{compare, flatten, Deps};
use incident_engine::engine::{decide_trigger, incident_id, priority_score};
use incident_engine::error::EngineError;
use incident_engine::ingest::daily_increment;
use incident_engine::time::parse_rfc3339;
use incident_engine::types::{ErrorOutput, Severity, TriggerReason};

fn deps(pairs: &[(&str, &str)]) -> Deps {
    let mut d = Deps::new();
    for (n, v) in pairs {
        d.insert(n.to_string(), v.to_string());
    }
    d
}

#[test]
fn flatten_prefers_runtime_versions() {
    let all = flatten(&deps(&[("react", "18"), ("axios", "1")]), &deps(&[("jest", "29"), ("react", "17")]));
    assert_eq!(all.len(), 3);
    assert_eq!(all.version("react"), "18");
    assert_eq!(all.version("jest"), "29");
    assert_eq!(all.version("nope"), "");
}

#[test]
fn compare_lists_differences_in_name_order() {
    let a = deps(&[("zod", "3"), ("axios", "1"), ("react", "18"), ("empty", "")]);
    let b = deps(&[("react", "17"), ("lodash", "4"), ("axios", "1"), ("empty", "2")]);
    let (only_a, only_b, changed) = compare(&a, &b);
    assert_eq!(only_a, vec!["zod@3".to_string()]);
    assert_eq!(only_b, vec!["empty@2".to_string(), "lodash@4".to_string()]);
    assert_eq!(changed, vec![("react".to_string(), "18".to_string(), "17".to_string())]);
    let (x, y, z) = compare(&a, &a);
    assert!(x.is_empty() && y.is_empty() && z.is_empty());
}

#[test]
fn daily_increment_clamps_and_dates() {
    let d = daily_increment("2025-01-15T10:30:00Z", 150).unwrap();
    assert_eq!(d.stat_date, "2025-01-15");
    assert_eq!(d.impact_score, 100);
    assert_eq!(daily_increment("2025-01-15T23:30:00-05:00", -3).unwrap().stat_date, "2025-01-16");
    assert_eq!(daily_increment("2025-01-15T10:30:00Z", -3).unwrap().impact_score, 0);
    assert_eq!(daily_increment("2025-01-15T10:30:00Z", 42).unwrap().impact_score, 42);
    assert!(daily_increment("15/01/2025", 10).is_none());
}

#[test]
fn priority_scores_exact() {
    assert_eq!(priority_score(Severity::Critical, TriggerReason::Spike, 20_000), 100);
    assert_eq!(priority_score(Severity::Error, TriggerReason::Regression, 2_500), 78);
    assert_eq!(priority_score(Severity::Warning, TriggerReason::Spike, 999), 50);
    assert_eq!(priority_score(Severity::Warning, TriggerReason::NewIssue, 1_499), 40);
    assert_eq!(priority_score(Severity::Warning, TriggerReason::NewIssue, 1_500), 41);
}

#[test]
fn trigger_priority_order() {
    assert_eq!(decide_trigger("GitPush", true, "prod", true, 9_000, 3_000), Some(TriggerReason::Deploy));
    assert_eq!(decide_trigger("E", true, "prod", true, 9_000, 3_000), Some(TriggerReason::NewIssue));
    assert_eq!(decide_trigger("E", false, "prod", true, 9_000, 3_000), Some(TriggerReason::Regression));
    assert_eq!(decide_trigger("E", true, "staging", true, 3_000, 3_000), Some(TriggerReason::Spike));
    assert_eq!(decide_trigger("E", true, "staging", true, 2_999, 3_000), None);
}

#[test]
fn incident_id_digest() {
    let t = parse_rfc3339("2025-01-15T10:30:45Z").unwrap();
    let id = incident_id("0123456789abcdef0123456789abcdef", &t);
    let expected = blake3::hash(b"0123456789abcdef0123456789abcdef|2025-01-15T10:30").to_hex().to_string();
    assert_eq!(id, format!("inc-{}", &expected[..16]));
}

#[test]
fn errors_and_error_records() {
    let e = EngineError::validation("source", "must not be empty");
    assert_eq!(e.describe(), "validation: source: must not be empty");
    let p = EngineError::parse("bad json".to_string());
    assert_eq!(p.describe(), "parse: bad json");
    let o = ErrorOutput::new("oops".to_string()).with_field("timestamp".to_string());
    assert!(o.error);
    assert_eq!(o.message, "oops");
    assert_eq!(o.field, Some("timestamp".to_string()));
    assert_eq!(ErrorOutput::new("x".to_string()).field, None);
}

#[test]
fn config_weights_clamped() {
    let c = Config::with_correlation_weights(Some(1500), None, Some(-4));
    assert_eq!(c.correlation_file_weight_milli, 1000);
    assert_eq!(c.correlation_time_weight_milli, 300);
    assert_eq!(c.correlation_risk_weight_milli, 0);
    let d = Config::default();
    assert_eq!(d.spike_threshold_milli, 3000);
    assert_eq!(d.ewma_alpha_milli, 300);
    assert_eq!(d.correlation_max_hours, 24);
}

#[test]
fn ids_from_digests() {
    let hex = "00112233445566778899aabbccddeeff0123456789abcdef0123456789abcdef";
    assert_eq!(
        incident_engine::fingerprint::fingerprint_from_digest(hex).0,
        "00112233445566778899aabbccddeeff"
    );
    assert_eq!(incident_engine::engine::incident_id_from_digest(hex), "inc-0011223344556677");
}
