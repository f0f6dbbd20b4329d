use incident_engine::engine::Engine;
use incident_engine::types::{InboundChangeWindow, InboundCommit, InboundEvent, InboundFrame, TriggerReason};
use incident_engine::Config;

fn make_inbound(severity: &str, env: &str) -> InboundEvent {
    InboundEvent {
        source: "sentry".into(),
        service: "api".into(),
        environment: env.into(),
        timestamp: "2025-01-15T10:30:00Z".into(),
        severity: severity.into(),
        exception_type: "TypeError".into(),
        message: "cannot read property x".into(),
        stacktrace: vec![InboundFrame {
            file: "src/handler.ts".into(),
            function: Some("handle".into()),
            line: Some(42),
        }],
        tags: vec![],
        links: vec![],
        change_window: None,
        correlation_hints: None,
        api_route: None,
        request_url: None,
    }
}

#[test]
fn new_prod_issue_triggers_incident() {
    let mut engine = Engine::with_defaults();
    let event = make_inbound("error", "prod");
    let result = engine.process(&event).unwrap();
    assert!(result.is_some());
    let summary = result.unwrap();
    assert_eq!(summary.trigger, TriggerReason::NewIssue);
    assert!(summary.incident_id.starts_with("inc-"));
    assert_eq!(summary.service, "api");
    assert_eq!(summary.environment, "prod");
    assert!(!summary.top_symptoms.is_empty());
    assert!(summary.priority_score <= 100);
}

#[test]
fn staging_event_does_not_trigger_new_issue() {
    let mut engine = Engine::with_defaults();
    let event = make_inbound("error", "staging");
    let result = engine.process(&event).unwrap();
    assert!(result.is_none());
}

#[test]
fn spike_triggers_in_any_env() {
    let mut engine = Engine::new(Config { spike_threshold_milli: 2000, ..Config::default() });
    for i in 0..5 {
        let mut event = make_inbound("error", "staging");
        event.timestamp = format!("2025-01-15T10:0{}:00Z", i);
        let _ = engine.process(&event);
    }
    let mut last_result = None;
    for _ in 0..20 {
        let mut event = make_inbound("error", "staging");
        event.timestamp = "2025-01-15T10:05:00Z".into();
        last_result = engine.process(&event).unwrap();
    }
    assert!(last_result.is_some());
    assert_eq!(last_result.unwrap().trigger, TriggerReason::Spike);
}

#[test]
fn incident_id_is_stable() {
    let mut engine1 = Engine::with_defaults();
    let mut engine2 = Engine::with_defaults();
    let event = make_inbound("error", "prod");
    let s1 = engine1.process(&event).unwrap().unwrap();
    let s2 = engine2.process(&event).unwrap().unwrap();
    assert_eq!(s1.incident_id, s2.incident_id);
}

#[test]
fn correlation_appears_with_change_window() {
    let mut engine = Engine::with_defaults();
    let mut event = make_inbound("error", "prod");
    event.change_window = Some(InboundChangeWindow {
        deploy_time: "2025-01-15T10:00:00Z".into(),
        commits: vec![InboundCommit {
            id: "abc123".into(),
            timestamp: Some("2025-01-15T09:50:00Z".into()),
            files: vec!["src/handler.ts".into()],
            risk_score: None,
        }],
    });
    let summary = engine.process(&event).unwrap().unwrap();
    assert!(!summary.suspected_causes.is_empty());
    assert_eq!(summary.suspected_causes[0].commit_id, "abc123");
}

#[test]
fn invalid_event_returns_error() {
    let mut engine = Engine::with_defaults();
    let mut event = make_inbound("error", "prod");
    event.timestamp = "not-a-date".into();
    let err = engine.process(&event).unwrap_err();
    assert!(err.describe().contains("timestamp"));
}

#[test]
fn summary_fields_are_exact() {
    let mut engine = Engine::with_defaults();
    let event = make_inbound("critical", "Prod");
    let s = engine.process(&event).unwrap().unwrap();
    assert_eq!(s.title, "New issue: TypeError in api/prod");
    assert_eq!(s.priority_score, 100);
    assert_eq!(s.incident_id.len(), 20);
    assert_eq!(s.start_time, "2025-01-15T10:30:00+00:00");
    assert_eq!(s.last_seen, "2025-01-15T10:30:00+00:00");
    assert_eq!(s.peak_time, Some("2025-01-15T10:30:00Z".to_string()));
    assert_eq!(s.top_symptoms[0].count, 1);
    assert_eq!(s.top_symptoms[0].spike_factor_centi, 100);
    assert_eq!(s.top_symptoms[0].fingerprint.len(), 32);
    assert_eq!(s.stacktrace[0].line, Some(42));
    assert_eq!(
        s.recommended_first_actions,
        vec![
            "Investigate the new exception type and its root cause".to_string(),
            "Check if a recent deploy introduced this code path".to_string()
        ]
    );
}

#[test]
fn deploy_event_always_reports() {
    let mut engine = Engine::with_defaults();
    let mut event = make_inbound("warning", "staging");
    event.exception_type = "GitPush".into();
    let s = engine.process(&event).unwrap().unwrap();
    assert_eq!(s.trigger, TriggerReason::Deploy);
    assert_eq!(s.priority_score, 35);
    assert!(s.title.starts_with("Deploy: "));
}

#[test]
fn regression_in_production_after_quiet_hour() {
    let mut engine = Engine::with_defaults();
    let mut first = make_inbound("error", "prod");
    first.timestamp = "2025-01-15T10:00:00Z".into();
    assert!(engine.process(&first).unwrap().is_some());
    let mut soon = make_inbound("error", "prod");
    soon.timestamp = "2025-01-15T10:00:30Z".into();
    assert!(engine.process(&soon).unwrap().is_none());
    let mut late = make_inbound("error", "prod");
    late.timestamp = "2025-01-15T11:45:00Z".into();
    let s = engine.process(&late).unwrap().unwrap();
    assert_eq!(s.trigger, TriggerReason::Regression);
    assert_eq!(s.top_symptoms[0].count, 3);
    assert_eq!(engine.group_count(), 1);
    assert_eq!(engine.events(), 3);
}

#[test]
fn rejected_event_leaves_engine_untouched() {
    let mut engine = Engine::with_defaults();
    let mut event = make_inbound("loud", "prod");
    let err = engine.process(&event).unwrap_err();
    assert!(err.describe().contains("severity"));
    event.severity = "error".into();
    event.stacktrace.clear();
    let err = engine.process(&event).unwrap_err();
    assert!(err.describe().contains("stacktrace"));
    assert_eq!(engine.group_count(), 0);
    assert_eq!(engine.events(), 0);
}
