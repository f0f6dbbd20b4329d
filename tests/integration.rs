use incident_engine::types::{InboundChangeWindow, InboundCommit, InboundEvent, InboundFrame, TriggerReason};
use incident_engine::{Config, Engine};

fn frame(file: &str, function: &str, line: u32) -> InboundFrame {
    InboundFrame { file: file.into(), function: Some(function.into()), line: Some(line) }
}

fn fixture_event() -> InboundEvent {
    InboundEvent {
        source: "sentry".into(),
        service: "api".into(),
        environment: "prod".into(),
        timestamp: "2025-01-15T10:30:00Z".into(),
        severity: "error".into(),
        exception_type: "TypeError".into(),
        message: "Cannot read property 'id' of undefined".into(),
        stacktrace: vec![frame("src/handler.ts", "handleRequest", 42), frame("src/middleware/auth.ts", "verifyToken", 18)],
        tags: vec![("release".into(), "v1.2.3".into()), ("endpoint".into(), "/api/payments".into())],
        links: vec![("source_url".into(), "https://sentry.io/issues/12345".into())],
        change_window: Some(InboundChangeWindow {
            deploy_time: "2025-01-15T10:00:00Z".into(),
            commits: vec![
                InboundCommit {
                    id: "abc123def".into(),
                    timestamp: Some("2025-01-15T09:50:00Z".into()),
                    files: vec!["src/handler.ts".into(), "src/utils/format.ts".into()],
                    risk_score: None,
                },
                InboundCommit {
                    id: "fff999aaa".into(),
                    timestamp: Some("2025-01-15T09:45:00Z".into()),
                    files: vec!["src/unrelated/config.ts".into()],
                    risk_score: None,
                },
            ],
        }),
        correlation_hints: None,
        api_route: None,
        request_url: None,
    }
}

fn simple_event(env: &str, timestamp: &str, stacktrace: Vec<InboundFrame>) -> InboundEvent {
    InboundEvent {
        source: "sentry".into(),
        service: "api".into(),
        environment: env.into(),
        timestamp: timestamp.into(),
        severity: "error".into(),
        exception_type: "TypeError".into(),
        message: "boom".into(),
        stacktrace,
        tags: vec![],
        links: vec![],
        change_window: None,
        correlation_hints: None,
        api_route: None,
        request_url: None,
    }
}

#[test]
fn single_prod_event_produces_incident_summary() {
    let mut engine = Engine::with_defaults();
    let event = fixture_event();
    let result = engine.process(&event).unwrap();
    assert!(result.is_some(), "First prod event should trigger NewIssue");
    let summary = result.unwrap();
    assert!(summary.incident_id.starts_with("inc-"));
    assert_eq!(summary.service, "api");
    assert_eq!(summary.environment, "prod");
    assert!(!summary.title.is_empty());
    assert!(summary.priority_score > 0 && summary.priority_score <= 100);
    assert_eq!(summary.top_symptoms.len(), 1);
    assert_eq!(summary.top_symptoms[0].exception_type, "TypeError");
    assert!(
        !summary.suspected_causes.is_empty(),
        "Should have at least one suspect (abc123def overlaps stack frames)"
    );
    assert_eq!(summary.suspected_causes[0].commit_id, "abc123def");
    assert!(summary.links.iter().any(|(k, _)| k == "source_url"));
    assert!(!summary.recommended_first_actions.is_empty());
}

#[test]
fn deterministic_output_across_runs() {
    let event = fixture_event();
    let mut engine1 = Engine::with_defaults();
    let s1 = engine1.process(&event).unwrap().unwrap();
    let mut engine2 = Engine::with_defaults();
    let s2 = engine2.process(&event).unwrap().unwrap();
    assert_eq!(format!("{:?}", s1), format!("{:?}", s2), "Same inputs must produce identical JSON output");
}

#[test]
fn unknown_fields_are_ignored() {
    let raw = simple_event("prod", "2025-01-15T10:30:00Z", vec![frame("src/a.ts", "f", 1)]);
    let mut engine = Engine::with_defaults();
    let result = engine.process(&raw);
    assert!(result.is_ok());
}

#[test]
fn missing_required_field_gives_clear_error() {
    let raw = simple_event("prod", "2025-01-15T10:30:00Z", vec![]);
    let mut engine = Engine::with_defaults();
    let err = engine.process(&raw).unwrap_err();
    assert!(
        err.describe().contains("stacktrace"),
        "Error should mention the field: {}",
        err.describe()
    );
}

#[test]
fn spike_detection_over_multiple_events() {
    let mut engine = Engine::new(Config { spike_threshold_milli: 3000, ..Config::default() });
    for i in 0..5 {
        let raw = simple_event("staging", &format!("2025-01-15T10:0{}:00Z", i), vec![frame("src/a.ts", "f", 1)]);
        let _ = engine.process(&raw);
    }
    let mut triggered = false;
    for _ in 0..20 {
        let raw = simple_event("staging", "2025-01-15T10:05:00Z", vec![frame("src/a.ts", "f", 1)]);
        if let Ok(Some(summary)) = engine.process(&raw) {
            assert_eq!(summary.trigger, TriggerReason::Spike);
            triggered = true;
        }
    }
    assert!(triggered, "Spike should have been detected during the burst");
}

#[test]
fn fixture_suspects_and_actions_exact() {
    let mut engine = Engine::with_defaults();
    let s = engine.process(&fixture_event()).unwrap().unwrap();
    assert_eq!(s.suspected_causes.len(), 2);
    assert_eq!(s.suspected_causes[0].score_milli, 644);
    assert_eq!(s.suspected_causes[1].commit_id, "fff999aaa");
    assert_eq!(s.suspected_causes[1].score_milli, 294);
    assert_eq!(s.recommended_first_actions.len(), 3);
    assert_eq!(s.recommended_first_actions[2], "Review top suspect commit: abc123def");
    assert_eq!(s.stacktrace.len(), 2);
    assert_eq!(s.stacktrace[1].line, Some(18));
}

#[test]
fn same_issue_in_other_case_and_slashes_groups_together() {
    let mut engine = Engine::with_defaults();
    let a = simple_event("prod", "2025-01-15T10:30:00Z", vec![frame("src/a.ts", "f", 1), frame("src/b.ts", "g", 2)]);
    let mut b = simple_event("PROD", "2025-01-15T10:30:10Z", vec![frame(".\\SRC\\a.ts", "f", 9), frame("src//b.ts", "g", 7)]);
    b.service = "API".into();
    assert!(engine.process(&a).unwrap().is_some());
    assert!(engine.process(&b).unwrap().is_none());
    assert_eq!(engine.group_count(), 1);
}
