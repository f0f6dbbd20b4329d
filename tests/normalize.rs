use incident_engine::error::EngineError;
use incident_engine::normalize::{normalize, normalize_path};
use incident_engine::types::{InboundChangeWindow, InboundCommit, InboundEvent, InboundFrame, InboundHints, Severity};

fn raw(source: &str, service: &str, env: &str) -> InboundEvent {
    InboundEvent {
        source: source.into(),
        service: service.into(),
        environment: env.into(),
        timestamp: "2025-01-15T10:30:00Z".into(),
        severity: "error".into(),
        exception_type: "TypeError".into(),
        message: "boom".into(),
        stacktrace: vec![InboundFrame { file: "src/a.rs".into(), function: Some("main".into()), line: Some(1) }],
        tags: vec![],
        links: vec![],
        change_window: None,
        correlation_hints: None,
        api_route: None,
        request_url: None,
    }
}

fn field_of(e: &EngineError) -> String {
    match e {
        EngineError::Validation { field, .. } => field.clone(),
        EngineError::Parse(m) => m.clone(),
    }
}

#[test]
fn normalize_path_basics() {
    assert_eq!(normalize_path("src\\auth\\jwt.go"), "src/auth/jwt.go");
    assert_eq!(normalize_path("./src//utils/index.ts"), "src/utils/index.ts");
    assert_eq!(normalize_path("SRC/App.tsx"), "src/app.tsx");
}

#[test]
fn normalize_rejects_empty_source() {
    let r = raw("", "api", "prod");
    let err = normalize(&r).unwrap_err();
    assert!(err.describe().contains("source"));
}

#[test]
fn normalize_valid_event() {
    let mut r = raw("sentry", "API", "Prod");
    r.message = "cannot read property x".into();
    r.stacktrace = vec![InboundFrame { file: "src/handler.ts".into(), function: Some("handle".into()), line: Some(42) }];
    let event = normalize(&r).unwrap();
    assert_eq!(event.service, "api");
    assert_eq!(event.environment, "prod");
    assert_eq!(event.severity, Severity::Error);
    assert_eq!(event.frames[0].file, "src/handler.ts");
}

#[test]
fn each_field_rejected_in_order() {
    let mut r = raw("sentry", "api", "prod");
    r.timestamp = "yesterday".into();
    r.source = "".into();
    assert_eq!(field_of(&normalize(&r).unwrap_err()), "timestamp");
    let mut r = raw("sentry", "api", "prod");
    r.severity = "meh".into();
    assert_eq!(field_of(&normalize(&r).unwrap_err()), "severity");
    for (i, name) in ["service", "environment", "exception_type", "message"].iter().enumerate() {
        let mut r = raw("sentry", "api", "prod");
        match i {
            0 => r.service.clear(),
            1 => r.environment.clear(),
            2 => r.exception_type.clear(),
            _ => r.message.clear(),
        }
        assert_eq!(field_of(&normalize(&r).unwrap_err()), *name);
    }
    let mut r = raw("sentry", "api", "prod");
    r.stacktrace.clear();
    assert_eq!(field_of(&normalize(&r).unwrap_err()), "stacktrace");
    let mut r = raw("sentry", "api", "prod");
    r.change_window = Some(InboundChangeWindow { deploy_time: "soon".into(), commits: vec![] });
    assert_eq!(field_of(&normalize(&r).unwrap_err()), "change_window.deploy_time");
    let mut r = raw("sentry", "api", "prod");
    r.change_window = Some(InboundChangeWindow {
        deploy_time: "2025-01-15T10:00:00Z".into(),
        commits: vec![InboundCommit { id: "a".into(), timestamp: Some("later".into()), files: vec![], risk_score: None }],
    });
    assert_eq!(field_of(&normalize(&r).unwrap_err()), "change_window.commits[].timestamp");
}

#[test]
fn severity_synonyms_and_defaults() {
    assert_eq!(Severity::from_str_loose("WARN"), Some(Severity::Warning));
    assert_eq!(Severity::from_str_loose("Err"), Some(Severity::Error));
    assert_eq!(Severity::from_str_loose("fatal"), Some(Severity::Critical));
    assert_eq!(Severity::from_str_loose("crit"), Some(Severity::Critical));
    assert_eq!(Severity::from_str_loose("info"), None);
    assert_eq!(Severity::Warning.score(), 30);
    assert_eq!(Severity::Error.score(), 60);
    assert_eq!(Severity::Critical.score(), 90);
    let mut r = raw("sentry", "api", "prod");
    r.change_window = Some(InboundChangeWindow {
        deploy_time: "2025-01-15T10:00:00Z".into(),
        commits: vec![InboundCommit {
            id: "a".into(),
            timestamp: None,
            files: vec![".\\Docs\\\\Guide.MD".into()],
            risk_score: Some(150),
        }],
    });
    r.correlation_hints = Some(InboundHints { critical_paths: vec!["SRC/Auth".into()], low_priority_paths: vec![] });
    let e = normalize(&r).unwrap();
    let cw = e.change_window.unwrap();
    assert_eq!(cw.commits[0].files[0], "docs/guide.md");
    assert_eq!(cw.commits[0].risk_score, None);
    assert_eq!(e.correlation_hints.critical_paths, vec!["src/auth".to_string()]);
    assert_eq!(e.correlation_hints.low_priority_paths.len(), 7);
    assert_eq!(e.frames[0].function, "main");
}
