use incident_engine::fingerprint::compute;
use incident_engine::time::parse_rfc3339;
use incident_engine::types::{CorrelationHints, Event, Frame, Severity};

fn make_event(exc: &str, frames: Vec<(&str, &str)>, service: &str, env: &str) -> Event {
    Event {
        source: "sentry".into(),
        service: service.into(),
        environment: env.into(),
        timestamp: parse_rfc3339("2025-01-15T10:30:00Z").unwrap(),
        severity: Severity::Error,
        exception_type: exc.into(),
        message: "test".into(),
        frames: frames
            .into_iter()
            .map(|(file, func)| Frame { file: file.into(), function: func.into() })
            .collect(),
        tags: vec![],
        links: vec![],
        change_window: None,
        correlation_hints: CorrelationHints::default(),
        api_route: None,
        request_url: None,
    }
}

#[test]
fn same_input_same_fingerprint() {
    let e1 = make_event("TypeError", vec![("src/a.ts", "foo")], "api", "prod");
    let e2 = make_event("TypeError", vec![("src/a.ts", "foo")], "api", "prod");
    assert_eq!(compute(&e1, 5), compute(&e2, 5));
}

#[test]
fn different_exception_different_fingerprint() {
    let e1 = make_event("TypeError", vec![("src/a.ts", "foo")], "api", "prod");
    let e2 = make_event("ValueError", vec![("src/a.ts", "foo")], "api", "prod");
    assert_ne!(compute(&e1, 5), compute(&e2, 5));
}

#[test]
fn different_service_different_fingerprint() {
    let e1 = make_event("TypeError", vec![("src/a.ts", "foo")], "api", "prod");
    let e2 = make_event("TypeError", vec![("src/a.ts", "foo")], "worker", "prod");
    assert_ne!(compute(&e1, 5), compute(&e2, 5));
}

#[test]
fn different_env_different_fingerprint() {
    let e1 = make_event("TypeError", vec![("src/a.ts", "foo")], "api", "prod");
    let e2 = make_event("TypeError", vec![("src/a.ts", "foo")], "api", "staging");
    assert_ne!(compute(&e1, 5), compute(&e2, 5));
}

#[test]
fn extra_frames_beyond_max_ignored() {
    let e1 = make_event(
        "TypeError",
        vec![("src/a.ts", "foo"), ("src/b.ts", "bar"), ("src/c.ts", "baz")],
        "api",
        "prod",
    );
    let e2 = make_event("TypeError", vec![("src/a.ts", "foo"), ("src/b.ts", "bar")], "api", "prod");
    assert_eq!(compute(&e1, 2), compute(&e2, 2));
}

#[test]
fn fingerprint_is_32_hex_chars() {
    let e = make_event("TypeError", vec![("src/a.ts", "foo")], "api", "prod");
    let fp = compute(&e, 5);
    assert_eq!(fp.0.len(), 32);
    assert!(fp.0.chars().all(|c| c.is_ascii_hexdigit()));
}

#[test]
fn fingerprint_is_digest_prefix() {
    let e = make_event("TypeError", vec![("src/a.ts", "foo")], "api", "prod");
    let expected = blake3::hash(b"TypeError|api|prod|src/a.ts:foo").to_hex().to_string();
    assert_eq!(compute(&e, 5).0, expected[..32]);
}

#[test]
fn sixth_frame_does_not_matter_with_five() {
    let base = vec![("a", "1"), ("b", "2"), ("c", "3"), ("d", "4"), ("e", "5")];
    let mut x = base.clone();
    x.push(("f", "6"));
    let mut y = base.clone();
    y.push(("g", "7"));
    let e1 = make_event("E", x, "s", "p");
    let e2 = make_event("E", y, "s", "p");
    assert_eq!(compute(&e1, 5), compute(&e2, 5));
    assert_ne!(compute(&e1, 6), compute(&e2, 6));
}
