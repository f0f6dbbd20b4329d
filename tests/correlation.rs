use incident_engine::config::Config;
use incident_engine::correlation::{commit_is_low_priority_only, commit_touches_paths, path_matches_hint, rank_suspects};
use incident_engine::time::{parse_rfc3339, Timestamp};
use incident_engine::types::{ChangeWindow, CommitInfo, CorrelationHints, Frame};

fn at(s: &str) -> Timestamp {
    parse_rfc3339(s).unwrap()
}

fn frame(file: &str, func: &str) -> Frame {
    Frame { file: file.into(), function: func.into() }
}

fn commit(id: &str, files: &[&str]) -> CommitInfo {
    CommitInfo {
        id: id.into(),
        timestamp: None,
        files: files.iter().map(|f| f.to_string()).collect(),
        risk_score: None,
    }
}

fn default_hints() -> CorrelationHints {
    CorrelationHints::default()
}

#[test]
fn overlapping_commit_ranks_higher() {
    let config = Config::default();
    let hints = default_hints();
    let cw = ChangeWindow {
        deploy_time: at("2025-01-15T10:00:00Z"),
        commits: vec![commit("aaa", &["src/handler.ts"]), commit("bbb", &["src/unrelated.ts"])],
    };
    let frames = vec![frame("src/handler.ts", "handle")];
    let suspects = rank_suspects(&frames, &cw, &at("2025-01-15T10:30:00Z"), &hints, &config);
    assert!(!suspects.is_empty());
    assert_eq!(suspects[0].commit_id, "aaa");
    if suspects.len() > 1 {
        assert!(suspects[0].score_milli >= suspects[1].score_milli);
    }
}

#[test]
fn no_suspects_when_no_overlap_and_old_deploy() {
    let config = Config { correlation_max_hours: 1, ..Config::default() };
    let hints = default_hints();
    let cw = ChangeWindow {
        deploy_time: at("2025-01-14T10:00:00Z"),
        commits: vec![commit("ccc", &["src/other.ts"])],
    };
    let frames = vec![frame("src/handler.ts", "handle")];
    let suspects = rank_suspects(&frames, &cw, &at("2025-01-15T10:00:00Z"), &hints, &config);
    assert!(suspects.is_empty());
}

#[test]
fn deterministic_ordering_by_commit_id() {
    let config = Config::default();
    let hints = default_hints();
    let cw = ChangeWindow {
        deploy_time: at("2025-01-15T10:00:00Z"),
        commits: vec![commit("zzz", &["src/handler.ts"]), commit("aaa", &["src/handler.ts"])],
    };
    let frames = vec![frame("src/handler.ts", "handle")];
    let suspects = rank_suspects(&frames, &cw, &at("2025-01-15T10:30:00Z"), &hints, &config);
    assert_eq!(suspects.len(), 2);
    assert_eq!(suspects[0].commit_id, "aaa");
    assert_eq!(suspects[1].commit_id, "zzz");
}

#[test]
fn critical_path_boost() {
    let config = Config::default();
    let hints = CorrelationHints {
        critical_paths: vec!["src/auth".into()],
        low_priority_paths: vec!["docs/".into(), "test/".into()],
    };
    let cw = ChangeWindow {
        deploy_time: at("2025-01-15T10:00:00Z"),
        commits: vec![commit("critical", &["src/auth/jwt.ts"]), commit("other", &["src/utils/helper.ts"])],
    };
    let frames = vec![frame("src/auth/jwt.ts", "verify")];
    let suspects = rank_suspects(&frames, &cw, &at("2025-01-15T10:30:00Z"), &hints, &config);
    assert_eq!(suspects.len(), 2);
    assert_eq!(suspects[0].commit_id, "critical");
    assert!(suspects[0].evidence.iter().any(|e| e.contains("critical path")));
}

#[test]
fn docs_only_downweighted() {
    let config = Config::default();
    let hints = CorrelationHints {
        critical_paths: vec![],
        low_priority_paths: vec!["docs/".into(), "test/".into()],
    };
    let cw = ChangeWindow {
        deploy_time: at("2025-01-15T10:00:00Z"),
        commits: vec![commit("docs-only", &["docs/readme.md", "test/unit.test.ts"])],
    };
    let frames = vec![frame("src/handler.ts", "handle")];
    let suspects = rank_suspects(&frames, &cw, &at("2025-01-15T10:30:00Z"), &hints, &config);
    assert!(suspects.is_empty());
}

#[test]
fn exact_scores_and_evidence() {
    let config = Config::default();
    let cw = ChangeWindow {
        deploy_time: at("2025-01-15T10:00:00Z"),
        commits: vec![commit("aaa", &["src/handler.ts"]), commit("bbb", &["src/unrelated.ts"])],
    };
    let frames = vec![frame("src/handler.ts", "handle")];
    let suspects = rank_suspects(&frames, &cw, &at("2025-01-15T10:30:00Z"), &default_hints(), &config);
    assert_eq!(suspects.len(), 2);
    assert_eq!(suspects[0].score_milli, 994);
    assert_eq!(
        suspects[0].evidence,
        vec!["1/1 changed files overlap stack frames".to_string(), "0.5h after deploy".to_string()]
    );
    assert_eq!(suspects[1].commit_id, "bbb");
    assert_eq!(suspects[1].score_milli, 294);
    assert_eq!(suspects[1].evidence, vec!["0.5h after deploy".to_string()]);
}

#[test]
fn ranking_example_handler_commit_first() {
    let config = Config::default();
    let mut a = commit("A", &["src/handler.ts"]);
    a.timestamp = Some(at("2025-01-15T09:50:00Z"));
    let cw = ChangeWindow {
        deploy_time: at("2025-01-15T10:00:00Z"),
        commits: vec![commit("B", &["src/unrelated.ts"]), a],
    };
    let frames = vec![frame("src/handler.ts", "handle")];
    let suspects = rank_suspects(&frames, &cw, &at("2025-01-15T10:30:00Z"), &default_hints(), &config);
    assert_eq!(suspects[0].commit_id, "A");
    assert!(suspects[0].score_milli > 0);
    assert!(suspects.iter().skip(1).all(|s| s.score_milli < suspects[0].score_milli));
}

#[test]
fn equal_scores_ordered_by_id() {
    let config = Config::default();
    let cw = ChangeWindow {
        deploy_time: at("2025-01-15T10:00:00Z"),
        commits: vec![commit("m2", &["lib/x.rs"]), commit("b7", &["lib/y.rs"]), commit("m1", &["lib/z.rs"])],
    };
    let frames = vec![frame("src/handler.ts", "handle")];
    let suspects = rank_suspects(&frames, &cw, &at("2025-01-15T11:00:00Z"), &default_hints(), &config);
    let ids: Vec<&str> = suspects.iter().map(|s| s.commit_id.as_str()).collect();
    assert_eq!(ids, vec!["b7", "m1", "m2"]);
}

#[test]
fn risk_score_adds_when_weighted() {
    let config = Config { correlation_risk_weight_milli: 500, ..Config::default() };
    let mut c = commit("r", &["src/other.ts"]);
    c.risk_score = Some(80);
    let cw = ChangeWindow { deploy_time: at("2025-01-15T10:00:00Z"), commits: vec![c] };
    let frames = vec![frame("src/handler.ts", "handle")];
    let suspects = rank_suspects(&frames, &cw, &at("2025-01-14T10:00:00Z"), &default_hints(), &config);
    assert_eq!(suspects.len(), 1);
    assert_eq!(suspects[0].score_milli, 400);
    assert_eq!(suspects[0].evidence, vec!["risk score 80".to_string()]);
}

#[test]
fn hint_matching_rules() {
    assert!(path_matches_hint("SRC/Auth/jwt.ts", "src/auth/"));
    assert!(path_matches_hint("docs/readme.md", ".md"));
    assert!(!path_matches_hint("src/a.ts", "///"));
    assert!(!path_matches_hint("src/a.ts", "lib"));
    let files = vec!["docs/a.md".to_string(), "README.md".to_string()];
    let low = vec!["docs/".to_string(), ".md".to_string()];
    assert!(commit_is_low_priority_only(&files, &low));
    assert!(!commit_is_low_priority_only(&[], &low));
    assert!(commit_touches_paths(&files, &["docs".to_string()]));
    assert!(!commit_touches_paths(&files, &[]));
}
