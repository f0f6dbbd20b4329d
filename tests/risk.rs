use incident_engine::risk::{
    compute_change_type_tags, compute_explanations, compute_hotspot_files, compute_impact_score,
    compute_risk_flags, run, Input,
};

fn strings(v: &[&str]) -> Vec<String> {
    v.iter().map(|s| s.to_string()).collect()
}

fn make_input(files_len: usize, additions: u32, deletions: u32) -> Input {
    Input {
        commit_message: "test".to_string(),
        files_changed: (0..files_len).map(|i| format!("file{}.ts", i)).collect(),
        additions,
        deletions,
        diff_text: None,
    }
}

#[test]
fn run_returns_valid_output_shape() {
    let input = Input {
        commit_message: "feat: add auth".to_string(),
        files_changed: vec!["src/auth/jwt.go".to_string(), "package-lock.json".to_string()],
        additions: 50,
        deletions: 10,
        diff_text: None,
    };
    let out = run(&input);
    assert!(out.impact_score <= 100);
    assert!(out.risk_flags.iter().any(|f| f == "auth"));
    assert!(out.risk_flags.iter().any(|f| f == "deps"));
    assert!(!out.change_type_tags.is_empty());
    assert!(out.hotspot_files.len() <= 10);
}

#[test]
fn risk_flags_deps_from_lockfiles() {
    let files = vec!["package-lock.json".to_string(), "src/foo.ts".to_string()];
    let flags = compute_risk_flags(&files);
    assert!(flags.contains(&"deps".to_string()));
}

#[test]
fn risk_flags_auth_from_path() {
    let files = vec!["src/auth/jwt.go".to_string()];
    let flags = compute_risk_flags(&files);
    assert!(flags.contains(&"auth".to_string()));
}

#[test]
fn risk_flags_migration_from_prisma() {
    let files = vec!["prisma/schema.prisma".to_string()];
    let flags = compute_risk_flags(&files);
    assert!(flags.contains(&"migration".to_string()));
}

#[test]
fn risk_flags_empty_for_plain_paths() {
    let files = vec!["README.md".to_string(), "src/utils.ts".to_string()];
    let flags = compute_risk_flags(&files);
    assert!(flags.is_empty());
}

#[test]
fn impact_score_bounds_0_100() {
    let input = make_input(0, 0, 0);
    let score = compute_impact_score(&input, &[]);
    assert!(score <= 100);
    let input = make_input(50, 5000, 5000);
    let score = compute_impact_score(&input, &["auth".to_string(), "secrets".to_string()]);
    assert!(score <= 100);
}

#[test]
fn impact_score_increases_with_risk_flags() {
    let input = make_input(2, 10, 10);
    let base = compute_impact_score(&input, &[]);
    let with_deps = compute_impact_score(&input, &["deps".to_string()]);
    let with_auth = compute_impact_score(&input, &["auth".to_string()]);
    assert!(with_deps >= base);
    assert!(with_auth >= base);
}

#[test]
fn hotspot_files_caps_at_n() {
    let files: Vec<String> = (0..20).map(|i| format!("f{}.ts", i)).collect();
    let out = compute_hotspot_files(&files, 5);
    assert_eq!(out.len(), 5);
    assert_eq!(out[0], "f0.ts");
}

#[test]
fn flags_are_sorted_and_unique() {
    let files = strings(&["Config/Secrets.yaml", "billing/STRIPE.ts", "db/migrations/001.sql", "go.mod", "src/session.ts"]);
    assert_eq!(
        compute_risk_flags(&files),
        strings(&["auth", "config", "deps", "migration", "payment", "secrets"])
    );
}

#[test]
fn change_tags_from_message_and_paths() {
    assert_eq!(
        compute_change_type_tags("Fix: handle bug fix in refactor", &strings(&["src/a_test.go", "docs/README"])),
        strings(&["bugfix", "docs", "refactor", "tests"])
    );
    assert_eq!(compute_change_type_tags("chore: bump", &[]), strings(&["chore"]));
    assert!(compute_change_type_tags("update", &strings(&["src/a.rs"])).is_empty());
}

#[test]
fn impact_score_exact_values() {
    assert_eq!(compute_impact_score(&make_input(2, 10, 10), &[]), 6);
    assert_eq!(compute_impact_score(&make_input(2, 10, 10), &strings(&["deps"])), 11);
    assert_eq!(compute_impact_score(&make_input(2, 10, 10), &strings(&["auth", "config", "other"])), 31);
    assert_eq!(compute_impact_score(&make_input(40, 1000, 0), &strings(&["payment"])), 100);
}

#[test]
fn explanations_follow_flags_then_tags() {
    let out = compute_explanations(&strings(&["auth", "unknown", "deps"]), &strings(&["docs", "tests"]));
    assert_eq!(
        out,
        strings(&[
            "Auth or permission-related files changed",
            "Touched dependency lockfiles or package manifests",
            "Test files changed",
            "Documentation changed",
        ])
    );
}

#[test]
fn run_exact_output() {
    let input = Input {
        commit_message: "feat: add auth".to_string(),
        files_changed: strings(&["src/auth/jwt.go", "package-lock.json"]),
        additions: 50,
        deletions: 10,
        diff_text: None,
    };
    let out = run(&input);
    assert_eq!(out.risk_flags, strings(&["auth", "deps"]));
    assert_eq!(out.change_type_tags, strings(&["feature"]));
    assert_eq!(out.impact_score, 30);
    assert_eq!(out.hotspot_files, strings(&["src/auth/jwt.go", "package-lock.json"]));
    assert_eq!(out.explanations.len(), 2);
}
