use contribai::common::models::{
    Contribution, ContributionType, FileChange, Finding, PrStatus, Severity,
};
use contribai::orchestrator::memory::{dream_profile, repo_preferences, should_dream, OutcomeRow};
use contribai::orchestrator::pipeline::merge_contributions_pub;
use contribai::pr::manager::{generate_pr_body, human_branch_name, pr_status_from};

fn finding(title: &str) -> Finding {
    Finding {
        id: "1".into(),
        finding_type: ContributionType::SecurityFix,
        severity: Severity::High,
        title: title.into(),
        description: "User input is not sanitized".into(),
        file_path: "src/db/queries.py".into(),
        line_start: Some(10),
        line_end: Some(15),
        suggestion: Some("Use parameterized queries".into()),
        priority_signals: vec![],
    }
}

fn change(path: &str, new_file: bool) -> FileChange {
    FileChange {
        path: path.into(),
        original_content: None,
        new_content: format!("content of {}", path),
        is_new_file: new_file,
        is_deleted: false,
    }
}

fn contribution(title: &str, ty: ContributionType, paths: &[&str], tests: &[&str]) -> Contribution {
    Contribution {
        finding: finding("SQL injection"),
        contribution_type: ty,
        title: title.into(),
        description: "desc".into(),
        changes: paths.iter().map(|p| change(p, false)).collect(),
        commit_message: "fix: x".into(),
        tests_added: tests.iter().map(|p| change(p, true)).collect(),
        branch_name: "fix/security/sql-injection".into(),
    }
}

#[test]
fn test_human_branch_name() {
    let c = contribution("t", ContributionType::SecurityFix, &["a.py"], &[]);
    let branch = human_branch_name(&c);
    assert!(branch.starts_with("fix/security/"));
    assert!(branch.contains("sql-injection"));
    assert_eq!(branch, "fix/security/sql-injection");
}

#[test]
fn merge_of_one_is_unchanged() {
    let c = contribution("only", ContributionType::Refactor, &["a.py"], &[]);
    let m = merge_contributions_pub(vec![c]);
    assert_eq!(m.title, "only");
    assert_eq!(m.changes.len(), 1);
    assert_eq!(m.commit_message, "fix: x");
}

#[test]
fn merge_dedups_paths_first_seen_wins() {
    let a = contribution("Fix A", ContributionType::SecurityFix, &["src/a.py", "src/b.py"], &["tests/t.py"]);
    let b = contribution("Fix B", ContributionType::CodeQuality, &["src/b.py", "src/c.py", "tests/t.py"], &["tests/u.py"]);
    let m = merge_contributions_pub(vec![a, b]);
    let paths: Vec<&str> = m.changes.iter().map(|c| c.path.as_str()).collect();
    assert_eq!(paths, vec!["src/a.py", "src/b.py", "src/c.py"]);
    let tests: Vec<&str> = m.tests_added.iter().map(|c| c.path.as_str()).collect();
    assert_eq!(tests, vec!["tests/t.py", "tests/u.py"]);
    assert_eq!(m.title, "fix(security): 2 improvements across 3 files");
    assert_eq!(
        m.description,
        "Combined multi-file contribution:\n\n- Fix A\n- Fix B\n\nFiles changed: src/a.py, src/b.py, src/c.py"
    );
    assert_eq!(m.commit_message, "fix(security): 2 improvements across 3 files\n\n- Fix A\n- Fix B");
    assert_eq!(m.branch_name, "fix/security/sql-injection");
    assert_eq!(m.contribution_type, ContributionType::SecurityFix);
}

#[test]
fn merge_prefix_falls_back_to_refactor() {
    let a = contribution("A", ContributionType::UiUxFix, &["x"], &[]);
    let b = contribution("B", ContributionType::UiUxFix, &["y"], &[]);
    let m = merge_contributions_pub(vec![a, b]);
    assert_eq!(m.title, "refactor: 2 improvements across 2 files");
}

fn row(t: &str, o: &str) -> OutcomeRow {
    OutcomeRow { pr_type: t.into(), outcome: o.into(), feedback: String::new() }
}

#[test]
fn preferences_from_outcomes() {
    assert!(repo_preferences(&[]).is_none());
    let rows = vec![
        row("security_fix", "merged"),
        row("code_quality", "closed"),
        row("security_fix", "merged"),
    ];
    let p = repo_preferences(&rows).unwrap();
    assert!(p.preferred_types.contains(&"security_fix".to_string()));
    assert!(p.rejected_types.contains(&"code_quality".to_string()));
    assert_eq!(p.preferred_types.len(), 1);
    // 2 of 3 merged: 0.667 to three decimals
    assert_eq!(p.merge_rate_permille, 667);
}

#[test]
fn merge_rate_rounds_halves_up() {
    let mut rows = vec![row("a", "merged")];
    for _ in 0..1999 {
        rows.push(row("a", "open"));
    }
    // 1/2000 = 0.0005 -> 0.001
    assert_eq!(repo_preferences(&rows).unwrap().merge_rate_permille, 1);
}

#[test]
fn pr_body_lists_changes() {
    let mut c = contribution("Security: SQL injection", ContributionType::SecurityFix, &["src/db/q.py"], &[]);
    c.changes.push(change("src/db/new.py", true));
    let body = generate_pr_body(&c);
    assert!(body.starts_with("## Summary\n\nSecurity: SQL injection\n\n## Problem\n\n**Severity**: `High` | **File**: `src/db/queries.py:L10`\n\n"));
    assert!(body.contains("## Solution\n\nUse parameterized queries\n\n"));
    assert!(body.contains("## Changes\n\n- `src/db/q.py` (modified)\n- `src/db/new.py` (new)\n\n## Testing"));
    assert!(body.ends_with("*Generated by [ContribAI](https://github.com/tang-vu/ContribAI) v5.8.0*"));
}

#[test]
fn pr_status_decisions() {
    assert_eq!(pr_status_from(true, "closed", true), PrStatus::Merged);
    assert_eq!(pr_status_from(false, "closed", true), PrStatus::Closed);
    assert_eq!(pr_status_from(false, "open", true), PrStatus::ReviewRequested);
    assert_eq!(pr_status_from(false, "open", false), PrStatus::Open);
}

fn outcome(t: &str, o: &str, feedback: &str) -> OutcomeRow {
    OutcomeRow { pr_type: t.into(), outcome: o.into(), feedback: feedback.into() }
}

#[test]
fn test_outcome_learning() {
    let rows = vec![
        outcome("security_fix", "merged", ""),
        outcome("code_quality", "closed", "not needed"),
        outcome("security_fix", "merged", ""),
    ];
    let prefs = repo_preferences(&rows).unwrap();
    assert!(prefs.preferred_types.contains(&"security_fix".to_string()));
    assert!(prefs.rejected_types.contains(&"code_quality".to_string()));
    // 2 of 3 merged: 0.667 in thousandths
    assert!((prefs.merge_rate_permille as i64 - 667).abs() < 10);
}

#[test]
fn test_dream_consolidation() {
    let repo_a = vec![
        outcome("security_fix", "merged", ""),
        outcome("docs", "merged", "good docs"),
        outcome("refactor", "closed", "not needed"),
    ];
    let repo_b = vec![outcome("docs", "merged", "")];

    // Five sessions and no dream yet: the gates are met.
    assert!(should_dream(None, 5, None));

    let profiles: Vec<_> = [&repo_a, &repo_b]
        .iter()
        .filter(|rows| !rows.is_empty())
        .map(|rows| dream_profile(rows))
        .collect();
    assert_eq!(profiles.len(), 2);

    let prefs_a = &profiles[0];
    assert!(prefs_a.preferred.contains(&"security_fix".to_string()));
    assert!(prefs_a.preferred.contains(&"docs".to_string()));
    assert!(prefs_a.merged * 10 > prefs_a.total * 6);

    let prefs_b = &profiles[1];
    assert_eq!(prefs_b.merged, prefs_b.total);

    // After a dream the session counter is reset and the time is now.
    assert!(!should_dream(Some(0), 0, Some("0")));
}
