use contribai::common::models::ContributionType;
use contribai::pr::manager::{
    extract_scope_from_file_path, has_compliance_issue, inject_issue_link, is_cla_bot,
    is_conventional_commit_title, issue_type_meta,
};

#[test]
fn test_issue_type_meta_security() {
    let (prefix, label) = issue_type_meta(&ContributionType::SecurityFix);
    assert_eq!(prefix, "fix");
    assert_eq!(label, "bug");
}

#[test]
fn test_issue_type_meta_docs() {
    let (prefix, label) = issue_type_meta(&ContributionType::DocsImprove);
    assert_eq!(prefix, "docs");
    assert_eq!(label, "documentation");
}

#[test]
fn test_issue_type_meta_feature() {
    let (prefix, label) = issue_type_meta(&ContributionType::FeatureAdd);
    assert_eq!(prefix, "feat");
    assert_eq!(label, "enhancement");
}

#[test]
fn test_issue_type_meta_other_types() {
    assert_eq!(issue_type_meta(&ContributionType::PerformanceOpt), ("perf", "perf"));
    assert_eq!(issue_type_meta(&ContributionType::Refactor), ("refactor", "enhancement"));
    assert_eq!(issue_type_meta(&ContributionType::UiUxFix), ("fix", "bug"));
    assert_eq!(issue_type_meta(&ContributionType::CodeQuality), ("fix", "bug"));
}

#[test]
fn test_extract_scope_src() {
    assert_eq!(extract_scope_from_file_path("src/api/handler.rs"), "api");
}

#[test]
fn test_extract_scope_packages() {
    assert_eq!(extract_scope_from_file_path("packages/auth/index.ts"), "auth");
}

#[test]
fn test_extract_scope_no_match() {
    assert_eq!(extract_scope_from_file_path("main.rs"), "");
    assert_eq!(extract_scope_from_file_path(""), "");
}

#[test]
fn test_extract_scope_libs() {
    assert_eq!(extract_scope_from_file_path("libs/core/mod.rs"), "core");
}

#[test]
fn test_extract_scope_edge_cases() {
    assert_eq!(extract_scope_from_file_path("apps/web"), "web");
    assert_eq!(extract_scope_from_file_path("src/"), "");
    assert_eq!(extract_scope_from_file_path("lib/core/mod.rs"), "");
}

#[test]
fn test_has_compliance_issue_conventional_commit() {
    assert!(has_compliance_issue("doesn't follow conventional commit format"));
}

#[test]
fn test_has_compliance_issue_no_issue() {
    assert!(has_compliance_issue("no issue referenced in this pr"));
}

#[test]
fn test_has_compliance_issue_needs_title() {
    assert!(has_compliance_issue("needs:title needs:issue"));
}

#[test]
fn test_has_compliance_issue_clean() {
    assert!(!has_compliance_issue("looks good to me!"));
}

#[test]
fn test_is_cla_bot_login() {
    assert!(is_cla_bot("claassistant[bot]", ""));
    assert!(is_cla_bot("easycla[bot]", ""));
}

#[test]
fn test_is_cla_bot_body() {
    assert!(is_cla_bot("somebot", "please sign our cla to continue"));
    assert!(is_cla_bot("somebot", "contributor license agreement required"));
}

#[test]
fn test_is_cla_bot_false_positive_guard() {
    assert!(!is_cla_bot("dependabot[bot]", "bumped dependency version"));
}

#[test]
fn test_conventional_commit_valid() {
    assert!(is_conventional_commit_title("fix: correct null pointer"));
    assert!(is_conventional_commit_title("feat(auth): add oauth support"));
    assert!(is_conventional_commit_title("docs(readme): update setup"));
    assert!(is_conventional_commit_title("fix!: breaking change"));
}

#[test]
fn test_conventional_commit_invalid() {
    assert!(!is_conventional_commit_title("Security: Fix SQL injection"));
    assert!(!is_conventional_commit_title("Fix some bug"));
    assert!(!is_conventional_commit_title(""));
}

#[test]
fn test_inject_issue_link_placeholder() {
    let body = "Closes N/A\n\nSome details.";
    let result = inject_issue_link(body, 42);
    assert!(result.contains("Closes #42"));
    assert!(!result.contains("Closes N/A"));
}

#[test]
fn test_inject_issue_link_prepend() {
    let body = "## Problem\n\nSomething is broken.";
    let result = inject_issue_link(body, 7);
    assert!(result.starts_with("Closes #7"));
}

#[test]
fn test_inject_issue_link_already_present() {
    let body = "Closes #42\n\nDetails.";
    let result = inject_issue_link(body, 42);
    assert_eq!(result.matches("Closes #42").count(), 1);
}

#[test]
fn test_inject_issue_link_exact_outputs() {
    assert_eq!(inject_issue_link("body", 7), "Closes #7\n\nbody");
    assert_eq!(inject_issue_link("", -3), "Closes #-3\n\n");
    assert_eq!(
        inject_issue_link("Closes N/A and Closes N/A", 10),
        "Closes #10 and Closes #10"
    );
    assert_eq!(inject_issue_link("Fixes: Closes #123", 123), "Fixes: Closes #123");
}

#[test]
fn test_inject_issue_link_is_idempotent_on_examples() {
    for (body, n) in [
        ("Closes N/A\nx", 5i64),
        ("plain", 9),
        ("Closes #1", 1),
        ("Closes N/A2 and Closes #4.", 4),
        ("Closes N/ACloses N/A", 3),
    ] {
        let once = inject_issue_link(body, n);
        assert_eq!(inject_issue_link(&once, n), once);
    }
}

#[test]
fn test_inject_issue_link_placeholder_before_digit() {
    // The placeholder is replaced, but `Closes #42` does not link issue 4,
    // so a second call prepends the link.
    let once = inject_issue_link("Closes N/A2", 4);
    assert_eq!(once, "Closes #42");
    assert_eq!(inject_issue_link(&once, 4), "Closes #4\n\nCloses #42");
}

#[test]
fn test_build_compliant_title_already_conventional() {
    assert!(is_conventional_commit_title("fix: sql injection vulnerability"));
}

#[test]
fn test_issue_title_construction_with_scope() {
    let scope = extract_scope_from_file_path("src/api/routes.py");
    let (prefix, _) = issue_type_meta(&ContributionType::CodeQuality);
    let title = format!("{}({}): {}", prefix, scope, "unused variable");
    assert_eq!(title, "fix(api): unused variable");
}

#[test]
fn test_issue_title_construction_no_scope() {
    let scope = extract_scope_from_file_path("main.py");
    let (prefix, _) = issue_type_meta(&ContributionType::DocsImprove);
    let title = if scope.is_empty() {
        format!("{}: {}", prefix, "missing docstring")
    } else {
        format!("{}({}): {}", prefix, scope, "missing docstring")
    };
    assert_eq!(title, "docs: missing docstring");
}

// ── Sign-offs, issues, compliance ────────────────────────────────────────────

use contribai::common::models::{Finding, Severity};
use contribai::pr::manager::{
    build_compliant_title, build_signoff, cla_action, compliance_fixes, issue_for_finding,
    scan_bot_comments, BotComment, ClaAction,
};

#[test]
fn test_build_signoff() {
    let signoff = build_signoff(Some("Test User"), Some("testuser"), Some("test@example.com"), Some(12345));
    assert_eq!(signoff, Some("Test User <test@example.com>".to_string()));
}

#[test]
fn test_build_signoff_noreply() {
    let signoff = build_signoff(Some("Test User"), Some("testuser"), None, Some(12345));
    assert!(signoff.unwrap().contains("noreply.github.com"));
}

#[test]
fn signoff_fallbacks() {
    assert_eq!(
        build_signoff(None, Some("octo"), None, Some(7)),
        Some("octo <7+octo@users.noreply.github.com>".to_string())
    );
    assert_eq!(build_signoff(None, None, Some("a@b"), None), None);
    assert_eq!(build_signoff(Some(""), Some("octo"), None, None), None);
}

fn finding(title: &str, path: &str) -> Finding {
    Finding {
        id: "1".into(),
        finding_type: ContributionType::CodeQuality,
        severity: Severity::High,
        title: title.into(),
        description: "Unsafe query".into(),
        file_path: path.into(),
        line_start: None,
        line_end: None,
        suggestion: None,
        priority_signals: vec![],
    }
}

#[test]
fn issue_for_finding_title_body_label() {
    let (title, body, label) = issue_for_finding(&finding("Unused Variable", "src/api/routes.py"));
    assert_eq!(title, "fix(api): unused variable");
    assert_eq!(label, "bug");
    assert_eq!(
        body,
        "## Description\n\nUnsafe query\n\n**Severity**: `high`\n**File**: `src/api/routes.py`\n\n## Expected Behavior\n\nThe code should handle this case properly to avoid unexpected errors or degraded quality."
    );
    let (title, _, _) = issue_for_finding(&finding("Missing Docs", "main.py"));
    assert_eq!(title, "fix: missing docs");
}

#[test]
fn compliance_scan_and_fixes() {
    let comments = vec![
        BotComment { login: "alice".into(), body: "needs:title".into(), bot_account: false },
        BotComment { login: "CLAassistant".into(), body: "Please sign".into(), bot_account: true },
        BotComment { login: "pr-lint[bot]".into(), body: "PR title doesn't follow Conventional Commits".into(), bot_account: false },
        BotComment { login: "helper".into(), body: "needs:issue".into(), bot_account: true },
    ];
    let report = scan_bot_comments(&comments);
    assert_eq!(report.cla_comments, vec![1]);
    assert_eq!(report.issues.len(), 2);
    assert_eq!(compliance_fixes(&report.issues), (true, true));
    assert_eq!(compliance_fixes(&vec![]), (false, false));
}

#[test]
fn compliant_titles() {
    assert_eq!(build_compliant_title("fix: sql injection vulnerability", &ContributionType::SecurityFix, "x"), None);
    assert_eq!(
        build_compliant_title("Security: SQL injection", &ContributionType::SecurityFix, "SQL Injection"),
        Some("fix: sql injection".to_string())
    );
    assert_eq!(build_compliant_title("Update things", &ContributionType::DocsImprove, "x"), None);
}

#[test]
fn cla_actions() {
    assert_eq!(cla_action("claassistant", ""), ClaAction::Sign);
    assert_eq!(cla_action("linux-foundation-easycla", "please sign"), ClaAction::Manual);
    assert_eq!(cla_action("other-bot", "cla not signed"), ClaAction::Skip);
}

#[test]
fn inject_issue_link_does_not_take_a_longer_number_for_the_link() {
    assert_eq!(inject_issue_link("Closes #42", 4), "Closes #4\n\nCloses #42");
    assert_eq!(inject_issue_link("Closes #4.", 4), "Closes #4.");
    assert_eq!(inject_issue_link("See Closes #4", 4), "See Closes #4");
}

#[test]
fn inject_issue_link_twice_changes_nothing() {
    for body in ["Fix things", "Closes N/A\nrest", "Closes #42 and more", ""] {
        let once = inject_issue_link(body, 4);
        assert!(!once.contains("Closes N/A"));
        assert_eq!(inject_issue_link(&once, 4), once);
    }
}
