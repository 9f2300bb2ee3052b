use contribai::common::models::{
    Contribution, ContributionType, FileChange, Finding, Severity, Symbol, SymbolKind,
};
use contribai::generator::engine::{slug_from, ContributionGenerator, NEW_FILE_FORMAT};
use contribai::generator::scorer::{CheckResult, QualityReport, QualityScorer};
use contribai::orchestrator::memory::RepoPreferences;

fn test_finding() -> Finding {
    Finding {
        id: "test".into(),
        finding_type: ContributionType::SecurityFix,
        severity: Severity::High,
        title: "SQL injection in user query".into(),
        description: "User input not sanitized".into(),
        file_path: "src/db/queries.py".into(),
        line_start: Some(42),
        line_end: Some(45),
        suggestion: Some("Use parameterized queries".into()),
        priority_signals: vec![],
    }
}

fn change(path: &str, content: &str) -> FileChange {
    FileChange {
        path: path.into(),
        original_content: None,
        new_content: content.into(),
        is_new_file: false,
        is_deleted: false,
    }
}

fn test_contribution() -> Contribution {
    Contribution {
        finding: Finding {
            id: "1".into(),
            finding_type: ContributionType::SecurityFix,
            severity: Severity::High,
            title: "SQL injection".into(),
            description: "User input is not sanitized before use in SQL queries".into(),
            file_path: "src/db/queries.py".into(),
            line_start: Some(10),
            line_end: Some(15),
            suggestion: Some("Use parameterized queries".into()),
            priority_signals: vec![],
        },
        contribution_type: ContributionType::SecurityFix,
        title: "fix: sql injection in user query".into(),
        description: "User input is not sanitized before use in SQL queries".into(),
        changes: vec![change(
            "src/db/queries.py",
            "def query(user_id):\n    cursor.execute('SELECT * FROM users WHERE id = %s', (user_id,))\n",
        )],
        commit_message: "fix(db): sanitize sql query parameters".into(),
        tests_added: vec![],
        branch_name: "fix/security/sql-injection".into(),
    }
}

fn find<'a>(r: &'a QualityReport, name: &str) -> &'a CheckResult {
    r.checks.iter().find(|c| c.name == name).unwrap()
}

// ── Engine ───────────────────────────────────────────────────────────────────

#[test]
fn test_generate_branch_name() {
    let f = test_finding();
    let branch = ContributionGenerator::generate_branch_name(&f);
    assert!(branch.starts_with("contribai/fix/security/"));
    assert!(branch.contains("sql-injection"));
}

#[test]
fn branch_name_exact() {
    let f = test_finding();
    assert_eq!(
        ContributionGenerator::generate_branch_name(&f),
        "contribai/fix/security/sql-injection-in-user-query"
    );
}

#[test]
fn branch_slug_trims_and_truncates() {
    let mut f = test_finding();
    f.finding_type = ContributionType::CodeQuality;
    f.title = "  --Hello, World!!  ".into();
    assert_eq!(ContributionGenerator::generate_branch_name(&f), "contribai/improve/quality/hello-world");
    f.title = "a".repeat(60);
    let b = ContributionGenerator::generate_branch_name(&f);
    assert_eq!(b, format!("contribai/improve/quality/{}", "a".repeat(40)));
}

#[test]
fn slug_from_cuts_at_char_boundary() {
    // "é" is two bytes: a 3-byte budget keeps one of them.
    assert_eq!(slug_from("-éé-", 3), "é");
    assert_eq!(slug_from("--ab--", 40), "ab");
}

#[test]
fn test_generate_pr_title() {
    let f = test_finding();
    let title = ContributionGenerator::generate_pr_title(&f);
    assert!(title.starts_with("Security: "));
    assert_eq!(title, "Security: SQL injection in user query");
}

#[test]
fn test_generate_commit_message() {
    let gen = ContributionGenerator::new().without_self_review();
    let f = test_finding();
    let changes = vec![change("src/db/queries.py", "fixed")];
    let msg = gen.generate_commit_message(&f, &changes);
    assert!(msg.contains("fix(security)"));
    assert!(msg.contains("(db)"));
    assert_eq!(
        msg,
        "fix(security)(db): sql injection in user query\n\nUser input not sanitized\n\nAffected files: queries.py"
    );
}

#[test]
fn commit_message_without_scope_lists_three_files() {
    let gen = ContributionGenerator::new();
    let mut f = test_finding();
    f.finding_type = ContributionType::DocsImprove;
    let changes = vec![
        change("README.md", "x"),
        change("docs/a.md", "x"),
        change("docs/b.md", "x"),
        change("docs/c.md", "x"),
    ];
    let msg = gen.generate_commit_message(&f, &changes);
    assert!(msg.starts_with("docs: sql injection in user query\n\n"));
    assert!(msg.ends_with("Affected files: README.md, a.md, b.md"));
}

#[test]
fn system_prompt_names_repo_and_language() {
    let gen = ContributionGenerator::new();
    let p = gen.build_system_prompt("owner/repo", None, Some("4-space indent"));
    assert!(p.starts_with("You are a senior open-source contributor"));
    assert!(p.contains("\nCODEBASE STYLE:\n4-space indent\nYou MUST match these conventions exactly.\n"));
    assert!(p.ends_with("\nREPOSITORY: owner/repo\nLanguage: unknown\n"));
}

#[test]
fn generation_prompt_for_new_and_existing_files() {
    let gen = ContributionGenerator::new();
    let f = test_finding();
    let p = gen.build_generation_prompt(&f, "", &[], &[]);
    assert!(p.starts_with("## Task\nFix this issue.\n\n## Finding\n- **Title**: SQL injection in user query\n- **Severity**: high\n"));
    assert!(p.contains("- **Suggestion**: Use parameterized queries\n"));
    assert!(p.ends_with(NEW_FILE_FORMAT));
    let syms = vec![
        Symbol { name: "query".into(), kind: SymbolKind::Function, file_path: "src/db/queries.py".into(), line_start: 1, line_end: 3 },
        Symbol { name: "X".into(), kind: SymbolKind::Variable, file_path: "a.py".into(), line_start: 1, line_end: 1 },
    ];
    let cross = vec![("src/db/other.py".to_string(), "print(1)".to_string())];
    let p = gen.build_generation_prompt(&f, "def query(): pass", &cross, &syms);
    assert!(p.contains("\n## IMPORTANT: Same issue in 1 OTHER file(s)\n"));
    assert!(p.contains("### src/db/other.py\n```\nprint(1)\n```\n\n"));
    assert!(p.contains("```\nFunction query (src/db/queries.py:L1-L3)\n```"));
    assert!(!p.contains("Variable X"));
    assert!(p.contains("## Current File Content (src/db/queries.py)\n```\ndef query(): pass\n```\n\n"));
}

// ── Scorer ───────────────────────────────────────────────────────────────────

#[test]
fn test_quality_scorer_good_contribution() {
    let scorer = QualityScorer::default();
    let c = test_contribution();
    let report = scorer.evaluate(&c, None);
    assert!(report.passed, "Good contribution should pass: {}", report.summary());
    assert!(report.score_sum >= 8 * 60);
}

#[test]
fn test_quality_scorer_empty_changes() {
    let scorer = QualityScorer::default();
    let mut c = test_contribution();
    c.changes = vec![];
    let report = scorer.evaluate(&c, None);
    let check = find(&report, "has_changes");
    assert!(!check.passed, "has_changes should fail with no changes");
    assert_eq!(check.score, 0);
}

#[test]
fn test_quality_scorer_debug_code() {
    let scorer = QualityScorer::default();
    let mut c = test_contribution();
    c.changes = vec![change("src/db/queries.py", "print('debugging here')\ndef query():\n    pass\n")];
    let report = scorer.evaluate(&c, None);
    let debug_check = find(&report, "no_debug_code");
    assert!(!debug_check.passed, "Should catch debug code");
    assert_eq!(debug_check.reason, "Debug code found: \\bprint\\s*\\(");
}

#[test]
fn test_quality_scorer_conventional_commit() {
    let scorer = QualityScorer::default();
    let c = test_contribution();
    let report = scorer.evaluate(&c, None);
    let commit_check = find(&report, "commit_message");
    assert!(commit_check.passed);
    assert_eq!(commit_check.score, 100);
}

#[test]
fn test_outcome_history_no_prefs_neutral() {
    let scorer = QualityScorer::default();
    let report = scorer.evaluate(&test_contribution(), None);
    let check = find(&report, "outcome_history");
    assert!(check.passed);
    assert_eq!(check.score, 70);
}

fn prefs(preferred: &[&str], rejected: &[&str], permille: u32) -> RepoPreferences {
    RepoPreferences {
        preferred_types: preferred.iter().map(|s| s.to_string()).collect(),
        rejected_types: rejected.iter().map(|s| s.to_string()).collect(),
        merge_rate_permille: permille,
        notes: String::new(),
    }
}

#[test]
fn test_outcome_history_rejected_type_penalized() {
    let scorer = QualityScorer::default();
    let p = prefs(&[], &["securityfix"], 500);
    let report = scorer.evaluate(&test_contribution(), Some(&p));
    let check = find(&report, "outcome_history");
    assert!(!check.passed);
    assert_eq!(check.score, 20);
    assert_eq!(check.reason, "Type 'securityfix' was previously rejected by this repo");
}

#[test]
fn test_outcome_history_preferred_type_boosted() {
    let scorer = QualityScorer::default();
    let p = prefs(&["SecurityFix"], &[], 500);
    let report = scorer.evaluate(&test_contribution(), Some(&p));
    let check = find(&report, "outcome_history");
    assert!(check.passed);
    assert_eq!(check.score, 100);
}

#[test]
fn outcome_history_by_merge_rate() {
    let scorer = QualityScorer::default();
    let c = test_contribution();
    let low = scorer.evaluate(&c, Some(&prefs(&[], &[], 199)));
    assert_eq!(find(&low, "outcome_history").score, 40);
    assert!(!find(&low, "outcome_history").passed);
    let good = scorer.evaluate(&c, Some(&prefs(&[], &[], 500)));
    assert_eq!(find(&good, "outcome_history").score, 90);
    let mid = scorer.evaluate(&c, Some(&prefs(&[], &[], 200)));
    assert_eq!(find(&mid, "outcome_history").score, 60);
    assert!(find(&mid, "outcome_history").passed);
}

#[test]
fn change_size_bands() {
    let scorer = QualityScorer::default();
    let mut c = test_contribution();
    c.changes = vec![change("src/db/a.py", "one line")];
    let r = scorer.evaluate(&c, None);
    assert_eq!(find(&r, "change_size").score, 30);
    assert_eq!(find(&r, "change_size").reason, "Very small change (1 lines)");
    c.changes = vec![change("src/db/a.py", &"x\n".repeat(300))];
    let r = scorer.evaluate(&c, None);
    assert_eq!(find(&r, "change_size").score, 70);
    assert!(find(&r, "change_size").passed);
    c.changes = vec![change("src/db/a.py", &"x\n".repeat(501))];
    let r = scorer.evaluate(&c, None);
    assert_eq!(find(&r, "change_size").reason, "Very large change (501 lines)");
}

#[test]
fn placeholders_and_coherence() {
    let scorer = QualityScorer::default();
    let mut c = test_contribution();
    c.changes = vec![change("src/db/queries.py", "x = 1\n..."), change("web/app.js", "ok\nok\nok\n")];
    let r = scorer.evaluate(&c, None);
    let p = find(&r, "no_placeholders");
    assert_eq!(p.score, 20);
    assert_eq!(p.reason, "Placeholder found: ...");
    let f = find(&r, "file_coherence");
    assert_eq!(f.score, 50);
    assert_eq!(f.reason, "1 unrelated file(s) changed");
}

#[test]
fn commit_and_description_bands() {
    let scorer = QualityScorer::default();
    let mut c = test_contribution();
    c.commit_message = "update the stuff".into();
    c.description = "short".into();
    let r = scorer.evaluate(&c, None);
    assert_eq!(find(&r, "commit_message").score, 70);
    assert_eq!(find(&r, "description").score, 30);
    c.commit_message = "tweak".into();
    c.description = String::new();
    let r = scorer.evaluate(&c, None);
    assert_eq!(find(&r, "commit_message").score, 30);
    assert_eq!(find(&r, "description").score, 0);
}

#[test]
fn report_summary_and_threshold() {
    let scorer = QualityScorer::new(100);
    let r = scorer.evaluate(&test_contribution(), None);
    // two lines of change (30) and no history (70); every other check 100
    assert_eq!(r.score_sum, 700);
    assert!(!r.passed);
    assert_eq!(r.summary(), "7/8 checks passed (score: 88%)");
    assert!(QualityScorer::new(87).evaluate(&test_contribution(), None).passed);
    assert!(!QualityScorer::new(88).evaluate(&test_contribution(), None).passed);
}

#[test]
fn summary_rounds_ties_to_even_and_handles_no_checks() {
    let r = QualityReport { score_sum: 173, passed: false, checks: vec![
        CheckResult { name: "a".into(), passed: true, score: 100, reason: String::new() },
        CheckResult { name: "b".into(), passed: false, score: 73, reason: String::new() },
    ] };
    // 86.5 rounds to 86
    assert_eq!(r.summary(), "1/2 checks passed (score: 86%)");
    let empty = QualityReport { score_sum: 0, passed: false, checks: vec![] };
    assert_eq!(empty.summary(), "0/0 checks passed (score: NaN%)");
}
