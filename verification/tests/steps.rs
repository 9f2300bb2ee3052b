use contribai::common::models::{ContributionType, Finding, Severity};
use contribai::orchestrator::memory::{PrRecord, RepoPreferences};
use contribai::orchestrator::pipeline::PipelineResult;
use contribai::orchestrator::steps::{
    accepts_docs, drop_rejected_types, generation_complexity, has_open_pr_to, hunt_languages,
    hunt_round_criteria, issue_labels, issue_search_query, merged_pr_count, past_titles_for,
    relevant_paths, remaining_pr_budget, repo_from_api_url,
};
use contribai::plugins::{collect_plugin_contributions, collect_plugin_findings};

fn langs(v: &[&str]) -> Vec<String> {
    v.iter().map(|s| s.to_string()).collect()
}

#[test]
fn hunt_rounds_rotate() {
    let l = langs(&["python", "javascript", "go"]);
    assert_eq!(hunt_languages(&l, 1), langs(&["javascript", "go"]));
    assert_eq!(hunt_languages(&l, 2), langs(&["go", "python"]));
    assert_eq!(hunt_languages(&l, 3), langs(&["python", "javascript"]));
    assert_eq!(hunt_languages(&langs(&["rust"]), 4), langs(&["rust"]));
    assert!(hunt_languages(&vec![], 4).is_empty());
    let c = hunt_round_criteria(1, &l, 50, 10000);
    assert_eq!((c.stars_min, c.stars_max), (50, 10000));
    assert_eq!(c.sort.as_deref(), Some("stars"));
    assert_eq!(c.page, Some(1));
    let c = hunt_round_criteria(8, &l, 50, 10000);
    assert_eq!((c.stars_min, c.stars_max), (1000, 5000));
    assert_eq!(c.sort.as_deref(), Some("help-wanted-issues"));
    assert_eq!(c.page, Some(2));
    assert_eq!(c.min_last_activity_days, 7);
    assert_eq!(c.max_results, 10);
}

#[test]
fn budgets_and_merges() {
    assert_eq!(remaining_pr_budget(5, 2), 3);
    assert_eq!(remaining_pr_budget(5, 9), 0);
    assert_eq!(merged_pr_count(&[Some("2024-01-01".into()), Some(String::new()), None]), 1);
}

#[test]
fn issue_queries_and_urls() {
    assert_eq!(issue_labels(), vec!["good first issue", "help wanted", "bug"]);
    assert_eq!(
        issue_search_query("help wanted", "go"),
        r#"label:"help wanted" language:go state:open stars:>100 archived:false"#
    );
    assert_eq!(
        repo_from_api_url("https://api.github.com/repos/owner/name/"),
        Some(("owner".to_string(), "name".to_string()))
    );
    assert_eq!(repo_from_api_url(""), None);
    assert_eq!(repo_from_api_url("solo"), None);
}

fn finding(t: ContributionType, sev: Severity, path: &str) -> Finding {
    Finding {
        id: "1".into(),
        finding_type: t,
        severity: sev,
        title: "T".into(),
        description: "d".into(),
        file_path: path.into(),
        line_start: None,
        line_end: None,
        suggestion: None,
        priority_signals: vec![],
    }
}

#[test]
fn findings_to_generation() {
    let fs = vec![
        finding(ContributionType::SecurityFix, Severity::High, "a.py"),
        finding(ContributionType::DocsImprove, Severity::Low, ""),
        finding(ContributionType::CodeQuality, Severity::Critical, "a.py"),
    ];
    assert_eq!(relevant_paths(&fs), vec!["a.py"]);
    assert_eq!(generation_complexity(&fs), 9);
    let kept = drop_rejected_types(fs, &vec!["docs_improve".to_string()]);
    assert_eq!(kept.len(), 2);
    assert_eq!(kept[1].finding_type, ContributionType::CodeQuality);
    let many: Vec<Finding> = (0..4).map(|_| finding(ContributionType::SecurityFix, Severity::High, "x")).collect();
    assert_eq!(generation_complexity(&many), 10);
}

fn record(repo: &str, title: &str) -> PrRecord {
    PrRecord {
        repo: repo.into(),
        pr_number: 1,
        pr_url: String::new(),
        title: title.into(),
        pr_type: String::new(),
        status: "open".into(),
        branch: String::new(),
        fork: String::new(),
        created_at: String::new(),
    }
}

#[test]
fn history_checks() {
    let prs = vec![record("o/r", "Fix THING"), record("x/y", "Other")];
    assert_eq!(past_titles_for(&prs, "o/r"), vec!["fix thing"]);
    assert!(has_open_pr_to(&prs, "x/y"));
    assert!(!has_open_pr_to(&prs, "z/z"));
    let p = RepoPreferences {
        preferred_types: vec!["docs_improve".into()],
        rejected_types: vec![],
        merge_rate_permille: 500,
        notes: String::new(),
    };
    assert!(accepts_docs(Some(&p)));
    assert!(!accepts_docs(None));
}

#[test]
fn results_add_up() {
    let mut a = PipelineResult::default();
    a.errors.push("e1".into());
    let b = PipelineResult {
        repos_analyzed: 1,
        findings_total: 4,
        contributions_generated: 2,
        prs_created: 1,
        errors: vec!["e2".into()],
    };
    a.absorb(b);
    assert_eq!((a.repos_analyzed, a.findings_total, a.contributions_generated, a.prs_created), (1, 4, 2, 1));
    assert_eq!(a.errors, vec!["e1", "e2"]);
}

#[test]
fn plugin_outcomes() {
    let f = finding(ContributionType::CodeQuality, Severity::Low, "test.py");
    let out = collect_plugin_findings(vec![Ok(vec![f]), Err("fail".into()), Ok(vec![])]);
    assert_eq!(out.len(), 1);
    assert!(collect_plugin_contributions(vec![Ok(None), Err("x".into())]).is_empty());
}
