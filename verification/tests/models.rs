use contribai::common::models::{AnalysisResult, Finding};
use contribai::common::models::{
    ContributionType, DiscoveryCriteria, PatrolResult, PrStatus, Severity, SymbolKind,
};

#[test]
fn test_severity_ordering() {
    assert!(Severity::Low < Severity::Medium);
    assert!(Severity::Medium < Severity::High);
    assert!(Severity::High < Severity::Critical);
}

#[test]
fn test_discovery_criteria_defaults() {
    let dc = DiscoveryCriteria::default();
    assert_eq!(dc.stars_min, 50);
    assert_eq!(dc.stars_max, 10000);
    assert_eq!(dc.languages, vec!["python"]);
}

#[test]
fn test_contribution_type_display() {
    assert_eq!(ContributionType::SecurityFix.as_str(), "security_fix");
    assert_eq!(ContributionType::CodeQuality.as_str(), "code_quality");
}

// ── Further cases ────────────────────────────────────────────────────────────

#[test]
fn severity_ranks_and_names() {
    assert!(Severity::Low.rank() < Severity::Critical.rank());
    assert_eq!(Severity::Medium.as_str(), "medium");
    assert_eq!(SymbolKind::Interface.name(), "Interface");
}

#[test]
fn analyzer_names_map_to_types() {
    assert_eq!(ContributionType::from_analyzer("django_security"), ContributionType::SecurityFix);
    assert_eq!(ContributionType::from_analyzer("documentation"), ContributionType::DocsImprove);
    assert_eq!(ContributionType::from_analyzer("performance"), ContributionType::PerformanceOpt);
    assert_eq!(ContributionType::from_analyzer("ui_ux"), ContributionType::UiUxFix);
    assert_eq!(ContributionType::from_analyzer("refactor"), ContributionType::Refactor);
    assert_eq!(ContributionType::from_analyzer("whatever"), ContributionType::CodeQuality);
}

#[test]
fn defaults_of_statuses_and_results() {
    assert_eq!(PrStatus::default(), PrStatus::Open);
    let p = PatrolResult::default();
    assert_eq!((p.prs_checked, p.fixes_pushed, p.errors.len()), (0, 0, 0));
}

#[test]
fn analysis_result_filters() {
    let f = |t: ContributionType, s: Severity, title: &str| Finding {
        id: "1".into(),
        finding_type: t,
        severity: s,
        title: title.into(),
        description: "desc".into(),
        file_path: "a.py".into(),
        line_start: None,
        line_end: None,
        suggestion: None,
        priority_signals: vec![],
    };
    let result = AnalysisResult {
        findings: vec![
            f(ContributionType::SecurityFix, Severity::Critical, "Critical issue"),
            f(ContributionType::CodeQuality, Severity::Low, "Minor issue"),
        ],
        analyzed_files: 2,
        skipped_files: 0,
    };
    let high = result.filter_by_severity(Severity::High);
    assert_eq!(high.len(), 1);
    assert_eq!(high[0].title, "Critical issue");
    assert_eq!(result.filter_by_severity(Severity::Low).len(), 2);
    assert_eq!(result.filter_by_type(&ContributionType::CodeQuality)[0].title, "Minor issue");
}

#[test]
fn test_analysis_result_filter_by_severity() {
    let finding = |id: &str, t: ContributionType, s: Severity, title: &str, path: &str| Finding {
        id: id.into(),
        finding_type: t,
        severity: s,
        title: title.into(),
        description: "desc".into(),
        file_path: path.into(),
        line_start: None,
        line_end: None,
        suggestion: None,
        priority_signals: vec![],
    };
    let result = AnalysisResult {
        findings: vec![
            finding("1", ContributionType::SecurityFix, Severity::Critical, "Critical issue", "a.py"),
            finding("2", ContributionType::CodeQuality, Severity::Low, "Minor issue", "b.py"),
        ],
        analyzed_files: 10,
        skipped_files: 5,
    };

    assert_eq!(result.filter_by_severity(Severity::High).len(), 1);
    assert_eq!(result.filter_by_severity(Severity::Low).len(), 2);
}
