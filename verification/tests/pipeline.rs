use std::collections::HashSet;

use contribai::common::models::{ContributionType, Finding, Severity};
use contribai::orchestrator::pipeline::{
    filter_findings, is_protected_meta_file, is_skip_directory, keep_finding,
    protected_meta_file_list, skip_directory_list, skip_extension_list, titles_similar,
    PipelineResult,
};

#[test]
fn test_titles_similar() {
    assert!(titles_similar("SQL injection vulnerability fix", "SQL injection vulnerability"));
    assert!(!titles_similar("Add logging middleware", "Fix database connection pooling"));
}

#[test]
fn test_titles_similar_empty() {
    assert!(!titles_similar("", "something"));
    assert!(!titles_similar("a", "b"));
}

#[test]
fn test_protected_files() {
    let protected: HashSet<&str> = protected_meta_file_list().into_iter().collect();
    assert!(protected.contains("CONTRIBUTING.md"));
    assert!(protected.contains("LICENSE"));
    assert!(!protected.contains("src/main.py"));
}

#[test]
fn test_skip_directories() {
    let dirs = skip_directory_list();
    assert!(dirs.contains(&"test"));
    assert!(dirs.contains(&"vendor"));
    assert!(!dirs.contains(&"src"));
}

// ── Further cases ────────────────────────────────────────────────────────────

#[test]
fn titles_similar_is_symmetric_on_examples() {
    let pairs = [
        ("Fix null pointer in parser", "parser null pointer crash"),
        ("Add docs", "Improve documentation for parser module"),
        ("Refactor config loading code", "config loading"),
    ];
    for (a, b) in pairs {
        assert_eq!(titles_similar(a, b), titles_similar(b, a));
    }
}

#[test]
fn titles_similar_ignores_case_stop_words_and_repeats() {
    assert!(titles_similar("THE Parser Parser Crash", "parser crash and the rest"));
    // one shared word of two is not more than half
    assert!(!titles_similar("parser crash", "parser speedup"));
}

#[test]
fn protected_and_skip_lists() {
    assert!(is_protected_meta_file(".github/CODEOWNERS"));
    assert!(!is_protected_meta_file("contributing.md"));
    assert!(is_skip_directory("node_modules"));
    assert!(!is_skip_directory("lib"));
    assert_eq!(skip_extension_list().len(), 9);
    assert_eq!(protected_meta_file_list().len(), 13);
    assert_eq!(skip_directory_list().len(), 21);
}

#[test]
fn keep_finding_rules() {
    let none: Vec<String> = vec![];
    assert!(keep_finding("src/app.py", "Unsafe eval", &none));
    assert!(!keep_finding("LICENSE", "Unsafe eval", &none));
    assert!(!keep_finding("src/README.MD", "Unsafe eval", &none));
    assert!(!keep_finding("config/settings.Json", "Unsafe eval", &none));
    assert!(keep_finding("src/.gitignore", "Unsafe eval", &none));
    assert!(!keep_finding("pkg/tests/app.py", "Unsafe eval", &none));
    assert!(!keep_finding("vendor/lib.rs", "Unsafe eval", &none));
    let past = vec!["unsafe eval usage".to_string()];
    assert!(!keep_finding("src/app.py", "Unsafe EVAL usage found", &past));
    assert!(keep_finding("src/app.py", "Slow loop", &past));
}

fn finding(path: &str, title: &str) -> Finding {
    Finding {
        id: String::new(),
        finding_type: ContributionType::CodeQuality,
        severity: Severity::Low,
        title: title.to_string(),
        description: String::new(),
        file_path: path.to_string(),
        line_start: None,
        line_end: None,
        suggestion: None,
        priority_signals: vec![],
    }
}

#[test]
fn filter_findings_keeps_order_of_the_rest() {
    let fs = vec![
        finding("src/a.py", "first issue"),
        finding("docs/b.py", "second issue"),
        finding("src/c.py", "third issue"),
        finding("CONTRIBUTING.md", "fourth issue"),
    ];
    let kept = filter_findings(fs, &[]);
    let paths: Vec<&str> = kept.iter().map(|f| f.file_path.as_str()).collect();
    assert_eq!(paths, vec!["src/a.py", "src/c.py"]);
}

#[test]
fn pipeline_result_default_is_empty() {
    let r = PipelineResult::default();
    assert_eq!(r.repos_analyzed, 0);
    assert_eq!(r.prs_created, 0);
    assert!(r.errors.is_empty());
}
