use contribai::cli::parse_github_url;
use contribai::common::config::DiscoveryConfig;
use contribai::common::models::DiscoveryCriteria;
use contribai::github::discovery::{results_per_page, search_query, unique_results, RepoDiscovery};
use contribai::orchestrator::memory::{
    conversation_context, dream_profile, outcome_type_lists, should_dream, ConversationMessage,
    DreamResult, OutcomeRow,
};

#[test]
fn criteria_from_config_copies_the_configuration() {
    let d = RepoDiscovery::new(DiscoveryConfig::default());
    let c = d.criteria_from_config();
    assert_eq!(c.languages.len(), 15);
    assert_eq!((c.stars_min, c.stars_max, c.max_results), (50, 10000, 10));
    assert_eq!(c.min_last_activity_days, 30);
    assert!(!c.require_contributing_guide);
    assert!(c.topics.is_empty() && c.exclude_repos.is_empty());
    assert!(c.sort.is_none() && c.page.is_none());
}

#[test]
fn search_queries() {
    let mut c = DiscoveryCriteria::default();
    c.topics = vec!["cli".to_string(), "web".to_string()];
    assert_eq!(
        search_query(&c, "rust", "2024-01-31"),
        "language:rust stars:50..10000 archived:false is:public pushed:>2024-01-31 topic:cli topic:web"
    );
    c.min_last_activity_days = 0;
    c.topics.clear();
    c.stars_min = -1;
    assert_eq!(search_query(&c, "go", "x"), "language:go stars:-1..10000 archived:false is:public");
    assert_eq!(results_per_page(10), 20);
    assert_eq!(results_per_page(15), 30);
    assert_eq!(results_per_page(100), 30);
}

#[test]
fn unique_results_drop_repeats_and_exclusions() {
    let names: Vec<String> = ["a/x", "b/y", "a/x", "c/z"].iter().map(|s| s.to_string()).collect();
    let excluded = vec!["c/z".to_string()];
    assert_eq!(unique_results(&names, &excluded), vec![0, 1]);
    assert_eq!(unique_results(&names, &[]), vec![0, 1, 3]);
}

#[test]
fn test_should_dream_gates() {
    // No sessions yet → false
    assert!(!should_dream(None, 0, None));
    // 5 sessions, no prior dream → true
    assert!(should_dream(None, 5, None));
}

#[test]
fn dream_gates_each_block() {
    assert!(!should_dream(Some(23), 9, None));
    assert!(should_dream(Some(24), 5, Some("0")));
    assert!(!should_dream(Some(48), 5, Some("1")));
    assert!(!should_dream(Some(48), 4, None));
}

fn row(t: &str, o: &str, f: &str) -> OutcomeRow {
    OutcomeRow { pr_type: t.into(), outcome: o.into(), feedback: f.into() }
}

#[test]
fn dream_profile_of_a_repository() {
    let rows = vec![
        row("security_fix", "merged", ""),
        row("docs", "merged", "good docs"),
        row("refactor", "closed", "not needed"),
        row("refactor", "rejected", ""),
        row("docs", "closed", ""),
    ];
    let p = dream_profile(&rows);
    assert_eq!(p.preferred, vec!["security_fix".to_string(), "docs".to_string()]);
    assert_eq!(p.avoid, vec!["refactor".to_string()]);
    assert_eq!((p.merged, p.total), (2, 5));
    assert_eq!(p.notes, "Last 2 feedbacks recorded. Patterns: good docs; not needed");
    let empty = dream_profile(&[]);
    assert!(empty.preferred.is_empty() && empty.notes.is_empty());
}

#[test]
fn outcome_lists() {
    let rows = vec![
        row("docs", "merged", ""),
        row("docs", "merged", ""),
        row("perf", "closed", ""),
        row("docs", "closed", ""),
        row("x", "open", ""),
    ];
    let (merged, refused) = outcome_type_lists(&rows);
    assert_eq!(merged, vec!["docs".to_string()]);
    assert_eq!(refused, vec!["perf".to_string(), "docs".to_string()]);
}

#[test]
fn conversation_thread_lines() {
    let m = |role: &str, author: &str, body: &str, inline: bool, path: Option<&str>| ConversationMessage {
        repo: "o/r".into(),
        pr_number: 1,
        role: role.into(),
        author: author.into(),
        body: body.into(),
        comment_id: 0,
        is_inline: inline,
        file_path: path.map(String::from),
    };
    let msgs = vec![
        m("maintainer", "alice", "Please use unwrap_or_default()", true, Some("src/a.rs")),
        m("contribai", "bot", "Fixed", false, Some("ignored.rs")),
        m("maintainer", "alice", "Thanks", true, None),
    ];
    assert_eq!(
        conversation_context(&msgs),
        "[maintainer @alice (on src/a.rs)] Please use unwrap_or_default()\n[contribai @bot] Fixed\n[maintainer @alice] Thanks"
    );
    assert_eq!(conversation_context(&[]), "");
    let d = DreamResult::default();
    assert!(!d.success && d.repos_profiled == 0 && d.entries_pruned == 0);
}

#[test]
fn github_urls() {
    assert_eq!(
        parse_github_url("https://github.com/owner/repo").unwrap(),
        ("owner".to_string(), "repo".to_string())
    );
    assert_eq!(
        parse_github_url("https://github.com/owner/repo.git/").unwrap(),
        ("owner".to_string(), "repo".to_string())
    );
    assert_eq!(parse_github_url("owner/repo").unwrap(), ("owner".to_string(), "repo".to_string()));
    assert_eq!(
        parse_github_url("http://github.com/a/b/tree/main").unwrap(),
        ("a".to_string(), "b".to_string())
    );
    assert_eq!(
        parse_github_url("justone").unwrap_err(),
        "Invalid GitHub URL: justone. Expected format: https://github.com/owner/repo"
    );
}

fn signals(stars: i64, open_issues: i64, has_license: bool) -> contribai::github::discovery::RepoSignals {
    contribai::github::discovery::RepoSignals {
        stars,
        forks: 50,
        open_issues,
        has_license,
        has_contributing: false,
    }
}

#[test]
fn test_prioritize_prefers_sweet_spot_stars() {
    let names = ["small", "sweet", "big"];
    let repos = vec![signals(10, 5, true), signals(500, 5, true), signals(50000, 5, true)];
    let order = contribai::github::discovery::prioritize(&repos);
    assert_eq!(names[order[0]], "sweet"); // 500 stars wins
}

#[test]
fn prioritize_orders_by_potential_and_keeps_ties_in_order() {
    let repos = vec![
        signals(50000, 0, false), // 2 + 0 + 1.5
        signals(500, 40, true),   // 3 + 3 + 1 + 1.5
        signals(50000, 0, false), // same as the first
        signals(10, 12, false),   // 1 + 1.2 + 1.5
    ];
    let order = contribai::github::discovery::prioritize(&repos);
    assert_eq!(order, vec![1, 3, 0, 2]);
    assert!(contribai::github::discovery::prioritize(&[]).is_empty());
}

#[test]
fn contributable_needs_issues_guide_and_recent_push() {
    let f = contribai::github::discovery::is_contributable;
    assert!(f(3, false, false, None, 1000));
    assert!(!f(0, false, false, None, 1000));
    assert!(!f(3, true, false, None, 1000));
    assert!(f(3, true, true, Some(1000), 1000));
    assert!(!f(3, false, false, Some(999), 1000));
}
