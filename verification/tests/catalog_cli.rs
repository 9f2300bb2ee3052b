use contribai::catalog::{find_profile, is_profile_listing, models_for_task, profiles, templates_for_type};
use contribai::cli::{cleanup_candidates, menu_entry, stale_pr_from_error, url_command, Commands, MenuEntry, UrlCommand};
use contribai::orchestrator::memory::PrRecord;
use contribai::pr::patrol::{patrol_error_entry, should_patrol};
use contribai::text::parse_i64;

#[test]
fn models_filtered_by_task() {
    let all = models_for_task(None);
    assert_eq!(all.len(), 13);
    assert_eq!(all[0].name, "gemini-3.1-pro-preview");
    let offline = models_for_task(Some("OFFLINE"));
    let names: Vec<&str> = offline.iter().map(|m| m.name).collect();
    assert_eq!(names, vec!["llama3.3", "qwen2.5-coder", "deepseek-coder-v2"]);
    assert!(models_for_task(Some("docs")).iter().all(|m| m.best_for.contains("docs")));
}

#[test]
fn templates_filtered_by_type() {
    assert_eq!(templates_for_type(None).len(), 14);
    let sec = templates_for_type(Some("security"));
    assert_eq!(sec.len(), 4);
    assert!(templates_for_type(Some("nothing")).is_empty());
}

#[test]
fn profile_lookup() {
    assert_eq!(profiles().len(), 4);
    let g = find_profile("gentle").unwrap();
    assert!(g.dry_run);
    assert_eq!(g.max_prs_per_day, 3);
    assert_eq!(
        find_profile("nope").unwrap_err(),
        "Profile 'nope' not found. Available: security-focused, docs-focused, full-scan, gentle"
    );
    assert!(is_profile_listing("--list"));
    assert!(!is_profile_listing("gentle"));
}

#[test]
fn menu_entries() {
    assert!(matches!(menu_entry(0), MenuEntry::Ready(Commands::Interactive)));
    assert!(matches!(menu_entry(6), MenuEntry::Ready(Commands::Hunt { rounds: 5, delay: 30, .. })));
    assert!(matches!(menu_entry(3), MenuEntry::NeedsUrl(UrlCommand::Analyze)));
    assert!(matches!(menu_entry(22), MenuEntry::Exit));
    match menu_entry(14) {
        MenuEntry::Ready(Commands::WebServer { host, port }) => {
            assert_eq!(host, "127.0.0.1");
            assert_eq!(port, 8787);
        }
        _ => panic!("wrong entry"),
    }
    assert!(matches!(url_command(UrlCommand::Target, "u".into()), Commands::Target { dry_run: false, .. }));
}

fn record(n: i64, status: &str, fork: &str) -> PrRecord {
    PrRecord {
        repo: "o/r".into(),
        pr_number: n,
        pr_url: String::new(),
        title: String::new(),
        pr_type: String::new(),
        status: status.into(),
        branch: String::new(),
        fork: fork.into(),
        created_at: String::new(),
    }
}

#[test]
fn cleanup_groups_by_fork() {
    let prs = vec![
        record(1, "merged", "me/a"),
        record(2, "open", "me/b"),
        record(3, "closed", "me/a"),
        record(4, "closed", ""),
        record(5, "merged", "me/b"),
    ];
    let (safe, kept) = cleanup_candidates(&prs);
    assert_eq!(safe, vec!["me/a"]);
    assert_eq!(kept, vec!["me/b"]);
}

#[test]
fn parse_i64_like_std() {
    for s in ["0", "42", "-7", "+8", "9223372036854775807", "-9223372036854775808", "", "-", "+", "1a", "9223372036854775808", " 1"] {
        let c: Vec<char> = s.chars().collect();
        assert_eq!(parse_i64(&c), s.parse::<i64>().ok(), "input {:?}", s);
    }
}

#[test]
fn not_found_entries_round_trip() {
    let (nf, entry) = patrol_error_entry("GitHub API error: Not found", "owner/repo", 42);
    assert!(nf);
    assert_eq!(entry, "NOT_FOUND:owner/repo:42");
    assert_eq!(stale_pr_from_error(&entry), Some(("owner/repo".to_string(), 42)));
    let (nf, entry) = patrol_error_entry("timeout", "owner/repo", 42);
    assert!(!nf);
    assert_eq!(entry, "Error patrolling PR #42: timeout");
    assert_eq!(stale_pr_from_error(&entry), None);
    assert_eq!(stale_pr_from_error("NOT_FOUND:o/r:0"), None);
    assert!(should_patrol("review_requested"));
    assert!(!should_patrol("merged"));
}
