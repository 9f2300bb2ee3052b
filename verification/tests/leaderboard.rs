use contribai::common::leaderboard::{status_counts, LeaderboardEntry, StatusCounts};

fn entry(merged: i64, closed: i64) -> LeaderboardEntry {
    LeaderboardEntry { repo: "test".into(), total_prs: merged + closed, merged, closed, open: 0 }
}

#[test]
fn status_thresholds() {
    assert_eq!(entry(7, 3).status(), "excellent");
    assert_eq!(entry(69, 31).status(), "good");
    assert_eq!(entry(2, 3).status(), "good");
    assert_eq!(entry(39, 61).status(), "needs_improvement");
    assert_eq!(entry(1, 99).status(), "needs_improvement");
    assert_eq!(entry(0, 5).status(), "pending");
    assert_eq!(entry(0, 0).status(), "pending");
}

#[test]
fn overall_counts_from_rows() {
    let rows = vec![
        ("merged".to_string(), 2),
        ("closed".to_string(), 1),
        ("open".to_string(), 1),
        ("ci_passed".to_string(), 3),
    ];
    assert_eq!(
        status_counts(&rows),
        StatusCounts { total: 7, merged: 2, closed: 1, open: 1 }
    );
    assert_eq!(status_counts(&[]), StatusCounts { total: 0, merged: 0, closed: 0, open: 0 });
}

fn pr_to(repo: &str, status: &str) -> contribai::orchestrator::memory::PrRecord {
    contribai::orchestrator::memory::PrRecord {
        repo: repo.into(),
        pr_number: 1,
        pr_url: String::new(),
        title: "t".into(),
        pr_type: "code_quality".into(),
        status: status.into(),
        branch: String::new(),
        fork: String::new(),
        created_at: String::new(),
    }
}

#[test]
fn repo_table_ranks_by_merges_then_volume() {
    let prs = vec![
        pr_to("a/one", "open"),
        pr_to("b/two", "merged"),
        pr_to("a/one", "closed"),
        pr_to("c/three", "merged"),
        pr_to("c/three", "open"),
        pr_to("a/one", "open"),
    ];
    let rows = contribai::common::leaderboard::repo_leaderboard(&prs, 10);
    let got: Vec<(&str, usize, usize, usize)> =
        rows.iter().map(|r| (r.repo.as_str(), r.total, r.merged, r.closed)).collect();
    assert_eq!(got, vec![("c/three", 2, 1, 0), ("b/two", 1, 1, 0), ("a/one", 3, 0, 1)]);
    let top = contribai::common::leaderboard::repo_leaderboard(&prs, 1);
    assert_eq!(top.len(), 1);
    assert_eq!(top[0].repo, "c/three");
    assert!(contribai::common::leaderboard::repo_leaderboard(&[], 5).is_empty());
}

#[test]
fn merge_percent_rounds_down() {
    let p = contribai::common::leaderboard::merge_percent;
    assert_eq!(p(0, 0), 0);
    assert_eq!(p(1, 3), 33);
    assert_eq!(p(2, 3), 66);
    assert_eq!(p(5, 5), 100);
    assert_eq!(p(7, 2), 350);
    assert_eq!(p(u64::MAX, 1), 100 * (u64::MAX as u128));
}
