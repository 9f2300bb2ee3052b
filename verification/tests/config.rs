use contribai::common::config::{
    default_db_path, gcloud_project_from, gh_token_from, AnalysisConfig, ContributionConfig, DiscoveryConfig,
    GitHubConfig, MultiModelConfig, NotificationConfig, QuotaConfig, SandboxConfig,
    SchedulerConfig, StorageConfig, WebConfig,
};

#[test]
fn test_scheduler_config_defaults() {
    let s = SchedulerConfig::default();
    assert_eq!(s.cron, "0 */6 * * *");
    assert!(s.enabled);
}

#[test]
fn test_quota_config_defaults() {
    let q = QuotaConfig::default();
    assert_eq!(q.github_daily, 1000);
    assert_eq!(q.llm_daily, 500);
    assert_eq!(q.llm_tokens_daily, 1_000_000);
}

#[test]
fn test_notification_config_defaults() {
    let n = NotificationConfig::default();
    assert!(n.slack_webhook.is_none());
    assert!(n.discord_webhook.is_none());
    assert!(n.telegram_token.is_none());
    assert!(n.telegram_chat_id.is_none());
}

#[test]
fn test_sandbox_config_defaults() {
    let s = SandboxConfig::default();
    assert!(!s.enabled);
    assert!(s.docker_image.is_none());
    assert_eq!(s.timeout_seconds, 30);
}

#[test]
fn test_contribution_config_new_field_defaults() {
    let c = ContributionConfig::default();
    assert_eq!(c.commit_convention, "conventional");
    assert_eq!(c.pr_style, "descriptive");
    assert!(c.sign_commits);
    assert_eq!(c.max_pr_body_length, 4000);
    assert!(c.include_tests);
}

#[test]
fn test_storage_resolved_path() {
    let storage = StorageConfig { db_path: "/tmp/test/memory.db".to_string() };
    let path = storage.resolved_db_path(Some("/home/u"));
    assert_eq!(path, "/tmp/test/memory.db");
}

// ── Further cases ────────────────────────────────────────────────────────────

#[test]
fn storage_paths_under_home() {
    assert_eq!(default_db_path(Some("/home/u")), "/home/u/.contribai/memory.db");
    assert_eq!(default_db_path(Some("/root/")), "/root/.contribai/memory.db");
    assert_eq!(default_db_path(None), "./.contribai/memory.db");
    assert_eq!(StorageConfig::with_home(Some("/h")).db_path, "/h/.contribai/memory.db");
    let s = StorageConfig { db_path: "~/data/m.db".to_string() };
    assert_eq!(s.resolved_db_path(Some("/home/u")), "/home/u/data/m.db");
    assert_eq!(s.resolved_db_path(None), "./data/m.db");
}

#[test]
fn other_section_defaults() {
    let a = AnalysisConfig::default();
    assert_eq!(a.enabled_analyzers, vec!["security", "code_quality", "performance"]);
    assert_eq!(a.max_file_size_kb, 100);
    assert_eq!(a.max_context_tokens, 30_000);
    assert!(a.skip_patterns.is_empty());
    let d = DiscoveryConfig::default();
    assert_eq!(d.languages.len(), 15);
    assert_eq!(d.languages[0], "python");
    assert_eq!((d.stars_min, d.stars_max, d.max_results), (50, 10000, 10));
    let m = MultiModelConfig::default();
    assert!(!m.enabled);
    assert_eq!(m.strategy, "cost_optimized");
    let g = GitHubConfig::with_token("t".to_string());
    assert_eq!((g.rate_limit_buffer, g.max_prs_per_day), (100, 5));
    assert!(!g.redacted().contains("\"t\""));
    assert_eq!(
        g.redacted(),
        "GitHubConfig { token: \"[REDACTED]\", rate_limit_buffer: 100, max_prs_per_day: 5 }"
    );
    let w = WebConfig::with_webhook_secret(Some("s".to_string()));
    assert!(w.api_keys.is_empty());
    assert_eq!(w.webhook_secret.as_deref(), Some("s"));
}

#[test]
fn credential_tool_output() {
    assert_eq!(gh_token_from(true, "  ghp_abc\n"), "ghp_abc");
    assert_eq!(gh_token_from(false, "ghp_abc"), "");
    assert_eq!(gcloud_project_from(true, "my-proj\n"), "my-proj");
    assert_eq!(gcloud_project_from(true, "(unset)\n"), "");
    assert_eq!(gcloud_project_from(false, "my-proj"), "");
}

#[test]
fn masked_token_shows_last_four() {
    let m = contribai::common::config::masked_token;
    assert_eq!(m(""), None);
    assert_eq!(m("ghp_abcdef1234").as_deref(), Some("****1234"));
    assert_eq!(m("xyz").as_deref(), Some("****xyz"));
}

#[test]
fn resolved_db_path_expands_a_bare_tilde_to_home() {
    let s = StorageConfig { db_path: "~".into() };
    assert_eq!(s.resolved_db_path(Some("/home/u")), "/home/u");
    assert_eq!(s.resolved_db_path(None), ".");
    let plain = StorageConfig { db_path: "/tmp/test/memory.db".into() };
    assert_eq!(plain.resolved_db_path(Some("/home/u")), "/tmp/test/memory.db");
}
