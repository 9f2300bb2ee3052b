//! Configuration sections and their defaults.
//!
//! Reading `config.yaml`, the environment and the `gh`/`gcloud` tools is the
//! application's work; it hands the values it finds to the constructors here.
use vstd::prelude::*;

use crate::text::{append_str, chars_of, ends_with_str, starts_with_str, string_from_chars};

verus! {

pub open spec fn string_views(v: Seq<String>) -> Seq<Seq<char>> {
    v.map_values(|s: String| s@)
}

// ── Web ──────────────────────────────────────────────────────────────────────

/// Web server configuration (API auth + webhook).
#[derive(Debug, Clone)]
pub struct WebConfig {
    /// API keys accepted via `X-API-Key` header or `api_key` query param.
    /// Empty list means no authentication required.
    pub api_keys: Vec<String>,
    /// Shared secret for verifying GitHub webhook HMAC-SHA256 signatures.
    pub webhook_secret: Option<String>,
}

impl WebConfig {
    /// The default web configuration, given the `GITHUB_WEBHOOK_SECRET`
    /// environment variable (if set).
    pub fn with_webhook_secret(webhook_secret: Option<String>) -> (r: Self)
        ensures
            r.api_keys@.len() == 0,
            r.webhook_secret == webhook_secret,
    {
        WebConfig { api_keys: Vec::new(), webhook_secret }
    }
}

// ── GitHub ───────────────────────────────────────────────────────────────────

/// GitHub API configuration.
#[derive(Clone)]
pub struct GitHubConfig {
    /// GitHub personal access token.
    pub token: String,
    pub rate_limit_buffer: u32,
    pub max_prs_per_day: u32,
}

pub fn default_rate_limit_buffer() -> (r: u32)
    ensures
        r == 100,
{
    100
}

pub fn default_max_prs_per_day() -> (r: u32)
    ensures
        r == 5,
{
    5
}

impl GitHubConfig {
    /// The default GitHub configuration with the token found in the
    /// environment or the `gh` tool (empty when none).
    pub fn with_token(token: String) -> (r: Self)
        ensures
            r.token == token,
            r.rate_limit_buffer == 100,
            r.max_prs_per_day == 5,
    {
        GitHubConfig {
            token,
            rate_limit_buffer: default_rate_limit_buffer(),
            max_prs_per_day: default_max_prs_per_day(),
        }
    }

    /// The debug rendering, with the token redacted.
    pub fn redacted(&self) -> (r: String)
        ensures
            r@ == "GitHubConfig { token: \"[REDACTED]\", rate_limit_buffer: "@
                + crate::text::decimal(self.rate_limit_buffer as nat) + ", max_prs_per_day: "@
                + crate::text::decimal(self.max_prs_per_day as nat) + " }"@,
    {
        let mut v = chars_of("GitHubConfig { token: \"[REDACTED]\", rate_limit_buffer: ");
        let a = crate::text::decimal_u64(self.rate_limit_buffer as u64);
        crate::text::append_chars(&mut v, &a);
        append_str(&mut v, ", max_prs_per_day: ");
        let b = crate::text::decimal_u64(self.max_prs_per_day as u64);
        crate::text::append_chars(&mut v, &b);
        append_str(&mut v, " }");
        string_from_chars(&v)
    }
}

/// The token `gh auth token` reported: its trimmed output when it succeeded,
/// else empty.
pub open spec fn gh_token_value(succeeded: bool, output: Seq<char>) -> Seq<char> {
    if succeeded {
        crate::text::trim(output)
    } else {
        seq![]
    }
}

/// The token from the `gh` tool, given whether it succeeded and what it printed.
pub fn gh_token_from(succeeded: bool, output: &str) -> (r: String)
    ensures
        r@ == gh_token_value(succeeded, output@),
{
    if succeeded {
        let o = chars_of(output);
        let t = crate::text::trimmed(&o);
        string_from_chars(&t)
    } else {
        String::new()
    }
}

/// The project `gcloud config get-value project` reported: its trimmed
/// output when it succeeded and that is neither empty nor `(unset)`; else
/// empty.
pub open spec fn gcloud_project_value(succeeded: bool, output: Seq<char>) -> Seq<char> {
    let t = crate::text::trim(output);
    if succeeded && t.len() > 0 && t != "(unset)"@ {
        t
    } else {
        seq![]
    }
}

/// The project from the `gcloud` tool, given whether it succeeded and what
/// it printed.
pub fn gcloud_project_from(succeeded: bool, output: &str) -> (r: String)
    ensures
        r@ == gcloud_project_value(succeeded, output@),
{
    let o = chars_of(output);
    let t = crate::text::trimmed(&o);
    if succeeded && t.len() > 0 && !crate::text::chars_eq_str(&t, "(unset)") {
        string_from_chars(&t)
    } else {
        String::new()
    }
}

/// How a token is shown: `****` and its last four characters (all of it
/// when shorter), or nothing when it is empty.
pub open spec fn token_display(token: Seq<char>) -> Option<Seq<char>> {
    if token.len() == 0 {
        None
    } else if token.len() <= 4 {
        Some("****"@ + token)
    } else {
        Some("****"@ + token.skip(token.len() - 4))
    }
}

/// The token as the configuration listing shows it.
pub fn masked_token(token: &str) -> (r: Option<String>)
    ensures
        match r {
            Some(s) => token_display(token@) == Some(s@),
            None => token_display(token@) is None,
        },
{
    let t = chars_of(token);
    if t.len() == 0 {
        return None;
    }
    let start = if t.len() <= 4 {
        0
    } else {
        t.len() - 4
    };
    let tail = crate::text::slice_to_vec(&t, start, t.len());
    let mut out = chars_of("****");
    crate::text::append_chars(&mut out, &tail);
    proof {
        if t.len() <= 4 {
            assert(tail@ =~= token@);
        } else {
            assert(tail@ =~= token@.skip(token@.len() - 4));
        }
    }
    Some(string_from_chars(&out))
}

// ── Analysis ─────────────────────────────────────────────────────────────────

/// Analysis engine configuration.
#[derive(Debug, Clone)]
pub struct AnalysisConfig {
    pub enabled_analyzers: Vec<String>,
    pub max_file_size_kb: u64,
    pub skip_patterns: Vec<String>,
    pub max_context_tokens: usize,
}

pub open spec fn default_analyzer_names() -> Seq<Seq<char>> {
    seq!["security"@, "code_quality"@, "performance"@]
}

pub fn default_analyzers() -> (r: Vec<String>)
    ensures
        string_views(r@) == default_analyzer_names(),
{
    let r = vec![
        String::from_str("security"),
        String::from_str("code_quality"),
        String::from_str("performance"),
    ];
    proof {
        assert(string_views(r@) =~= default_analyzer_names());
    }
    r
}

pub fn default_max_file_size_kb() -> (r: u64)
    ensures
        r == 100,
{
    100
}

pub fn default_max_context_tokens() -> (r: usize)
    ensures
        r == 30_000,
{
    30_000
}

impl Default for AnalysisConfig {
    fn default() -> (r: Self)
        ensures
            string_views(r.enabled_analyzers@) == default_analyzer_names(),
            r.max_file_size_kb == 100,
            r.skip_patterns@.len() == 0,
            r.max_context_tokens == 30_000,
    {
        AnalysisConfig {
            enabled_analyzers: default_analyzers(),
            max_file_size_kb: default_max_file_size_kb(),
            skip_patterns: Vec::new(),
            max_context_tokens: default_max_context_tokens(),
        }
    }
}

// ── Contributions ────────────────────────────────────────────────────────────

/// Contribution generation configuration.
#[derive(Debug, Clone)]
pub struct ContributionConfig {
    pub max_changes_per_pr: usize,
    pub sign_off: bool,
    /// Commit message convention: "conventional", "angular", "none".
    pub commit_convention: String,
    /// PR description style: "descriptive", "minimal".
    pub pr_style: String,
    /// Whether to GPG-sign commits.
    pub sign_commits: bool,
    /// Maximum character length for PR body.
    pub max_pr_body_length: usize,
    /// Whether to include test changes in PRs.
    pub include_tests: bool,
}

pub fn default_max_changes_per_pr() -> (r: usize)
    ensures
        r == 5,
{
    5
}

pub fn default_commit_convention() -> (r: String)
    ensures
        r@ == "conventional"@,
{
    String::from_str("conventional")
}

pub fn default_pr_style() -> (r: String)
    ensures
        r@ == "descriptive"@,
{
    String::from_str("descriptive")
}

pub fn default_sign_commits() -> (r: bool)
    ensures
        r,
{
    true
}

pub fn default_max_pr_body_length() -> (r: usize)
    ensures
        r == 4000,
{
    4000
}

pub fn default_include_tests() -> (r: bool)
    ensures
        r,
{
    true
}

impl Default for ContributionConfig {
    fn default() -> (r: Self)
        ensures
            r.max_changes_per_pr == 5,
            !r.sign_off,
            r.commit_convention@ == "conventional"@,
            r.pr_style@ == "descriptive"@,
            r.sign_commits,
            r.max_pr_body_length == 4000,
            r.include_tests,
    {
        ContributionConfig {
            max_changes_per_pr: default_max_changes_per_pr(),
            sign_off: false,
            commit_convention: default_commit_convention(),
            pr_style: default_pr_style(),
            sign_commits: default_sign_commits(),
            max_pr_body_length: default_max_pr_body_length(),
            include_tests: default_include_tests(),
        }
    }
}

// ── Discovery ────────────────────────────────────────────────────────────────

/// Discovery configuration.
#[derive(Debug, Clone)]
pub struct DiscoveryConfig {
    pub languages: Vec<String>,
    pub stars_min: i64,
    pub stars_max: i64,
    pub max_results: usize,
}

pub open spec fn default_discovery_language_names() -> Seq<Seq<char>> {
    seq![
        "python"@,
        "javascript"@,
        "typescript"@,
        "go"@,
        "rust"@,
        "java"@,
        "ruby"@,
        "php"@,
        "c"@,
        "cpp"@,
        "csharp"@,
        "swift"@,
        "kotlin"@,
        "html"@,
        "css"@,
    ]
}

pub fn default_disc_languages() -> (r: Vec<String>)
    ensures
        string_views(r@) == default_discovery_language_names(),
{
    let r = vec![
        String::from_str("python"),
        String::from_str("javascript"),
        String::from_str("typescript"),
        String::from_str("go"),
        String::from_str("rust"),
        String::from_str("java"),
        String::from_str("ruby"),
        String::from_str("php"),
        String::from_str("c"),
        String::from_str("cpp"),
        String::from_str("csharp"),
        String::from_str("swift"),
        String::from_str("kotlin"),
        String::from_str("html"),
        String::from_str("css"),
    ];
    proof {
        assert(string_views(r@) =~= default_discovery_language_names());
    }
    r
}

pub fn default_disc_stars_min() -> (r: i64)
    ensures
        r == 50,
{
    50
}

pub fn default_disc_stars_max() -> (r: i64)
    ensures
        r == 10000,
{
    10000
}

pub fn default_disc_max_results() -> (r: usize)
    ensures
        r == 10,
{
    10
}

impl Default for DiscoveryConfig {
    fn default() -> (r: Self)
        ensures
            string_views(r.languages@) == default_discovery_language_names(),
            r.stars_min == 50,
            r.stars_max == 10000,
            r.max_results == 10,
    {
        DiscoveryConfig {
            languages: default_disc_languages(),
            stars_min: default_disc_stars_min(),
            stars_max: default_disc_stars_max(),
            max_results: default_disc_max_results(),
        }
    }
}

// ── Storage ──────────────────────────────────────────────────────────────────

/// Storage configuration.
#[derive(Debug, Clone)]
pub struct StorageConfig {
    pub db_path: String,
}

/// `base` joined with the relative path `part`, `/`-separated.
pub open spec fn join_path(base: Seq<char>, part: Seq<char>) -> Seq<char> {
    if base.len() == 0 || base.last() == '/' {
        base + part
    } else {
        base + "/"@ + part
    }
}

fn join_path_exec(base: &str, part: &str) -> (r: String)
    ensures
        r@ == join_path(base@, part@),
{
    let mut v = chars_of(base);
    proof {
        reveal_strlit("/");
        assert("/"@ =~= seq!['/']);
        if base@.len() > 0 {
            assert(base@.skip(base@.len() - 1) =~= seq![base@.last()]);
            if base@.skip(base@.len() - 1) == "/"@ {
                assert(seq![base@.last()][0] == seq!['/'][0]);
            }
        }
        assert(crate::text::ends_with(base@, "/"@) == (base@.len() > 0 && base@.last() == '/'));
    }
    if v.len() == 0 || ends_with_str(&v, "/") {
        append_str(&mut v, part);
    } else {
        append_str(&mut v, "/");
        append_str(&mut v, part);
        proof {
            assert(v@ =~= base@ + "/"@ + part@);
        }
    }
    proof {
        assert("/"@ =~= seq!['/']);
    }
    string_from_chars(&v)
}

/// The default database path under a home directory (`.` when there is none).
pub open spec fn db_path_in(home: Option<Seq<char>>) -> Seq<char> {
    let h = match home {
        Some(h) => h,
        None => "."@,
    };
    join_path(join_path(h, ".contribai"@), "memory.db"@)
}

/// The default database path, given the user's home directory if known.
pub fn default_db_path(home: Option<&str>) -> (r: String)
    ensures
        r@ == db_path_in(
            match home {
                Some(h) => Some(h@),
                None => None,
            },
        ),
{
    let h = match home {
        Some(h) => h,
        None => ".",
    };
    let dir = join_path_exec(h, ".contribai");
    join_path_exec(dir.as_str(), "memory.db")
}

impl StorageConfig {
    /// The default storage configuration, given the user's home directory.
    pub fn with_home(home: Option<&str>) -> (r: Self)
        ensures
            r.db_path@ == db_path_in(
                match home {
                    Some(h) => Some(h@),
                    None => None,
                },
            ),
    {
        StorageConfig { db_path: default_db_path(home) }
    }

    /// The database path with `~` (alone or as a leading `~/`) expanded to
    /// the home directory (`.` when there is none). Creating its parent
    /// directory is left to the caller.
    pub fn resolved_db_path(&self, home: Option<&str>) -> (r: String)
        ensures
            r@ == if self.db_path@ == "~"@ {
                match home {
                    Some(h) => h@,
                    None => "."@,
                }
            } else if crate::text::starts_with(self.db_path@, "~/"@) {
                join_path(
                    match home {
                        Some(h) => h@,
                        None => "."@,
                    },
                    self.db_path@.skip(2),
                )
            } else {
                self.db_path@
            },
    {
        let p = chars_of(self.db_path.as_str());
        proof {
            reveal_strlit("~/");
            reveal_strlit("~");
        }
        if crate::text::chars_eq_str(&p, "~") {
            return match home {
                Some(h) => String::from_str(h),
                None => String::from_str("."),
            };
        }
        if starts_with_str(&p, "~/") {
            let h = match home {
                Some(h) => h,
                None => ".",
            };
            let rest = crate::text::slice_to_vec(&p, 2, p.len());
            let rest_text = string_from_chars(&rest);
            proof {
                assert(rest@ =~= self.db_path@.skip(2));
            }
            join_path_exec(h, rest_text.as_str())
        } else {
            self.db_path.clone()
        }
    }
}

// ── Multi-model routing ──────────────────────────────────────────────────────

/// Multi-model routing configuration.
#[derive(Debug, Clone)]
pub struct MultiModelConfig {
    pub enabled: bool,
    pub strategy: String,
}

pub fn default_strategy() -> (r: String)
    ensures
        r@ == "cost_optimized"@,
{
    String::from_str("cost_optimized")
}

impl Default for MultiModelConfig {
    fn default() -> (r: Self)
        ensures
            !r.enabled,
            r.strategy@ == "cost_optimized"@,
    {
        MultiModelConfig { enabled: false, strategy: default_strategy() }
    }
}

// ── Scheduler ────────────────────────────────────────────────────────────────

/// Scheduler configuration for cron-based runs.
#[derive(Debug, Clone)]
pub struct SchedulerConfig {
    /// Cron expression controlling run frequency.
    pub cron: String,
    /// Whether scheduled runs are active.
    pub enabled: bool,
}

pub fn default_scheduler_cron() -> (r: String)
    ensures
        r@ == "0 */6 * * *"@,
{
    String::from_str("0 */6 * * *")
}

pub fn default_scheduler_enabled() -> (r: bool)
    ensures
        r,
{
    true
}

impl Default for SchedulerConfig {
    fn default() -> (r: Self)
        ensures
            r.cron@ == "0 */6 * * *"@,
            r.enabled,
    {
        SchedulerConfig { cron: default_scheduler_cron(), enabled: default_scheduler_enabled() }
    }
}

// ── Quotas ───────────────────────────────────────────────────────────────────

/// API usage quota configuration.
#[derive(Debug, Clone)]
pub struct QuotaConfig {
    /// Maximum GitHub API calls per day.
    pub github_daily: u32,
    /// Maximum LLM API calls per day.
    pub llm_daily: u32,
    /// Maximum LLM tokens consumed per day.
    pub llm_tokens_daily: u64,
}

pub fn default_github_daily() -> (r: u32)
    ensures
        r == 1000,
{
    1000
}

pub fn default_llm_daily() -> (r: u32)
    ensures
        r == 500,
{
    500
}

pub fn default_llm_tokens_daily() -> (r: u64)
    ensures
        r == 1_000_000,
{
    1_000_000
}

impl Default for QuotaConfig {
    fn default() -> (r: Self)
        ensures
            r.github_daily == 1000,
            r.llm_daily == 500,
            r.llm_tokens_daily == 1_000_000,
    {
        QuotaConfig {
            github_daily: default_github_daily(),
            llm_daily: default_llm_daily(),
            llm_tokens_daily: default_llm_tokens_daily(),
        }
    }
}

// ── Notifications ────────────────────────────────────────────────────────────

/// Notification channel configuration.
#[derive(Debug, Clone)]
pub struct NotificationConfig {
    /// Slack incoming webhook URL.
    pub slack_webhook: Option<String>,
    /// Discord webhook URL.
    pub discord_webhook: Option<String>,
    /// Telegram bot token.
    pub telegram_token: Option<String>,
    /// Telegram chat ID to send messages to.
    pub telegram_chat_id: Option<String>,
}

impl Default for NotificationConfig {
    fn default() -> (r: Self)
        ensures
            r.slack_webhook is None,
            r.discord_webhook is None,
            r.telegram_token is None,
            r.telegram_chat_id is None,
    {
        NotificationConfig {
            slack_webhook: None,
            discord_webhook: None,
            telegram_token: None,
            telegram_chat_id: None,
        }
    }
}

// ── Sandbox ──────────────────────────────────────────────────────────────────

/// Sandbox execution configuration.
#[derive(Debug, Clone)]
pub struct SandboxConfig {
    /// Whether sandboxed code execution is enabled.
    pub enabled: bool,
    /// Override Docker image for the sandbox container.
    pub docker_image: Option<String>,
    /// Sandbox execution timeout in seconds.
    pub timeout_seconds: u64,
}

pub fn default_sandbox_timeout() -> (r: u64)
    ensures
        r == 30,
{
    30
}

impl Default for SandboxConfig {
    fn default() -> (r: Self)
        ensures
            !r.enabled,
            r.docker_image is None,
            r.timeout_seconds == 30,
    {
        SandboxConfig { enabled: false, docker_image: None, timeout_seconds: default_sandbox_timeout() }
    }
}

} // verus!
