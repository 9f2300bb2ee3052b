//! Command-line decisions that do not touch the terminal: reading a GitHub
//! repository reference, what each entry of the interactive menu starts, and
//! which recorded forks a cleanup may delete.
use vstd::prelude::*;

use crate::orchestrator::memory::{string_views, PrRecord};
use crate::text::{
    chars_eq, chars_eq_str,
    append_str, chars_of, ends_with, ends_with_chars, slice_to_vec, split, split_acc, split_on,
    starts_with, starts_with_str, string_from_chars, views,
};

verus! {

/// `s` without any trailing `c`.
pub open spec fn trim_end_char(s: Seq<char>, c: char) -> Seq<char>
    decreases s.len(),
{
    if s.len() > 0 && s.last() == c {
        trim_end_char(s.drop_last(), c)
    } else {
        s
    }
}

/// `s` without any trailing repetitions of a non-empty `p`.
pub open spec fn trim_end_pattern(s: Seq<char>, p: Seq<char>) -> Seq<char>
    decreases s.len(),
{
    if p.len() > 0 && ends_with(s, p) {
        trim_end_pattern(s.take(s.len() - p.len()), p)
    } else {
        s
    }
}

/// The repository path of a reference: the reference without trailing `/`
/// and `.git`, after `https://github.com/`; else what follows
/// `http://github.com/` in the reference as given; else the reference.
pub open spec fn repo_path(url: Seq<char>) -> Seq<char> {
    let t = trim_end_pattern(trim_end_char(url, '/'), ".git"@);
    if starts_with(t, "https://github.com/"@) {
        t.skip(19)
    } else if starts_with(url, "http://github.com/"@) {
        url.skip(18)
    } else {
        url
    }
}

/// Owner and repository named by a reference, when its path has at least
/// two `/`-separated parts.
pub open spec fn github_repo_of(url: Seq<char>) -> Option<(Seq<char>, Seq<char>)> {
    let parts = split(repo_path(url), '/');
    if parts.len() >= 2 {
        Some((parts[0], parts[1]))
    } else {
        None
    }
}

fn trim_end_char_exec(s: &[char], c: char) -> (r: Vec<char>)
    ensures
        r@ == trim_end_char(s@, c),
{
    let mut k = s.len();
    proof {
        assert(s@.take(k as int) =~= s@);
    }
    while k > 0 && s[k - 1] == c
        invariant
            k <= s@.len(),
            trim_end_char(s@, c) == trim_end_char(s@.take(k as int), c),
        decreases k,
    {
        proof {
            assert(s@.take(k as int).drop_last() =~= s@.take(k - 1));
        }
        k = k - 1;
    }
    slice_to_vec(s, 0, k)
}

fn trim_end_git(s: &[char]) -> (r: Vec<char>)
    ensures
        r@ == trim_end_pattern(s@, ".git"@),
{
    let suffix = chars_of(".git");
    proof {
        reveal_strlit(".git");
    }
    let mut k = s.len();
    proof {
        assert(s@.take(k as int) =~= s@);
    }
    loop
        invariant
            k <= s@.len(),
            suffix@ == ".git"@,
            suffix@.len() == 4,
            trim_end_pattern(s@, ".git"@) == trim_end_pattern(s@.take(k as int), ".git"@),
        decreases k,
    {
        let cur = slice_to_vec(s, 0, k);
        proof {
            assert(cur@ =~= s@.take(k as int));
        }
        if ends_with_chars(&cur, &suffix) {
            proof {
                assert(s@.take(k as int).take(k - 4) =~= s@.take(k - 4));
            }
            k = k - 4;
        } else {
            return cur;
        }
    }
}

/// Parse a GitHub URL (or `owner/repo`) into its owner and repository.
pub fn parse_github_url(url: &str) -> (r: Result<(String, String), String>)
    ensures
        match r {
            Ok((owner, repo)) => github_repo_of(url@) == Some((owner@, repo@)),
            Err(msg) => github_repo_of(url@) is None && msg@ == "Invalid GitHub URL: "@ + url@
                + ". Expected format: https://github.com/owner/repo"@,
        },
{
    let u = chars_of(url);
    let t1 = trim_end_char_exec(&u, '/');
    let t = trim_end_git(&t1);
    proof {
        reveal_strlit("https://github.com/");
        reveal_strlit("http://github.com/");
    }
    let path: Vec<char> = if starts_with_str(&t, "https://github.com/") {
        slice_to_vec(&t, 19, t.len())
    } else if starts_with_str(&u, "http://github.com/") {
        slice_to_vec(&u, 18, u.len())
    } else {
        crate::text::copy_chars(&u)
    };
    proof {
        assert(path@ =~= repo_path(url@));
    }
    let parts = split_on(&path, '/');
    if parts.len() >= 2 {
        proof {
            assert(views(parts@)[0] == parts@[0]@);
            assert(views(parts@)[1] == parts@[1]@);
        }
        Ok((string_from_chars(parts[0].as_slice()), string_from_chars(parts[1].as_slice())))
    } else {
        let mut m = chars_of("Invalid GitHub URL: ");
        append_str(&mut m, url);
        append_str(&mut m, ". Expected format: https://github.com/owner/repo");
        Err(string_from_chars(&m))
    }
}

// ── Round trip ───────────────────────────────────────────────────────────────

pub open spec fn has_no(s: Seq<char>, c: char) -> bool {
    forall|i: int| 0 <= i < s.len() ==> s[i] != c
}

proof fn lemma_split_acc_plain(s: Seq<char>, c: char, cur: Seq<char>)
    requires
        has_no(s, c),
    ensures
        split_acc(s, c, cur) == seq![cur + s],
    decreases s.len(),
{
    if s.len() == 0 {
        assert(cur + s =~= cur);
    } else {
        lemma_split_acc_plain(s.drop_first(), c, cur.push(s[0]));
        assert(cur.push(s[0]) + s.drop_first() =~= cur + s);
    }
}

proof fn lemma_split_acc_one_sep(a: Seq<char>, b: Seq<char>, c: char, cur: Seq<char>)
    requires
        has_no(a, c),
        has_no(b, c),
    ensures
        split_acc(a + seq![c] + b, c, cur) == seq![cur + a, b],
    decreases a.len(),
{
    let s = a + seq![c] + b;
    if a.len() == 0 {
        assert(s[0] == c);
        assert(s.drop_first() =~= b);
        lemma_split_acc_plain(b, c, seq![]);
        assert(seq![] + b =~= b);
        assert(cur + a =~= cur);
    } else {
        assert(s[0] == a[0]);
        assert(s.drop_first() =~= a.drop_first() + seq![c] + b);
        lemma_split_acc_one_sep(a.drop_first(), b, c, cur.push(a[0]));
        assert(cur.push(a[0]) + a.drop_first() =~= cur + a);
    }
}

/// Reading `https://github.com/<owner>/<repo>` gives back the owner and the
/// repository, for names without `/` and a repository name that is not empty
/// and does not end in `.git`.
pub proof fn lemma_github_url_round_trip(owner: Seq<char>, repo: Seq<char>)
    requires
        has_no(owner, '/'),
        has_no(repo, '/'),
        repo.len() > 0,
        !ends_with(repo, ".git"@),
    ensures
        github_repo_of("https://github.com/"@ + owner + "/"@ + repo) == Some((owner, repo)),
{
    reveal_strlit("https://github.com/");
    reveal_strlit("/");
    reveal_strlit(".git");
    let h = "https://github.com/"@;
    let url = h + owner + "/"@ + repo;
    assert(url.last() == repo.last());
    assert(trim_end_char(url, '/') == url);
    assert(!ends_with(url, ".git"@)) by {
        if ends_with(url, ".git"@) {
            if repo.len() >= 4 {
                assert(url.skip(url.len() - 4) =~= repo.skip(repo.len() - 4));
            } else {
                let w = url.skip(url.len() - 4);
                let i = 3 - repo.len();
                assert(w[i] == '/');
                assert(".git"@[i] != '/');
            }
        }
    }
    assert(trim_end_pattern(url, ".git"@) == url);
    assert(url.take(19) =~= h);
    assert(url.skip(19) =~= owner + seq!['/'] + repo);
    lemma_split_acc_one_sep(owner, repo, '/', seq![]);
    assert(seq![] + owner =~= owner);
}

// ── Command line ─────────────────────────────────────────────────────────────

/// ContribAI — AI agent that autonomously contributes to open source.
/// Without a subcommand the interactive menu runs.
#[derive(Debug, Clone)]
pub struct Cli {
    /// Path to config file.
    pub config: Option<String>,
    /// Enable verbose logging.
    pub verbose: bool,
    pub command: Option<Commands>,
}

/// The subcommands.
#[derive(Debug, Clone)]
pub enum Commands {
    /// Auto-discover repos, analyze code, and submit PRs.
    Run { language: Option<String>, stars: Option<String>, dry_run: bool, approve: bool },
    /// Hunt mode: aggressive multi-round discovery.
    Hunt { rounds: u32, delay: u32, language: Option<String>, dry_run: bool, approve: bool },
    /// Monitor open PRs for review comments and respond.
    Patrol { dry_run: bool },
    /// Target a specific repository.
    Target { url: String, dry_run: bool },
    /// Sweep all repositories in the watchlist.
    Watchlist { dry_run: bool },
    /// Start the MCP server.
    McpServer,
    /// Start the web dashboard API server.
    WebServer { host: String, port: u16 },
    /// Show contribution statistics.
    Stats,
    /// Show version and build info.
    Version,
    /// Analyze a repository without creating PRs.
    Analyze { url: String },
    /// Solve open issues in a repository.
    Solve { url: String, dry_run: bool },
    /// Show submitted PRs and their statuses.
    Status { filter: Option<String>, limit: usize },
    /// Show current configuration.
    Config,
    /// Start the scheduler for automated runs.
    Schedule { cron: String },
    /// Interactive setup wizard.
    Init { output: Option<String> },
    /// Check authentication status for all providers.
    Login,
    /// Read one configuration value.
    ConfigGet { key: String },
    /// Set one configuration value.
    ConfigSet { key: String, value: String },
    /// List configuration values.
    ConfigList,
    /// Show contribution leaderboard and merge rate statistics.
    Leaderboard { limit: usize },
    /// List available LLM models.
    Models { task: Option<String> },
    /// Send a test notification to configured channels.
    NotifyTest,
    /// Clean up forks created by ContribAI.
    Cleanup { yes: bool },
    /// List available contribution templates.
    Templates { contribution_type: Option<String> },
    /// Run pipeline with a named profile.
    Profile { name: String, dry_run: bool },
    /// Show system status.
    SystemStatus,
    /// Interactive TUI mode.
    Interactive,
    /// Consolidate memory into durable repo profiles.
    Dream { force: bool },
}


// ── Interactive menu ─────────────────────────────────────────────────────────

/// The commands the menu starts once it has asked for a repository URL.
#[derive(Debug, Clone, Copy, PartialEq, Eq, Structural)]
pub enum UrlCommand {
    Target,
    Analyze,
    Solve,
}

/// What a menu entry leads to.
#[derive(Debug, Clone)]
pub enum MenuEntry {
    /// A command that needs nothing more.
    Ready(Commands),
    /// A command that needs a repository URL first.
    NeedsUrl(UrlCommand),
    /// A profile run that needs a profile name first (default `list`).
    NeedsProfileName,
    /// A configuration change that needs a key and a value first.
    NeedsSetting,
    /// Leave the program.
    Exit,
}

/// Number of entries in the interactive menu.
pub const MENU_LEN: usize = 23;

/// What entry `selection` of the interactive menu leads to; anything past the
/// last entry exits.
pub fn menu_entry(selection: usize) -> (r: MenuEntry)
    ensures
        selection == 0 ==> r matches MenuEntry::Ready(Commands::Interactive),
        selection == 1 ==> r matches MenuEntry::Ready(
            Commands::Run { language: None, stars: None, dry_run: false, approve: false },
        ),
        selection == 2 ==> r == MenuEntry::NeedsUrl(UrlCommand::Target),
        selection == 3 ==> r == MenuEntry::NeedsUrl(UrlCommand::Analyze),
        selection == 4 ==> r == MenuEntry::NeedsUrl(UrlCommand::Solve),
        selection == 5 ==> r matches MenuEntry::Ready(Commands::Patrol { dry_run: false }),
        selection == 6 ==> r matches MenuEntry::Ready(
            Commands::Hunt { rounds: 5, delay: 30, language: None, dry_run: false, approve: false },
        ),
        selection == 7 ==> r matches MenuEntry::Ready(Commands::Stats),
        selection == 8 ==> r matches MenuEntry::Ready(Commands::Leaderboard { limit: 20 }),
        selection == 9 ==> r matches MenuEntry::Ready(Commands::Status { filter: None, limit: 20 }),
        selection == 10 ==> r matches MenuEntry::Ready(Commands::Models { task: None }),
        selection == 11 ==> r matches MenuEntry::Ready(Commands::Templates { contribution_type: None }),
        selection == 12 ==> r == MenuEntry::NeedsProfileName,
        selection == 13 ==> r matches MenuEntry::Ready(Commands::Cleanup { yes: false }),
        selection == 14 ==> (r matches MenuEntry::Ready(Commands::WebServer { host, port }) && host@
            == "127.0.0.1"@ && port == 8787),
        selection == 15 ==> r matches MenuEntry::Ready(Commands::SystemStatus),
        selection == 16 ==> r matches MenuEntry::Ready(Commands::NotifyTest),
        selection == 17 ==> r matches MenuEntry::Ready(Commands::Dream { force: false }),
        selection == 18 ==> r matches MenuEntry::Ready(Commands::Config),
        selection == 19 ==> r == MenuEntry::NeedsSetting,
        selection == 20 ==> r matches MenuEntry::Ready(Commands::Login),
        selection == 21 ==> r matches MenuEntry::Ready(Commands::Init { output: None }),
        selection >= 22 ==> r == MenuEntry::Exit,
{
    match selection {
        0 => MenuEntry::Ready(Commands::Interactive),
        1 => MenuEntry::Ready(Commands::Run { language: None, stars: None, dry_run: false, approve: false }),
        2 => MenuEntry::NeedsUrl(UrlCommand::Target),
        3 => MenuEntry::NeedsUrl(UrlCommand::Analyze),
        4 => MenuEntry::NeedsUrl(UrlCommand::Solve),
        5 => MenuEntry::Ready(Commands::Patrol { dry_run: false }),
        6 => MenuEntry::Ready(
            Commands::Hunt { rounds: 5, delay: 30, language: None, dry_run: false, approve: false },
        ),
        7 => MenuEntry::Ready(Commands::Stats),
        8 => MenuEntry::Ready(Commands::Leaderboard { limit: 20 }),
        9 => MenuEntry::Ready(Commands::Status { filter: None, limit: 20 }),
        10 => MenuEntry::Ready(Commands::Models { task: None }),
        11 => MenuEntry::Ready(Commands::Templates { contribution_type: None }),
        12 => MenuEntry::NeedsProfileName,
        13 => MenuEntry::Ready(Commands::Cleanup { yes: false }),
        14 => MenuEntry::Ready(Commands::WebServer { host: String::from_str("127.0.0.1"), port: 8787 }),
        15 => MenuEntry::Ready(Commands::SystemStatus),
        16 => MenuEntry::Ready(Commands::NotifyTest),
        17 => MenuEntry::Ready(Commands::Dream { force: false }),
        18 => MenuEntry::Ready(Commands::Config),
        19 => MenuEntry::NeedsSetting,
        20 => MenuEntry::Ready(Commands::Login),
        21 => MenuEntry::Ready(Commands::Init { output: None }),
        _ => MenuEntry::Exit,
    }
}

/// The command a URL entry starts once the URL is known (never a dry run).
pub fn url_command(kind: UrlCommand, url: String) -> (r: Commands)
    ensures
        kind == UrlCommand::Target ==> r == (Commands::Target { url: url, dry_run: false }),
        kind == UrlCommand::Analyze ==> r == (Commands::Analyze { url: url }),
        kind == UrlCommand::Solve ==> r == (Commands::Solve { url: url, dry_run: false }),
{
    match kind {
        UrlCommand::Target => Commands::Target { url, dry_run: false },
        UrlCommand::Analyze => Commands::Analyze { url },
        UrlCommand::Solve => Commands::Solve { url, dry_run: false },
    }
}

// ── Fork cleanup ─────────────────────────────────────────────────────────────

/// The non-empty fork names of the records, each once, in order of first
/// appearance.
pub open spec fn recorded_forks(prs: Seq<PrRecord>) -> Seq<Seq<char>>
    decreases prs.len(),
{
    if prs.len() == 0 {
        seq![]
    } else {
        let before = recorded_forks(prs.drop_last());
        let f = prs.last().fork@;
        if f.len() == 0 || before.contains(f) {
            before
        } else {
            before.push(f)
        }
    }
}

/// Every PR from fork `f` is merged or closed.
pub open spec fn fork_resolved(f: Seq<char>, prs: Seq<PrRecord>) -> bool {
    forall|i: int|
        0 <= i < prs.len() && #[trigger] prs[i].fork@ == f ==> prs[i].status@ == "merged"@
            || prs[i].status@ == "closed"@
}

/// The recorded forks split into those safe to delete (all their PRs
/// resolved) and those kept, each list in order of first appearance.
pub open spec fn cleanup_split(forks: Seq<Seq<char>>, prs: Seq<PrRecord>) -> (Seq<Seq<char>>, Seq<Seq<char>>)
    decreases forks.len(),
{
    if forks.len() == 0 {
        (seq![], seq![])
    } else {
        let (safe, kept) = cleanup_split(forks.drop_last(), prs);
        if fork_resolved(forks.last(), prs) {
            (safe.push(forks.last()), kept)
        } else {
            (safe, kept.push(forks.last()))
        }
    }
}

fn resolved_exec(f: &Vec<char>, prs: &[PrRecord]) -> (r: bool)
    ensures
        r == fork_resolved(f@, prs@),
{
    let mut k: usize = 0;
    while k < prs.len()
        invariant
            k <= prs@.len(),
            forall|i: int|
                0 <= i < k && #[trigger] prs@[i].fork@ == f@ ==> prs@[i].status@ == "merged"@
                    || prs@[i].status@ == "closed"@,
        decreases prs.len() - k,
    {
        if chars_eq(chars_of(prs[k].fork.as_str()).as_slice(), f) {
            let st = chars_of(prs[k].status.as_str());
            if !(chars_eq_str(&st, "merged") || chars_eq_str(&st, "closed")) {
                proof {
                    assert(prs@[k as int].fork@ == f@);
                }
                return false;
            }
        }
        k = k + 1;
    }
    true
}

/// Forks a cleanup may delete (every PR from them merged or closed) and
/// forks it keeps.
pub fn cleanup_candidates(prs: &[PrRecord]) -> (r: (Vec<String>, Vec<String>))
    ensures
        (string_views(r.0@), string_views(r.1@)) == cleanup_split(recorded_forks(prs@), prs@),
{
    let mut forks: Vec<String> = Vec::new();
    let mut k: usize = 0;
    proof {
        assert(string_views(forks@) =~= seq![]);
    }
    while k < prs.len()
        invariant
            k <= prs@.len(),
            string_views(forks@) == recorded_forks(prs@.take(k as int)),
        decreases prs.len() - k,
    {
        proof {
            assert(prs@.take(k + 1).drop_last() =~= prs@.take(k as int));
        }
        let f = prs[k].fork.as_str();
        if chars_of(f).len() > 0 && !crate::orchestrator::memory::contains_text(&forks, f) {
            let s = prs[k].fork.clone();
            proof {
                assert(string_views(forks@.push(s)) =~= string_views(forks@).push(s@));
            }
            forks.push(s);
        }
        k = k + 1;
    }
    proof {
        assert(prs@.take(k as int) =~= prs@);
    }
    let ghost fv = string_views(forks@);
    let mut safe: Vec<String> = Vec::new();
    let mut kept: Vec<String> = Vec::new();
    let mut j: usize = 0;
    proof {
        assert(fv.take(0) =~= seq![]);
        assert(string_views(safe@) =~= seq![]);
        assert(string_views(kept@) =~= seq![]);
    }
    while j < forks.len()
        invariant
            j <= forks@.len(),
            fv == string_views(forks@),
            (string_views(safe@), string_views(kept@)) == cleanup_split(fv.take(j as int), prs@),
        decreases forks.len() - j,
    {
        proof {
            assert(fv.take(j + 1).drop_last() =~= fv.take(j as int));
            assert(fv.take(j + 1).last() == forks@[j as int]@);
        }
        let fc = chars_of(forks[j].as_str());
        let name = forks[j].clone();
        if resolved_exec(&fc, prs) {
            proof {
                assert(string_views(safe@.push(name)) =~= string_views(safe@).push(name@));
            }
            safe.push(name);
        } else {
            proof {
                assert(string_views(kept@.push(name)) =~= string_views(kept@).push(name@));
            }
            kept.push(name);
        }
        j = j + 1;
    }
    proof {
        assert(fv.take(j as int) =~= fv);
    }
    (safe, kept)
}


// ── Patrol bookkeeping ───────────────────────────────────────────────────────

/// Index of the last `c` in `s`.
pub open spec fn last_index_of(s: Seq<char>, c: char) -> Option<int>
    decreases s.len(),
{
    if s.len() == 0 {
        None
    } else if s.last() == c {
        Some(s.len() - 1)
    } else {
        last_index_of(s.drop_last(), c)
    }
}

/// The PR a patrol error of the form `NOT_FOUND:<repo>:<number>` reports as
/// gone, as `(repo, number)`, when the number is positive.
pub open spec fn stale_pr_of(err: Seq<char>) -> Option<(Seq<char>, i64)> {
    let p = "NOT_FOUND:"@;
    if !starts_with(err, p) {
        None
    } else {
        let rest = err.skip(p.len() as int);
        match last_index_of(rest, ':') {
            None => None,
            Some(i) => {
                let n = match crate::text::parsed_i64(rest.skip(i + 1)) {
                    Some(v) => v,
                    None => 0,
                };
                if n > 0 {
                    Some((rest.take(i), n))
                } else {
                    None
                }
            },
        }
    }
}

/// The PR a patrol error reports as gone from GitHub, so that its record can
/// be closed.
pub fn stale_pr_from_error(err: &str) -> (r: Option<(String, i64)>)
    ensures
        match r {
            Some((repo, n)) => stale_pr_of(err@) == Some((repo@, n)),
            None => stale_pr_of(err@) is None,
        },
{
    let c = chars_of(err);
    if !starts_with_str(&c, "NOT_FOUND:") {
        return None;
    }
    proof {
        reveal_strlit("NOT_FOUND:");
    }
    let rest = slice_to_vec(&c, 10, c.len());
    let mut j: usize = rest.len();
    proof {
        assert(rest@.take(j as int) =~= rest@);
        assert(rest@ =~= err@.skip(10));
        assert("NOT_FOUND:"@.len() == 10);
    }
    while j > 0
        invariant
            j <= rest@.len(),
            rest@ == err@.skip(10),
            starts_with(err@, "NOT_FOUND:"@),
            "NOT_FOUND:"@.len() == 10,
            last_index_of(rest@, ':') == last_index_of(rest@.take(j as int), ':'),
        decreases j,
    {
        proof {
            assert(rest@.take(j as int).drop_last() =~= rest@.take(j - 1));
        }
        if rest[j - 1] == ':' {
            let i = j - 1;
            let num = slice_to_vec(&rest, i + 1, rest.len());
            let n = match crate::text::parse_i64(&num) {
                Some(v) => v,
                None => 0,
            };
            proof {
                assert(num@ =~= rest@.skip(i + 1));
            }
            if n > 0 {
                let repo = slice_to_vec(&rest, 0, i);
                proof {
                    assert(repo@ =~= rest@.take(i as int));
                }
                return Some((string_from_chars(&repo), n));
            }
            return None;
        }
        j = j - 1;
    }
    None
}


proof fn lemma_last_colon(repo: Seq<char>, tail: Seq<char>)
    requires
        !tail.contains(':'),
    ensures
        last_index_of(repo + ":"@ + tail, ':') == Some(repo.len() as int),
    decreases tail.len(),
{
    reveal_strlit(":");
    let s = repo + ":"@ + tail;
    if tail.len() == 0 {
        assert(s.last() == ':');
    } else {
        assert(s.drop_last() =~= repo + ":"@ + tail.drop_last());
        assert(s.last() == tail.last());
        assert(tail.contains(tail.last()) ==> tail.last() != ':');
        assert(tail[tail.len() - 1] == tail.last());
        assert(!tail.drop_last().contains(':')) by {
            if tail.drop_last().contains(':') {
                let i = choose|i: int| 0 <= i < tail.drop_last().len() && tail.drop_last()[i] == ':';
                assert(tail[i] == ':');
            }
        }
        lemma_last_colon(repo, tail.drop_last());
    }
}

/// What the patrol records for a PR GitHub no longer has, the command line
/// reads back as that same PR: for a repository name without `:` and a
/// positive PR number, the `NOT_FOUND` entry yields the repository and the
/// number.
pub proof fn lemma_not_found_entry_reads_back(err: Seq<char>, repo: Seq<char>, pr_number: i64)
    requires
        crate::pr::patrol::patrol_error(err, repo, pr_number).0,
        pr_number > 0,
        !repo.contains(':'),
    ensures
        stale_pr_of(crate::pr::patrol::patrol_error(err, repo, pr_number).1) == Some((repo, pr_number)),
{
    reveal_strlit("NOT_FOUND:");
    reveal_strlit(":");
    let digits = crate::text::decimal(pr_number as nat);
    crate::text::lemma_decimal_digits(pr_number as nat);
    let entry = "NOT_FOUND:"@ + repo + ":"@ + digits;
    assert(crate::text::signed_decimal(pr_number as int) == digits);
    assert(crate::pr::patrol::patrol_error(err, repo, pr_number).1 == entry);
    assert(starts_with(entry, "NOT_FOUND:"@)) by {
        assert(entry.take(10) =~= "NOT_FOUND:"@);
    }
    let rest = entry.skip(10);
    assert(rest =~= repo + ":"@ + digits);
    assert(!digits.contains(':')) by {
        if digits.contains(':') {
            let i = choose|i: int| 0 <= i < digits.len() && digits[i] == ':';
            assert(crate::text::is_digit(digits[i]));
        }
    }
    lemma_last_colon(repo, digits);
    let i = repo.len() as int;
    assert(rest.skip(i + 1) =~= digits);
    assert(rest.take(i) =~= repo);
    assert(crate::text::parsed_i64(digits) == Some(pr_number));
}

} // verus!
