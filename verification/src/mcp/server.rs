//! The MCP server's side of the protocol: the tools it offers, how a
//! JSON-RPC method is routed, and what a tool call asks for.
use vstd::prelude::*;

use crate::orchestrator::memory::{string_views, PrRecord};
use crate::text::{
    append_chars, append_str, chars_eq, chars_eq_str, chars_of, contains, contains_str, decimal_i64,
    lowercase, lowercase_chars, signed_decimal, split, string_from_chars,
};

verus! {

// ── Tool definitions ─────────────────────────────────────────────────────────

/// The JSON type of a tool parameter (`string`, `integer`, `boolean`).
#[derive(Debug, Clone, Copy, PartialEq, Eq, Structural)]
pub enum ParamType {
    Text,
    Integer,
    Boolean,
}

impl ParamType {
    /// The JSON Schema name of the type.
    pub fn schema_name(&self) -> (r: &'static str)
        ensures
            r@ == match *self {
                ParamType::Text => "string"@,
                ParamType::Integer => "integer"@,
                ParamType::Boolean => "boolean"@,
            },
    {
        match self {
            ParamType::Text => "string",
            ParamType::Integer => "integer",
            ParamType::Boolean => "boolean",
        }
    }
}

/// The default value a tool parameter declares.
#[derive(Debug, Clone, Copy, PartialEq, Eq, Structural)]
pub enum ParamDefault {
    Integer(i64),
    Boolean(bool),
}

/// One property of a tool's input schema.
#[derive(Debug, Clone)]
pub struct ToolParam {
    pub name: String,
    pub kind: ParamType,
    pub description: Option<String>,
    pub default: Option<ParamDefault>,
}

/// An MCP tool: its name, description, input properties and the
/// properties it requires (no `required` list when none are).
#[derive(Debug, Clone)]
pub struct ToolDef {
    pub name: String,
    pub description: String,
    pub params: Vec<ToolParam>,
    pub required: Vec<String>,
}

pub type ParamView = (Seq<char>, ParamType, Option<Seq<char>>, Option<ParamDefault>);

pub type ToolView = (Seq<char>, Seq<char>, Seq<ParamView>, Seq<Seq<char>>);

pub open spec fn param_view(p: ToolParam) -> ParamView {
    (
        p.name@,
        p.kind,
        match p.description {
            Some(d) => Some(d@),
            None => None,
        },
        p.default,
    )
}

pub open spec fn tool_view(t: ToolDef) -> ToolView {
    (
        t.name@,
        t.description@,
        t.params@.map_values(|p: ToolParam| param_view(p)),
        string_views(t.required@),
    )
}

/// Every tool the server offers, in the order it lists them.
pub open spec fn tool_table() -> Seq<ToolView> {
    seq![
        ("search_repos"@, "Search GitHub for open-source repositories by language and star range"@, seq![("language"@, ParamType::Text, Some("e.g. python, javascript"@), None), ("stars_min"@, ParamType::Integer, None, Some(ParamDefault::Integer(50))), ("stars_max"@, ParamType::Integer, None, Some(ParamDefault::Integer(10000))), ("limit"@, ParamType::Integer, None, Some(ParamDefault::Integer(10)))], seq!["language"@]),
        ("get_repo_info"@, "Get metadata for a GitHub repository"@, seq![("owner"@, ParamType::Text, None, None), ("repo"@, ParamType::Text, None, None)], seq!["owner"@, "repo"@]),
        ("get_file_tree"@, "List files in a repository (recursive)"@, seq![("owner"@, ParamType::Text, None, None), ("repo"@, ParamType::Text, None, None), ("max_files"@, ParamType::Integer, None, Some(ParamDefault::Integer(200)))], seq!["owner"@, "repo"@]),
        ("get_file_content"@, "Get the content of a specific file from a repository"@, seq![("owner"@, ParamType::Text, None, None), ("repo"@, ParamType::Text, None, None), ("path"@, ParamType::Text, None, None), ("ref"@, ParamType::Text, Some("Branch or commit SHA (optional)"@), None)], seq!["owner"@, "repo"@, "path"@]),
        ("get_open_issues"@, "List open issues in a repository"@, seq![("owner"@, ParamType::Text, None, None), ("repo"@, ParamType::Text, None, None), ("limit"@, ParamType::Integer, None, Some(ParamDefault::Integer(20)))], seq!["owner"@, "repo"@]),
        ("fork_repo"@, "Fork a repository to the authenticated user's account"@, seq![("owner"@, ParamType::Text, None, None), ("repo"@, ParamType::Text, None, None)], seq!["owner"@, "repo"@]),
        ("create_branch"@, "Create a new branch on a repository"@, seq![("fork_owner"@, ParamType::Text, None, None), ("repo"@, ParamType::Text, None, None), ("branch_name"@, ParamType::Text, None, None), ("from_branch"@, ParamType::Text, Some("Source branch (defaults to repo default)"@), None)], seq!["fork_owner"@, "repo"@, "branch_name"@]),
        ("push_file_change"@, "Push a file change to a branch. For updates, sha (blob SHA) is required."@, seq![("fork_owner"@, ParamType::Text, None, None), ("repo"@, ParamType::Text, None, None), ("branch"@, ParamType::Text, None, None), ("path"@, ParamType::Text, None, None), ("content"@, ParamType::Text, None, None), ("commit_msg"@, ParamType::Text, None, None), ("sha"@, ParamType::Text, Some("Blob SHA of existing file (required for updates)"@), None)], seq!["fork_owner"@, "repo"@, "branch"@, "path"@, "content"@, "commit_msg"@]),
        ("create_pr"@, "Create a pull request from a fork branch to the upstream repo"@, seq![("owner"@, ParamType::Text, None, None), ("repo"@, ParamType::Text, None, None), ("title"@, ParamType::Text, None, None), ("body"@, ParamType::Text, None, None), ("head_branch"@, ParamType::Text, Some("fork_owner:branch"@), None), ("base_branch"@, ParamType::Text, Some("Target branch (defaults to default branch)"@), None)], seq!["owner"@, "repo"@, "title"@, "body"@, "head_branch"@]),
        ("close_pr"@, "Close a pull request"@, seq![("owner"@, ParamType::Text, None, None), ("repo"@, ParamType::Text, None, None), ("pr_number"@, ParamType::Integer, None, None)], seq!["owner"@, "repo"@, "pr_number"@]),
        ("check_duplicate_pr"@, "Check if ContribAI has already submitted a PR to this repo"@, seq![("owner"@, ParamType::Text, None, None), ("repo"@, ParamType::Text, None, None)], seq!["owner"@, "repo"@]),
        ("check_ai_policy"@, "Check if a repo bans AI-generated contributions"@, seq![("owner"@, ParamType::Text, None, None), ("repo"@, ParamType::Text, None, None)], seq!["owner"@, "repo"@]),
        ("get_stats"@, "Get ContribAI contribution statistics"@, seq![], seq![]),
        ("patrol_prs"@, "Collect raw review comments from open PRs for the assistant to classify and act on"@, seq![("owner"@, ParamType::Text, None, None), ("repo"@, ParamType::Text, None, None), ("pr_number"@, ParamType::Integer, Some("Optional: check a single PR"@), None)], seq!["owner"@, "repo"@]),
        ("cleanup_forks"@, "List or delete stale forks where all PRs are merged/closed"@, seq![("dry_run"@, ParamType::Boolean, None, Some(ParamDefault::Boolean(true)))], seq![]),
        ("add_pr_review_comment"@, "Post a comment on a pull request"@, seq![("owner"@, ParamType::Text, None, None), ("repo"@, ParamType::Text, None, None), ("pr_number"@, ParamType::Integer, None, None), ("body"@, ParamType::Text, None, None)], seq!["owner"@, "repo"@, "pr_number"@, "body"@]),
        ("dismiss_review"@, "Dismiss a pull request review with a message"@, seq![("owner"@, ParamType::Text, None, None), ("repo"@, ParamType::Text, None, None), ("pr_number"@, ParamType::Integer, None, None), ("review_id"@, ParamType::Integer, None, None), ("message"@, ParamType::Text, None, None)], seq!["owner"@, "repo"@, "pr_number"@, "review_id"@, "message"@]),
        ("sign_cla"@, "Sign the Contributor License Agreement (CLA) for a repository"@, seq![("owner"@, ParamType::Text, None, None), ("repo"@, ParamType::Text, None, None)], seq!["owner"@, "repo"@]),
        ("get_pr_reviews"@, "Get reviews submitted on a pull request"@, seq![("owner"@, ParamType::Text, None, None), ("repo"@, ParamType::Text, None, None), ("pr_number"@, ParamType::Integer, None, None)], seq!["owner"@, "repo"@, "pr_number"@]),
        ("get_pr_comments"@, "Get issue-level comments on a pull request"@, seq![("owner"@, ParamType::Text, None, None), ("repo"@, ParamType::Text, None, None), ("pr_number"@, ParamType::Integer, None, None)], seq!["owner"@, "repo"@, "pr_number"@]),
        ("get_authenticated_user"@, "Get the authenticated GitHub user profile"@, seq![], seq![]),
    ]
}

fn param(name: &str, kind: ParamType, description: Option<&str>, default: Option<ParamDefault>) -> (r:
    ToolParam)
    ensures
        param_view(r) == (
            name@,
            kind,
            match description {
                Some(d) => Some(d@),
                None => None,
            },
            default,
        ),
{
    ToolParam {
        name: String::from_str(name),
        kind,
        description: match description {
            Some(d) => Some(String::from_str(d)),
            None => None,
        },
        default,
    }
}

pub open spec fn str_views(v: Seq<&str>) -> Seq<Seq<char>> {
    v.map_values(|s: &str| s@)
}

/// Owned copies of string slices.
pub fn strings_of(v: &[&str]) -> (r: Vec<String>)
    ensures
        string_views(r@) == str_views(v@),
{
    let mut out: Vec<String> = Vec::new();
    let mut k: usize = 0;
    while k < v.len()
        invariant
            k <= v@.len(),
            string_views(out@) == str_views(v@.take(k as int)),
        decreases v.len() - k,
    {
        proof {
            assert(string_views(out@).len() == k);
            assert(out@.len() == k);
        }
        let ghost r0 = out@;
        let item = String::from_str(v[k]);
        out.push(item);
        proof {
            assert(out@.drop_last() == r0);
            assert forall|i: int| 0 <= i <= k implies #[trigger] string_views(out@)[i] == str_views(
                v@.take(k as int + 1),
            )[i] by {
                if i < k {
                    assert(out@[i] == r0[i]);
                    assert(string_views(r0)[i] == str_views(v@.take(k as int))[i]);
                }
            }
            assert(string_views(out@) =~= str_views(v@.take(k as int + 1)));
        }
        k = k + 1;
    }
    proof {
        assert(v@.take(k as int) =~= v@);
    }
    out
}

fn tool(name: &str, description: &str, params: Vec<ToolParam>, required: Vec<&str>) -> (r: ToolDef)
    ensures
        tool_view(r) == (
            name@,
            description@,
            params@.map_values(|p: ToolParam| param_view(p)),
            str_views(required@),
        ),
{
    ToolDef {
        name: String::from_str(name),
        description: String::from_str(description),
        params,
        required: strings_of(required.as_slice()),
    }
}

/// All tool definitions.
pub fn tool_definitions() -> (r: Vec<ToolDef>)
    ensures
        r@.map_values(|t: ToolDef| tool_view(t)) == tool_table(),
{
    let mut out: Vec<ToolDef> = Vec::new();
    out.push(tool("search_repos", "Search GitHub for open-source repositories by language and star range", vec![param("language", ParamType::Text, Some("e.g. python, javascript"), None), param("stars_min", ParamType::Integer, None, Some(ParamDefault::Integer(50))), param("stars_max", ParamType::Integer, None, Some(ParamDefault::Integer(10000))), param("limit", ParamType::Integer, None, Some(ParamDefault::Integer(10)))], vec!["language"]));
    proof {
        assert(tool_view(out@[0]) =~~= tool_table()[0]);
    }
    out.push(tool("get_repo_info", "Get metadata for a GitHub repository", vec![param("owner", ParamType::Text, None, None), param("repo", ParamType::Text, None, None)], vec!["owner", "repo"]));
    proof {
        assert(tool_view(out@[1]) =~~= tool_table()[1]);
    }
    out.push(tool("get_file_tree", "List files in a repository (recursive)", vec![param("owner", ParamType::Text, None, None), param("repo", ParamType::Text, None, None), param("max_files", ParamType::Integer, None, Some(ParamDefault::Integer(200)))], vec!["owner", "repo"]));
    proof {
        assert(tool_view(out@[2]) =~~= tool_table()[2]);
    }
    out.push(tool("get_file_content", "Get the content of a specific file from a repository", vec![param("owner", ParamType::Text, None, None), param("repo", ParamType::Text, None, None), param("path", ParamType::Text, None, None), param("ref", ParamType::Text, Some("Branch or commit SHA (optional)"), None)], vec!["owner", "repo", "path"]));
    proof {
        assert(tool_view(out@[3]) =~~= tool_table()[3]);
    }
    out.push(tool("get_open_issues", "List open issues in a repository", vec![param("owner", ParamType::Text, None, None), param("repo", ParamType::Text, None, None), param("limit", ParamType::Integer, None, Some(ParamDefault::Integer(20)))], vec!["owner", "repo"]));
    proof {
        assert(tool_view(out@[4]) =~~= tool_table()[4]);
    }
    out.push(tool("fork_repo", "Fork a repository to the authenticated user's account", vec![param("owner", ParamType::Text, None, None), param("repo", ParamType::Text, None, None)], vec!["owner", "repo"]));
    proof {
        assert(tool_view(out@[5]) =~~= tool_table()[5]);
    }
    out.push(tool("create_branch", "Create a new branch on a repository", vec![param("fork_owner", ParamType::Text, None, None), param("repo", ParamType::Text, None, None), param("branch_name", ParamType::Text, None, None), param("from_branch", ParamType::Text, Some("Source branch (defaults to repo default)"), None)], vec!["fork_owner", "repo", "branch_name"]));
    proof {
        assert(tool_view(out@[6]) =~~= tool_table()[6]);
    }
    out.push(tool("push_file_change", "Push a file change to a branch. For updates, sha (blob SHA) is required.", vec![param("fork_owner", ParamType::Text, None, None), param("repo", ParamType::Text, None, None), param("branch", ParamType::Text, None, None), param("path", ParamType::Text, None, None), param("content", ParamType::Text, None, None), param("commit_msg", ParamType::Text, None, None), param("sha", ParamType::Text, Some("Blob SHA of existing file (required for updates)"), None)], vec!["fork_owner", "repo", "branch", "path", "content", "commit_msg"]));
    proof {
        assert(tool_view(out@[7]) =~~= tool_table()[7]);
    }
    out.push(tool("create_pr", "Create a pull request from a fork branch to the upstream repo", vec![param("owner", ParamType::Text, None, None), param("repo", ParamType::Text, None, None), param("title", ParamType::Text, None, None), param("body", ParamType::Text, None, None), param("head_branch", ParamType::Text, Some("fork_owner:branch"), None), param("base_branch", ParamType::Text, Some("Target branch (defaults to default branch)"), None)], vec!["owner", "repo", "title", "body", "head_branch"]));
    proof {
        assert(tool_view(out@[8]) =~~= tool_table()[8]);
    }
    out.push(tool("close_pr", "Close a pull request", vec![param("owner", ParamType::Text, None, None), param("repo", ParamType::Text, None, None), param("pr_number", ParamType::Integer, None, None)], vec!["owner", "repo", "pr_number"]));
    proof {
        assert(tool_view(out@[9]) =~~= tool_table()[9]);
    }
    out.push(tool("check_duplicate_pr", "Check if ContribAI has already submitted a PR to this repo", vec![param("owner", ParamType::Text, None, None), param("repo", ParamType::Text, None, None)], vec!["owner", "repo"]));
    proof {
        assert(tool_view(out@[10]) =~~= tool_table()[10]);
    }
    out.push(tool("check_ai_policy", "Check if a repo bans AI-generated contributions", vec![param("owner", ParamType::Text, None, None), param("repo", ParamType::Text, None, None)], vec!["owner", "repo"]));
    proof {
        assert(tool_view(out@[11]) =~~= tool_table()[11]);
    }
    out.push(tool("get_stats", "Get ContribAI contribution statistics", Vec::new(), Vec::new()));
    proof {
        assert(tool_view(out@[12]) =~~= tool_table()[12]);
    }
    out.push(tool("patrol_prs", "Collect raw review comments from open PRs for the assistant to classify and act on", vec![param("owner", ParamType::Text, None, None), param("repo", ParamType::Text, None, None), param("pr_number", ParamType::Integer, Some("Optional: check a single PR"), None)], vec!["owner", "repo"]));
    proof {
        assert(tool_view(out@[13]) =~~= tool_table()[13]);
    }
    out.push(tool("cleanup_forks", "List or delete stale forks where all PRs are merged/closed", vec![param("dry_run", ParamType::Boolean, None, Some(ParamDefault::Boolean(true)))], Vec::new()));
    proof {
        assert(tool_view(out@[14]) =~~= tool_table()[14]);
    }
    out.push(tool("add_pr_review_comment", "Post a comment on a pull request", vec![param("owner", ParamType::Text, None, None), param("repo", ParamType::Text, None, None), param("pr_number", ParamType::Integer, None, None), param("body", ParamType::Text, None, None)], vec!["owner", "repo", "pr_number", "body"]));
    proof {
        assert(tool_view(out@[15]) =~~= tool_table()[15]);
    }
    out.push(tool("dismiss_review", "Dismiss a pull request review with a message", vec![param("owner", ParamType::Text, None, None), param("repo", ParamType::Text, None, None), param("pr_number", ParamType::Integer, None, None), param("review_id", ParamType::Integer, None, None), param("message", ParamType::Text, None, None)], vec!["owner", "repo", "pr_number", "review_id", "message"]));
    proof {
        assert(tool_view(out@[16]) =~~= tool_table()[16]);
    }
    out.push(tool("sign_cla", "Sign the Contributor License Agreement (CLA) for a repository", vec![param("owner", ParamType::Text, None, None), param("repo", ParamType::Text, None, None)], vec!["owner", "repo"]));
    proof {
        assert(tool_view(out@[17]) =~~= tool_table()[17]);
    }
    out.push(tool("get_pr_reviews", "Get reviews submitted on a pull request", vec![param("owner", ParamType::Text, None, None), param("repo", ParamType::Text, None, None), param("pr_number", ParamType::Integer, None, None)], vec!["owner", "repo", "pr_number"]));
    proof {
        assert(tool_view(out@[18]) =~~= tool_table()[18]);
    }
    out.push(tool("get_pr_comments", "Get issue-level comments on a pull request", vec![param("owner", ParamType::Text, None, None), param("repo", ParamType::Text, None, None), param("pr_number", ParamType::Integer, None, None)], vec!["owner", "repo", "pr_number"]));
    proof {
        assert(tool_view(out@[19]) =~~= tool_table()[19]);
    }
    out.push(tool("get_authenticated_user", "Get the authenticated GitHub user profile", Vec::new(), Vec::new()));
    proof {
        assert(tool_view(out@[20]) =~~= tool_table()[20]);
    }
    proof {
        assert(out@.len() == 21);
        assert(out@.map_values(|t: ToolDef| tool_view(t)) =~= tool_table());
    }
    out
}


// ── Tool calls ───────────────────────────────────────────────────────────────

/// A JSON argument value, as a tool call reads it.
#[derive(Debug, Clone)]
pub enum ArgValue {
    Text(String),
    /// An integer that fits in an `i64`.
    Int(i64),
    /// An integer above `i64::MAX` that fits in a `u64`.
    BigInt(u64),
    Bool(bool),
    /// `null`, a number with a fraction, an array or an object.
    Other,
}

/// The value under `key`: the first argument with that name.
pub open spec fn lookup(args: Seq<(String, ArgValue)>, key: Seq<char>) -> Option<ArgValue>
    decreases args.len(),
{
    if args.len() == 0 {
        None
    } else if args[0].0@ == key {
        Some(args[0].1)
    } else {
        lookup(args.drop_first(), key)
    }
}

/// The argument as a string, when it is one.
pub open spec fn text_arg(args: Seq<(String, ArgValue)>, key: Seq<char>) -> Option<Seq<char>> {
    match lookup(args, key) {
        Some(ArgValue::Text(s)) => Some(s@),
        _ => None,
    }
}

/// The argument as an `i64`, when it is an integer in range.
pub open spec fn i64_arg(args: Seq<(String, ArgValue)>, key: Seq<char>) -> Option<i64> {
    match lookup(args, key) {
        Some(ArgValue::Int(n)) => Some(n),
        _ => None,
    }
}

/// The argument as a `u64`, when it is a non-negative integer in range.
pub open spec fn u64_arg(args: Seq<(String, ArgValue)>, key: Seq<char>) -> Option<u64> {
    match lookup(args, key) {
        Some(ArgValue::Int(n)) => if n >= 0 {
            Some(n as u64)
        } else {
            None
        },
        Some(ArgValue::BigInt(n)) => Some(n),
        _ => None,
    }
}

pub open spec fn bool_arg(args: Seq<(String, ArgValue)>, key: Seq<char>) -> Option<bool> {
    match lookup(args, key) {
        Some(ArgValue::Bool(b)) => Some(b),
        _ => None,
    }
}

pub open spec fn text_or(args: Seq<(String, ArgValue)>, key: Seq<char>, d: Seq<char>) -> Seq<char> {
    match text_arg(args, key) {
        Some(s) => s,
        None => d,
    }
}

pub open spec fn i64_or(args: Seq<(String, ArgValue)>, key: Seq<char>, d: i64) -> i64 {
    match i64_arg(args, key) {
        Some(n) => n,
        None => d,
    }
}

/// The error for a missing or empty required argument.
pub open spec fn required_error(key: Seq<char>) -> Seq<char> {
    "'"@ + key + "' is required and must be non-empty"@
}

/// A required, non-empty string argument.
pub open spec fn need(args: Seq<(String, ArgValue)>, key: Seq<char>) -> Result<Seq<char>, Seq<char>> {
    match text_arg(args, key) {
        Some(s) => if s.len() > 0 {
            Ok(s)
        } else {
            Err(required_error(key))
        },
        None => Err(required_error(key)),
    }
}

/// What a tool call asks the server to do, with its arguments read.
#[derive(Debug, Clone)]
pub enum ToolAction<S> {
    SearchRepos { query: S, limit: u64 },
    GetRepoInfo { owner: S, repo: S },
    GetFileTree { owner: S, repo: S },
    GetFileContent { owner: S, repo: S, path: S, git_ref: Option<S> },
    GetOpenIssues { owner: S, repo: S },
    ForkRepo { owner: S, repo: S },
    CreateBranch { fork_owner: S, repo: S, branch_name: S, from_branch: Option<S> },
    PushFileChange {
        fork_owner: S,
        repo: S,
        branch: S,
        path: S,
        content: S,
        commit_msg: S,
        sha: Option<S>,
    },
    CreatePr { owner: S, repo: S, title: S, body: S, head: S, base: Option<S> },
    GetStats,
    ClosePr { owner: S, repo: S, pr_number: i64 },
    CheckDuplicatePr { owner: S, repo: S },
    CheckAiPolicy { owner: S, repo: S },
    PatrolPrs { owner: S, repo: S, pr_number: Option<i64> },
    CleanupForks { dry_run: bool },
    AddPrReviewComment { owner: S, repo: S, pr_number: i64, body: S },
    DismissReview { owner: S, repo: S, pr_number: i64, review_id: i64, message: S },
    SignCla,
    GetPrReviews { owner: S, repo: S, pr_number: i64 },
    GetPrComments { owner: S, repo: S, pr_number: i64 },
    GetAuthenticatedUser,
}

pub open spec fn opt_view(o: Option<String>) -> Option<Seq<char>> {
    match o {
        Some(s) => Some(s@),
        None => None,
    }
}

pub open spec fn action_view(a: ToolAction<String>) -> ToolAction<Seq<char>> {
    match a {
        ToolAction::SearchRepos { query, limit } => ToolAction::SearchRepos { query: query@, limit },
        ToolAction::GetRepoInfo { owner, repo } => ToolAction::GetRepoInfo { owner: owner@, repo: repo@ },
        ToolAction::GetFileTree { owner, repo } => ToolAction::GetFileTree { owner: owner@, repo: repo@ },
        ToolAction::GetFileContent { owner, repo, path, git_ref } => ToolAction::GetFileContent {
            owner: owner@,
            repo: repo@,
            path: path@,
            git_ref: opt_view(git_ref),
        },
        ToolAction::GetOpenIssues { owner, repo } => ToolAction::GetOpenIssues {
            owner: owner@,
            repo: repo@,
        },
        ToolAction::ForkRepo { owner, repo } => ToolAction::ForkRepo { owner: owner@, repo: repo@ },
        ToolAction::CreateBranch { fork_owner, repo, branch_name, from_branch } =>
            ToolAction::CreateBranch {
            fork_owner: fork_owner@,
            repo: repo@,
            branch_name: branch_name@,
            from_branch: opt_view(from_branch),
        },
        ToolAction::PushFileChange { fork_owner, repo, branch, path, content, commit_msg, sha } =>
            ToolAction::PushFileChange {
            fork_owner: fork_owner@,
            repo: repo@,
            branch: branch@,
            path: path@,
            content: content@,
            commit_msg: commit_msg@,
            sha: opt_view(sha),
        },
        ToolAction::CreatePr { owner, repo, title, body, head, base } => ToolAction::CreatePr {
            owner: owner@,
            repo: repo@,
            title: title@,
            body: body@,
            head: head@,
            base: opt_view(base),
        },
        ToolAction::GetStats => ToolAction::GetStats,
        ToolAction::ClosePr { owner, repo, pr_number } => ToolAction::ClosePr {
            owner: owner@,
            repo: repo@,
            pr_number,
        },
        ToolAction::CheckDuplicatePr { owner, repo } => ToolAction::CheckDuplicatePr {
            owner: owner@,
            repo: repo@,
        },
        ToolAction::CheckAiPolicy { owner, repo } => ToolAction::CheckAiPolicy {
            owner: owner@,
            repo: repo@,
        },
        ToolAction::PatrolPrs { owner, repo, pr_number } => ToolAction::PatrolPrs {
            owner: owner@,
            repo: repo@,
            pr_number,
        },
        ToolAction::CleanupForks { dry_run } => ToolAction::CleanupForks { dry_run },
        ToolAction::AddPrReviewComment { owner, repo, pr_number, body } =>
            ToolAction::AddPrReviewComment { owner: owner@, repo: repo@, pr_number, body: body@ },
        ToolAction::DismissReview { owner, repo, pr_number, review_id, message } =>
            ToolAction::DismissReview {
            owner: owner@,
            repo: repo@,
            pr_number,
            review_id,
            message: message@,
        },
        ToolAction::SignCla => ToolAction::SignCla,
        ToolAction::GetPrReviews { owner, repo, pr_number } => ToolAction::GetPrReviews {
            owner: owner@,
            repo: repo@,
            pr_number,
        },
        ToolAction::GetPrComments { owner, repo, pr_number } => ToolAction::GetPrComments {
            owner: owner@,
            repo: repo@,
            pr_number,
        },
        ToolAction::GetAuthenticatedUser => ToolAction::GetAuthenticatedUser,
    }
}

/// The `owner` and `repo` arguments, both required, `owner` checked first.
pub open spec fn owner_repo(args: Seq<(String, ArgValue)>) -> Result<(Seq<char>, Seq<char>), Seq<char>> {
    match need(args, "owner"@) {
        Err(e) => Err(e),
        Ok(o) => match need(args, "repo"@) {
            Err(e) => Err(e),
            Ok(r) => Ok((o, r)),
        },
    }
}

/// The repository search query of a `search_repos` call.
pub open spec fn search_query(args: Seq<(String, ArgValue)>) -> Seq<char> {
    "language:"@ + text_or(args, "language"@, "python"@) + " stars:"@ + signed_decimal(
        i64_or(args, "stars_min"@, 50) as int,
    ) + ".."@ + signed_decimal(i64_or(args, "stars_max"@, 10000) as int) + " sort:updated"@
}

/// What a call of tool `name` with `args` asks for, or the error it is
/// answered with.
pub open spec fn tool_plan(name: Seq<char>, args: Seq<(String, ArgValue)>) -> Result<ToolAction<Seq<char>>, Seq<char>> {
    let or = owner_repo(args);
    if name == "search_repos"@ {
        Ok(ToolAction::SearchRepos {
            query: search_query(args),
            limit: match u64_arg(args, "limit"@) {
                Some(n) => n,
                None => 10,
            },
        })
    } else if name == "get_repo_info"@ {
        match or {
            Ok((o, r)) => Ok(ToolAction::GetRepoInfo { owner: o, repo: r }),
            Err(e) => Err(e),
        }
    } else if name == "get_file_tree"@ {
        match or {
            Ok((o, r)) => Ok(ToolAction::GetFileTree { owner: o, repo: r }),
            Err(e) => Err(e),
        }
    } else if name == "get_file_content"@ {
        match or {
            Ok((o, r)) => Ok(ToolAction::GetFileContent {
                owner: o,
                repo: r,
                path: text_or(args, "path"@, ""@),
                git_ref: text_arg(args, "ref"@),
            }),
            Err(e) => Err(e),
        }
    } else if name == "get_open_issues"@ {
        match or {
            Ok((o, r)) => Ok(ToolAction::GetOpenIssues { owner: o, repo: r }),
            Err(e) => Err(e),
        }
    } else if name == "fork_repo"@ {
        match or {
            Ok((o, r)) => Ok(ToolAction::ForkRepo { owner: o, repo: r }),
            Err(e) => Err(e),
        }
    } else if name == "create_branch"@ {
        match need(args, "repo"@) {
            Ok(r) => Ok(ToolAction::CreateBranch {
                fork_owner: text_or(args, "fork_owner"@, ""@),
                repo: r,
                branch_name: text_or(args, "branch_name"@, ""@),
                from_branch: text_arg(args, "from_branch"@),
            }),
            Err(e) => Err(e),
        }
    } else if name == "push_file_change"@ {
        match need(args, "repo"@) {
            Ok(r) => Ok(ToolAction::PushFileChange {
                fork_owner: text_or(args, "fork_owner"@, ""@),
                repo: r,
                branch: text_or(args, "branch"@, ""@),
                path: text_or(args, "path"@, ""@),
                content: text_or(args, "content"@, ""@),
                commit_msg: text_or(args, "commit_msg"@, ""@),
                sha: text_arg(args, "sha"@),
            }),
            Err(e) => Err(e),
        }
    } else if name == "create_pr"@ {
        match or {
            Ok((o, r)) => Ok(ToolAction::CreatePr {
                owner: o,
                repo: r,
                title: text_or(args, "title"@, ""@),
                body: text_or(args, "body"@, ""@),
                head: text_or(args, "head_branch"@, ""@),
                base: text_arg(args, "base_branch"@),
            }),
            Err(e) => Err(e),
        }
    } else if name == "get_stats"@ {
        Ok(ToolAction::GetStats)
    } else if name == "close_pr"@ {
        match or {
            Ok((o, r)) => Ok(ToolAction::ClosePr { owner: o, repo: r, pr_number: i64_or(args, "pr_number"@, 0) }),
            Err(e) => Err(e),
        }
    } else if name == "check_duplicate_pr"@ {
        match or {
            Ok((o, r)) => Ok(ToolAction::CheckDuplicatePr { owner: o, repo: r }),
            Err(e) => Err(e),
        }
    } else if name == "check_ai_policy"@ {
        match or {
            Ok((o, r)) => Ok(ToolAction::CheckAiPolicy { owner: o, repo: r }),
            Err(e) => Err(e),
        }
    } else if name == "patrol_prs"@ {
        match or {
            Ok((o, r)) => Ok(ToolAction::PatrolPrs { owner: o, repo: r, pr_number: i64_arg(args, "pr_number"@) }),
            Err(e) => Err(e),
        }
    } else if name == "cleanup_forks"@ {
        Ok(ToolAction::CleanupForks {
            dry_run: match bool_arg(args, "dry_run"@) {
                Some(b) => b,
                None => true,
            },
        })
    } else if name == "add_pr_review_comment"@ {
        match or {
            Ok((o, r)) => Ok(ToolAction::AddPrReviewComment {
                owner: o,
                repo: r,
                pr_number: i64_or(args, "pr_number"@, 0),
                body: text_or(args, "body"@, ""@),
            }),
            Err(e) => Err(e),
        }
    } else if name == "dismiss_review"@ {
        match or {
            Ok((o, r)) => Ok(ToolAction::DismissReview {
                owner: o,
                repo: r,
                pr_number: i64_or(args, "pr_number"@, 0),
                review_id: i64_or(args, "review_id"@, 0),
                message: text_or(args, "message"@, ""@),
            }),
            Err(e) => Err(e),
        }
    } else if name == "sign_cla"@ {
        Ok(ToolAction::SignCla)
    } else if name == "get_pr_reviews"@ {
        match or {
            Ok((o, r)) => Ok(ToolAction::GetPrReviews { owner: o, repo: r, pr_number: i64_or(args, "pr_number"@, 0) }),
            Err(e) => Err(e),
        }
    } else if name == "get_pr_comments"@ {
        match or {
            Ok((o, r)) => Ok(ToolAction::GetPrComments { owner: o, repo: r, pr_number: i64_or(args, "pr_number"@, 0) }),
            Err(e) => Err(e),
        }
    } else if name == "get_authenticated_user"@ {
        Ok(ToolAction::GetAuthenticatedUser)
    } else {
        Err("Unknown tool: "@ + name)
    }
}


fn find_arg(args: &[(String, ArgValue)], key: &str) -> (r: Option<usize>)
    ensures
        match r {
            Some(i) => i < args@.len() && lookup(args@, key@) == Some(args@[i as int].1),
            None => lookup(args@, key@) is None,
        },
{
    let kc = chars_of(key);
    let mut k: usize = 0;
    proof {
        assert(args@.skip(0) =~= args@);
    }
    while k < args.len()
        invariant
            k <= args@.len(),
            kc@ == key@,
            lookup(args@, key@) == lookup(args@.skip(k as int), key@),
        decreases args.len() - k,
    {
        proof {
            assert(args@.skip(k as int).drop_first() =~= args@.skip(k as int + 1));
            assert(args@.skip(k as int)[0] == args@[k as int]);
        }
        if crate::text::chars_eq(chars_of(args[k].0.as_str()).as_slice(), &kc) {
            return Some(k);
        }
        k = k + 1;
    }
    None
}

fn text_of(args: &[(String, ArgValue)], key: &str) -> (r: Option<String>)
    ensures
        opt_view(r) == text_arg(args@, key@),
{
    match find_arg(args, key) {
        Some(i) => match &args[i].1 {
            ArgValue::Text(s) => Some(s.clone()),
            _ => None,
        },
        None => None,
    }
}

fn text_or_of(args: &[(String, ArgValue)], key: &str, d: &str) -> (r: String)
    ensures
        r@ == text_or(args@, key@, d@),
{
    match text_of(args, key) {
        Some(s) => s,
        None => String::from_str(d),
    }
}

fn i64_of(args: &[(String, ArgValue)], key: &str) -> (r: Option<i64>)
    ensures
        r == i64_arg(args@, key@),
{
    match find_arg(args, key) {
        Some(i) => match &args[i].1 {
            ArgValue::Int(n) => Some(*n),
            _ => None,
        },
        None => None,
    }
}

fn i64_or_of(args: &[(String, ArgValue)], key: &str, d: i64) -> (r: i64)
    ensures
        r == i64_or(args@, key@, d),
{
    match i64_of(args, key) {
        Some(n) => n,
        None => d,
    }
}

fn u64_of(args: &[(String, ArgValue)], key: &str) -> (r: Option<u64>)
    ensures
        r == u64_arg(args@, key@),
{
    match find_arg(args, key) {
        Some(i) => match &args[i].1 {
            ArgValue::Int(n) => if *n >= 0 {
                Some(*n as u64)
            } else {
                None
            },
            ArgValue::BigInt(n) => Some(*n),
            _ => None,
        },
        None => None,
    }
}

fn bool_of(args: &[(String, ArgValue)], key: &str) -> (r: Option<bool>)
    ensures
        r == bool_arg(args@, key@),
{
    match find_arg(args, key) {
        Some(i) => match &args[i].1 {
            ArgValue::Bool(b) => Some(*b),
            _ => None,
        },
        None => None,
    }
}

fn need_of(args: &[(String, ArgValue)], key: &str) -> (r: Result<String, String>)
    ensures
        match r {
            Ok(s) => need(args@, key@) == Ok::<Seq<char>, Seq<char>>(s@),
            Err(e) => need(args@, key@) == Err::<Seq<char>, Seq<char>>(e@),
        },
{
    match text_of(args, key) {
        Some(s) => {
            if chars_of(s.as_str()).len() > 0 {
                return Ok(s);
            }
            let mut e = chars_of("'");
            append_str(&mut e, key);
            append_str(&mut e, "' is required and must be non-empty");
            Err(string_from_chars(&e))
        },
        None => {
            let mut e = chars_of("'");
            append_str(&mut e, key);
            append_str(&mut e, "' is required and must be non-empty");
            Err(string_from_chars(&e))
        },
    }
}

fn owner_repo_of(args: &[(String, ArgValue)]) -> (r: Result<(String, String), String>)
    ensures
        match r {
            Ok((o, p)) => owner_repo(args@) == Ok::<(Seq<char>, Seq<char>), Seq<char>>((o@, p@)),
            Err(e) => owner_repo(args@) == Err::<(Seq<char>, Seq<char>), Seq<char>>(e@),
        },
{
    let o = match need_of(args, "owner") {
        Ok(o) => o,
        Err(e) => return Err(e),
    };
    let r = match need_of(args, "repo") {
        Ok(r) => r,
        Err(e) => return Err(e),
    };
    Ok((o, r))
}


/// The `search_repos` query: language (default `python`) and star range
/// (default 50 to 10000), most recently updated first.
fn search_query_of(args: &[(String, ArgValue)]) -> (r: String)
    ensures
        r@ == search_query(args@),
{
    let mut q = chars_of("language:");
    append_str(&mut q, text_or_of(args, "language", "python").as_str());
    append_str(&mut q, " stars:");
    append_chars(&mut q, &decimal_i64(i64_or_of(args, "stars_min", 50)));
    append_str(&mut q, "..");
    append_chars(&mut q, &decimal_i64(i64_or_of(args, "stars_max", 10000)));
    append_str(&mut q, " sort:updated");
    string_from_chars(&q)
}

fn unknown_tool(name: &str) -> (r: String)
    ensures
        r@ == "Unknown tool: "@ + name@,
{
    let mut e = chars_of("Unknown tool: ");
    append_str(&mut e, name);
    string_from_chars(&e)
}

/// Calls that need `owner` and `repo` and nothing else.
fn plan_repo_call(n: &[char], args: &[(String, ArgValue)]) -> (r: Option<Result<ToolAction<String>, String>>)
    ensures
        match r {
            Some(Ok(a)) => tool_plan(n@, args@) == Ok::<ToolAction<Seq<char>>, Seq<char>>(action_view(a)),
            Some(Err(e)) => tool_plan(n@, args@) == Err::<ToolAction<Seq<char>>, Seq<char>>(e@),
            None => !(n@ == "get_repo_info"@ || n@ == "get_file_tree"@ || n@ == "get_open_issues"@
                || n@ == "fork_repo"@ || n@ == "check_duplicate_pr"@ || n@ == "check_ai_policy"@),
        },
{
    let which: u8 = if chars_eq_str(n, "get_repo_info") {
        1
    } else if chars_eq_str(n, "get_file_tree") {
        2
    } else if chars_eq_str(n, "get_open_issues") {
        3
    } else if chars_eq_str(n, "fork_repo") {
        4
    } else if chars_eq_str(n, "check_duplicate_pr") {
        5
    } else if chars_eq_str(n, "check_ai_policy") {
        6
    } else {
        0
    };
    if which == 0 {
        return None;
    }
    proof {
        lemma_tool_names();
    }
    let (o, r) = match owner_repo_of(args) {
        Ok(p) => p,
        Err(e) => {
            proof {
                if which == 1 {
                    assert(n@ == "get_repo_info"@);
                } else if which == 2 {
                    assert(n@ == "get_file_tree"@);
                } else if which == 3 {
                    assert(n@ == "get_open_issues"@);
                } else if which == 4 {
                    assert(n@ == "fork_repo"@);
                } else if which == 5 {
                    assert(n@ == "check_duplicate_pr"@);
                } else {
                    assert(n@ == "check_ai_policy"@);
                }
            }
            return Some(Err(e));
        },
    };
    Some(
        Ok(
            if which == 1 {
                ToolAction::GetRepoInfo { owner: o, repo: r }
            } else if which == 2 {
                ToolAction::GetFileTree { owner: o, repo: r }
            } else if which == 3 {
                ToolAction::GetOpenIssues { owner: o, repo: r }
            } else if which == 4 {
                ToolAction::ForkRepo { owner: o, repo: r }
            } else if which == 5 {
                ToolAction::CheckDuplicatePr { owner: o, repo: r }
            } else {
                ToolAction::CheckAiPolicy { owner: o, repo: r }
            },
        ),
    )
}

/// Calls that need `owner`, `repo` and a PR number.
fn plan_pr_call(n: &[char], args: &[(String, ArgValue)]) -> (r: Option<Result<ToolAction<String>, String>>)
    ensures
        match r {
            Some(Ok(a)) => tool_plan(n@, args@) == Ok::<ToolAction<Seq<char>>, Seq<char>>(action_view(a)),
            Some(Err(e)) => tool_plan(n@, args@) == Err::<ToolAction<Seq<char>>, Seq<char>>(e@),
            None => !(n@ == "close_pr"@ || n@ == "patrol_prs"@ || n@ == "add_pr_review_comment"@
                || n@ == "dismiss_review"@ || n@ == "get_pr_reviews"@ || n@ == "get_pr_comments"@),
        },
{
    let which: u8 = if chars_eq_str(n, "close_pr") {
        1
    } else if chars_eq_str(n, "patrol_prs") {
        2
    } else if chars_eq_str(n, "add_pr_review_comment") {
        3
    } else if chars_eq_str(n, "dismiss_review") {
        4
    } else if chars_eq_str(n, "get_pr_reviews") {
        5
    } else if chars_eq_str(n, "get_pr_comments") {
        6
    } else {
        0
    };
    if which == 0 {
        return None;
    }
    proof {
        lemma_tool_names();
    }
    let (o, r) = match owner_repo_of(args) {
        Ok(p) => p,
        Err(e) => {
            proof {
                if which == 1 {
                    assert(n@ == "close_pr"@);
                } else if which == 2 {
                    assert(n@ == "patrol_prs"@);
                } else if which == 3 {
                    assert(n@ == "add_pr_review_comment"@);
                } else if which == 4 {
                    assert(n@ == "dismiss_review"@);
                } else if which == 5 {
                    assert(n@ == "get_pr_reviews"@);
                } else {
                    assert(n@ == "get_pr_comments"@);
                }
            }
            return Some(Err(e));
        },
    };
    Some(
        Ok(
            if which == 1 {
                ToolAction::ClosePr { owner: o, repo: r, pr_number: i64_or_of(args, "pr_number", 0) }
            } else if which == 2 {
                ToolAction::PatrolPrs { owner: o, repo: r, pr_number: i64_of(args, "pr_number") }
            } else if which == 3 {
                ToolAction::AddPrReviewComment {
                    owner: o,
                    repo: r,
                    pr_number: i64_or_of(args, "pr_number", 0),
                    body: text_or_of(args, "body", ""),
                }
            } else if which == 4 {
                ToolAction::DismissReview {
                    owner: o,
                    repo: r,
                    pr_number: i64_or_of(args, "pr_number", 0),
                    review_id: i64_or_of(args, "review_id", 0),
                    message: text_or_of(args, "message", ""),
                }
            } else if which == 5 {
                ToolAction::GetPrReviews { owner: o, repo: r, pr_number: i64_or_of(args, "pr_number", 0) }
            } else {
                ToolAction::GetPrComments { owner: o, repo: r, pr_number: i64_or_of(args, "pr_number", 0) }
            },
        ),
    )
}

/// Reads a tool call: which tool, with which arguments, or the error the
/// call is answered with (a missing required argument, an unknown tool).
pub fn plan_tool_call(name: &str, args: &[(String, ArgValue)]) -> (r: Result<ToolAction<String>, String>)
    ensures
        match r {
            Ok(a) => tool_plan(name@, args@) == Ok::<ToolAction<Seq<char>>, Seq<char>>(action_view(a)),
            Err(e) => tool_plan(name@, args@) == Err::<ToolAction<Seq<char>>, Seq<char>>(e@),
        },
{
    let n = chars_of(name);
    match plan_repo_call(&n, args) {
        Some(r) => return r,
        None => {},
    }
    match plan_pr_call(&n, args) {
        Some(r) => return r,
        None => {},
    }
    proof {
        lemma_tool_names();
    }
    if chars_eq_str(&n, "search_repos") {
        let limit = match u64_of(args, "limit") {
            Some(l) => l,
            None => 10,
        };
        Ok(ToolAction::SearchRepos { query: search_query_of(args), limit })
    } else if chars_eq_str(&n, "get_file_content") {
        let (o, r) = match owner_repo_of(args) {
            Ok(p) => p,
            Err(e) => return Err(e),
        };
        Ok(
            ToolAction::GetFileContent {
                owner: o,
                repo: r,
                path: text_or_of(args, "path", ""),
                git_ref: text_of(args, "ref"),
            },
        )
    } else if chars_eq_str(&n, "create_branch") {
        let r = match need_of(args, "repo") {
            Ok(r) => r,
            Err(e) => return Err(e),
        };
        Ok(
            ToolAction::CreateBranch {
                fork_owner: text_or_of(args, "fork_owner", ""),
                repo: r,
                branch_name: text_or_of(args, "branch_name", ""),
                from_branch: text_of(args, "from_branch"),
            },
        )
    } else if chars_eq_str(&n, "push_file_change") {
        let r = match need_of(args, "repo") {
            Ok(r) => r,
            Err(e) => return Err(e),
        };
        Ok(
            ToolAction::PushFileChange {
                fork_owner: text_or_of(args, "fork_owner", ""),
                repo: r,
                branch: text_or_of(args, "branch", ""),
                path: text_or_of(args, "path", ""),
                content: text_or_of(args, "content", ""),
                commit_msg: text_or_of(args, "commit_msg", ""),
                sha: text_of(args, "sha"),
            },
        )
    } else if chars_eq_str(&n, "create_pr") {
        let (o, r) = match owner_repo_of(args) {
            Ok(p) => p,
            Err(e) => return Err(e),
        };
        Ok(
            ToolAction::CreatePr {
                owner: o,
                repo: r,
                title: text_or_of(args, "title", ""),
                body: text_or_of(args, "body", ""),
                head: text_or_of(args, "head_branch", ""),
                base: text_of(args, "base_branch"),
            },
        )
    } else if chars_eq_str(&n, "get_stats") {
        Ok(ToolAction::GetStats)
    } else if chars_eq_str(&n, "cleanup_forks") {
        let dry_run = match bool_of(args, "dry_run") {
            Some(b) => b,
            None => true,
        };
        Ok(ToolAction::CleanupForks { dry_run })
    } else if chars_eq_str(&n, "sign_cla") {
        Ok(ToolAction::SignCla)
    } else if chars_eq_str(&n, "get_authenticated_user") {
        Ok(ToolAction::GetAuthenticatedUser)
    } else {
        Err(unknown_tool(name))
    }
}


/// The tool names are pairwise different: their lengths, and the equal-length
/// pairs told apart.
proof fn lemma_tool_names()
    ensures
        "search_repos"@.len() == 12,
        "get_repo_info"@.len() == 13,
        "get_file_tree"@.len() == 13,
        "get_file_content"@.len() == 16,
        "get_open_issues"@.len() == 15,
        "fork_repo"@.len() == 9,
        "create_branch"@.len() == 13,
        "push_file_change"@.len() == 16,
        "create_pr"@.len() == 9,
        "get_stats"@.len() == 9,
        "close_pr"@.len() == 8,
        "check_duplicate_pr"@.len() == 18,
        "check_ai_policy"@.len() == 15,
        "patrol_prs"@.len() == 10,
        "cleanup_forks"@.len() == 13,
        "add_pr_review_comment"@.len() == 21,
        "dismiss_review"@.len() == 14,
        "sign_cla"@.len() == 8,
        "get_pr_reviews"@.len() == 14,
        "get_pr_comments"@.len() == 15,
        "get_authenticated_user"@.len() == 22,
        "get_repo_info"@ != "get_file_tree"@,
        "get_repo_info"@ != "create_branch"@,
        "get_repo_info"@ != "cleanup_forks"@,
        "get_file_tree"@ != "create_branch"@,
        "get_file_tree"@ != "cleanup_forks"@,
        "get_file_content"@ != "push_file_change"@,
        "get_open_issues"@ != "check_ai_policy"@,
        "get_open_issues"@ != "get_pr_comments"@,
        "fork_repo"@ != "create_pr"@,
        "fork_repo"@ != "get_stats"@,
        "create_branch"@ != "cleanup_forks"@,
        "create_pr"@ != "get_stats"@,
        "close_pr"@ != "sign_cla"@,
        "check_ai_policy"@ != "get_pr_comments"@,
        "dismiss_review"@ != "get_pr_reviews"@,
{
    reveal_strlit("search_repos");
    reveal_strlit("get_repo_info");
    reveal_strlit("get_file_tree");
    reveal_strlit("get_file_content");
    reveal_strlit("get_open_issues");
    reveal_strlit("fork_repo");
    reveal_strlit("create_branch");
    reveal_strlit("push_file_change");
    reveal_strlit("create_pr");
    reveal_strlit("get_stats");
    reveal_strlit("close_pr");
    reveal_strlit("check_duplicate_pr");
    reveal_strlit("check_ai_policy");
    reveal_strlit("patrol_prs");
    reveal_strlit("cleanup_forks");
    reveal_strlit("add_pr_review_comment");
    reveal_strlit("dismiss_review");
    reveal_strlit("sign_cla");
    reveal_strlit("get_pr_reviews");
    reveal_strlit("get_pr_comments");
    reveal_strlit("get_authenticated_user");
    assert("get_authenticated_user"@.len() == 22);
    assert("get_pr_comments"@.len() == 15);
    assert("get_pr_reviews"@.len() == 14);
    assert("sign_cla"@.len() == 8);
    assert("dismiss_review"@.len() == 14);
    assert("add_pr_review_comment"@.len() == 21);
    assert("cleanup_forks"@.len() == 13);
    assert("patrol_prs"@.len() == 10);
    assert("check_ai_policy"@.len() == 15);
    assert("check_duplicate_pr"@.len() == 18);
    assert("close_pr"@.len() == 8);
    assert("get_stats"@.len() == 9);
    assert("create_pr"@.len() == 9);
    assert("push_file_change"@.len() == 16);
    assert("create_branch"@.len() == 13);
    assert("fork_repo"@.len() == 9);
    assert("get_open_issues"@.len() == 15);
    assert("get_file_content"@.len() == 16);
    assert("get_file_tree"@.len() == 13);
    assert("get_repo_info"@.len() == 13);
    assert("search_repos"@.len() == 12);
    assert("get_repo_info"@[4] != "get_file_tree"@[4]);
    assert("get_repo_info"@[0] != "create_branch"@[0]);
    assert("get_repo_info"@[0] != "cleanup_forks"@[0]);
    assert("get_file_tree"@[0] != "create_branch"@[0]);
    assert("get_file_tree"@[0] != "cleanup_forks"@[0]);
    assert("get_file_content"@[0] != "push_file_change"@[0]);
    assert("get_open_issues"@[0] != "check_ai_policy"@[0]);
    assert("get_open_issues"@[4] != "get_pr_comments"@[4]);
    assert("fork_repo"@[0] != "create_pr"@[0]);
    assert("fork_repo"@[0] != "get_stats"@[0]);
    assert("create_branch"@[1] != "cleanup_forks"@[1]);
    assert("create_pr"@[0] != "get_stats"@[0]);
    assert("close_pr"@[0] != "sign_cla"@[0]);
    assert("check_ai_policy"@[0] != "get_pr_comments"@[0]);
    assert("dismiss_review"@[0] != "get_pr_reviews"@[0]);
}


// ── Routing ──────────────────────────────────────────────────────────────────

/// Where a JSON-RPC method goes.
#[derive(Debug, Clone, Copy, PartialEq, Eq, Structural)]
pub enum RpcRoute {
    Initialize,
    ToolsList,
    ToolsCall,
    /// A notification or ping: nothing is sent back.
    NoReply,
    /// Answered with `METHOD_NOT_FOUND`.
    NotFound,
}

/// The JSON-RPC error code for an unknown method.
pub const METHOD_NOT_FOUND: i64 = -32601;

pub open spec fn route_of(method: Seq<char>) -> RpcRoute {
    if method == "initialize"@ {
        RpcRoute::Initialize
    } else if method == "tools/list"@ {
        RpcRoute::ToolsList
    } else if method == "tools/call"@ {
        RpcRoute::ToolsCall
    } else if method == "notifications/initialized"@ || method == "ping"@ {
        RpcRoute::NoReply
    } else {
        RpcRoute::NotFound
    }
}

/// Route a JSON-RPC method.
pub fn rpc_route(method: &str) -> (r: RpcRoute)
    ensures
        r == route_of(method@),
{
    let m = chars_of(method);
    if chars_eq_str(&m, "initialize") {
        RpcRoute::Initialize
    } else if chars_eq_str(&m, "tools/list") {
        RpcRoute::ToolsList
    } else if chars_eq_str(&m, "tools/call") {
        RpcRoute::ToolsCall
    } else if chars_eq_str(&m, "notifications/initialized") || chars_eq_str(&m, "ping") {
        RpcRoute::NoReply
    } else {
        RpcRoute::NotFound
    }
}

/// The message of the error for an unknown method.
pub fn method_not_found_message(method: &str) -> (r: String)
    ensures
        r@ == "Method not found: "@ + method@,
{
    let mut e = chars_of("Method not found: ");
    append_str(&mut e, method);
    string_from_chars(&e)
}

// ── Tool helpers ─────────────────────────────────────────────────────────────

/// `owner/repo`.
pub open spec fn full_repo(owner: Seq<char>, repo: Seq<char>) -> Seq<char> {
    owner + "/"@ + repo
}

fn full_repo_of(owner: &str, repo: &str) -> (r: Vec<char>)
    ensures
        r@ == full_repo(owner@, repo@),
{
    let mut f = chars_of(owner);
    append_str(&mut f, "/");
    append_str(&mut f, repo);
    f
}

/// Index of the first record of a PR to `owner/repo`.
pub open spec fn first_pr_to(prs: Seq<PrRecord>, full: Seq<char>) -> Option<int>
    decreases prs.len(),
{
    if prs.len() == 0 {
        None
    } else {
        match first_pr_to(prs.drop_last(), full) {
            Some(i) => Some(i),
            None => if prs.last().repo@ == full {
                Some(prs.len() - 1)
            } else {
                None
            },
        }
    }
}

/// The first open PR already submitted to `owner/repo`, by index, when
/// there is one.
pub fn find_duplicate_pr(open_prs: &[PrRecord], owner: &str, repo: &str) -> (r: Option<usize>)
    ensures
        match r {
            Some(i) => first_pr_to(open_prs@, full_repo(owner@, repo@)) == Some(i as int),
            None => first_pr_to(open_prs@, full_repo(owner@, repo@)) is None,
        },
{
    let full = full_repo_of(owner, repo);
    let mut k: usize = 0;
    while k < open_prs.len()
        invariant
            k <= open_prs@.len(),
            full@ == full_repo(owner@, repo@),
            first_pr_to(open_prs@.take(k as int), full@) is None,
        decreases open_prs.len() - k,
    {
        proof {
            assert(open_prs@.take(k + 1).drop_last() =~= open_prs@.take(k as int));
        }
        if chars_eq(chars_of(open_prs[k].repo.as_str()).as_slice(), &full) {
            proof {
                lemma_first_pr_prefix(open_prs@, full@, k as int + 1);
            }
            return Some(k);
        }
        k = k + 1;
    }
    proof {
        assert(open_prs@.take(k as int) =~= open_prs@);
    }
    None
}

proof fn lemma_first_pr_prefix(prs: Seq<PrRecord>, full: Seq<char>, k: int)
    requires
        0 <= k <= prs.len(),
        first_pr_to(prs.take(k), full) is Some,
    ensures
        first_pr_to(prs, full) == first_pr_to(prs.take(k), full),
    decreases prs.len() - k,
{
    if k < prs.len() {
        assert(prs.take(k + 1).drop_last() =~= prs.take(k));
        lemma_first_pr_prefix(prs, full, k + 1);
    } else {
        assert(prs.take(k) =~= prs);
    }
}

/// The PR numbers to patrol: the one asked for, else those of the open PRs
/// to `owner/repo`, in order.
pub open spec fn patrol_numbers(single: Option<i64>, prs: Seq<PrRecord>, full: Seq<char>) -> Seq<i64>
    decreases prs.len(),
{
    match single {
        Some(n) => seq![n],
        None => if prs.len() == 0 {
            seq![]
        } else if prs.last().repo@ == full {
            patrol_numbers(None, prs.drop_last(), full).push(prs.last().pr_number)
        } else {
            patrol_numbers(None, prs.drop_last(), full)
        },
    }
}

pub fn patrol_pr_numbers(single: Option<i64>, open_prs: &[PrRecord], owner: &str, repo: &str) -> (r:
    Vec<i64>)
    ensures
        r@ == patrol_numbers(single, open_prs@, full_repo(owner@, repo@)),
{
    if let Some(n) = single {
        let mut v: Vec<i64> = Vec::new();
        v.push(n);
        proof {
            assert(v@ =~= seq![n]);
        }
        return v;
    }
    let full = full_repo_of(owner, repo);
    let mut out: Vec<i64> = Vec::new();
    let mut k: usize = 0;
    while k < open_prs.len()
        invariant
            k <= open_prs@.len(),
            single is None,
            full@ == full_repo(owner@, repo@),
            out@ == patrol_numbers(None, open_prs@.take(k as int), full@),
        decreases open_prs.len() - k,
    {
        proof {
            assert(open_prs@.take(k + 1).drop_last() =~= open_prs@.take(k as int));
        }
        if chars_eq(chars_of(open_prs[k].repo.as_str()).as_slice(), &full) {
            out.push(open_prs[k].pr_number);
        }
        k = k + 1;
    }
    proof {
        assert(open_prs@.take(k as int) =~= open_prs@);
    }
    out
}

/// A fork is stale when the history has PRs from it and none is still open.
pub open spec fn fork_is_stale(fork: Seq<char>, prs: Seq<PrRecord>) -> bool {
    (exists|i: int| 0 <= i < prs.len() && #[trigger] prs[i].fork@ == fork) && !(exists|i: int|
        0 <= i < prs.len() && #[trigger] prs[i].fork@ == fork && prs[i].status@ == "open"@)
}

/// Stale forks to delete and forks to keep, in order; nameless forks are
/// skipped.
pub open spec fn fork_plan(forks: Seq<Seq<char>>, prs: Seq<PrRecord>) -> (Seq<Seq<char>>, Seq<Seq<char>>)
    decreases forks.len(),
{
    if forks.len() == 0 {
        (seq![], seq![])
    } else {
        let (d, k) = fork_plan(forks.drop_last(), prs);
        let f = forks.last();
        if f.len() == 0 {
            (d, k)
        } else if fork_is_stale(f, prs) {
            (d.push(f), k)
        } else {
            (d, k.push(f))
        }
    }
}

fn fork_state(fork: &Vec<char>, prs: &[PrRecord]) -> (r: bool)
    ensures
        r == fork_is_stale(fork@, prs@),
{
    let mut any = false;
    let mut open = false;
    let mut k: usize = 0;
    while k < prs.len()
        invariant
            k <= prs@.len(),
            any == exists|i: int| 0 <= i < k && #[trigger] prs@[i].fork@ == fork@,
            open == exists|i: int| 0 <= i < k && #[trigger] prs@[i].fork@ == fork@ && prs@[i].status@
                == "open"@,
        decreases prs.len() - k,
    {
        if chars_eq(chars_of(prs[k].fork.as_str()).as_slice(), fork) {
            any = true;
            if chars_eq_str(chars_of(prs[k].status.as_str()).as_slice(), "open") {
                open = true;
            }
        }
        k = k + 1;
    }
    any && !open
}

/// Which forks `cleanup_forks` deletes (the first list) and keeps.
pub fn fork_cleanup_plan(forks: &[String], prs: &[PrRecord]) -> (r: (Vec<String>, Vec<String>))
    ensures
        (string_views(r.0@), string_views(r.1@)) == fork_plan(string_views(forks@), prs@),
{
    let ghost fv = string_views(forks@);
    let mut del: Vec<String> = Vec::new();
    let mut keep: Vec<String> = Vec::new();
    let mut k: usize = 0;
    proof {
        assert(fv.take(0) =~= seq![]);
        assert(string_views(del@) =~= seq![]);
        assert(string_views(keep@) =~= seq![]);
    }
    while k < forks.len()
        invariant
            k <= forks@.len(),
            fv == string_views(forks@),
            (string_views(del@), string_views(keep@)) == fork_plan(fv.take(k as int), prs@),
        decreases forks.len() - k,
    {
        proof {
            assert(fv.take(k + 1).drop_last() =~= fv.take(k as int));
            assert(fv.take(k + 1).last() == forks@[k as int]@);
        }
        let f = chars_of(forks[k].as_str());
        if f.len() > 0 {
            let name = forks[k].clone();
            if fork_state(&f, prs) {
                proof {
                    assert(string_views(del@.push(name)) =~= string_views(del@).push(name@));
                }
                del.push(name);
            } else {
                proof {
                    assert(string_views(keep@.push(name)) =~= string_views(keep@).push(name@));
                }
                keep.push(name);
            }
        }
        k = k + 1;
    }
    proof {
        assert(fv.take(k as int) =~= fv);
    }
    (del, keep)
}

/// Phrases that show a repository refuses AI-made contributions.
pub open spec fn ai_ban_keywords() -> Seq<Seq<char>> {
    seq![
        "no ai"@,
        "no-ai"@,
        "not accept ai"@,
        "prohibit ai"@,
        "ban ai"@,
        "ai generated"@,
        "ai-generated"@,
        "no llm"@,
        "human only"@,
        "no bot"@,
        "no automated"@,
        "ai contributions will be rejected"@,
    ]
}

fn ai_ban_keyword(i: usize) -> (r: &'static str)
    requires
        i < 12,
    ensures
        r@ == ai_ban_keywords()[i as int],
{
    match i {
        0 => "no ai",
        1 => "no-ai",
        2 => "not accept ai",
        3 => "prohibit ai",
        4 => "ban ai",
        5 => "ai generated",
        6 => "ai-generated",
        7 => "no llm",
        8 => "human only",
        9 => "no bot",
        10 => "no automated",
        _ => "ai contributions will be rejected",
    }
}

/// The lowercased policy text holds one of the ban phrases.
pub open spec fn bans_ai(content: Seq<char>) -> bool {
    exists|i: int| 0 <= i < 12 && contains(lowercase(content), #[trigger] ai_ban_keywords()[i])
}

/// Whether a policy file bans AI contributions.
pub fn ai_policy_bans(content: &str) -> (r: bool)
    ensures
        r == bans_ai(content@),
{
    let lower = lowercase_chars(content);
    let mut k: usize = 0;
    while k < 12
        invariant
            k <= 12,
            lower@ == lowercase(content@),
            forall|i: int| 0 <= i < k ==> !contains(lower@, #[trigger] ai_ban_keywords()[i]),
        decreases 12 - k,
    {
        if contains_str(&lower, ai_ban_keyword(k)) {
            return true;
        }
        k = k + 1;
    }
    false
}

/// The files checked for an AI policy, in order.
pub fn ai_policy_paths() -> (r: Vec<&'static str>)
    ensures
        r@.map_values(|s: &str| s@) == seq![
            "CONTRIBUTING.md"@,
            ".github/CONTRIBUTING.md"@,
            "README.md"@,
            "AI_POLICY.md"@,
            ".github/AI_POLICY.md"@,
        ],
{
    let v = vec!["CONTRIBUTING.md", ".github/CONTRIBUTING.md", "README.md", "AI_POLICY.md", ".github/AI_POLICY.md"];
    proof {
        assert(v@.map_values(|s: &str| s@) =~= seq![
            "CONTRIBUTING.md"@,
            ".github/CONTRIBUTING.md"@,
            "README.md"@,
            "AI_POLICY.md"@,
            ".github/AI_POLICY.md"@,
        ]);
    }
    v
}

/// A failed policy-file fetch that only means the file is absent, so the
/// next file is tried; any other failure ends the check.
pub fn policy_fetch_missing(error_message: &str) -> (r: bool)
    ensures
        r == (contains(error_message@, "Not found"@) || contains(error_message@, "404"@)),
{
    let m = chars_of(error_message);
    contains_str(&m, "Not found") || contains_str(&m, "404")
}

/// `owner` and `repo` of an `owner/repo` fork name, split at the first `/`.
pub open spec fn fork_parts(name: Seq<char>) -> Option<(Seq<char>, Seq<char>)> {
    if exists|i: int| 0 <= i < name.len() && name[i] == '/' {
        let i = choose|i: int|
            0 <= i < name.len() && name[i] == '/' && forall|j: int| 0 <= j < i ==> name[j] != '/';
        Some((name.take(i), name.skip(i + 1)))
    } else {
        None
    }
}

pub fn split_fork_name(name: &str) -> (r: Option<(String, String)>)
    ensures
        match r {
            Some((o, p)) => fork_parts(name@) == Some((o@, p@)),
            None => fork_parts(name@) is None,
        },
{
    let c = chars_of(name);
    let mut k: usize = 0;
    while k < c.len()
        invariant
            k <= c@.len(),
            c@ == name@,
            forall|j: int| 0 <= j < k ==> c@[j] != '/',
        decreases c.len() - k,
    {
        if c[k] == '/' {
            let o = crate::text::slice_to_vec(&c, 0, k);
            let p = crate::text::slice_to_vec(&c, k + 1, c.len());
            proof {
                let i = choose|i: int|
                    0 <= i < name@.len() && name@[i] == '/' && forall|j: int| 0 <= j < i ==> name@[j] != '/';
                assert(i == k) by {
                    if i < k {
                        assert(c@[i] != '/');
                    } else if i > k {
                        assert(name@[k as int] == '/');
                    }
                }
                assert(o@ =~= name@.take(k as int));
                assert(p@ =~= name@.skip(k + 1));
            }
            return Some((string_from_chars(&o), string_from_chars(&p)));
        }
        k = k + 1;
    }
    None
}

} // verus!
