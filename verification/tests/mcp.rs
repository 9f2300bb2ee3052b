use contribai::mcp::client::{McpContent, McpToolResult, StdioMcpClient};
use contribai::mcp::server::{
    ai_policy_bans, ai_policy_paths, find_duplicate_pr, fork_cleanup_plan, method_not_found_message,
    patrol_pr_numbers, plan_tool_call, policy_fetch_missing, rpc_route, split_fork_name,
    tool_definitions, ArgValue, ParamDefault, ParamType, RpcRoute, ToolAction, METHOD_NOT_FOUND,
};
use contribai::orchestrator::memory::PrRecord;

fn content(kind: &str, text: Option<&str>) -> McpContent {
    McpContent { kind: Some(kind.to_string()), text: text.map(|t| t.to_string()) }
}

#[test]
fn test_mcp_tool_result_text_extraction() {
    let result = McpToolResult {
        content: vec![
            content("text", Some("hello")),
            McpContent { kind: Some("image".into()), text: None },
            content("text", Some("world")),
        ],
        is_error: false,
    };
    assert_eq!(result.text(), "hello\nworld");
}

#[test]
fn test_mcp_tool_result_empty() {
    let result = McpToolResult { content: vec![], is_error: false };
    assert_eq!(result.text(), "");
}

#[test]
fn test_stdio_client_creation() {
    let client = StdioMcpClient::new(&["python", "-m", "some_server"]);
    assert_eq!(client.cmd, vec!["python", "-m", "some_server"]);
    assert_eq!(client.request_id, 0);
}

#[test]
fn test_client_with_timeout() {
    let client = StdioMcpClient::new(&["echo"]).with_timeout(10_000);
    assert_eq!(client.timeout_ms, 10_000);
}

#[test]
fn test_client_with_env() {
    let client = StdioMcpClient::new(&["echo"]).with_env(vec![("KEY".into(), "val".into())]);
    assert_eq!(client.env.len(), 1);
}

#[test]
fn client_program_and_request_ids() {
    let mut client = StdioMcpClient::new(&["python", "-m", "srv"]);
    let (p, args) = client.program().unwrap();
    assert_eq!(p, "python");
    assert_eq!(args, vec!["-m", "srv"]);
    assert_eq!(StdioMcpClient::new(&[]).program().unwrap_err(), "Empty command");
    assert_eq!(client.next_request_id(), 1);
    assert_eq!(client.next_request_id(), 2);
    client.request_id = u64::MAX;
    assert_eq!(client.next_request_id(), 0);
}

#[test]
fn test_tool_definitions_complete() {
    let tools = tool_definitions();
    assert_eq!(tools.len(), 21, "Expected 21 tools, got {}", tools.len());
    let names: Vec<&str> = tools.iter().map(|t| t.name.as_str()).collect();
    for n in [
        "search_repos", "get_repo_info", "get_file_tree", "get_file_content", "get_open_issues",
        "fork_repo", "create_branch", "push_file_change", "create_pr", "get_stats", "close_pr",
        "check_duplicate_pr", "check_ai_policy", "patrol_prs", "cleanup_forks",
        "add_pr_review_comment", "dismiss_review", "sign_cla", "get_pr_reviews", "get_pr_comments",
        "get_authenticated_user",
    ] {
        assert!(names.contains(&n), "missing {}", n);
    }
}

#[test]
fn tool_schema_details() {
    let tools = tool_definitions();
    let search = &tools[0];
    assert_eq!(search.required, vec!["language"]);
    assert_eq!(search.params[1].name, "stars_min");
    assert_eq!(search.params[1].kind, ParamType::Integer);
    assert_eq!(search.params[1].default, Some(ParamDefault::Integer(50)));
    let cleanup = tools.iter().find(|t| t.name == "cleanup_forks").unwrap();
    assert!(cleanup.required.is_empty());
    assert_eq!(cleanup.params[0].default, Some(ParamDefault::Boolean(true)));
    assert_eq!(ParamType::Boolean.schema_name(), "boolean");
}

fn text(k: &str, v: &str) -> (String, ArgValue) {
    (k.to_string(), ArgValue::Text(v.to_string()))
}

#[test]
fn plan_search_with_defaults_and_values() {
    match plan_tool_call("search_repos", &[]).unwrap() {
        ToolAction::SearchRepos { query, limit } => {
            assert_eq!(query, "language:python stars:50..10000 sort:updated");
            assert_eq!(limit, 10);
        }
        _ => panic!("wrong action"),
    }
    let args = vec![
        text("language", "rust"),
        ("stars_min".to_string(), ArgValue::Int(-5)),
        ("limit".to_string(), ArgValue::Int(3)),
    ];
    match plan_tool_call("search_repos", &args).unwrap() {
        ToolAction::SearchRepos { query, limit } => {
            assert_eq!(query, "language:rust stars:-5..10000 sort:updated");
            assert_eq!(limit, 3);
        }
        _ => panic!("wrong action"),
    }
}

#[test]
fn plan_requires_owner_then_repo() {
    let e = plan_tool_call("get_repo_info", &[]).unwrap_err();
    assert_eq!(e, "'owner' is required and must be non-empty");
    let e = plan_tool_call("get_repo_info", &[text("owner", "o"), text("repo", "")]).unwrap_err();
    assert_eq!(e, "'repo' is required and must be non-empty");
    match plan_tool_call("get_repo_info", &[text("owner", "o"), text("repo", "r")]).unwrap() {
        ToolAction::GetRepoInfo { owner, repo } => {
            assert_eq!(owner, "o");
            assert_eq!(repo, "r");
        }
        _ => panic!("wrong action"),
    }
}

#[test]
fn plan_other_tools() {
    assert_eq!(plan_tool_call("nope", &[]).unwrap_err(), "Unknown tool: nope");
    assert!(matches!(plan_tool_call("sign_cla", &[]).unwrap(), ToolAction::SignCla));
    assert!(matches!(
        plan_tool_call("cleanup_forks", &[]).unwrap(),
        ToolAction::CleanupForks { dry_run: true }
    ));
    let args = vec![text("owner", "o"), text("repo", "r"), ("pr_number".to_string(), ArgValue::Int(7))];
    assert!(matches!(
        plan_tool_call("patrol_prs", &args).unwrap(),
        ToolAction::PatrolPrs { pr_number: Some(7), .. }
    ));
    assert!(matches!(
        plan_tool_call("close_pr", &[text("owner", "o"), text("repo", "r")]).unwrap(),
        ToolAction::ClosePr { pr_number: 0, .. }
    ));
    // create_branch only requires the repo
    match plan_tool_call("create_branch", &[text("repo", "r")]).unwrap() {
        ToolAction::CreateBranch { fork_owner, branch_name, from_branch, .. } => {
            assert_eq!(fork_owner, "");
            assert_eq!(branch_name, "");
            assert_eq!(from_branch, None);
        }
        _ => panic!("wrong action"),
    }
}

#[test]
fn rpc_routing() {
    assert_eq!(rpc_route("initialize"), RpcRoute::Initialize);
    assert_eq!(rpc_route("tools/list"), RpcRoute::ToolsList);
    assert_eq!(rpc_route("tools/call"), RpcRoute::ToolsCall);
    assert_eq!(rpc_route("ping"), RpcRoute::NoReply);
    assert_eq!(rpc_route("foo"), RpcRoute::NotFound);
    assert_eq!(METHOD_NOT_FOUND, -32601);
    assert_eq!(method_not_found_message("foo"), "Method not found: foo");
}

fn record(repo: &str, n: i64, status: &str, fork: &str) -> PrRecord {
    PrRecord {
        repo: repo.into(),
        pr_number: n,
        pr_url: format!("https://github.com/{}/pull/{}", repo, n),
        title: "t".into(),
        pr_type: "security_fix".into(),
        status: status.into(),
        branch: "b".into(),
        fork: fork.into(),
        created_at: String::new(),
    }
}

#[test]
fn duplicate_and_patrol_numbers() {
    let prs = vec![record("a/x", 1, "open", "me/x"), record("o/r", 2, "open", "me/r"), record("o/r", 3, "open", "me/r")];
    assert_eq!(find_duplicate_pr(&prs, "o", "r"), Some(1));
    assert_eq!(find_duplicate_pr(&prs, "o", "z"), None);
    assert_eq!(patrol_pr_numbers(None, &prs, "o", "r"), vec![2, 3]);
    assert_eq!(patrol_pr_numbers(Some(9), &prs, "o", "r"), vec![9]);
}

#[test]
fn fork_cleanup_decisions() {
    let prs = vec![record("a/x", 1, "merged", "me/x"), record("o/r", 2, "open", "me/r"), record("o/r", 3, "closed", "me/r")];
    let forks = vec!["me/x".to_string(), "me/r".to_string(), "me/unknown".to_string(), String::new()];
    let (del, keep) = fork_cleanup_plan(&forks, &prs);
    assert_eq!(del, vec!["me/x"]);
    assert_eq!(keep, vec!["me/r", "me/unknown"]);
    assert_eq!(split_fork_name("me/x/y"), Some(("me".to_string(), "x/y".to_string())));
    assert_eq!(split_fork_name("nofork"), None);
}

#[test]
fn ai_policy_checks() {
    assert!(ai_policy_bans("We do NOT accept AI generated code. No-AI please."));
    assert!(ai_policy_bans("Human only contributions"));
    assert!(!ai_policy_bans("Contributions welcome"));
    assert_eq!(ai_policy_paths()[0], "CONTRIBUTING.md");
    assert!(policy_fetch_missing("GitHub API error: 404 Not Found"));
    assert!(!policy_fetch_missing("rate limited"));
}
