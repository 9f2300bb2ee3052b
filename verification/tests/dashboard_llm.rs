use contribai::llm::provider::{
    anthropic_chat_messages, api_failure_message, gemini_role, openai_style_messages, ChatMessage,
    ProviderKind,
};
use contribai::orchestrator::memory::PrRecord;
use contribai::web::{repo_rankings, stats_from_prs};

fn roles(ms: &[ChatMessage]) -> Vec<(String, String)> {
    ms.iter().map(|m| (m.role.clone(), m.content.clone())).collect()
}

#[test]
fn openai_messages_prepend_system_once() {
    let ms = vec![ChatMessage::user("hi"), ChatMessage::assistant("yo")];
    let out = openai_style_messages(&ms, Some("be brief"));
    assert_eq!(
        roles(&out),
        vec![
            ("system".to_string(), "be brief".to_string()),
            ("user".to_string(), "hi".to_string()),
            ("assistant".to_string(), "yo".to_string())
        ]
    );
    let with_sys = vec![ChatMessage::system("s"), ChatMessage::user("hi")];
    assert_eq!(openai_style_messages(&with_sys, Some("other")).len(), 2);
    assert_eq!(openai_style_messages(&ms, None).len(), 2);
}

#[test]
fn anthropic_messages_drop_system() {
    let ms = vec![ChatMessage::system("s"), ChatMessage::user("hi"), ChatMessage::assistant("a")];
    let out = anthropic_chat_messages(&ms);
    assert_eq!(roles(&out), vec![("user".to_string(), "hi".to_string()), ("assistant".to_string(), "a".to_string())]);
    assert_eq!(gemini_role("assistant"), "model");
    assert_eq!(gemini_role("system"), "user");
}

#[test]
fn api_failures_reported() {
    assert_eq!(api_failure_message(ProviderKind::Gemini, 200, "200 OK", None), None);
    assert_eq!(
        api_failure_message(ProviderKind::Gemini, 429, "429 Too Many Requests", Some("slow down")).unwrap(),
        "Gemini rate limit: slow down"
    );
    assert_eq!(
        api_failure_message(ProviderKind::OpenAI, 401, "401 Unauthorized", None).unwrap(),
        "OpenAI error 401 Unauthorized: Unknown error"
    );
    assert_eq!(
        api_failure_message(ProviderKind::Gemini, 500, "500 Internal Server Error", Some("boom")).unwrap(),
        "Gemini API error 500 Internal Server Error: boom"
    );
}

fn rec(repo: &str, status: &str) -> PrRecord {
    PrRecord {
        repo: repo.into(),
        pr_number: 1,
        pr_url: String::new(),
        title: String::new(),
        pr_type: String::new(),
        status: status.into(),
        branch: String::new(),
        fork: String::new(),
        created_at: String::new(),
    }
}

#[test]
fn dashboard_stats_and_rankings() {
    let prs = vec![
        rec("a/a", "merged"),
        rec("b/b", "open"),
        rec("b/b", "ci_passed"),
        rec("c/c", "closed"),
        rec("b/b", "merged"),
        rec("c/c", "open"),
    ];
    let s = stats_from_prs(&prs);
    assert_eq!((s.total_prs, s.total_repos, s.merged_prs, s.open_prs, s.ci_passed), (6, 3, 2, 3, 1));
    let r = repo_rankings(&prs, 10);
    assert_eq!(r, vec![("b/b".to_string(), 3), ("c/c".to_string(), 2), ("a/a".to_string(), 1)]);
    let r2 = repo_rankings(&prs, 2);
    assert_eq!(r2.len(), 2);
    let tie = vec![rec("x/x", "open"), rec("y/y", "open")];
    assert_eq!(repo_rankings(&tie, 5), vec![("x/x".to_string(), 1), ("y/y".to_string(), 1)]);
}
